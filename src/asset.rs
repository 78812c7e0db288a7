//! The store of loaded assets of one kind. An asset is filed under the
//! stem of its path: the last `/`-separated segment, cut at its first `.`.
//! Loading itself (reading the file) is done by the caller, which hands the
//! resulting handle in.
use vstd::prelude::*;
use vstd::string::StrSliceExecFns;

use crate::asset_loader_errors::AssetLoaderError;

verus! {

/// Where the last segment of `s` starts: just after its last `/`.
pub open spec fn segment_start(s: Seq<char>) -> int
    decreases s.len(),
{
    if s.len() == 0 {
        0
    } else if s.last() == '/' {
        s.len() as int
    } else {
        segment_start(s.drop_last())
    }
}

/// The position of the first `.` of `s` at or after `from`, or the end.
pub open spec fn dot_or_end(s: Seq<char>, from: int) -> int
    decreases s.len() - from,
{
    if from >= s.len() {
        s.len() as int
    } else if s[from] == '.' {
        from
    } else {
        dot_or_end(s, from + 1)
    }
}

/// The name an asset loaded from `path` is filed under.
pub open spec fn file_stem_of(path: Seq<char>) -> Seq<char> {
    let b = segment_start(path);
    path.subrange(b, dot_or_end(path, b))
}

proof fn lemma_segment_start_bounds(s: Seq<char>)
    ensures
        0 <= segment_start(s) <= s.len(),
    decreases s.len(),
{
    if s.len() > 0 {
        lemma_segment_start_bounds(s.drop_last());
    }
}

proof fn lemma_dot_or_end_bounds(s: Seq<char>, from: int)
    requires
        0 <= from <= s.len(),
    ensures
        from <= dot_or_end(s, from) <= s.len(),
    decreases s.len() - from,
{
    if from < s.len() && s[from] != '.' {
        lemma_dot_or_end_bounds(s, from + 1);
    }
}

fn first_dot_from(path: &str, from: usize, n: usize) -> (r: usize)
    requires
        n == path@.len(),
        from <= n,
    ensures
        r == dot_or_end(path@, from as int),
{
    let mut e: usize = from;
    while e < n
        invariant
            n == path@.len(),
            from <= e <= n,
            dot_or_end(path@, from as int) == dot_or_end(path@, e as int),
        decreases n - e,
    {
        if path.get_char(e) == '.' {
            return e;
        }
        e = e + 1;
    }
    e
}

/// The name an asset loaded from `path` is filed under.
pub fn file_stem(path: &str) -> (r: String)
    ensures
        r@ == file_stem_of(path@),
{
    let n = path.unicode_len();
    let mut b: usize = 0;
    let mut i: usize = 0;
    while i < n
        invariant
            n == path@.len(),
            i <= n,
            b == segment_start(path@.subrange(0, i as int)),
        decreases n - i,
    {
        assert(path@.subrange(0, i + 1).drop_last() == path@.subrange(0, i as int));
        if path.get_char(i) == '/' {
            b = i + 1;
        }
        i = i + 1;
    }
    assert(path@.subrange(0, n as int) == path@);
    proof {
        lemma_segment_start_bounds(path@);
    }
    let e = first_dot_from(path, b, n);
    proof {
        lemma_dot_or_end_bounds(path@, b as int);
    }
    path.substring_char(b, e).to_owned()
}

/// Some entry of `s` is named `name`.
pub open spec fn has_name<H>(s: Seq<(Seq<char>, H)>, name: Seq<char>) -> bool {
    exists|i: int| 0 <= i < s.len() && s[i].0 == name
}

/// No two entries share a name.
pub open spec fn names_unique<H>(s: Seq<(Seq<char>, H)>) -> bool {
    forall|i: int, j: int| 0 <= i < j < s.len() ==> s[i].0 != s[j].0
}

/// After a load from `path` succeeds, a second load from `path` finds the
/// name taken, so it fails with `AlreadyLoaded` and changes nothing.
pub proof fn lemma_reload_is_rejected<H>(before: Seq<(Seq<char>, H)>, path: Seq<char>, data: H)
    ensures
        has_name(before.push((file_stem_of(path), data)), file_stem_of(path)),
{
    let after = before.push((file_stem_of(path), data));
    assert(after[before.len() as int].0 == file_stem_of(path));
}

#[derive(Debug)]
pub struct Asset<H> {
    loaded_data: Vec<(String, H)>,
}

impl<H> View for Asset<H> {
    type V = Seq<(Seq<char>, H)>;

    closed spec fn view(&self) -> Seq<(Seq<char>, H)> {
        self.loaded_data@.map_values(|p: (String, H)| (p.0@, p.1))
    }
}

impl<H> Asset<H> {
    /// A store with nothing loaded.
    pub fn new() -> (r: Self)
        ensures
            r@ == Seq::<(Seq<char>, H)>::empty(),
    {
        let r = Asset { loaded_data: Vec::new() };
        assert(r@ =~= Seq::<(Seq<char>, H)>::empty());
        r
    }

    fn position(&self, name: &str) -> (r: Option<usize>)
        requires
            names_unique(self@),
        ensures
            match r {
                Some(i) => i < self@.len() && self@[i as int].0 == name@,
                None => !has_name(self@, name@),
            },
    {
        let wanted = name.to_owned();
        let mut i: usize = 0;
        while i < self.loaded_data.len()
            invariant
                i <= self@.len(),
                self@.len() == self.loaded_data@.len(),
                wanted@ == name@,
                forall|j: int| 0 <= j < i ==> self@[j].0 != name@,
            decreases self@.len() - i,
        {
            if self.loaded_data[i].0 == wanted {
                return Some(i);
            }
            i = i + 1;
        }
        None
    }

    /// Whether an entry is named `name`.
    pub fn is_loaded(&self, name: &str) -> (r: bool)
        requires
            names_unique(self@),
        ensures
            r == has_name(self@, name@),
    {
        self.position(name).is_some()
    }

    /// Files `data`, loaded from `path`, under the stem of `path`. Fails
    /// with `AlreadyLoaded(path)`, leaving the store as it was, when an
    /// entry of that name exists.
    pub fn load(&mut self, path: &str, data: H) -> (r: Result<(), AssetLoaderError>)
        requires
            names_unique(old(self)@),
        ensures
            names_unique(final(self)@),
            r is Err <==> has_name(old(self)@, file_stem_of(path@)),
            r is Err ==> final(self)@ == old(self)@ && (r->Err_0 matches AssetLoaderError::AlreadyLoaded(p)
                && p@ == path@),
            r is Ok ==> final(self)@ == old(self)@.push((file_stem_of(path@), data)),
    {
        let name = file_stem(path);
        if self.position(name.as_str()).is_some() {
            return Err(AssetLoaderError::new_already_loaded(path));
        }
        self.loaded_data.push((name, data));
        assert(self@ =~= old(self)@.push((file_stem_of(path@), data)));
        Ok(())
    }

    /// The handle filed under `name`.
    pub fn get(&self, name: &str) -> (r: Result<&H, AssetLoaderError>)
        requires
            names_unique(self@),
        ensures
            match r {
                Ok(h) => exists|i: int| 0 <= i < self@.len() && self@[i].0 == name@ && self@[i].1 == *h,
                Err(e) => !has_name(self@, name@) && (e matches AssetLoaderError::NotLoaded(p) && p@ == name@),
            },
    {
        match self.position(name) {
            Some(i) => Ok(&self.loaded_data[i].1),
            None => Err(AssetLoaderError::new_not_loaded(name)),
        }
    }

    /// Drops the entry named `name`.
    pub fn remove(&mut self, name: &str) -> (r: Result<(), AssetLoaderError>)
        requires
            names_unique(old(self)@),
        ensures
            names_unique(final(self)@),
            r is Err <==> !has_name(old(self)@, name@),
            r is Err ==> final(self)@ == old(self)@ && (r->Err_0 matches AssetLoaderError::NotFounded(p)
                && p@ == name@),
            r is Ok ==> exists|i: int|
                0 <= i < old(self)@.len() && old(self)@[i].0 == name@ && final(self)@ == old(self)@.remove(i),
    {
        match self.position(name) {
            Some(i) => {
                self.loaded_data.remove(i);
                assert(self@ =~= old(self)@.remove(i as int));
                Ok(())
            },
            None => Err(AssetLoaderError::new_not_founded(name)),
        }
    }
}

} // verus!
