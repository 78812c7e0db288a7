//! Query shapes: a list of per-slot requests, each naming a component kind
//! and an access mode, and the rule by which an entity matches one.
use vstd::prelude::*;

use crate::cell::Access;
use crate::entity::{compatible, Components, EntityStorage};
use crate::{EntityId, TypeKey};

verus! {

broadcast use vstd::std_specs::hash::group_hash_axioms;

/// One slot of a query shape.
#[derive(Debug, Clone, Copy, PartialEq, Eq, Structural)]
pub struct Request {
    pub key: TypeKey,
    pub access: Access,
}

impl Request {
    /// A slot asking for shared access to the component of kind `key`.
    pub fn shared(key: TypeKey) -> (r: Self)
        ensures
            r == (Request { key, access: Access::Shared }),
    {
        Request { key, access: Access::Shared }
    }

    /// A slot asking for exclusive access to the component of kind `key`.
    pub fn exclusive(key: TypeKey) -> (r: Self)
        ensures
            r == (Request { key, access: Access::Exclusive }),
    {
        Request { key, access: Access::Exclusive }
    }
}

/// The entities that matched a query, in table order.
#[derive(Debug)]
pub struct QueryFetched {
    pub result: Vec<EntityId>,
}

/// Two slots that would alias one component with an exclusive reference.
pub open spec fn slots_conflict(a: Request, b: Request) -> bool {
    a.key == b.key && (a.access == Access::Exclusive || b.access == Access::Exclusive)
}

/// No two slots of the shape conflict with each other.
pub open spec fn shape_consistent(shape: Seq<Request>) -> bool {
    forall|i: int, j: int| 0 <= i < j < shape.len() ==> !slots_conflict(shape[i], shape[j])
}

/// Every slot's kind is present and reachable in its mode.
pub open spec fn slots_available<V>(m: Components<V>, shape: Seq<Request>) -> bool {
    forall|i: int|
        0 <= i < shape.len() ==> m.contains_key(#[trigger] shape[i].key) && compatible(
            m[shape[i].key],
            shape[i].access,
        )
}

/// A record matches a shape when all its slots could be acquired together.
pub open spec fn matches<V>(m: Components<V>, shape: Seq<Request>) -> bool {
    shape_consistent(shape) && slots_available(m, shape)
}

/// The ids of the records of `s` that match `shape`, in order.
pub open spec fn matching_ids<V>(s: Seq<EntityStorage<V>>, shape: Seq<Request>) -> Seq<EntityId>
    decreases s.len(),
{
    if s.len() == 0 {
        Seq::empty()
    } else {
        let rest = matching_ids(s.drop_last(), shape);
        if matches(s.last()@, shape) {
            rest.push(s.last().id)
        } else {
            rest
        }
    }
}

/// Some record of `s` carries `id` and matches `shape`.
pub open spec fn has_matching<V>(s: Seq<EntityStorage<V>>, shape: Seq<Request>, id: EntityId) -> bool {
    exists|i: int| 0 <= i < s.len() && s[i].id == id && matches(s[i]@, shape)
}

/// Appending a record to a table leaves the matches of the earlier records
/// as they were, and adds the new record's id last exactly when it matches.
pub proof fn lemma_query_after_spawn<V>(s: Seq<EntityStorage<V>>, e: EntityStorage<V>, shape: Seq<Request>)
    ensures
        matching_ids(s.push(e), shape) == if matches(e@, shape) {
            matching_ids(s, shape).push(e.id)
        } else {
            matching_ids(s, shape)
        },
{
    assert(s.push(e).drop_last() == s);
}

/// Every id a query yields belongs to a record that matches the shape.
pub proof fn lemma_matching_ids_match<V>(s: Seq<EntityStorage<V>>, shape: Seq<Request>)
    ensures
        forall|k: int|
            0 <= k < matching_ids(s, shape).len() ==> has_matching(s, shape, #[trigger] matching_ids(s, shape)[k]),
    decreases s.len(),
{
    if s.len() > 0 {
        let pre = s.drop_last();
        lemma_matching_ids_match(pre, shape);
        let ids = matching_ids(s, shape);
        let rest = matching_ids(pre, shape);
        assert forall|k: int| 0 <= k < ids.len() implies has_matching(s, shape, #[trigger] ids[k]) by {
            if k < rest.len() {
                assert(ids[k] == rest[k]);
                assert(has_matching(pre, shape, rest[k]));
                let i = choose|i: int| 0 <= i < pre.len() && pre[i].id == rest[k] && matches(pre[i]@, shape);
                assert(s[i] == pre[i]);
            } else {
                assert(s[s.len() - 1].id == ids[k]);
            }
        }
    }
}

/// The ids of the records of `s` that carry both kinds `a` and `b`, in order.
pub open spec fn ids_holding_both<V>(s: Seq<EntityStorage<V>>, a: TypeKey, b: TypeKey) -> Seq<EntityId>
    decreases s.len(),
{
    if s.len() == 0 {
        Seq::empty()
    } else {
        let rest = ids_holding_both(s.drop_last(), a, b);
        if s.last()@.contains_key(a) && s.last()@.contains_key(b) {
            rest.push(s.last().id)
        } else {
            rest
        }
    }
}

/// No record of `s` has an exclusive acquisition outstanding.
pub open spec fn none_held_exclusively<V>(s: Seq<EntityStorage<V>>) -> bool {
    forall|i: int, k: TypeKey| 0 <= i < s.len() && #[trigger] s[i]@.contains_key(k) ==> !s[i]@[k].writer
}

/// With no exclusive acquisition outstanding, a query for shared access to
/// kinds `a` and `b` yields exactly the records carrying both, in table
/// order, whatever other components each record has.
pub proof fn lemma_shared_pair_query<V>(s: Seq<EntityStorage<V>>, a: TypeKey, b: TypeKey)
    requires
        none_held_exclusively(s),
    ensures
        matching_ids(s, seq![Request { key: a, access: Access::Shared }, Request { key: b, access: Access::Shared }])
            == ids_holding_both(s, a, b),
    decreases s.len(),
{
    let shape = seq![Request { key: a, access: Access::Shared }, Request { key: b, access: Access::Shared }];
    if s.len() > 0 {
        let pre = s.drop_last();
        assert forall|i: int, k: TypeKey| 0 <= i < pre.len() && #[trigger] pre[i]@.contains_key(k) implies !pre[i]@[k].writer by {
            assert(pre[i] == s[i]);
        }
        lemma_shared_pair_query(pre, a, b);
        let m = s.last()@;
        assert(shape_consistent(shape));
        if m.contains_key(a) && m.contains_key(b) {
            assert(s[s.len() - 1]@.contains_key(a));
            assert(s[s.len() - 1]@.contains_key(b));
            assert(slots_available(m, shape));
        } else {
            assert(!m.contains_key(shape[0].key) || !m.contains_key(shape[1].key));
        }
    }
}

/// Whether no two slots of `shape` conflict.
pub fn shape_is_consistent(shape: &Vec<Request>) -> (r: bool)
    ensures
        r == shape_consistent(shape@),
{
    let n = shape.len();
    let mut i: usize = 0;
    while i < n
        invariant
            n == shape@.len(),
            i <= n,
            forall|a: int, b: int| 0 <= a < b < n && a < i ==> !slots_conflict(shape@[a], shape@[b]),
        decreases n - i,
    {
        let mut j: usize = i + 1;
        while j < n
            invariant
                n == shape@.len(),
                i < n,
                i + 1 <= j <= n,
                forall|a: int, b: int| 0 <= a < b < n && a < i ==> !slots_conflict(shape@[a], shape@[b]),
                forall|b: int| i < b < j ==> !slots_conflict(shape@[i as int], shape@[b]),
            decreases n - j,
        {
            let a = shape[i];
            let b = shape[j];
            if a.key == b.key && (a.access == Access::Exclusive || b.access == Access::Exclusive) {
                assert(slots_conflict(shape@[i as int], shape@[j as int]));
                return false;
            }
            j = j + 1;
        }
        i = i + 1;
    }
    true
}

/// Whether every slot of `shape` is present on `entity` and reachable in
/// its mode.
pub fn slots_are_available<V>(entity: &EntityStorage<V>, shape: &Vec<Request>) -> (r: bool)
    ensures
        r == slots_available(entity@, shape@),
{
    let n = shape.len();
    let mut i: usize = 0;
    while i < n
        invariant
            n == shape@.len(),
            i <= n,
            forall|a: int|
                0 <= a < i ==> entity@.contains_key(#[trigger] shape@[a].key) && compatible(
                    entity@[shape@[a].key],
                    shape@[a].access,
                ),
        decreases n - i,
    {
        let req = shape[i];
        match entity.components.get(&req.key) {
            None => {
                return false;
            },
            Some(cell) => {
                let ok = match req.access {
                    Access::Shared => !cell.is_held_exclusively(),
                    Access::Exclusive => !cell.is_held_exclusively() && !cell.is_shared(),
                };
                if !ok {
                    return false;
                }
            },
        }
        i = i + 1;
    }
    true
}

} // verus!
