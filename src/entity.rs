//! The entity record: an identifier and at most one storage cell per
//! component kind.
use vstd::prelude::*;
use std::collections::{HashMap, HashSet};

use crate::cell::{Access, CellView, ComponentCell};
use crate::errors::{ComponentAlreadyBorrowed, ComponentAlreadyExists, ComponentError, ComponentNotFounded};
use crate::{EntityId, TypeKey};

verus! {

broadcast use vstd::std_specs::hash::group_hash_axioms;

/// The identity component: every spawned record carries its own id.
#[derive(Debug, Clone, Copy, PartialEq, Eq, Hash, Structural)]
pub struct Entity(pub EntityId);

/// The cells of a record as the contracts see them.
pub type Components<V> = Map<TypeKey, CellView<V>>;

/// A fresh cell holding `value`.
pub open spec fn fresh_cell<V>(value: V) -> CellView<V> {
    CellView { value, readers: 0, writer: false }
}

/// Whether a cell can be reached in mode `access` without conflicting with
/// an outstanding acquisition.
pub open spec fn compatible<V>(c: CellView<V>, access: Access) -> bool {
    match access {
        Access::Shared => !c.writer,
        Access::Exclusive => !c.writer && c.readers == 0,
    }
}

/// The cells of `m` after each pair of `bundle` is attached in turn.
pub open spec fn with_bundle<V>(m: Components<V>, bundle: Seq<(TypeKey, V)>) -> Components<V>
    decreases bundle.len(),
{
    if bundle.len() == 0 {
        m
    } else {
        with_bundle(m.insert(bundle[0].0, fresh_cell(bundle[0].1)), bundle.drop_first())
    }
}

/// Every kind of `bundle` is new to `m`, to `reserved`, and to the rest of
/// the bundle.
pub open spec fn bundle_fits<V>(m: Components<V>, reserved: Set<TypeKey>, bundle: Seq<(TypeKey, V)>) -> bool {
    &&& forall|i: int| 0 <= i < bundle.len() ==> !m.contains_key(#[trigger] bundle[i].0)
    &&& forall|i: int| 0 <= i < bundle.len() ==> !reserved.contains(#[trigger] bundle[i].0)
    &&& forall|i: int, j: int| 0 <= i < j < bundle.len() ==> bundle[i].0 != bundle[j].0
}

/// One edit of a record's component set.
pub enum ComponentEdit<V> {
    Add(TypeKey, V),
    Remove(TypeKey),
}

/// The cells after one edit, as `add_component` and `remove_component`
/// make it (an add of a kind already present changes nothing).
pub open spec fn apply_edit<V>(m: Components<V>, edit: ComponentEdit<V>) -> Components<V> {
    match edit {
        ComponentEdit::Add(k, v) => if m.contains_key(k) {
            m
        } else {
            m.insert(k, fresh_cell(v))
        },
        ComponentEdit::Remove(k) => m.remove(k),
    }
}

/// The cells after the edits of `edits`, in order.
pub open spec fn apply_edits<V>(m: Components<V>, edits: Seq<ComponentEdit<V>>) -> Components<V>
    decreases edits.len(),
{
    if edits.len() == 0 {
        m
    } else {
        apply_edit(apply_edits(m, edits.drop_last()), edits.last())
    }
}

/// Whether `edit` removes kind `k`.
pub open spec fn removes<V>(edit: ComponentEdit<V>, k: TypeKey) -> bool {
    edit matches ComponentEdit::Remove(r) && r == k
}

/// Edit `i` adds kind `k` and no later edit removes it.
pub open spec fn added_not_removed<V>(edits: Seq<ComponentEdit<V>>, k: TypeKey, i: int) -> bool {
    &&& 0 <= i < edits.len()
    &&& edits[i] matches ComponentEdit::Add(a, _) && a == k
    &&& forall|j: int| i < j < edits.len() ==> !removes(#[trigger] edits[j], k)
}

/// Starting from a record without components, after any sequence of adds
/// and removes a kind is present exactly when some add of it was not
/// followed by a remove of it.
pub proof fn lemma_present_iff_added_not_removed<V>(edits: Seq<ComponentEdit<V>>, k: TypeKey)
    ensures
        apply_edits(Map::<TypeKey, CellView<V>>::empty(), edits).contains_key(k) <==> exists|i: int|
            added_not_removed(edits, k, i),
    decreases edits.len(),
{
    let e = Map::<TypeKey, CellView<V>>::empty();
    if edits.len() == 0 {
    } else {
        let pre = edits.drop_last();
        let n = edits.len() - 1;
        lemma_present_iff_added_not_removed(pre, k);
        assert forall|i: int| 0 <= i < n implies (added_not_removed(edits, k, i) <==> (
        added_not_removed(pre, k, i) && !removes(edits[n], k))) by {
            assert(pre[i] == edits[i]);
            if added_not_removed(pre, k, i) && !removes(edits[n], k) {
                assert forall|j: int| i < j < edits.len() implies !removes(edits[j], k) by {
                    if j < n {
                        assert(pre[j] == edits[j]);
                    }
                }
            }
            if added_not_removed(edits, k, i) {
                assert forall|j: int| i < j < pre.len() implies !removes(pre[j], k) by {
                    assert(pre[j] == edits[j]);
                }
            }
        }
        match edits[n] {
            ComponentEdit::Add(a, v) => {
                if a == k {
                    assert(added_not_removed(edits, k, n));
                } else {
                    if apply_edits(e, pre).contains_key(k) {
                        let i = choose|i: int| added_not_removed(pre, k, i);
                        assert(added_not_removed(edits, k, i));
                    }
                    if exists|i: int| added_not_removed(edits, k, i) {
                        let i = choose|i: int| added_not_removed(edits, k, i);
                        assert(i != n);
                        assert(added_not_removed(pre, k, i));
                    }
                }
            },
            ComponentEdit::Remove(r) => {
                if r == k {
                    assert(!apply_edits(e, edits).contains_key(k));
                    if exists|i: int| added_not_removed(edits, k, i) {
                        let i = choose|i: int| added_not_removed(edits, k, i);
                        assert(i != n);
                    }
                } else {
                    if apply_edits(e, pre).contains_key(k) {
                        let i = choose|i: int| added_not_removed(pre, k, i);
                        assert(added_not_removed(edits, k, i));
                    }
                    if exists|i: int| added_not_removed(edits, k, i) {
                        let i = choose|i: int| added_not_removed(edits, k, i);
                        assert(i != n);
                        assert(added_not_removed(pre, k, i));
                    }
                }
            },
        }
    }
}

#[derive(Debug)]
pub struct EntityStorage<V> {
    pub id: EntityId,
    pub components: HashMap<TypeKey, ComponentCell<V>>,
}

impl<V> View for EntityStorage<V> {
    type V = Components<V>;

    open spec fn view(&self) -> Components<V> {
        self.components@.map_values(|c: ComponentCell<V>| c@)
    }
}

impl<V> EntityStorage<V> {
    /// A record with the given id and no components.
    pub fn new(id: EntityId) -> (r: Self)
        ensures
            r.id == id,
            r@ == Map::<TypeKey, CellView<V>>::empty(),
    {
        let r = Self { id, components: HashMap::new() };
        assert(r@ =~= Map::<TypeKey, CellView<V>>::empty());
        r
    }

    /// Whether a component of kind `key` is attached.
    pub fn has_component(&self, key: TypeKey) -> (r: bool)
        ensures
            r == self@.contains_key(key),
    {
        self.components.contains_key(&key)
    }

    /// The component of kind `key`, when it is attached and not held
    /// exclusively.
    pub fn get_component(&self, key: TypeKey) -> (r: Result<&V, ComponentError>)
        ensures
            match r {
                Ok(v) => self@.contains_key(key) && compatible(self@[key], Access::Shared)
                    && *v == self@[key].value,
                Err(e) => if !self@.contains_key(key) {
                    e == ComponentError::ComponentNotFoundedError(ComponentNotFounded(key))
                } else {
                    !compatible(self@[key], Access::Shared)
                        && e == ComponentError::ComponentAlreadyBorrowedError(ComponentAlreadyBorrowed(key))
                },
            },
    {
        match self.components.get(&key) {
            None => Err(ComponentError::ComponentNotFoundedError(ComponentNotFounded::new(key))),
            Some(cell) => {
                if !cell.is_held_exclusively() {
                    Ok(cell.get())
                } else {
                    Err(ComponentError::ComponentAlreadyBorrowedError(ComponentAlreadyBorrowed::new(key)))
                }
            },
        }
    }

    /// Attaches `value` as the component of kind `key`; fails, leaving the
    /// record unchanged, when one of that kind is already attached.
    pub fn add_component(&mut self, key: TypeKey, value: V) -> (r: Result<(), ComponentError>)
        ensures
            final(self).id == old(self).id,
            r is Ok <==> !old(self)@.contains_key(key),
            r is Ok ==> final(self)@ == old(self)@.insert(key, fresh_cell(value)),
            r is Err ==> final(self)@ == old(self)@ && r == Err::<(), ComponentError>(
                ComponentError::ComponentAlreadyExistsError(ComponentAlreadyExists(key)),
            ),
            final(self)@ == apply_edit(old(self)@, ComponentEdit::Add(key, value)),
    {
        if self.check_if_component_is_inside(key) {
            return Err(ComponentError::ComponentAlreadyExistsError(ComponentAlreadyExists::new(key)));
        }
        self.components.insert(key, ComponentCell::new(value));
        assert(self@ =~= old(self)@.insert(key, fresh_cell(value)));
        Ok(())
    }

    fn check_if_component_is_inside(&self, key: TypeKey) -> (r: bool)
        ensures
            r == self@.contains_key(key),
    {
        self.components.contains_key(&key)
    }

    /// Attaches every pair of `components` in order. No kind may be
    /// attached already, reserved by the engine, or repeated.
    pub fn add_components(&mut self, unique_instances: &HashSet<TypeKey>, components: Vec<(TypeKey, V)>)
        requires
            bundle_fits(old(self)@, unique_instances@, components@),
        ensures
            final(self).id == old(self).id,
            final(self)@ == with_bundle(old(self)@, components@),
    {
        let mut rest = components;
        while rest.len() > 0
            invariant
                self.id == old(self).id,
                bundle_fits(self@, unique_instances@, rest@),
                with_bundle(self@, rest@) == with_bundle(old(self)@, components@),
            decreases rest.len(),
        {
            let ghost before = rest@;
            let (key, value) = rest.remove(0);
            assert(before[0] == (key, value));
            assert(rest@ =~= before.drop_first());
            let ghost m = self@;
            let added = self.add_component(key, value);
            assert(!m.contains_key(before[0].0));
            assert forall|i: int| 0 <= i < rest@.len() implies !self@.contains_key(#[trigger] rest@[i].0) by {
                assert(rest@[i] == before[i + 1]);
                assert(before[0].0 != before[i + 1].0);
            }
            assert forall|i: int, j: int| 0 <= i < j < rest@.len() implies rest@[i].0 != rest@[j].0 by {
                assert(rest@[i] == before[i + 1]);
                assert(rest@[j] == before[j + 1]);
            }
            assert forall|i: int| 0 <= i < rest@.len() implies !unique_instances@.contains(#[trigger] rest@[i].0) by {
                assert(rest@[i] == before[i + 1]);
            }
        }
        assert(rest@.len() == 0);
    }

    /// Drops the component of kind `key`, if attached.
    pub fn remove_component(&mut self, key: TypeKey)
        ensures
            final(self).id == old(self).id,
            final(self)@ == old(self)@.remove(key),
            final(self)@ == apply_edit(old(self)@, ComponentEdit::Remove(key)),
    {
        self.components.remove(&key);
        assert(self@ =~= old(self)@.remove(key));
    }

    /// Takes an acquisition of the component of kind `key` in mode
    /// `access`, and holds it until `release`.
    pub fn acquire(&mut self, key: TypeKey, access: Access) -> (r: Result<(), ComponentError>)
        ensures
            final(self).id == old(self).id,
            r is Ok <==> old(self)@.contains_key(key) && old(self)@[key].can_acquire(access),
            r is Ok ==> final(self)@ == old(self)@.insert(key, old(self)@[key].acquired(access)),
            r is Err ==> final(self)@ == old(self)@,
            r == Err::<(), ComponentError>(ComponentError::ComponentNotFoundedError(ComponentNotFounded(key)))
                <==> !old(self)@.contains_key(key),
            r == Err::<(), ComponentError>(ComponentError::ComponentAlreadyBorrowedError(ComponentAlreadyBorrowed(key)))
                <==> old(self)@.contains_key(key) && !old(self)@[key].can_acquire(access),
    {
        match self.components.remove(&key) {
            None => {
                assert(self@ =~= old(self)@);
                Err(ComponentError::ComponentNotFoundedError(ComponentNotFounded::new(key)))
            },
            Some(mut cell) => {
                let res = cell.try_acquire(access);
                self.components.insert(key, cell);
                if res.is_ok() {
                    assert(self@ =~= old(self)@.insert(key, old(self)@[key].acquired(access)));
                    Ok(())
                } else {
                    assert(self@ =~= old(self)@);
                    Err(ComponentError::ComponentAlreadyBorrowedError(ComponentAlreadyBorrowed::new(key)))
                }
            },
        }
    }

    /// Gives back one acquisition of mode `access` on the component of kind
    /// `key` (nothing happens when the component is absent).
    pub fn release(&mut self, key: TypeKey, access: Access)
        ensures
            final(self).id == old(self).id,
            old(self)@.contains_key(key) ==> final(self)@ == old(self)@.insert(key, old(self)@[key].released(access)),
            !old(self)@.contains_key(key) ==> final(self)@ == old(self)@,
    {
        match self.components.remove(&key) {
            None => {
                assert(self@ =~= old(self)@);
            },
            Some(mut cell) => {
                cell.release(access);
                self.components.insert(key, cell);
                assert(self@ =~= old(self)@.insert(key, old(self)@[key].released(access)));
            },
        }
    }

    /// Replaces the component of kind `key`, when it is attached and no
    /// acquisition of it is outstanding.
    pub fn set_component(&mut self, key: TypeKey, value: V) -> (r: Result<(), ComponentError>)
        ensures
            final(self).id == old(self).id,
            r is Ok <==> old(self)@.contains_key(key) && compatible(old(self)@[key], Access::Exclusive),
            r is Ok ==> final(self)@ == old(self)@.insert(key, CellView { value, ..old(self)@[key] }),
            r is Err ==> final(self)@ == old(self)@,
            r == Err::<(), ComponentError>(ComponentError::ComponentNotFoundedError(ComponentNotFounded(key)))
                <==> !old(self)@.contains_key(key),
            r == Err::<(), ComponentError>(ComponentError::ComponentAlreadyBorrowedError(ComponentAlreadyBorrowed(key)))
                <==> old(self)@.contains_key(key) && !compatible(old(self)@[key], Access::Exclusive),
    {
        match self.components.remove(&key) {
            None => {
                assert(self@ =~= old(self)@);
                Err(ComponentError::ComponentNotFoundedError(ComponentNotFounded::new(key)))
            },
            Some(mut cell) => {
                if cell.try_write().is_ok() {
                    cell.set(value);
                    cell.release(Access::Exclusive);
                    self.components.insert(key, cell);
                    assert(self@ =~= old(self)@.insert(key, CellView { value, ..old(self)@[key] }));
                    Ok(())
                } else {
                    self.components.insert(key, cell);
                    assert(self@ =~= old(self)@);
                    Err(ComponentError::ComponentAlreadyBorrowedError(ComponentAlreadyBorrowed::new(key)))
                }
            },
        }
    }
}

} // verus!
