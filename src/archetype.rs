//! The entity table: every live record of a scene, in spawn order.
use vstd::prelude::*;

use crate::cell::{Access, CellView};
use crate::entity::{bundle_fits, fresh_cell, with_bundle, Components, EntityStorage};
use std::collections::HashSet;
use crate::errors::{
    ArchetypeError, ComponentAlreadyBorrowed, ComponentError, ComponentNotFounded, EntityAlreadyHaveComponent,
    EntityNotFounded,
};
use crate::query::{
    matching_ids, shape_consistent, shape_is_consistent, slots_are_available, QueryFetched, Request,
};
use crate::{EntityId, TypeKey};

verus! {

/// Ids strictly increase along the table, so no two records share one.
pub open spec fn ids_increasing<V>(s: Seq<EntityStorage<V>>) -> bool {
    forall|i: int, j: int| 0 <= i < j < s.len() ==> s[i].id < s[j].id
}

/// Some record of `s` carries the id `id`.
pub open spec fn has_id<V>(s: Seq<EntityStorage<V>>, id: EntityId) -> bool {
    exists|i: int| 0 <= i < s.len() && s[i].id == id
}

/// `after` is `before` with the record carrying `id` removed, if any.
pub open spec fn entity_removed<V>(before: Seq<EntityStorage<V>>, after: Seq<EntityStorage<V>>, id: EntityId) -> bool {
    &&& has_id(before, id) ==> exists|i: int|
        0 <= i < before.len() && before[i].id == id && after == before.remove(i)
    &&& !has_id(before, id) ==> after == before
}

/// The record carrying `id` has a component of kind `key`.
pub open spec fn holds_at<V>(s: Seq<EntityStorage<V>>, id: EntityId, key: TypeKey) -> bool {
    exists|i: int| 0 <= i < s.len() && s[i].id == id && s[i]@.contains_key(key)
}

/// The record carrying `id` has a component of kind `key` that can be
/// acquired in mode `access` now.
pub open spec fn acquirable_at<V>(s: Seq<EntityStorage<V>>, id: EntityId, key: TypeKey, access: Access) -> bool {
    exists|i: int| 0 <= i < s.len() && s[i].id == id && s[i]@.contains_key(key) && s[i]@[key].can_acquire(access)
}

/// `after` keeps the records of `before` in place, with their ids; the
/// record carrying `id` has components `changed(old components)`, every
/// other one keeps its components.
pub open spec fn record_changed<V>(
    before: Seq<EntityStorage<V>>,
    after: Seq<EntityStorage<V>>,
    id: EntityId,
    changed: spec_fn(Components<V>) -> Components<V>,
) -> bool {
    &&& after.len() == before.len()
    &&& forall|i: int|
        0 <= i < before.len() ==> #[trigger] after[i].id == before[i].id && after[i]@ == if before[i].id == id {
            changed(before[i]@)
        } else {
            before[i]@
        }
}

/// Removing the record with a given id from a table with distinct ids
/// leaves one record fewer; the removed id is gone, and every other record
/// stays, with its id and all its components.
pub proof fn lemma_remove_keeps_others<V>(
    before: Seq<EntityStorage<V>>,
    after: Seq<EntityStorage<V>>,
    k: EntityId,
)
    requires
        ids_increasing(before),
        has_id(before, k),
        entity_removed(before, after, k),
    ensures
        after.len() == before.len() - 1,
        !has_id(after, k),
        forall|j: int| 0 <= j < after.len() ==> exists|i: int| 0 <= i < before.len() && before[i] == #[trigger] after[j],
        forall|i: int|
            0 <= i < before.len() && before[i].id != k ==> exists|j: int| 0 <= j < after.len() && after[j] == #[trigger] before[i],
{
    let i = choose|i: int| 0 <= i < before.len() && before[i].id == k && after == before.remove(i);
    assert forall|j: int| 0 <= j < after.len() implies exists|i2: int| 0 <= i2 < before.len() && before[i2] == #[trigger] after[j] by {
        if j < i {
            assert(before[j] == after[j]);
        } else {
            assert(before[j + 1] == after[j]);
        }
    }
    assert forall|m: int| 0 <= m < before.len() && before[m].id != k implies exists|j: int| 0 <= j < after.len() && after[j] == #[trigger] before[m] by {
        if m < i {
            assert(after[m] == before[m]);
        } else {
            assert(m != i);
            assert(after[m - 1] == before[m]);
        }
    }
    if has_id(after, k) {
        let j = choose|j: int| 0 <= j < after.len() && after[j].id == k;
        if j < i {
            assert(after[j] == before[j]);
        } else {
            assert(after[j] == before[j + 1]);
        }
    }
}

pub struct Archetype<V> {
    entities: Vec<EntityStorage<V>>,
    next_id: u32,
}

impl<V> View for Archetype<V> {
    type V = Seq<EntityStorage<V>>;

    closed spec fn view(&self) -> Seq<EntityStorage<V>> {
        self.entities@
    }
}

impl<V> Archetype<V> {
    /// Ids strictly increase along the table and stay below the next id.
    pub open spec fn wf(&self) -> bool {
        &&& ids_increasing(self@)
        &&& forall|i: int| 0 <= i < self@.len() ==> self@[i].id < self.spec_next_id()
    }

    /// The least id that a new record may carry: above every id ever spawned.
    pub closed spec fn spec_next_id(&self) -> nat {
        self.next_id as nat
    }

    /// An empty table.
    pub fn new() -> (r: Self)
        ensures
            r.wf(),
            r@ == Seq::<EntityStorage<V>>::empty(),
            r.spec_next_id() == 0,
    {
        Archetype { entities: Vec::new(), next_id: 0 }
    }

    /// The id for the next record; ids are never reused after a removal.
    pub fn next_id(&self) -> (r: EntityId)
        requires
            self.wf(),
        ensures
            r == self.spec_next_id(),
            forall|i: int| 0 <= i < self@.len() ==> self@[i].id < r,
    {
        self.next_id
    }

    /// Appends a record whose id is above every id spawned so far.
    pub fn spawn(&mut self, entity: EntityStorage<V>)
        requires
            old(self).wf(),
            old(self).spec_next_id() <= entity.id < u32::MAX,
        ensures
            final(self).wf(),
            final(self)@ == old(self)@.push(entity),
            final(self).spec_next_id() == entity.id + 1,
    {
        let id = entity.id;
        self.entities.push(entity);
        self.next_id = id + 1;
    }

    /// The position of the record with id `entity_id`.
    fn position(&self, entity_id: EntityId) -> (r: Option<usize>)
        requires
            self.wf(),
        ensures
            match r {
                Some(i) => i < self@.len() && self@[i as int].id == entity_id,
                None => !has_id(self@, entity_id),
            },
    {
        let mut i: usize = 0;
        while i < self.entities.len()
            invariant
                i <= self@.len(),
                self@ == self.entities@,
                forall|j: int| 0 <= j < i ==> self@[j].id != entity_id,
            decreases self@.len() - i,
        {
            if self.entities[i].id == entity_id {
                return Some(i);
            }
            i = i + 1;
        }
        None
    }

    /// Removes the record with id `entity_id`, if there is one.
    pub fn remove_entity(&mut self, entity_id: EntityId)
        requires
            old(self).wf(),
        ensures
            final(self).wf(),
            entity_removed(old(self)@, final(self)@, entity_id),
            final(self).spec_next_id() == old(self).spec_next_id(),
    {
        if let Some(i) = self.position(entity_id) {
            self.entities.remove(i);
        }
    }

    /// Drops the component of kind `key`, if attached, from the record with
    /// id `entity_id`; fails with `EntityNotFounded(entity_id)` when there is
    /// no such record.
    pub fn remove_component_from_entity(&mut self, entity_id: EntityId, key: TypeKey) -> (r: Result<
        (),
        ArchetypeError,
    >)
        requires
            old(self).wf(),
        ensures
            final(self).wf(),
            final(self).spec_next_id() == old(self).spec_next_id(),
            r is Err <==> !has_id(old(self)@, entity_id),
            r is Err ==> r == Err::<(), ArchetypeError>(
                ArchetypeError::EntityNotFoundedError(EntityNotFounded(entity_id)),
            ) && final(self)@ == old(self)@,
            record_changed(old(self)@, final(self)@, entity_id, |m: Components<V>| m.remove(key)),
    {
        match self.position(entity_id) {
            Some(i) => {
                let mut e = self.entities.remove(i);
                e.remove_component(key);
                self.entities.insert(i, e);
                Ok(())
            },
            None => Err(ArchetypeError::EntityNotFoundedError(EntityNotFounded::new(entity_id))),
        }
    }

    /// Attaches `value` as the component of kind `key` to the record with id
    /// `entity_id`.
    pub fn add_component_to_entity(&mut self, entity_id: EntityId, key: TypeKey, value: V) -> (r:
        Result<(), ArchetypeError>)
        requires
            old(self).wf(),
        ensures
            final(self).wf(),
            final(self).spec_next_id() == old(self).spec_next_id(),
            !has_id(old(self)@, entity_id) ==> r == Err::<(), ArchetypeError>(
                ArchetypeError::EntityNotFoundedError(EntityNotFounded(entity_id)),
            ),
            forall|i: int|
                0 <= i < old(self)@.len() && old(self)@[i].id == entity_id ==> (
                r is Ok <==> !old(self)@[i]@.contains_key(key)) && (r is Err ==> r == Err::<
                    (),
                    ArchetypeError,
                >(ArchetypeError::EntityAlreadyHaveComponentError(EntityAlreadyHaveComponent(entity_id, key)))),
            r is Ok ==> record_changed(
                old(self)@,
                final(self)@,
                entity_id,
                |m: Components<V>| m.insert(key, fresh_cell(value)),
            ),
            r is Err ==> record_changed(old(self)@, final(self)@, entity_id, |m: Components<V>| m),
    {
        match self.position(entity_id) {
            None => Err(ArchetypeError::EntityNotFoundedError(EntityNotFounded::new(entity_id))),
            Some(i) => {
                let mut e = self.entities.remove(i);
                let added = e.add_component(key, value);
                self.entities.insert(i, e);
                match added {
                    Ok(()) => Ok(()),
                    Err(_) => Err(
                        ArchetypeError::EntityAlreadyHaveComponentError(
                            EntityAlreadyHaveComponent::new(entity_id, key),
                        ),
                    ),
                }
            },
        }
    }

    /// Attaches every pair of `components`, in order, to the record with id
    /// `entity_id`; nothing happens when there is no such record. No kind
    /// may be attached to it already, reserved, or repeated.
    pub fn add_components_to_entity(
        &mut self,
        entity_id: EntityId,
        unique_instances: &HashSet<TypeKey>,
        components: Vec<(TypeKey, V)>,
    )
        requires
            old(self).wf(),
            forall|i: int|
                0 <= i < old(self)@.len() && old(self)@[i].id == entity_id ==> bundle_fits(
                    #[trigger] old(self)@[i]@,
                    unique_instances@,
                    components@,
                ),
        ensures
            final(self).wf(),
            final(self).spec_next_id() == old(self).spec_next_id(),
            record_changed(old(self)@, final(self)@, entity_id, |m: Components<V>| with_bundle(m, components@)),
    {
        if let Some(i) = self.position(entity_id) {
            let mut e = self.entities.remove(i);
            e.add_components(unique_instances, components);
            self.entities.insert(i, e);
        }
    }

    /// Replaces the component of kind `key` of the record with id
    /// `entity_id`, when both exist and no acquisition of it is outstanding.
    /// A missing record is reported as a missing component.
    pub fn set_component_of_entity(&mut self, entity_id: EntityId, key: TypeKey, value: V) -> (r:
        Result<(), ComponentError>)
        requires
            old(self).wf(),
        ensures
            final(self).wf(),
            final(self).spec_next_id() == old(self).spec_next_id(),
            r is Ok <==> acquirable_at(old(self)@, entity_id, key, Access::Exclusive),
            r == Err::<(), ComponentError>(ComponentError::ComponentNotFoundedError(ComponentNotFounded(key)))
                <==> !holds_at(old(self)@, entity_id, key),
            r == Err::<(), ComponentError>(ComponentError::ComponentAlreadyBorrowedError(ComponentAlreadyBorrowed(key)))
                <==> holds_at(old(self)@, entity_id, key) && !acquirable_at(old(self)@, entity_id, key, Access::Exclusive),
            r is Ok ==> record_changed(
                old(self)@,
                final(self)@,
                entity_id,
                |m: Components<V>| m.insert(key, CellView { value, ..m[key] }),
            ),
            r is Err ==> record_changed(old(self)@, final(self)@, entity_id, |m: Components<V>| m),
    {
        match self.position(entity_id) {
            None => Err(ComponentError::ComponentNotFoundedError(ComponentNotFounded::new(key))),
            Some(i) => {
                let mut e = self.entities.remove(i);
                let res = e.set_component(key, value);
                self.entities.insert(i, e);
                res
            },
        }
    }

    /// Takes an acquisition in mode `access` of the component of kind `key`
    /// of the record with id `entity_id`, held until released. A missing
    /// record is reported as a missing component.
    pub fn acquire_component(&mut self, entity_id: EntityId, key: TypeKey, access: Access) -> (r: Result<
        (),
        ComponentError,
    >)
        requires
            old(self).wf(),
        ensures
            final(self).wf(),
            final(self).spec_next_id() == old(self).spec_next_id(),
            !has_id(old(self)@, entity_id) ==> r == Err::<(), ComponentError>(
                ComponentError::ComponentNotFoundedError(ComponentNotFounded(key)),
            ),
            r is Ok <==> acquirable_at(old(self)@, entity_id, key, access),
            r == Err::<(), ComponentError>(ComponentError::ComponentNotFoundedError(ComponentNotFounded(key)))
                <==> !holds_at(old(self)@, entity_id, key),
            r == Err::<(), ComponentError>(ComponentError::ComponentAlreadyBorrowedError(ComponentAlreadyBorrowed(key)))
                <==> holds_at(old(self)@, entity_id, key) && !acquirable_at(old(self)@, entity_id, key, access),
            r is Ok ==> record_changed(
                old(self)@,
                final(self)@,
                entity_id,
                |m: Components<V>| m.insert(key, m[key].acquired(access)),
            ),
            r is Err ==> record_changed(old(self)@, final(self)@, entity_id, |m: Components<V>| m),
    {
        match self.position(entity_id) {
            None => Err(ComponentError::ComponentNotFoundedError(ComponentNotFounded::new(key))),
            Some(i) => {
                let mut e = self.entities.remove(i);
                let res = e.acquire(key, access);
                self.entities.insert(i, e);
                res
            },
        }
    }

    /// Gives back one acquisition in mode `access` of the component of kind
    /// `key` of the record with id `entity_id`.
    pub fn release_component(&mut self, entity_id: EntityId, key: TypeKey, access: Access)
        requires
            old(self).wf(),
        ensures
            final(self).wf(),
            final(self).spec_next_id() == old(self).spec_next_id(),
            record_changed(
                old(self)@,
                final(self)@,
                entity_id,
                |m: Components<V>| if m.contains_key(key) {
                    m.insert(key, m[key].released(access))
                } else {
                    m
                },
            ),
    {
        if let Some(i) = self.position(entity_id) {
            let mut e = self.entities.remove(i);
            e.release(key, access);
            self.entities.insert(i, e);
        }
    }

    /// The record with id `entity_id`, if there is one.
    pub fn get_entity(&self, entity_id: EntityId) -> (r: Option<&EntityStorage<V>>)
        requires
            self.wf(),
        ensures
            match r {
                Some(e) => exists|i: int| 0 <= i < self@.len() && self@[i] == *e && e.id == entity_id,
                None => !has_id(self@, entity_id),
            },
    {
        match self.position(entity_id) {
            Some(i) => Some(&self.entities[i]),
            None => None,
        }
    }

    /// The id of the first record, in spawn order, matching `shape`. A
    /// single-match query is meant for components that exist exactly once;
    /// where none matches, `None` reports it to the caller in place of a
    /// fatal failure.
    pub fn query_single(&self, shape: &Vec<Request>) -> (r: Option<EntityId>)
        ensures
            matching_ids(self@, shape@).len() == 0 ==> r is None,
            matching_ids(self@, shape@).len() > 0 ==> r == Some(matching_ids(self@, shape@)[0]),
    {
        let found = self.query(shape);
        if found.result.len() == 0 {
            None
        } else {
            Some(found.result[0])
        }
    }

    /// The ids of all records matching `shape`, in spawn order.
    pub fn query(&self, shape: &Vec<Request>) -> (r: QueryFetched)
        ensures
            r.result@ == matching_ids(self@, shape@),
    {
        let mut res: Vec<EntityId> = Vec::new();
        let consistent = shape_is_consistent(shape);
        let mut i: usize = 0;
        while i < self.entities.len()
            invariant
                i <= self@.len(),
                self@ == self.entities@,
                consistent == shape_consistent(shape@),
                res@ == matching_ids(self@.subrange(0, i as int), shape@),
            decreases self@.len() - i,
        {
            let e = &self.entities[i];
            let ghost pre = self@.subrange(0, i as int);
            assert(self@.subrange(0, i + 1).drop_last() == pre);
            if consistent && slots_are_available(e, shape) {
                res.push(e.id);
            }
            i = i + 1;
        }
        assert(self@.subrange(0, self@.len() as int) == self@);
        QueryFetched { result: res }
    }

    /// The number of live records.
    pub fn len(&self) -> (r: usize)
        requires
            self.wf(),
        ensures
            r == self@.len(),
    {
        self.entities.len()
    }
}

} // verus!
