//! The scene: one entity table, the event bus, the timers, and the systems
//! of each lifecycle phase, driven by the frame loop of `lifecycle`.
//!
//! Components of the application are stored as `ComponentValue::Custom`;
//! the engine files each record's identity under `ENTITY_KEY` and the clock
//! under `CLOCK_KEY`. Both kinds are reserved: application code may not
//! attach them.
use vstd::prelude::*;
use std::collections::HashSet;

use crate::archetype::{acquirable_at, entity_removed, holds_at, has_id, ids_increasing, record_changed, Archetype};
use crate::cell::{Access, CellView};
use crate::countdown::{fired_callbacks, live_timers, ticked_all, Timer, Timers};
use crate::entity::{bundle_fits, fresh_cell, with_bundle, Components, Entity, EntityStorage};
use crate::errors::{
    ArchetypeError, ComponentAlreadyBorrowed, ComponentError, ComponentNotFounded, ComponentUnableDowncast,
    EntityAlreadyHaveComponent, EntityNotFounded,
};
use crate::event::{after_read, read_result, sent, EventStorage};
use crate::lifecycle::{spec_step, step, LifetimeSystemExec, RunAction, Stage, Systems};
use crate::query::{has_matching, lemma_matching_ids_match, matching_ids, QueryFetched, Request};
use crate::time::{advanced, Time};
use crate::{EntityId, TypeKey};

verus! {

broadcast use vstd::std_specs::hash::group_hash_axioms;

/// The kind under which every record carries its own id.
pub const ENTITY_KEY: TypeKey = 0xffff_ffff_ffff_ffff;

/// The kind under which the clock is stored.
pub const CLOCK_KEY: TypeKey = 0xffff_ffff_ffff_fffe;

/// A stored component: an engine value, or one of the application's.
#[derive(Debug)]
pub enum ComponentValue<V> {
    Entity(Entity),
    Clock(Time),
    Custom(V),
}

/// The kinds reserved by the engine.
pub open spec fn reserved_keys() -> Set<TypeKey> {
    set![ENTITY_KEY, CLOCK_KEY]
}

/// The application's components wrapped as stored values.
pub open spec fn wrap_bundle<V>(b: Seq<(TypeKey, V)>) -> Seq<(TypeKey, ComponentValue<V>)> {
    b.map_values(|p: (TypeKey, V)| (p.0, ComponentValue::Custom(p.1)))
}

/// No kind of the bundle is reserved or repeated.
pub open spec fn bundle_ok<V>(b: Seq<(TypeKey, V)>) -> bool {
    &&& forall|i: int| 0 <= i < b.len() ==> !reserved_keys().contains(#[trigger] b[i].0)
    &&& forall|i: int, j: int| 0 <= i < j < b.len() ==> b[i].0 != b[j].0
}

/// The components of a record spawned with id `id` and bundle `b`.
pub open spec fn spawned_components<V>(id: EntityId, b: Seq<(TypeKey, V)>) -> Components<ComponentValue<V>> {
    with_bundle(
        Map::<TypeKey, CellView<ComponentValue<V>>>::empty().insert(
            ENTITY_KEY,
            fresh_cell(ComponentValue::Entity(Entity(id))),
        ),
        wrap_bundle(b),
    )
}

/// The shape that finds the clock.
pub open spec fn clock_shape() -> Seq<Request> {
    seq![Request { key: CLOCK_KEY, access: Access::Shared }]
}

/// The position of the record that holds the clock: the first one, in
/// table order, that carries `CLOCK_KEY` not held exclusively.
pub open spec fn clock_index<V>(s: Seq<EntityStorage<ComponentValue<V>>>) -> int
    recommends
        matching_ids(s, clock_shape()).len() > 0,
{
    choose|i: int| 0 <= i < s.len() && s[i].id == matching_ids(s, clock_shape())[0] && s[i]@.contains_key(CLOCK_KEY)
}

/// The clock of a table, if it has one.
pub open spec fn clock_of<V>(s: Seq<EntityStorage<ComponentValue<V>>>) -> Option<Time> {
    if matching_ids(s, clock_shape()).len() == 0 {
        None
    } else {
        match s[clock_index(s)]@[CLOCK_KEY].value {
            ComponentValue::Clock(t) => Some(t),
            _ => None,
        }
    }
}

/// The delta by which timers tick: the clock's last frame delta, or zero
/// without a clock.
pub open spec fn clock_delta<V>(s: Seq<EntityStorage<ComponentValue<V>>>) -> u64 {
    match clock_of(s) {
        Some(t) => t.delta_time,
        None => 0,
    }
}

/// The application's components wrapped as stored values.
fn wrap_components<V>(bundle: Vec<(TypeKey, V)>) -> (r: Vec<(TypeKey, ComponentValue<V>)>)
    ensures
        r@ == wrap_bundle(bundle@),
{
    let ghost all = bundle@;
    let n = bundle.len();
    let mut rest = bundle;
    let mut wrapped: Vec<(TypeKey, ComponentValue<V>)> = Vec::new();
    let mut k: usize = 0;
    while rest.len() > 0
        invariant
            k <= n == all.len(),
            rest@ == all.subrange(k as int, n as int),
            wrapped@ == wrap_bundle(all.subrange(0, k as int)),
        decreases rest@.len(),
    {
        let (key, value) = rest.remove(0);
        assert(all[k as int] == (key, value));
        wrapped.push((key, ComponentValue::Custom(value)));
        k = k + 1;
        assert(wrapped@ =~= wrap_bundle(all.subrange(0, k as int)));
        assert(rest@ =~= all.subrange(k as int, n as int));
    }
    assert(all.subrange(0, n as int) == all);
    wrapped
}

proof fn lemma_clock_index<V>(s: Seq<EntityStorage<ComponentValue<V>>>, j: int)
    requires
        ids_increasing(s),
        matching_ids(s, clock_shape()).len() > 0,
        0 <= j < s.len(),
        s[j].id == matching_ids(s, clock_shape())[0],
    ensures
        clock_index(s) == j,
        s[j]@.contains_key(CLOCK_KEY),
        !s[j]@[CLOCK_KEY].writer,
{
    lemma_matching_ids_match(s, clock_shape());
    let ids = matching_ids(s, clock_shape());
    assert(has_matching(s, clock_shape(), ids[0]));
    let i = choose|i: int| 0 <= i < s.len() && s[i].id == ids[0] && crate::query::matches(s[i]@, clock_shape());
    assert(clock_shape()[0].key == CLOCK_KEY);
    assert(s[i]@.contains_key(CLOCK_KEY));
    if i < j {
        assert(s[i].id < s[j].id);
    } else if j < i {
        assert(s[j].id < s[i].id);
    }
    assert(i == j);
}

/// The systems of `list` registered for phase `e`, in order.
pub open spec fn systems_of_phase<T>(list: Seq<(T, LifetimeSystemExec)>, e: LifetimeSystemExec) -> Seq<T>
    decreases list.len(),
{
    if list.len() == 0 {
        Seq::empty()
    } else {
        let rest = systems_of_phase(list.drop_last(), e);
        if list.last().1 == e {
            rest.push(list.last().0)
        } else {
            rest
        }
    }
}

pub struct Scene<V, E, C, S, M> {
    archetype: Archetype<ComponentValue<V>>,
    systems: Systems<S>,
    systems_mut: Systems<M>,
    events: EventStorage<E>,
    countdowns: Timers<C>,
    is_running: bool,
    stage: Stage,
    unique_instances: HashSet<TypeKey>,
}

impl<V, E, C: Copy, S, M> Scene<V, E, C, S, M> {
    /// The records of the scene, in spawn order.
    pub closed spec fn entities(&self) -> Seq<EntityStorage<ComponentValue<V>>> {
        self.archetype@
    }

    /// The id the next spawned record gets.
    pub closed spec fn next_id(&self) -> nat {
        self.archetype.spec_next_id()
    }

    /// The pending events of each registered kind.
    pub closed spec fn events(&self) -> Map<TypeKey, Seq<E>> {
        self.events@
    }

    /// The timers, in registration order.
    pub closed spec fn timers(&self) -> Seq<Timer<C>> {
        self.countdowns.timers@
    }

    /// The read-only systems of a phase, in registration order.
    pub closed spec fn system_list(&self, exec: LifetimeSystemExec) -> Seq<S> {
        self.systems.list(exec)
    }

    /// The mutating systems of a phase, in registration order.
    pub closed spec fn mut_system_list(&self, exec: LifetimeSystemExec) -> Seq<M> {
        self.systems_mut.list(exec)
    }

    pub closed spec fn running(&self) -> bool {
        self.is_running
    }

    pub closed spec fn stage(&self) -> Stage {
        self.stage
    }

    /// The reserved kinds are the engine's.
    pub closed spec fn reserved_ok(&self) -> bool {
        self.unique_instances@ == reserved_keys()
    }

    /// Ids strictly increase along the table and stay below the next id, and
    /// the reserved kinds are the engine's.
    pub open spec fn wf(&self) -> bool {
        &&& ids_increasing(self.entities())
        &&& forall|i: int| 0 <= i < self.entities().len() ==> #[trigger] self.entities()[i].id < self.next_id()
        &&& self.reserved_ok()
    }

    /// The table and the next id are as in `before`.
    pub open spec fn keeps_table(&self, before: &Self) -> bool {
        self.entities() == before.entities() && self.next_id() == before.next_id()
    }

    /// Every system list is as in `before`.
    pub open spec fn keeps_systems(&self, before: &Self) -> bool {
        &&& forall|e: LifetimeSystemExec| #[trigger] self.system_list(e) == before.system_list(e)
        &&& forall|e: LifetimeSystemExec| #[trigger] self.mut_system_list(e) == before.mut_system_list(e)
    }

    /// The running flag and the loop's stage are as in `before`.
    pub open spec fn keeps_run(&self, before: &Self) -> bool {
        self.running() == before.running() && self.stage() == before.stage()
    }

    /// A scene whose only record is the clock, started at `now`.
    pub fn new(now: u64) -> (r: Self)
        ensures
            r.wf(),
            r.entities().len() == 1,
            r.entities()[0].id == 0,
            r.entities()[0]@ == Map::<TypeKey, CellView<ComponentValue<V>>>::empty().insert(
                ENTITY_KEY,
                fresh_cell(ComponentValue::Entity(Entity(0))),
            ).insert(CLOCK_KEY, fresh_cell(ComponentValue::Clock(Time { delta_time: 0, last_time: now, time: 0 }))),
            r.next_id() == 1,
            r.events() == Map::<TypeKey, Seq<E>>::empty(),
            r.timers() == Seq::<Timer<C>>::empty(),
            forall|e: LifetimeSystemExec| #[trigger] r.system_list(e) == Seq::<S>::empty(),
            forall|e: LifetimeSystemExec| #[trigger] r.mut_system_list(e) == Seq::<M>::empty(),
            !r.running(),
            r.stage() == Stage::Ready,
    {
        let mut archetype: Archetype<ComponentValue<V>> = Archetype::new();
        let mut clock = EntityStorage::new(0);
        let a = clock.add_component(ENTITY_KEY, ComponentValue::Entity(Entity(0)));
        let b = clock.add_component(CLOCK_KEY, ComponentValue::Clock(Time::new(now)));
        archetype.spawn(clock);
        let mut unique_instances: HashSet<TypeKey> = HashSet::new();
        unique_instances.insert(ENTITY_KEY);
        unique_instances.insert(CLOCK_KEY);
        assert(unique_instances@ =~= reserved_keys());
        Scene {
            archetype,
            systems: Systems::new(),
            systems_mut: Systems::new(),
            events: EventStorage::new(),
            countdowns: Timers::new(),
            is_running: false,
            stage: Stage::Ready,
            unique_instances,
        }
    }

    /// The entity table.
    pub fn archetype(&self) -> (r: &Archetype<ComponentValue<V>>)
        requires
            self.wf(),
        ensures
            r@ == self.entities(),
            r.wf(),
    {
        &self.archetype
    }

    /// The event bus.
    pub fn event_storage(&self) -> (r: &EventStorage<E>)
        ensures
            r@ == self.events(),
    {
        &self.events
    }

    /// The timers.
    pub fn countdowns(&self) -> (r: &Timers<C>)
        ensures
            r.timers@ == self.timers(),
    {
        &self.countdowns
    }

    /// The id of the first record, in spawn order, matching `shape`. A
    /// single-match query is meant for components that exist exactly once;
    /// where none matches, `None` reports it to the caller in place of a
    /// fatal failure.
    pub fn query_single(&self, shape: &Vec<Request>) -> (r: Option<EntityId>)
        ensures
            matching_ids(self.entities(), shape@).len() == 0 ==> r is None,
            matching_ids(self.entities(), shape@).len() > 0 ==> r == Some(
                matching_ids(self.entities(), shape@)[0],
            ),
    {
        self.archetype.query_single(shape)
    }

    /// The ids of all records matching `shape`, in spawn order.
    pub fn query(&self, shape: &Vec<Request>) -> (r: QueryFetched)
        ensures
            r.result@ == matching_ids(self.entities(), shape@),
    {
        self.archetype.query(shape)
    }

    /// The record with id `entity_id`, if there is one.
    pub fn get_entity(&self, entity_id: EntityId) -> (r: Option<&EntityStorage<ComponentValue<V>>>)
        requires
            self.wf(),
        ensures
            match r {
                Some(e) => exists|i: int|
                    0 <= i < self.entities().len() && self.entities()[i] == *e && e.id == entity_id,
                None => !has_id(self.entities(), entity_id),
            },
    {
        let r = self.archetype.get_entity(entity_id);
        proof {
            if let Some(e) = r {
                let i = choose|i: int| 0 <= i < self.archetype@.len() && self.archetype@[i] == *e && e.id == entity_id;
                assert(self.entities()[i] == *e);
            }
        }
        r
    }

    /// Spawns a record carrying the components of `bundle` and its own id,
    /// and returns that id; `None`, with nothing spawned, once ids run out.
    pub fn spawn(&mut self, bundle: Vec<(TypeKey, V)>) -> (r: Option<EntityId>)
        requires
            old(self).wf(),
            bundle_ok(bundle@),
        ensures
            final(self).wf(),
            old(self).next_id() < u32::MAX ==> {
                &&& r == Some(old(self).next_id() as EntityId)
                &&& final(self).entities().len() == old(self).entities().len() + 1
                &&& final(self).entities().drop_last() == old(self).entities()
                &&& final(self).entities().last().id == old(self).next_id()
                &&& final(self).entities().last()@ == spawned_components(old(self).next_id() as EntityId, bundle@)
                &&& final(self).next_id() == old(self).next_id() + 1
            },
            old(self).next_id() >= u32::MAX ==> r is None && final(self).entities() == old(self).entities()
                && final(self).next_id() == old(self).next_id(),
            final(self).events() == old(self).events(),
            final(self).timers() == old(self).timers(),
            final(self).running() == old(self).running(),
            final(self).stage() == old(self).stage(),
            forall|e: LifetimeSystemExec| #[trigger] final(self).system_list(e) == old(self).system_list(e),
            forall|e: LifetimeSystemExec| #[trigger] final(self).mut_system_list(e) == old(self).mut_system_list(e),
            final(self).keeps_systems(old(self)),
            final(self).keeps_run(old(self)),
    {
        let id = self.archetype.next_id();
        if id == u32::MAX {
            return None;
        }
        let wrapped = wrap_components(bundle);
        let ghost all = bundle@;
        let mut e = EntityStorage::new(id);
        let added = e.add_component(ENTITY_KEY, ComponentValue::Entity(Entity(id)));
        assert forall|i: int| 0 <= i < wrapped@.len() implies !e@.contains_key(#[trigger] wrapped@[i].0) by {
            assert(wrapped@[i].0 == all[i].0);
            assert(!reserved_keys().contains(all[i].0));
        }
        assert forall|i: int| 0 <= i < wrapped@.len() implies !self.unique_instances@.contains(
            #[trigger] wrapped@[i].0,
        ) by {
            assert(wrapped@[i].0 == all[i].0);
        }
        assert forall|i: int, j: int| 0 <= i < j < wrapped@.len() implies wrapped@[i].0 != wrapped@[j].0 by {
            assert(wrapped@[i].0 == all[i].0);
            assert(wrapped@[j].0 == all[j].0);
        }
        e.add_components(&self.unique_instances, wrapped);
        self.archetype.spawn(e);
        Some(id)
    }

    /// Spawns one record per bundle, in order, and returns their ids. The
    /// id space must leave room for all of them.
    pub fn spawn_batch(&mut self, bundles: Vec<Vec<(TypeKey, V)>>) -> (r: Vec<EntityId>)
        requires
            old(self).wf(),
            old(self).next_id() + bundles@.len() < u32::MAX,
            forall|i: int| 0 <= i < bundles@.len() ==> bundle_ok(#[trigger] bundles@[i]@),
        ensures
            final(self).wf(),
            r@.len() == bundles@.len(),
            final(self).entities().len() == old(self).entities().len() + bundles@.len(),
            final(self).entities().subrange(0, old(self).entities().len() as int) == old(self).entities(),
            forall|i: int| 0 <= i < bundles@.len() ==> #[trigger] r@[i] == old(self).next_id() + i,
            forall|i: int|
                0 <= i < bundles@.len() ==> (#[trigger] final(self).entities()[old(self).entities().len() + i]).id
                    == r@[i] && final(self).entities()[old(self).entities().len() + i]@ == spawned_components(
                    r@[i],
                    bundles@[i]@,
                ),
            final(self).next_id() == old(self).next_id() + bundles@.len(),
            final(self).events() == old(self).events(),
            final(self).timers() == old(self).timers(),
            final(self).keeps_systems(old(self)),
            final(self).keeps_run(old(self)),
    {
        let ghost all = bundles@;
        let ghost start = self.entities();
        let ghost first = self.next_id();
        let mut rest = bundles;
        let mut ids: Vec<EntityId> = Vec::new();
        while rest.len() > 0
            invariant
                self.wf(),
                ids@.len() <= all.len(),
                first + all.len() < u32::MAX,
                rest@ == all.subrange(ids@.len() as int, all.len() as int),
                forall|i: int| 0 <= i < all.len() ==> bundle_ok(#[trigger] all[i]@),
                self.next_id() == first + ids@.len(),
                self.entities().len() == start.len() + ids@.len(),
                self.entities().subrange(0, start.len() as int) == start,
                forall|i: int| 0 <= i < ids@.len() ==> #[trigger] ids@[i] == first + i,
                forall|i: int|
                    0 <= i < ids@.len() ==> (#[trigger] self.entities()[start.len() + i]).id == first + i
                        && self.entities()[start.len() + i]@ == spawned_components(ids@[i], all[i]@),
                self.events() == old(self).events(),
                self.timers() == old(self).timers(),
                self.keeps_systems(old(self)),
                self.keeps_run(old(self)),
            decreases rest@.len(),
        {
            let ghost k = ids@.len() as int;
            let ghost before = self.entities();
            let bundle = rest.remove(0);
            assert(bundle == all[k]);
            let id = self.spawn(bundle);
            match id {
                Some(id) => ids.push(id),
                None => {},
            }
            assert(self.entities().drop_last() == before);
            assert forall|i: int| 0 <= i < ids@.len() implies (#[trigger] self.entities()[start.len() + i]).id
                == first + i && self.entities()[start.len() + i]@ == spawned_components(ids@[i], all[i]@) by {
                if i < k {
                    assert(self.entities()[start.len() + i] == before[start.len() + i]);
                } else {
                    assert(i == k);
                    assert(self.entities()[start.len() + i] == self.entities().last());
                }
            }
            assert(self.entities().subrange(0, start.len() as int) =~= start) by {
                assert forall|j: int| 0 <= j < start.len() implies self.entities()[j] == start[j] by {
                    assert(self.entities()[j] == before[j]);
                    assert(before.subrange(0, start.len() as int)[j] == before[j]);
                }
            }
            assert(rest@ =~= all.subrange(ids@.len() as int, all.len() as int));
        }
        assert(ids@.len() == all.len());
        ids
    }

    /// Attaches the components of `bundle`, in order, to the record with id
    /// `entity_id`; nothing happens when there is no such record. No kind
    /// may be attached to it already, reserved, or repeated.
    pub fn add_components_to_entity(&mut self, entity_id: EntityId, bundle: Vec<(TypeKey, V)>)
        requires
            old(self).wf(),
            bundle_ok(bundle@),
            forall|i: int|
                0 <= i < old(self).entities().len() && old(self).entities()[i].id == entity_id ==> forall|j: int|
                    0 <= j < bundle@.len() ==> !(#[trigger] old(self).entities()[i]@).contains_key(bundle@[j].0),
        ensures
            final(self).wf(),
            record_changed(
                old(self).entities(),
                final(self).entities(),
                entity_id,
                |m: Components<ComponentValue<V>>| with_bundle(m, wrap_bundle(bundle@)),
            ),
            final(self).next_id() == old(self).next_id(),
            final(self).events() == old(self).events(),
            final(self).timers() == old(self).timers(),
            final(self).keeps_systems(old(self)),
            final(self).keeps_run(old(self)),
    {
        let wrapped = wrap_components(bundle);
        proof {
            let w = wrapped@;
            assert forall|i: int|
                0 <= i < self.archetype@.len() && self.archetype@[i].id == entity_id implies bundle_fits(
                #[trigger] self.archetype@[i]@,
                self.unique_instances@,
                w,
            ) by {
                assert forall|j: int| 0 <= j < w.len() implies !self.archetype@[i]@.contains_key(#[trigger] w[j].0) by {
                    assert(w[j].0 == bundle@[j].0);
                    assert(self.entities()[i] == self.archetype@[i]);
                    assert(!self.entities()[i]@.contains_key(bundle@[j].0));
                }
                assert forall|j: int| 0 <= j < w.len() implies !self.unique_instances@.contains(#[trigger] w[j].0) by {
                    assert(w[j].0 == bundle@[j].0);
                }
                assert forall|j: int, l: int| 0 <= j < l < w.len() implies w[j].0 != w[l].0 by {
                    assert(w[j].0 == bundle@[j].0);
                    assert(w[l].0 == bundle@[l].0);
                }
            }
        }
        self.archetype.add_components_to_entity(entity_id, &self.unique_instances, wrapped);
    }

    /// Removes the record with id `entity_id`, if there is one.
    pub fn remove_entity(&mut self, entity_id: EntityId)
        requires
            old(self).wf(),
        ensures
            final(self).wf(),
            entity_removed(old(self).entities(), final(self).entities(), entity_id),
            final(self).next_id() == old(self).next_id(),
            final(self).events() == old(self).events(),
            final(self).timers() == old(self).timers(),
            final(self).keeps_systems(old(self)),
            final(self).keeps_run(old(self)),
    {
        self.archetype.remove_entity(entity_id);
    }

    /// Drops the component of kind `key`, if attached, from the record with
    /// id `entity_id`; fails with `EntityNotFounded(entity_id)` when there is
    /// no such record.
    pub fn remove_component_from_entity(&mut self, entity_id: EntityId, key: TypeKey) -> (r: Result<
        (),
        ArchetypeError,
    >)
        requires
            old(self).wf(),
        ensures
            final(self).wf(),
            r is Err <==> !has_id(old(self).entities(), entity_id),
            r is Err ==> r == Err::<(), ArchetypeError>(
                ArchetypeError::EntityNotFoundedError(EntityNotFounded(entity_id)),
            ) && final(self).entities() == old(self).entities(),
            record_changed(
                old(self).entities(),
                final(self).entities(),
                entity_id,
                |m: Components<ComponentValue<V>>| m.remove(key),
            ),
            final(self).next_id() == old(self).next_id(),
            final(self).events() == old(self).events(),
            final(self).timers() == old(self).timers(),
            final(self).keeps_systems(old(self)),
            final(self).keeps_run(old(self)),
    {
        self.archetype.remove_component_from_entity(entity_id, key)
    }

    /// Attaches `value` as the component of kind `key`, which must not be
    /// reserved, to the record with id `entity_id`.
    pub fn add_component_to_entity(&mut self, entity_id: EntityId, key: TypeKey, value: V) -> (r: Result<
        (),
        ArchetypeError,
    >)
        requires
            old(self).wf(),
            !reserved_keys().contains(key),
        ensures
            final(self).wf(),
            !has_id(old(self).entities(), entity_id) ==> r == Err::<(), ArchetypeError>(
                ArchetypeError::EntityNotFoundedError(EntityNotFounded(entity_id)),
            ),
            forall|i: int|
                0 <= i < old(self).entities().len() && old(self).entities()[i].id == entity_id ==> (r is Ok
                    <==> !old(self).entities()[i]@.contains_key(key)) && (r is Err ==> r == Err::<(), ArchetypeError>(
                    ArchetypeError::EntityAlreadyHaveComponentError(EntityAlreadyHaveComponent(entity_id, key)),
                )),
            r is Ok ==> record_changed(
                old(self).entities(),
                final(self).entities(),
                entity_id,
                |m: Components<ComponentValue<V>>| m.insert(key, fresh_cell(ComponentValue::Custom(value))),
            ),
            r is Err ==> record_changed(
                old(self).entities(),
                final(self).entities(),
                entity_id,
                |m: Components<ComponentValue<V>>| m,
            ),
            final(self).next_id() == old(self).next_id(),
            final(self).events() == old(self).events(),
            final(self).timers() == old(self).timers(),
            final(self).keeps_systems(old(self)),
            final(self).keeps_run(old(self)),
    {
        self.archetype.add_component_to_entity(entity_id, key, ComponentValue::Custom(value))
    }

    /// Replaces the component of kind `key`, which must not be reserved, of
    /// the record with id `entity_id`, when both exist and no acquisition
    /// of it is outstanding.
    pub fn set_component(&mut self, entity_id: EntityId, key: TypeKey, value: V) -> (r: Result<
        (),
        ComponentError,
    >)
        requires
            old(self).wf(),
            !reserved_keys().contains(key),
        ensures
            final(self).wf(),
            r is Ok <==> acquirable_at(old(self).entities(), entity_id, key, Access::Exclusive),
            r == Err::<(), ComponentError>(ComponentError::ComponentNotFoundedError(ComponentNotFounded(key)))
                <==> !holds_at(old(self).entities(), entity_id, key),
            r == Err::<(), ComponentError>(ComponentError::ComponentAlreadyBorrowedError(ComponentAlreadyBorrowed(key)))
                <==> holds_at(old(self).entities(), entity_id, key) && !acquirable_at(
                old(self).entities(),
                entity_id,
                key,
                Access::Exclusive,
            ),
            r is Ok ==> record_changed(
                old(self).entities(),
                final(self).entities(),
                entity_id,
                |m: Components<ComponentValue<V>>| m.insert(key, CellView { value: ComponentValue::Custom(value), ..m[key] }),
            ),
            r is Err ==> record_changed(
                old(self).entities(),
                final(self).entities(),
                entity_id,
                |m: Components<ComponentValue<V>>| m,
            ),
            final(self).next_id() == old(self).next_id(),
            final(self).events() == old(self).events(),
            final(self).timers() == old(self).timers(),
            final(self).keeps_systems(old(self)),
            final(self).keeps_run(old(self)),
    {
        self.archetype.set_component_of_entity(entity_id, key, ComponentValue::Custom(value))
    }

    /// Takes an acquisition in mode `access` of the component of kind `key`
    /// of the record with id `entity_id`, held until released.
    pub fn acquire_component(&mut self, entity_id: EntityId, key: TypeKey, access: Access) -> (r: Result<
        (),
        ComponentError,
    >)
        requires
            old(self).wf(),
        ensures
            final(self).wf(),
            r is Ok <==> acquirable_at(old(self).entities(), entity_id, key, access),
            r == Err::<(), ComponentError>(ComponentError::ComponentNotFoundedError(ComponentNotFounded(key)))
                <==> !holds_at(old(self).entities(), entity_id, key),
            r == Err::<(), ComponentError>(ComponentError::ComponentAlreadyBorrowedError(ComponentAlreadyBorrowed(key)))
                <==> holds_at(old(self).entities(), entity_id, key) && !acquirable_at(
                old(self).entities(),
                entity_id,
                key,
                access,
            ),
            r is Ok ==> record_changed(
                old(self).entities(),
                final(self).entities(),
                entity_id,
                |m: Components<ComponentValue<V>>| m.insert(key, m[key].acquired(access)),
            ),
            r is Err ==> record_changed(
                old(self).entities(),
                final(self).entities(),
                entity_id,
                |m: Components<ComponentValue<V>>| m,
            ),
            final(self).next_id() == old(self).next_id(),
            final(self).events() == old(self).events(),
            final(self).timers() == old(self).timers(),
            final(self).keeps_systems(old(self)),
            final(self).keeps_run(old(self)),
    {
        self.archetype.acquire_component(entity_id, key, access)
    }

    /// Gives back one acquisition in mode `access` of the component of kind
    /// `key` of the record with id `entity_id`.
    pub fn release_component(&mut self, entity_id: EntityId, key: TypeKey, access: Access)
        requires
            old(self).wf(),
        ensures
            final(self).wf(),
            record_changed(
                old(self).entities(),
                final(self).entities(),
                entity_id,
                |m: Components<ComponentValue<V>>| if m.contains_key(key) {
                    m.insert(key, m[key].released(access))
                } else {
                    m
                },
            ),
            final(self).next_id() == old(self).next_id(),
            final(self).events() == old(self).events(),
            final(self).timers() == old(self).timers(),
            final(self).keeps_systems(old(self)),
            final(self).keeps_run(old(self)),
    {
        self.archetype.release_component(entity_id, key, access);
    }

    /// Registers a read-only system last in phase `exec`.
    pub fn add_system(&mut self, system: S, exec: LifetimeSystemExec)
        requires
            old(self).wf(),
        ensures
            final(self).wf(),
            final(self).system_list(exec) == old(self).system_list(exec).push(system),
            forall|e: LifetimeSystemExec| e != exec ==> #[trigger] final(self).system_list(e) == old(self).system_list(e),
            forall|e: LifetimeSystemExec| #[trigger] final(self).mut_system_list(e) == old(self).mut_system_list(e),
            final(self).entities() == old(self).entities(),
            final(self).keeps_table(old(self)),
            final(self).keeps_run(old(self)),
            final(self).events() == old(self).events(),
            final(self).timers() == old(self).timers(),
    {
        self.systems.push(exec, system);
    }

    /// Registers each read-only system of `systems` last in its phase, in
    /// order.
    pub fn add_systems(&mut self, systems: Vec<(S, LifetimeSystemExec)>)
        requires
            old(self).wf(),
        ensures
            final(self).wf(),
            forall|e: LifetimeSystemExec| #[trigger] final(self).system_list(e) == old(self).system_list(e)
                + systems_of_phase(systems@, e),
            forall|e: LifetimeSystemExec| #[trigger] final(self).mut_system_list(e) == old(self).mut_system_list(e),
            final(self).entities() == old(self).entities(),
            final(self).keeps_table(old(self)),
            final(self).keeps_run(old(self)),
            final(self).events() == old(self).events(),
            final(self).timers() == old(self).timers(),
    {
        let ghost all = systems@;
        let mut rest = systems;
        let ghost mut k: int = 0;
        while rest.len() > 0
            invariant
                self.wf(),
                0 <= k <= all.len(),
                rest@ == all.subrange(k, all.len() as int),
                forall|e: LifetimeSystemExec| #[trigger] self.system_list(e) == old(self).system_list(e)
                    + systems_of_phase(all.subrange(0, k), e),
                forall|e: LifetimeSystemExec| #[trigger] self.mut_system_list(e) == old(self).mut_system_list(e),
                self.entities() == old(self).entities(),
                self.keeps_table(old(self)),
                self.keeps_run(old(self)),
                self.events() == old(self).events(),
                self.timers() == old(self).timers(),
            decreases rest@.len(),
        {
            let (system, exec) = rest.remove(0);
            assert(all[k] == (system, exec));
            self.add_system(system, exec);
            assert(all.subrange(0, k + 1).drop_last() == all.subrange(0, k));
            proof {
                assert forall|e: LifetimeSystemExec| #[trigger] self.system_list(e) == old(self).system_list(e)
                    + systems_of_phase(all.subrange(0, k + 1), e) by {
                    assert(old(self).system_list(e) + systems_of_phase(all.subrange(0, k), e).push(system)
                        =~= (old(self).system_list(e) + systems_of_phase(all.subrange(0, k), e)).push(system));
                }
                k = k + 1;
            }
            assert(rest@ =~= all.subrange(k, all.len() as int));
        }
        assert(all.subrange(0, k) == all);
    }

    /// Registers a mutating system last in phase `exec`.
    pub fn add_mut_system(&mut self, system: M, exec: LifetimeSystemExec)
        requires
            old(self).wf(),
        ensures
            final(self).wf(),
            final(self).mut_system_list(exec) == old(self).mut_system_list(exec).push(system),
            forall|e: LifetimeSystemExec| e != exec ==> #[trigger] final(self).mut_system_list(e) == old(self).mut_system_list(e),
            forall|e: LifetimeSystemExec| #[trigger] final(self).system_list(e) == old(self).system_list(e),
            final(self).entities() == old(self).entities(),
            final(self).keeps_table(old(self)),
            final(self).keeps_run(old(self)),
            final(self).events() == old(self).events(),
            final(self).timers() == old(self).timers(),
    {
        self.systems_mut.push(exec, system);
    }

    /// Registers each mutating system of `systems` last in its phase, in
    /// order.
    pub fn add_mut_systems(&mut self, systems: Vec<(M, LifetimeSystemExec)>)
        requires
            old(self).wf(),
        ensures
            final(self).wf(),
            forall|e: LifetimeSystemExec| #[trigger] final(self).mut_system_list(e) == old(self).mut_system_list(e)
                + systems_of_phase(systems@, e),
            forall|e: LifetimeSystemExec| #[trigger] final(self).system_list(e) == old(self).system_list(e),
            final(self).entities() == old(self).entities(),
            final(self).keeps_table(old(self)),
            final(self).keeps_run(old(self)),
            final(self).events() == old(self).events(),
            final(self).timers() == old(self).timers(),
    {
        let ghost all = systems@;
        let mut rest = systems;
        let ghost mut k: int = 0;
        while rest.len() > 0
            invariant
                self.wf(),
                0 <= k <= all.len(),
                rest@ == all.subrange(k, all.len() as int),
                forall|e: LifetimeSystemExec| #[trigger] self.mut_system_list(e) == old(self).mut_system_list(e)
                    + systems_of_phase(all.subrange(0, k), e),
                forall|e: LifetimeSystemExec| #[trigger] self.system_list(e) == old(self).system_list(e),
                self.entities() == old(self).entities(),
                self.keeps_table(old(self)),
                self.keeps_run(old(self)),
                self.events() == old(self).events(),
                self.timers() == old(self).timers(),
            decreases rest@.len(),
        {
            let (system, exec) = rest.remove(0);
            assert(all[k] == (system, exec));
            self.add_mut_system(system, exec);
            assert(all.subrange(0, k + 1).drop_last() == all.subrange(0, k));
            proof {
                assert forall|e: LifetimeSystemExec| #[trigger] self.mut_system_list(e) == old(self).mut_system_list(e)
                    + systems_of_phase(all.subrange(0, k + 1), e) by {
                    assert(old(self).mut_system_list(e) + systems_of_phase(all.subrange(0, k), e).push(system)
                        =~= (old(self).mut_system_list(e) + systems_of_phase(all.subrange(0, k), e)).push(system));
                }
                k = k + 1;
            }
            assert(rest@ =~= all.subrange(k, all.len() as int));
        }
        assert(all.subrange(0, k) == all);
    }

    /// The read-only systems of phase `exec`, in registration order.
    pub fn systems(&self, exec: LifetimeSystemExec) -> (r: &Vec<S>)
        ensures
            r@ == self.system_list(exec),
    {
        self.systems.get(exec)
    }

    /// Moves the mutating systems of phase `exec` out so that they can run
    /// against this scene; `restore_mut_systems` puts them back.
    pub fn take_mut_systems(&mut self, exec: LifetimeSystemExec) -> (r: Vec<M>)
        requires
            old(self).wf(),
        ensures
            final(self).wf(),
            r@ == old(self).mut_system_list(exec),
            final(self).mut_system_list(exec) == Seq::<M>::empty(),
            forall|e: LifetimeSystemExec| e != exec ==> #[trigger] final(self).mut_system_list(e) == old(self).mut_system_list(e),
            forall|e: LifetimeSystemExec| #[trigger] final(self).system_list(e) == old(self).system_list(e),
            final(self).entities() == old(self).entities(),
            final(self).keeps_table(old(self)),
            final(self).keeps_run(old(self)),
            final(self).events() == old(self).events(),
            final(self).timers() == old(self).timers(),
    {
        self.systems_mut.take(exec)
    }

    /// Puts mutating systems taken out of phase `exec` back, ahead of any
    /// registered to it while they ran.
    pub fn restore_mut_systems(&mut self, exec: LifetimeSystemExec, systems: Vec<M>)
        requires
            old(self).wf(),
        ensures
            final(self).wf(),
            final(self).mut_system_list(exec) == systems@ + old(self).mut_system_list(exec),
            forall|e: LifetimeSystemExec| e != exec ==> #[trigger] final(self).mut_system_list(e) == old(self).mut_system_list(e),
            forall|e: LifetimeSystemExec| #[trigger] final(self).system_list(e) == old(self).system_list(e),
            final(self).entities() == old(self).entities(),
            final(self).keeps_table(old(self)),
            final(self).keeps_run(old(self)),
            final(self).events() == old(self).events(),
            final(self).timers() == old(self).timers(),
    {
        self.systems_mut.restore(exec, systems);
    }

    /// Sets the running flag and puts the frame loop at its start.
    pub fn start(&mut self)
        requires
            old(self).wf(),
        ensures
            final(self).wf(),
            final(self).running(),
            final(self).stage() == Stage::Ready,
            final(self).entities() == old(self).entities(),
            final(self).events() == old(self).events(),
            final(self).timers() == old(self).timers(),
            final(self).keeps_table(old(self)),
            final(self).keeps_systems(old(self)),
    {
        self.is_running = true;
        self.stage = Stage::Ready;
    }

    /// Clears the running flag; the frame loop reads it at the top of its
    /// next iteration, so the current one completes.
    pub fn stop(&mut self)
        requires
            old(self).wf(),
        ensures
            final(self).wf(),
            !final(self).running(),
            final(self).stage() == old(self).stage(),
            final(self).entities() == old(self).entities(),
            final(self).events() == old(self).events(),
            final(self).timers() == old(self).timers(),
            final(self).keeps_table(old(self)),
            final(self).keeps_systems(old(self)),
    {
        self.is_running = false;
    }

    pub fn is_running(&self) -> (r: bool)
        ensures
            r == self.running(),
    {
        self.is_running
    }

    /// The next decision of the frame loop.
    pub fn next_action(&mut self) -> (r: RunAction)
        requires
            old(self).wf(),
        ensures
            final(self).wf(),
            (final(self).stage(), r) == spec_step(old(self).stage(), old(self).running()),
            final(self).running() == old(self).running(),
            final(self).entities() == old(self).entities(),
            final(self).events() == old(self).events(),
            final(self).timers() == old(self).timers(),
            final(self).keeps_table(old(self)),
            final(self).keeps_systems(old(self)),
    {
        let (next, action) = step(self.stage, self.is_running);
        self.stage = next;
        action
    }

    /// The clock. Fails with `ComponentNotFounded(CLOCK_KEY)` when no record
    /// offers one, and with `ComponentUnableDowncast(CLOCK_KEY)` when the
    /// value filed under that kind is not a clock.
    pub fn clock(&self) -> (r: Result<Time, ComponentError>)
        requires
            self.wf(),
        ensures
            r is Ok ==> clock_of(self.entities()) == Some(r->Ok_0),
            r is Err ==> clock_of(self.entities()) is None,
            r == Err::<Time, ComponentError>(ComponentError::ComponentNotFoundedError(ComponentNotFounded(CLOCK_KEY)))
                <==> matching_ids(self.entities(), clock_shape()).len() == 0,
            r == Err::<Time, ComponentError>(
                ComponentError::ComponentUnableDowncastError(ComponentUnableDowncast(CLOCK_KEY)),
            ) <==> (matching_ids(self.entities(), clock_shape()).len() > 0 && clock_of(self.entities()) is None),
    {
        let shape = vec![Request::shared(CLOCK_KEY)];
        assert(shape@ =~= clock_shape());
        match self.archetype.query_single(&shape) {
            None => Err(ComponentError::ComponentNotFoundedError(ComponentNotFounded::new(CLOCK_KEY))),
            Some(id) => {
                proof {
                    lemma_matching_ids_match(self.entities(), clock_shape());
                    assert(has_matching(self.entities(), clock_shape(), id));
                }
                let e = self.archetype.get_entity(id).unwrap();
                proof {
                    let j = choose|j: int| 0 <= j < self.archetype@.len() && self.archetype@[j] == *e && e.id == id;
                    lemma_clock_index(self.entities(), j);
                }
                match e.get_component(CLOCK_KEY) {
                    Ok(ComponentValue::Clock(t)) => Ok(*t),
                    _ => Err(
                        ComponentError::ComponentUnableDowncastError(ComponentUnableDowncast::new(CLOCK_KEY)),
                    ),
                }
            },
        }
    }

    /// Ticks every timer by the clock's last frame delta, purges the
    /// destroyed ones, and returns the callbacks of those that fired, in
    /// list order, for the caller to run against this scene.
    pub fn tick_timers(&mut self) -> (r: Vec<C>)
        requires
            old(self).wf(),
        ensures
            final(self).wf(),
            r@ == fired_callbacks(old(self).timers(), clock_delta(old(self).entities())),
            final(self).timers() == live_timers(ticked_all(old(self).timers(), clock_delta(old(self).entities()))),
            final(self).entities() == old(self).entities(),
            final(self).events() == old(self).events(),
            final(self).running() == old(self).running(),
            final(self).stage() == old(self).stage(),
            final(self).keeps_table(old(self)),
            final(self).keeps_systems(old(self)),
            final(self).keeps_run(old(self)),
    {
        let delta = match self.clock() {
            Ok(t) => t.delta_time,
            Err(_) => 0,
        };
        self.countdowns.update(delta)
    }

    /// Moves the clock to the monotonic time `now` (in microseconds). The
    /// clock is left as it is while an acquisition of it is outstanding.
    pub fn advance_clock(&mut self, now: u64)
        requires
            old(self).wf(),
        ensures
            final(self).wf(),
            clock_of(old(self).entities()) is None ==> final(self).entities() == old(self).entities(),
            clock_of(old(self).entities()) matches Some(t) ==> {
                let i = clock_index(old(self).entities());
                let id = old(self).entities()[i].id;
                let c = old(self).entities()[i]@[CLOCK_KEY];
                &&& c.readers == 0 ==> record_changed(
                    old(self).entities(),
                    final(self).entities(),
                    id,
                    |m: Components<ComponentValue<V>>| m.insert(
                        CLOCK_KEY,
                        CellView { value: ComponentValue::Clock(advanced(t, now)), ..c },
                    ),
                )
                &&& c.readers > 0 ==> record_changed(
                    old(self).entities(),
                    final(self).entities(),
                    id,
                    |m: Components<ComponentValue<V>>| m,
                )
            },
            final(self).next_id() == old(self).next_id(),
            final(self).events() == old(self).events(),
            final(self).timers() == old(self).timers(),
            final(self).running() == old(self).running(),
            final(self).stage() == old(self).stage(),
            final(self).keeps_systems(old(self)),
            final(self).keeps_run(old(self)),
    {
        let shape = vec![Request::shared(CLOCK_KEY)];
        assert(shape@ =~= clock_shape());
        let ghost s = self.entities();
        if let Ok(mut t) = self.clock() {
            if let Some(id) = self.archetype.query_single(&shape) {
                proof {
                    lemma_matching_ids_match(s, clock_shape());
                    assert(has_matching(s, clock_shape(), id));
                    let j = choose|j: int| 0 <= j < s.len() && s[j].id == id && crate::query::matches(s[j]@, clock_shape());
                    lemma_clock_index(s, j);
                }
                t.update(now);
                let _ = self.archetype.set_component_of_entity(id, CLOCK_KEY, ComponentValue::Clock(t));
            }
        }
    }

    /// Registers event kind `key` with an empty queue.
    pub fn add_event(&mut self, key: TypeKey)
        requires
            old(self).wf(),
        ensures
            final(self).wf(),
            final(self).events() == old(self).events().insert(key, Seq::<E>::empty()),
            final(self).entities() == old(self).entities(),
            final(self).timers() == old(self).timers(),
            final(self).keeps_table(old(self)),
            final(self).keeps_systems(old(self)),
            final(self).keeps_run(old(self)),
    {
        self.events.add_event(key);
    }

    /// Appends `data` to the queue of the registered event kind `key`.
    pub fn send_event(&mut self, key: TypeKey, data: E)
        requires
            old(self).wf(),
            old(self).events().contains_key(key),
        ensures
            final(self).wf(),
            final(self).events() == sent(old(self).events(), key, data),
            final(self).entities() == old(self).entities(),
            final(self).timers() == old(self).timers(),
            final(self).keeps_table(old(self)),
            final(self).keeps_systems(old(self)),
            final(self).keeps_run(old(self)),
    {
        self.events.send(key, data);
    }

    /// Removes and returns the oldest pending event of the registered kind
    /// `key`.
    pub fn read_event(&mut self, key: TypeKey) -> (r: Option<E>)
        requires
            old(self).wf(),
            old(self).events().contains_key(key),
        ensures
            final(self).wf(),
            r == read_result(old(self).events(), key),
            final(self).events() == after_read(old(self).events(), key),
            final(self).entities() == old(self).entities(),
            final(self).timers() == old(self).timers(),
            final(self).keeps_table(old(self)),
            final(self).keeps_systems(old(self)),
            final(self).keeps_run(old(self)),
    {
        self.events.read(key)
    }

    /// Drops every pending event of the registered kind `key`.
    pub fn clear_event(&mut self, key: TypeKey)
        requires
            old(self).wf(),
            old(self).events().contains_key(key),
        ensures
            final(self).wf(),
            final(self).events() == old(self).events().insert(key, Seq::<E>::empty()),
            final(self).entities() == old(self).entities(),
            final(self).timers() == old(self).timers(),
            final(self).keeps_table(old(self)),
            final(self).keeps_systems(old(self)),
            final(self).keeps_run(old(self)),
    {
        self.events.clear(key);
    }

    /// Appends `timer` to the scene's timers.
    pub fn add_timer(&mut self, timer: Timer<C>)
        requires
            old(self).wf(),
        ensures
            final(self).wf(),
            final(self).timers() == old(self).timers().push(timer),
            final(self).entities() == old(self).entities(),
            final(self).events() == old(self).events(),
            final(self).keeps_table(old(self)),
            final(self).keeps_systems(old(self)),
            final(self).keeps_run(old(self)),
    {
        self.countdowns.add_timer(timer);
    }

    /// Destroys, without firing, the first timer named `name`.
    pub fn stop_timer(&mut self, name: &str)
        requires
            old(self).wf(),
        ensures
            final(self).wf(),
            final(self).timers().len() == old(self).timers().len(),
            (forall|i: int| 0 <= i < old(self).timers().len() ==> old(self).timers()[i].name@ != name@)
                ==> final(self).timers() == old(self).timers(),
            forall|i: int|
                0 <= i < old(self).timers().len() && old(self).timers()[i].name@ == name@ && (forall|j: int|
                    0 <= j < i ==> old(self).timers()[j].name@ != name@) ==> final(self).timers()
                    == old(self).timers().update(i, Timer { mark_destroy: true, ..old(self).timers()[i] }),
            final(self).entities() == old(self).entities(),
            final(self).events() == old(self).events(),
            final(self).keeps_table(old(self)),
            final(self).keeps_systems(old(self)),
            final(self).keeps_run(old(self)),
    {
        self.countdowns.stop_timer(name);
    }
}

} // verus!
