use bifrost_ecs::archetype::Archetype;
use bifrost_ecs::cell::Access;
use bifrost_ecs::entity::EntityStorage;
use bifrost_ecs::errors::{
    ArchetypeError, ComponentAlreadyBorrowed, ComponentAlreadyExists, ComponentError,
    ComponentNotFounded, ComponentUnableDowncast, EntityAlreadyHaveComponent, EntityNotFounded,
};
use bifrost_ecs::query::{shape_is_consistent, Request};

const A: u64 = 10;
const B: u64 = 11;
const C: u64 = 12;

fn record(id: u32, kinds: &[u64]) -> EntityStorage<u32> {
    let mut e = EntityStorage::new(id);
    for k in kinds {
        e.add_component(*k, id * 100 + *k as u32).unwrap();
    }
    e
}

fn table(kinds: &[&[u64]]) -> Archetype<u32> {
    let mut t = Archetype::new();
    for ks in kinds {
        let id = t.next_id();
        t.spawn(record(id, ks));
    }
    t
}

#[test]
fn query_pair_returns_holders_in_order() {
    let t = table(&[&[A, B], &[A], &[A, B, C]]);
    let shape = vec![Request::shared(A), Request::shared(B)];
    assert_eq!(t.query(&shape).result, vec![0, 2]);
    assert_eq!(t.query_single(&shape), Some(0));
    assert_eq!(t.query(&vec![Request::shared(C)]).result, vec![2]);
    assert_eq!(t.query_single(&vec![Request::shared(99)]), None);
    assert!(t.query(&vec![Request::shared(99)]).result.is_empty());
}

#[test]
fn query_respects_outstanding_acquisitions() {
    let mut t = table(&[&[A, B], &[A, B]]);
    t.remove_entity(0);
    let mut e = record(5, &[A, B]);
    e.acquire(A, Access::Exclusive).unwrap();
    t.spawn(e);
    let shape = vec![Request::shared(A), Request::shared(B)];
    assert_eq!(t.query(&shape).result, vec![1]);
    let shape_b = vec![Request::exclusive(B)];
    assert_eq!(t.query(&shape_b).result, vec![1, 5]);
}

#[test]
fn conflicting_slots_match_nothing() {
    let t = table(&[&[A, B]]);
    let bad = vec![Request::shared(A), Request::exclusive(A)];
    assert!(!shape_is_consistent(&bad));
    assert!(t.query(&bad).result.is_empty());
    let twice_shared = vec![Request::shared(A), Request::shared(A)];
    assert!(shape_is_consistent(&twice_shared));
    assert_eq!(t.query(&twice_shared).result, vec![0]);
    let two_exclusive = vec![Request::exclusive(A), Request::exclusive(A)];
    assert!(t.query(&two_exclusive).result.is_empty());
}

#[test]
fn remove_one_of_n_keeps_the_rest() {
    let n = 5u32;
    let mut t: Archetype<u32> = Archetype::new();
    for i in 0..n {
        let e = record(i, &[A, B + (i as u64 % 2)]);
        t.spawn(e);
    }
    assert_eq!(t.len(), 5);
    t.remove_entity(2);
    assert_eq!(t.len(), 4);
    assert!(t.get_entity(2).is_none());
    for i in [0u32, 1, 3, 4] {
        let e = t.get_entity(i).unwrap();
        assert_eq!(e.id, i);
        assert_eq!(e.get_component(A), Ok(&(i * 100 + A as u32)));
        let other = B + (i as u64 % 2);
        assert_eq!(e.get_component(other), Ok(&(i * 100 + other as u32)));
    }
    t.remove_entity(42);
    assert_eq!(t.len(), 4);
}

#[test]
fn ids_are_not_reused_after_removal() {
    let mut t = table(&[&[A], &[A], &[A]]);
    t.remove_entity(0);
    assert_eq!(t.len(), 2);
    assert_eq!(t.next_id(), 3);
    let id = t.next_id();
    t.spawn(record(id, &[A]));
    assert_eq!(t.query(&vec![Request::shared(A)]).result, vec![1, 2, 3]);
}

#[test]
fn add_component_to_entity_errors() {
    let mut t = table(&[&[A]]);
    assert_eq!(
        t.add_component_to_entity(3, B, 1),
        Err(ArchetypeError::EntityNotFoundedError(EntityNotFounded(3)))
    );
    assert_eq!(
        t.add_component_to_entity(0, A, 1),
        Err(ArchetypeError::EntityAlreadyHaveComponentError(
            EntityAlreadyHaveComponent(0, A)
        ))
    );
    assert_eq!(t.add_component_to_entity(0, B, 7), Ok(()));
    assert_eq!(t.get_entity(0).unwrap().get_component(B), Ok(&7));
    assert_eq!(
        ArchetypeError::entity_not_founded(3),
        ArchetypeError::EntityNotFoundedError(EntityNotFounded::new(3))
    );
    assert_eq!(EntityAlreadyHaveComponent::new(1, 2), EntityAlreadyHaveComponent(1, 2));
}

#[test]
fn remove_and_set_component_of_entity() {
    let mut t = table(&[&[A, B], &[A, B]]);
    assert_eq!(t.remove_component_from_entity(1, A), Ok(()));
    assert_eq!(t.query(&vec![Request::shared(A)]).result, vec![0]);
    assert_eq!(t.set_component_of_entity(0, B, 77), Ok(()));
    assert_eq!(t.get_entity(0).unwrap().get_component(B), Ok(&77));
    assert_eq!(
        t.set_component_of_entity(9, B, 1),
        Err(ComponentError::ComponentNotFoundedError(ComponentNotFounded(B)))
    );
    assert_eq!(
        t.remove_component_from_entity(9, A),
        Err(ArchetypeError::EntityNotFoundedError(EntityNotFounded(9)))
    );
    assert_eq!(t.len(), 2);
}

#[test]
fn set_and_acquire_report_busy_and_missing() {
    let mut t = table(&[&[A]]);
    assert_eq!(t.acquire_component(0, A, Access::Shared), Ok(()));
    assert_eq!(
        t.set_component_of_entity(0, A, 5),
        Err(ComponentError::ComponentAlreadyBorrowedError(ComponentAlreadyBorrowed(A)))
    );
    assert_eq!(
        t.acquire_component(0, A, Access::Exclusive),
        Err(ComponentError::ComponentAlreadyBorrowedError(ComponentAlreadyBorrowed(A)))
    );
    assert_eq!(
        t.acquire_component(0, B, Access::Shared),
        Err(ComponentError::ComponentNotFoundedError(ComponentNotFounded(B)))
    );
    t.release_component(0, A, Access::Shared);
    assert_eq!(t.set_component_of_entity(0, A, 5), Ok(()));
}

#[test]
fn error_messages() {
    assert_eq!(ArchetypeError::entity_not_founded(7).message(), "Entity 7 not founded");
    assert_eq!(
        ArchetypeError::EntityAlreadyHaveComponentError(EntityAlreadyHaveComponent(12, 305)).message(),
        "Entity 12 already have component 305"
    );
    assert_eq!(
        ComponentError::ComponentNotFoundedError(ComponentNotFounded(0)).message(),
        "Component 0 not founded"
    );
    assert_eq!(
        ComponentError::ComponentAlreadyBorrowedError(ComponentAlreadyBorrowed(90)).message(),
        "Component 90 already borrowed"
    );
    assert_eq!(
        ComponentError::ComponentAlreadyExistsError(ComponentAlreadyExists(4)).message(),
        "Component 4 already exists"
    );
    assert_eq!(
        ComponentError::ComponentUnableDowncastError(ComponentUnableDowncast(u64::MAX))
            .message(),
        "Unable downcast component 18446744073709551615"
    );
}
