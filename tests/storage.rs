use bifrost_ecs::cell::{Access, Busy, ComponentCell};
use bifrost_ecs::entity::EntityStorage;
use bifrost_ecs::errors::{
    ComponentAlreadyBorrowed, ComponentAlreadyExists, ComponentError, ComponentNotFounded,
};
use std::collections::HashSet;

const A: u64 = 1;
const B: u64 = 2;
const C: u64 = 3;

#[test]
fn component_present_iff_added_and_not_removed() {
    let mut e: EntityStorage<i32> = EntityStorage::new(7);
    assert!(!e.has_component(A));
    assert!(e.add_component(A, 10).is_ok());
    assert!(e.add_component(B, 20).is_ok());
    assert_eq!(e.get_component(A), Ok(&10));
    e.remove_component(A);
    assert!(!e.has_component(A));
    assert_eq!(
        e.get_component(A),
        Err(ComponentError::ComponentNotFoundedError(ComponentNotFounded(A)))
    );
    assert_eq!(e.get_component(B), Ok(&20));
    e.remove_component(C);
    assert!(e.add_component(A, 11).is_ok());
    assert_eq!(e.get_component(A), Ok(&11));
    e.remove_component(B);
    e.remove_component(B);
    assert!(!e.has_component(B));
    assert_eq!(e.id, 7);
}

#[test]
fn add_existing_component_is_rejected() {
    let mut e: EntityStorage<i32> = EntityStorage::new(0);
    assert!(e.add_component(A, 1).is_ok());
    assert_eq!(
        e.add_component(A, 2),
        Err(ComponentError::ComponentAlreadyExistsError(ComponentAlreadyExists(A)))
    );
    assert_eq!(e.get_component(A), Ok(&1));
}

#[test]
fn two_shared_then_exclusive_after_release() {
    let mut e: EntityStorage<i32> = EntityStorage::new(0);
    e.add_component(A, 5).unwrap();
    assert!(e.acquire(A, Access::Shared).is_ok());
    assert!(e.acquire(A, Access::Shared).is_ok());
    assert_eq!(
        e.acquire(A, Access::Exclusive),
        Err(ComponentError::ComponentAlreadyBorrowedError(ComponentAlreadyBorrowed(A)))
    );
    assert_eq!(e.get_component(A), Ok(&5));
    e.release(A, Access::Shared);
    assert!(e.acquire(A, Access::Exclusive).is_err());
    e.release(A, Access::Shared);
    assert!(e.acquire(A, Access::Exclusive).is_ok());
    assert_eq!(
        e.get_component(A),
        Err(ComponentError::ComponentAlreadyBorrowedError(ComponentAlreadyBorrowed(A)))
    );
    assert!(e.acquire(A, Access::Shared).is_err());
    assert!(e.acquire(A, Access::Exclusive).is_err());
    e.release(A, Access::Exclusive);
    assert!(e.acquire(A, Access::Shared).is_ok());
}

#[test]
fn acquire_missing_component() {
    let mut e: EntityStorage<i32> = EntityStorage::new(0);
    assert_eq!(
        e.acquire(B, Access::Shared),
        Err(ComponentError::ComponentNotFoundedError(ComponentNotFounded(B)))
    );
}

#[test]
fn cell_ledger() {
    let mut c = ComponentCell::new(3u8);
    assert_eq!(c.try_read(), Ok(()));
    assert_eq!(c.try_read(), Ok(()));
    assert_eq!(c.try_write(), Err(Busy));
    assert!(!c.is_available(Access::Exclusive));
    c.release(Access::Shared);
    c.release(Access::Shared);
    assert!(c.is_available(Access::Exclusive));
    assert_eq!(c.try_acquire(Access::Exclusive), Ok(()));
    assert!(c.is_held_exclusively());
    c.set(9);
    assert_eq!(*c.get(), 9);
    assert_eq!(c.try_read(), Err(Busy));
    c.release(Access::Exclusive);
    assert_eq!(c.into_inner(), 9);
}

#[test]
fn set_component_needs_no_outstanding_acquisition() {
    let mut e: EntityStorage<i32> = EntityStorage::new(0);
    e.add_component(A, 1).unwrap();
    assert!(e.set_component(A, 2).is_ok());
    assert_eq!(e.get_component(A), Ok(&2));
    e.acquire(A, Access::Shared).unwrap();
    assert_eq!(
        e.set_component(A, 3),
        Err(ComponentError::ComponentAlreadyBorrowedError(ComponentAlreadyBorrowed(A)))
    );
    assert_eq!(e.get_component(A), Ok(&2));
    assert_eq!(
        e.set_component(C, 3),
        Err(ComponentError::ComponentNotFoundedError(ComponentNotFounded(C)))
    );
}

#[test]
fn add_components_attaches_bundle() {
    let mut e: EntityStorage<&str> = EntityStorage::new(4);
    let reserved: HashSet<u64> = [99u64].into_iter().collect();
    e.add_components(&reserved, vec![(A, "a"), (C, "c")]);
    assert_eq!(e.get_component(A), Ok(&"a"));
    assert_eq!(e.get_component(C), Ok(&"c"));
    assert!(!e.has_component(B));
}
