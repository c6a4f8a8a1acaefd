use space_game::borrow::{Access, BorrowState};
use space_game::error::AccessError;
use space_game::registry::Registry;

const COUNTER: u64 = 1;
const OTHER: u64 = 2;

/// Reads a resource through a shared accessor of its own.
fn value(registry: &mut Registry<i64>, resource: u64) -> i64 {
    let handle = registry.get_resource(resource).unwrap();
    let accessor = handle.get(registry).unwrap();
    let value = *accessor.read(registry).unwrap();
    accessor.release(registry);
    value
}

fn registry_with_counter(value: i64) -> Registry<i64> {
    let mut registry: Registry<i64> = Registry::new();
    registry.add_resource(COUNTER, value);
    registry
}

#[test]
fn second_exclusive_accessor_is_refused() {
    let mut registry = registry_with_counter(0);
    let first = registry.get_resource_mut(COUNTER).unwrap();
    let accessor = first.get_mut(&mut registry).unwrap();
    let second = registry.get_resource_mut(COUNTER).unwrap();
    assert_eq!(second.get_mut(&mut registry).err(), Some(AccessError::BorrowConflict(COUNTER)));
    assert_eq!(registry.borrow_state(COUNTER), Some(BorrowState::Exclusive));
    accessor.release(&mut registry);
    assert!(second.get_mut(&mut registry).is_ok());
}

#[test]
fn exclusive_accessor_excludes_shared_and_exclusive_until_released() {
    let mut registry = registry_with_counter(5);
    let writer = registry.get_resource_mut(COUNTER).unwrap();
    let reader = registry.get_resource(COUNTER).unwrap();
    let accessor = writer.get_mut(&mut registry).unwrap();
    assert_eq!(reader.get(&mut registry).err(), Some(AccessError::BorrowConflict(COUNTER)));
    assert_eq!(writer.get(&mut registry).err(), Some(AccessError::BorrowConflict(COUNTER)));
    assert_eq!(writer.get_mut(&mut registry).err(), Some(AccessError::BorrowConflict(COUNTER)));
    assert_eq!(registry.borrow_state(COUNTER), Some(BorrowState::Exclusive));
    accessor.release(&mut registry);
    assert_eq!(registry.borrow_state(COUNTER), Some(BorrowState::Free));
    let shared = reader.get(&mut registry).unwrap();
    assert_eq!(shared.read(&registry), Some(&5));
    shared.release(&mut registry);
    let exclusive = writer.get_mut(&mut registry).unwrap();
    assert_eq!(exclusive.read(&registry), Some(&5));
}

#[test]
fn two_shared_accessors_are_alive_at_once() {
    let mut registry = registry_with_counter(7);
    let handle = registry.get_resource(COUNTER).unwrap();
    let copy = handle.clone();
    assert_eq!(registry.borrow_state(COUNTER), Some(BorrowState::Free));
    let first = handle.get(&mut registry).unwrap();
    assert_eq!(registry.borrow_state(COUNTER), Some(BorrowState::Shared(1)));
    let second = copy.get(&mut registry).unwrap();
    assert_eq!(registry.borrow_state(COUNTER), Some(BorrowState::Shared(2)));
    assert_eq!(first.read(&registry), Some(&7));
    assert_eq!(second.read(&registry), Some(&7));
    first.release(&mut registry);
    assert_eq!(registry.borrow_state(COUNTER), Some(BorrowState::Shared(1)));
    second.release(&mut registry);
    assert_eq!(registry.borrow_state(COUNTER), Some(BorrowState::Free));
}

#[test]
fn shared_accessor_blocks_exclusive_and_the_other_way_round() {
    let mut registry = registry_with_counter(0);
    let reader = registry.get_resource(COUNTER).unwrap();
    let writer = registry.get_resource_mut(COUNTER).unwrap();
    let shared = reader.get(&mut registry).unwrap();
    assert_eq!(writer.get_mut(&mut registry).err(), Some(AccessError::BorrowConflict(COUNTER)));
    assert_eq!(writer.replace(&mut registry, 9), Err(AccessError::BorrowConflict(COUNTER)));
    assert_eq!(value(&mut registry, COUNTER), 0);
    assert_eq!(registry.borrow_state(COUNTER), Some(BorrowState::Shared(1)));
    assert_eq!(registry.borrow_state(COUNTER), Some(BorrowState::Shared(1)));
    shared.release(&mut registry);
    let exclusive = writer.get_mut(&mut registry).unwrap();
    assert_eq!(reader.get(&mut registry).err(), Some(AccessError::BorrowConflict(COUNTER)));
    exclusive.release(&mut registry);
    assert!(reader.get(&mut registry).is_ok());
}

#[test]
fn borrows_of_one_resource_leave_the_others_alone() {
    let mut registry = registry_with_counter(1);
    registry.add_resource(OTHER, 2);
    let writer = registry.get_resource_mut(COUNTER).unwrap();
    let accessor = writer.get_mut(&mut registry).unwrap();
    let other = registry.get_resource_mut(OTHER).unwrap();
    let other_accessor = other.get_mut(&mut registry).unwrap();
    assert_eq!(other_accessor.read(&registry), Some(&2));
    assert_eq!(accessor.read(&registry), Some(&1));
    assert_eq!(registry.borrow_state(OTHER), Some(BorrowState::Exclusive));
}

#[test]
fn exclusive_accessor_writes_and_reads_back() {
    let mut registry = registry_with_counter(3);
    let writer = registry.get_resource_mut(COUNTER).unwrap();
    let accessor = writer.get_mut(&mut registry).unwrap();
    assert_eq!(accessor.write(&mut registry, 4), Ok(3));
    assert_eq!(accessor.read(&registry), Some(&4));
    assert_eq!(registry.borrow_state(COUNTER), Some(BorrowState::Exclusive));
    accessor.release(&mut registry);
    assert_eq!(value(&mut registry, COUNTER), 4);
}

#[test]
fn accessor_of_a_released_borrow_reads_nothing_and_writes_nothing() {
    let mut registry = registry_with_counter(3);
    let writer = registry.get_resource_mut(COUNTER).unwrap();
    let accessor = writer.get_mut(&mut registry).unwrap();
    // Registering the resource anew drops the borrow that was alive on it.
    registry.add_resource(COUNTER, 10);
    assert_eq!(registry.borrow_state(COUNTER), Some(BorrowState::Free));
    assert_eq!(accessor.read(&registry), None);
    assert_eq!(accessor.write(&mut registry, 4), Err(AccessError::BorrowConflict(COUNTER)));
    assert_eq!(value(&mut registry, COUNTER), 10);
    let mut empty: Registry<i64> = Registry::new();
    assert_eq!(accessor.read(&empty), None);
    assert_eq!(accessor.write(&mut empty, 4), Err(AccessError::MissingResource(COUNTER)));
}

#[test]
fn replace_swaps_the_value_of_a_free_resource() {
    let mut registry = registry_with_counter(3);
    let writer = registry.get_resource_mut(COUNTER).unwrap();
    assert_eq!(writer.replace(&mut registry, 8), Ok(3));
    assert_eq!(value(&mut registry, COUNTER), 8);
    assert_eq!(registry.borrow_state(COUNTER), Some(BorrowState::Free));
    let accessor = writer.get_mut(&mut registry).unwrap();
    assert_eq!(writer.replace(&mut registry, 9), Err(AccessError::BorrowConflict(COUNTER)));
    assert_eq!(accessor.read(&registry), Some(&8));
    accessor.release(&mut registry);
    let mut empty: Registry<i64> = Registry::new();
    assert_eq!(writer.replace(&mut empty, 9), Err(AccessError::MissingResource(COUNTER)));
}

#[test]
fn handles_name_their_resource_and_borrow_nothing() {
    let registry = registry_with_counter(3);
    let reader = registry.get_resource(COUNTER).unwrap();
    let writer = registry.get_resource_mut(COUNTER).unwrap();
    assert_eq!(reader.resource(), COUNTER);
    assert_eq!(writer.resource(), COUNTER);
    assert_eq!(writer.clone().resource(), COUNTER);
    assert_eq!(registry.borrow_state(COUNTER), Some(BorrowState::Free));
}

#[test]
fn borrow_state_follows_its_transitions() {
    let mut state = BorrowState::Free;
    assert!(state.can_acquire(Access::Shared));
    assert!(state.can_acquire(Access::Exclusive));
    assert!(state.try_acquire(Access::Shared));
    assert_eq!(state, BorrowState::Shared(1));
    assert!(state.try_acquire(Access::Shared));
    assert_eq!(state, BorrowState::Shared(2));
    assert!(!state.try_acquire(Access::Exclusive));
    assert_eq!(state, BorrowState::Shared(2));
    state.release(Access::Exclusive);
    assert_eq!(state, BorrowState::Shared(2));
    state.release(Access::Shared);
    assert_eq!(state, BorrowState::Shared(1));
    state.release(Access::Shared);
    assert_eq!(state, BorrowState::Free);
    state.release(Access::Shared);
    assert_eq!(state, BorrowState::Free);
    assert!(state.try_acquire(Access::Exclusive));
    assert_eq!(state, BorrowState::Exclusive);
    assert!(!state.try_acquire(Access::Shared));
    assert!(!state.try_acquire(Access::Exclusive));
    assert_eq!(state, BorrowState::Exclusive);
    state.release(Access::Shared);
    assert_eq!(state, BorrowState::Exclusive);
    state.release(Access::Exclusive);
    assert_eq!(state, BorrowState::Free);
}

#[test]
fn shared_count_stops_at_the_largest_number() {
    let mut state = BorrowState::Shared(usize::MAX);
    assert!(!state.can_acquire(Access::Shared));
    assert!(!state.try_acquire(Access::Shared));
    assert_eq!(state, BorrowState::Shared(usize::MAX));
    let mut below = BorrowState::Shared(usize::MAX - 1);
    assert!(below.try_acquire(Access::Shared));
    assert_eq!(below, BorrowState::Shared(usize::MAX));
}

#[test]
fn scoped_read_and_update_give_their_borrow_back() {
    let mut registry = registry_with_counter(20);
    let reader = registry.get_resource(COUNTER).unwrap();
    let writer = registry.get_resource_mut(COUNTER).unwrap();
    assert_eq!(reader.read_with(&mut registry, |value: &i64| *value + 1), Ok(21));
    assert_eq!(registry.borrow_state(COUNTER), Some(BorrowState::Free));
    assert_eq!(writer.update_with(&mut registry, |value: &i64| *value * 2), Ok(()));
    assert_eq!(registry.borrow_state(COUNTER), Some(BorrowState::Free));
    assert_eq!(value(&mut registry, COUNTER), 40);
    // A live shared accessor admits the scoped read and refuses the update.
    let shared = reader.get(&mut registry).unwrap();
    assert_eq!(reader.read_with(&mut registry, |value: &i64| *value), Ok(40));
    assert_eq!(
        writer.update_with(&mut registry, |value: &i64| *value + 1),
        Err(AccessError::BorrowConflict(COUNTER))
    );
    assert_eq!(registry.borrow_state(COUNTER), Some(BorrowState::Shared(1)));
    shared.release(&mut registry);
    // The live exclusive accessor refuses both.
    let exclusive = writer.get_mut(&mut registry).unwrap();
    assert_eq!(
        reader.read_with(&mut registry, |value: &i64| *value),
        Err(AccessError::BorrowConflict(COUNTER))
    );
    assert_eq!(
        writer.update_with(&mut registry, |value: &i64| *value + 1),
        Err(AccessError::BorrowConflict(COUNTER))
    );
    assert_eq!(exclusive.read(&registry), Some(&40));
    let mut empty: Registry<i64> = Registry::new();
    assert_eq!(
        reader.read_with(&mut empty, |value: &i64| *value),
        Err(AccessError::MissingResource(COUNTER))
    );
    assert_eq!(
        writer.update_with(&mut empty, |value: &i64| *value),
        Err(AccessError::MissingResource(COUNTER))
    );
}
