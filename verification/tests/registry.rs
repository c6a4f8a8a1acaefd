use space_game::borrow::BorrowState;
use space_game::error::AccessError;
use space_game::registry::Registry;
use space_game::scheduler::App;
use space_game::wrapper::SystemWrapper;

type Function = fn(Vec<&String>) -> Vec<String>;
type Game = App<String, SystemWrapper<String, Function>>;

const NAME: u64 = 10;
const TITLE: u64 = 11;
const MISSING: u64 = 99;

/// Reads a resource through a shared accessor of its own.
fn value(registry: &mut Registry<String>, resource: u64) -> String {
    let handle = registry.get_resource(resource).unwrap();
    let accessor = handle.get(registry).unwrap();
    let value = accessor.read(registry).unwrap().clone();
    accessor.release(registry);
    value
}

#[test]
fn registered_value_is_read_back_through_a_handle() {
    let mut registry: Registry<String> = Registry::new();
    registry.add_resource(NAME, String::from("first"));
    let handle = registry.get_resource(NAME).unwrap();
    let accessor = handle.get(&mut registry).unwrap();
    assert_eq!(accessor.read(&registry), Some(&String::from("first")));
    accessor.release(&mut registry);
    // Other registrations and borrows leave the value alone.
    registry.add_resource(TITLE, String::from("title"));
    let title = registry.get_resource_mut(TITLE).unwrap();
    let title_accessor = title.get_mut(&mut registry).unwrap();
    title_accessor.write(&mut registry, String::from("other")).unwrap();
    title_accessor.release(&mut registry);
    assert_eq!(value(&mut registry, NAME), "first");
    // A later registration of the same resource overwrites it.
    registry.add_resource(NAME, String::from("second"));
    let accessor = handle.get(&mut registry).unwrap();
    assert_eq!(accessor.read(&registry), Some(&String::from("second")));
}

#[test]
fn registering_anew_frees_the_cell() {
    let mut registry: Registry<String> = Registry::new();
    registry.add_resource(NAME, String::from("first"));
    let handle = registry.get_resource_mut(NAME).unwrap();
    let _accessor = handle.get_mut(&mut registry).unwrap();
    assert_eq!(registry.borrow_state(NAME), Some(BorrowState::Exclusive));
    registry.add_resource(NAME, String::from("second"));
    assert_eq!(registry.borrow_state(NAME), Some(BorrowState::Free));
    assert_eq!(value(&mut registry, NAME), "second");
}

#[test]
fn missing_resource_yields_no_handle() {
    let mut registry: Registry<String> = Registry::default();
    assert!(registry.get_resource(MISSING).is_none());
    assert!(registry.get_resource_mut(MISSING).is_none());
    assert!(!registry.contains(MISSING));
    assert_eq!(registry.borrow_state(MISSING), None);
    registry.add_resource(NAME, String::from("first"));
    assert!(registry.get_resource(MISSING).is_none());
    assert!(registry.get_resource_mut(MISSING).is_none());
    assert!(registry.contains(NAME));
}

#[test]
fn scheduler_hands_out_handles_of_its_registry() {
    let mut app: Game = App::new();
    assert!(app.get_resource(NAME).is_none());
    assert!(app.get_resource_mut(NAME).is_none());
    app.add_resource(NAME, String::from("first"));
    let reader = app.get_resource(NAME).unwrap();
    let writer = app.get_resource_mut(NAME).unwrap();
    assert!(app.get_resource(MISSING).is_none());
    let accessor = reader.get(app.registry_mut()).unwrap();
    assert_eq!(accessor.read(app.registry()), Some(&String::from("first")));
    assert_eq!(
        writer.get_mut(app.registry_mut()).err(),
        Some(AccessError::BorrowConflict(NAME))
    );
    accessor.release(app.registry_mut());
    assert_eq!(writer.replace(app.registry_mut(), String::from("second")), Ok(String::from("first")));
    assert_eq!(value(app.registry_mut(), NAME), "second");
}

#[test]
fn access_errors_name_the_resource() {
    assert_eq!(AccessError::MissingResource(7).resource(), 7);
    assert_eq!(AccessError::BorrowConflict(8).resource(), 8);
    assert_eq!(AccessError::MissingResource(7).to_text(), "missing resource: 7");
    assert_eq!(AccessError::BorrowConflict(0).to_text(), "borrow conflict: 0");
    assert_eq!(
        AccessError::MissingResource(u64::MAX).to_text(),
        "missing resource: 18446744073709551615"
    );
}
