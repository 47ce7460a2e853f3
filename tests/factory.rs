use event_tickets::{ContractError, EventDetails, FactoryContract};

fn new_event_details() -> EventDetails {
    EventDetails {
        date: 1_700_000_000 * 1000 * 1000000,
        location: "space".to_owned(),
        title: "space party".to_owned(),
        description: "come dance and chat with friends".to_owned(),
        image_url: "".to_owned(),
    }
}

fn init() -> (String, FactoryContract) {
    ("master".to_string(), FactoryContract::new("events".to_string()))
}

#[test]
fn test_create_event() {
    let (master_account, mut factory) = init();
    let inst = factory
        .create_event("spacejam".to_string(), new_event_details(), &master_account, 5)
        .unwrap();
    assert_eq!(inst.address, "spacejam.events");
    assert_eq!(inst.host, "master");
    assert_eq!(inst.deposit, 5);
    assert_eq!(inst.details.title, "space party");
    assert!(factory.get_event_names().is_empty());
    factory.on_event_created(&"spacejam".to_string(), true);
    assert_eq!(factory.get_event_names(), vec!["spacejam".to_string()]);
}

#[test]
fn scenario_failed_creation_frees_name() {
    let (caller, mut factory) = init();
    let name = "spacejam".to_string();
    assert!(factory.create_event(name.clone(), new_event_details(), &caller, 0).is_ok());
    factory.on_event_created(&name, false);
    assert!(factory.get_event_names().is_empty());
    assert!(factory.create_event(name.clone(), new_event_details(), &caller, 0).is_ok());
    factory.on_event_created(&name, true);
    assert_eq!(factory.get_event_names(), vec![name]);
}

#[test]
fn pending_or_created_name_is_taken() {
    let (caller, mut factory) = init();
    let name = "gala".to_string();
    assert!(factory.create_event(name.clone(), new_event_details(), &caller, 0).is_ok());
    assert_eq!(
        factory.create_event(name.clone(), new_event_details(), &caller, 0).err(),
        Some(ContractError::NameTaken)
    );
    factory.on_event_created(&name, true);
    assert_eq!(
        factory.create_event(name.clone(), new_event_details(), &caller, 0).err(),
        Some(ContractError::NameTaken)
    );
}

#[test]
fn creation_report_is_idempotent_and_ignores_unknown_names() {
    let (caller, mut factory) = init();
    let name = "gala".to_string();
    assert!(factory.create_event(name.clone(), new_event_details(), &caller, 0).is_ok());
    factory.on_event_created(&name, true);
    factory.on_event_created(&name, false);
    factory.on_event_created(&name, true);
    factory.on_event_created(&"unknown".to_string(), true);
    assert_eq!(factory.get_event_names(), vec![name]);
}

#[test]
fn event_names_keep_registry_order() {
    let (caller, mut factory) = init();
    for n in ["a", "b", "c", "d"] {
        assert!(factory.create_event(n.to_string(), new_event_details(), &caller, 0).is_ok());
    }
    factory.on_event_created(&"c".to_string(), true);
    factory.on_event_created(&"a".to_string(), true);
    factory.on_event_created(&"b".to_string(), false);
    assert_eq!(factory.get_event_names(), vec!["a".to_string(), "c".to_string()]);
    assert_eq!(factory.create_event("e".to_string(), new_event_details(), &caller, 0).unwrap().address, "e.events");
}
