use event_ticketing::factory::{DeployedEvent, FactoryContract, FactoryError};
use event_ticketing::identity::{Address, Symbol};

fn test_wasm_hash(fill: u8) -> [u8; 32] {
    [fill; 32]
}

#[test]
fn test_initialize_stores_admin_and_event_wasm_hash() {
    let mut client = FactoryContract::new();
    let admin = Address::new("admin");
    let event_wasm_hash = test_wasm_hash(7);
    client.initialize(&admin, &event_wasm_hash).unwrap();
    assert_eq!(client.get_admin().unwrap(), admin);
    assert_eq!(client.get_event_wasm_hash().unwrap(), event_wasm_hash);
}

#[test]
fn test_double_initialization_is_noop() {
    let mut client = FactoryContract::new();
    let admin_one = Address::new("admin1");
    let hash_one = test_wasm_hash(1);
    let admin_two = Address::new("admin2");
    let hash_two = test_wasm_hash(2);
    client.initialize(&admin_one, &hash_one).unwrap();
    let result = client.initialize(&admin_two, &hash_two);
    assert!(result.is_ok());
    assert_eq!(client.get_admin().unwrap(), admin_one);
    assert_eq!(client.get_event_wasm_hash().unwrap(), hash_one);
}

#[test]
fn test_get_nonexistent_event_returns_error() {
    let client = FactoryContract::new();
    let result = client.get_deployed_event(&Symbol::new("missing_event"));
    assert_eq!(result.err(), Some(FactoryError::EventNotFoundInRegistry));
}

#[test]
fn deployments_are_listed_once_in_order() {
    let mut client = FactoryContract::new();
    assert_eq!(client.get_admin().err(), Some(FactoryError::NotInitialized));
    let org = Address::new("org");
    let other = Address::new("other");
    let d = |id: &str, who: &Address, at: u64| DeployedEvent {
        event_id: Symbol::new(id),
        contract_address: Address::new(&format!("contract_{}", id)),
        organizer: who.clone(),
        deployed_at: at,
    };
    assert_eq!(client.save_deployed_event(&d("e1", &org, 1)), Ok(()));
    assert_eq!(client.save_deployed_event(&d("e2", &other, 2)), Ok(()));
    assert_eq!(client.save_deployed_event(&d("e3", &org, 3)), Ok(()));
    assert_eq!(client.save_deployed_event(&d("e1", &other, 4)), Err(FactoryError::EventAlreadyDeployed));
    assert_eq!(client.get_all_event_ids(), vec![Symbol::new("e1"), Symbol::new("e2"), Symbol::new("e3")]);
    assert_eq!(client.get_organizer_events(&org), vec![Symbol::new("e1"), Symbol::new("e3")]);
    assert_eq!(client.get_deployed_event(&Symbol::new("e1")).unwrap(), d("e1", &org, 1));
    assert_eq!(FactoryError::EventNotFoundInRegistry.code(), 3);
}
