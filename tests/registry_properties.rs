use event_ticketing::event_registry::EventContract;
use event_ticketing::event_types::{
    CreateEventParams, EventError, EventStatus, TicketTierParams, UpdateEventParams,
};
use event_ticketing::identity::{Address, Symbol};

const NOW: u64 = 1_000_000;

fn tier(name: &str, price: i128, capacity: u32) -> TicketTierParams {
    TicketTierParams { name: String::from(name), price, capacity }
}

fn create(client: &mut EventContract, organizer: &Address, id: &str, tiers: Vec<TicketTierParams>) -> Symbol {
    let p = CreateEventParams {
        organizer: organizer.clone(),
        event_id: Symbol::new(id),
        name: String::from("Festival"),
        description: String::from("Open air"),
        venue: String::from("Park"),
        event_date: NOW + 200_000,
        initial_tiers: tiers,
    };
    client.create_event(&p, NOW).unwrap();
    Symbol::new(id)
}

#[test]
fn scenario_tier_of_one_sells_out() {
    let mut client = EventContract::new();
    let organizer = Address::new("O");
    let a = Address::new("A");
    let b = Address::new("B");
    let e = create(&mut client, &organizer, "E", vec![tier("T", 100, 1)]);
    assert_eq!(client.register_for_event(&a, &e, 0), Err(EventError::EventNotActive));
    client.update_event_status(&organizer, &e, &EventStatus::Active).unwrap();
    assert_eq!(client.register_for_event(&a, &e, 0), Ok(()));
    assert_eq!(client.get_event(&e).unwrap().tiers[0].sold, 1);
    assert_eq!(client.register_for_event(&b, &e, 0), Err(EventError::TierSoldOut));
    assert_eq!(client.is_registered(&e, &a), Ok(true));
    assert_eq!(client.is_registered(&e, &b), Ok(false));
}

#[test]
fn scenario_status_skipping_active_fails() {
    let mut client = EventContract::new();
    let organizer = Address::new("O");
    let e = create(&mut client, &organizer, "E", vec![tier("T", 100, 10)]);
    assert_eq!(
        client.update_event_status(&organizer, &e, &EventStatus::Completed),
        Err(EventError::InvalidStatusTransition)
    );
    assert_eq!(client.update_event_status(&organizer, &e, &EventStatus::Active), Ok(()));
    assert_eq!(client.update_event_status(&organizer, &e, &EventStatus::Completed), Ok(()));
}

#[test]
fn filling_a_tier_to_capacity() {
    let mut client = EventContract::new();
    let organizer = Address::new("O");
    let e = create(&mut client, &organizer, "E", vec![tier("T", 0, 3)]);
    client.update_event_status(&organizer, &e, &EventStatus::Active).unwrap();
    for i in 0..3 {
        let a = Address::new(&format!("attendee{}", i));
        assert_eq!(client.register_for_event(&a, &e, 0), Ok(()));
        let t = &client.get_event(&e).unwrap().tiers[0];
        assert!(t.sold <= t.capacity);
    }
    let late = Address::new("late");
    assert_eq!(client.register_for_event(&late, &e, 0), Err(EventError::TierSoldOut));
    assert_eq!(client.get_event(&e).unwrap().tiers[0].sold, 3);
}

#[test]
fn second_registration_fails_after_interleaving() {
    let mut client = EventContract::new();
    let organizer = Address::new("O");
    let e = create(&mut client, &organizer, "E", vec![tier("T", 0, 10), tier("VIP", 50, 2)]);
    client.update_event_status(&organizer, &e, &EventStatus::Active).unwrap();
    let a = Address::new("A");
    client.register_for_event(&a, &e, 0).unwrap();
    client.register_for_event(&Address::new("B"), &e, 0).unwrap();
    client.register_for_event(&Address::new("C"), &e, 1).unwrap();
    assert_eq!(client.register_for_event(&a, &e, 0), Err(EventError::AlreadyRegistered));
    assert_eq!(client.register_for_event(&a, &e, 1), Err(EventError::AlreadyRegistered));
    let attendees = client.get_attendees(&e).unwrap();
    assert_eq!(attendees.len(), 3);
    assert_eq!(attendees[0], a);
}

#[test]
fn status_lattice_refuses_every_other_pair() {
    let organizer = Address::new("O");
    let all = [EventStatus::Upcoming, EventStatus::Active, EventStatus::Completed, EventStatus::Cancelled];
    for target in all {
        let mut client = EventContract::new();
        let e = create(&mut client, &organizer, "E", vec![tier("T", 0, 10)]);
        let r = client.update_event_status(&organizer, &e, &target);
        if target == EventStatus::Active {
            assert_eq!(r, Ok(()));
        } else {
            assert_eq!(r, Err(EventError::InvalidStatusTransition));
        }
    }
    let mut client = EventContract::new();
    let e = create(&mut client, &organizer, "E", vec![tier("T", 0, 10)]);
    client.update_event_status(&organizer, &e, &EventStatus::Active).unwrap();
    assert_eq!(
        client.update_event_status(&organizer, &e, &EventStatus::Upcoming),
        Err(EventError::InvalidStatusTransition)
    );
    assert_eq!(client.cancel_event(&organizer, &e), Ok(()));
    assert_eq!(client.cancel_event(&organizer, &e), Err(EventError::InvalidStatusTransition));
    for target in all {
        assert_eq!(
            client.update_event_status(&organizer, &e, &target),
            Err(EventError::InvalidStatusTransition)
        );
    }
    assert_eq!(client.get_event_status(&e), Ok(EventStatus::Cancelled));
}

#[test]
fn empty_update_leaves_record_unchanged() {
    let mut client = EventContract::new();
    let organizer = Address::new("O");
    let e = create(&mut client, &organizer, "E", vec![tier("T", 5, 10), tier("U", 7, 20)]);
    let before = client.get_event(&e).unwrap();
    let p = UpdateEventParams {
        organizer: organizer.clone(),
        event_id: e.clone(),
        name: None,
        description: None,
        venue: None,
        event_date: None,
    };
    assert_eq!(client.update_event_details(&p, NOW), Ok(before.clone()));
    assert_eq!(client.get_event(&e), Ok(before));
}

#[test]
fn created_event_numbers_tiers_from_zero() {
    let mut client = EventContract::new();
    let organizer = Address::new("O");
    let e = create(&mut client, &organizer, "E", vec![tier("A", 1, 10), tier("B", 2, 20), tier("C", 3, 30)]);
    let ev = client.get_event(&e).unwrap();
    assert_eq!(ev.created_at, NOW);
    assert_eq!(ev.organizer, organizer);
    assert_eq!(ev.event_date, NOW + 200_000);
    for (i, t) in ev.tiers.iter().enumerate() {
        assert_eq!(t.tier_id, i as u32);
        assert_eq!(t.sold, 0);
        assert_eq!(t.capacity, 10 * (i as u32 + 1));
    }
}

#[test]
fn creation_checks_date_boundary_and_tiers() {
    let organizer = Address::new("O");
    let mk = |date: u64, tiers: Vec<TicketTierParams>| CreateEventParams {
        organizer: organizer.clone(),
        event_id: Symbol::new("E"),
        name: String::from("N"),
        description: String::new(),
        venue: String::from("V"),
        event_date: date,
        initial_tiers: tiers,
    };
    let mut client = EventContract::new();
    assert_eq!(
        client.create_event(&mk(NOW + 86_400, vec![tier("T", 0, 1)]), NOW).err(),
        Some(EventError::InvalidEventDate)
    );
    assert_eq!(client.create_event(&mk(NOW + 86_401, vec![]), NOW).err(), Some(EventError::InvalidInput));
    assert_eq!(
        client.create_event(&mk(NOW + 86_401, vec![tier("", 0, 1)]), NOW).err(),
        Some(EventError::InvalidInput)
    );
    assert_eq!(
        client.create_event(&mk(NOW + 86_401, vec![tier("ok", -1, 5), tier("", 0, 1)]), NOW).err(),
        Some(EventError::InvalidPrice)
    );
    assert_eq!(
        client.create_event(&mk(NOW + 86_401, vec![tier("T", 0, 99_999)]), NOW).unwrap().tiers[0].capacity,
        99_999
    );
    assert_eq!(
        client.create_event(&mk(NOW + 86_401, vec![tier("T", 0, 1)]), u64::MAX).err(),
        Some(EventError::InvalidEventDate)
    );
}

#[test]
fn add_and_update_tiers() {
    let mut client = EventContract::new();
    let organizer = Address::new("O");
    let other = Address::new("X");
    let e = create(&mut client, &organizer, "E", vec![tier("T", 5, 10)]);
    let added = client.add_ticket_tier(&organizer, &e, &String::from("VIP"), 500, 50).unwrap();
    assert_eq!(added.tier_id, 1);
    assert_eq!(added.sold, 0);
    assert_eq!(client.get_event(&e).unwrap().tiers.len(), 2);
    assert_eq!(
        client.add_ticket_tier(&other, &e, &String::from("VIP"), 500, 50).err(),
        Some(EventError::Unauthorized)
    );
    assert_eq!(
        client.add_ticket_tier(&organizer, &e, &String::from("Big"), 1, 100_000).err(),
        Some(EventError::InvalidTicketCount)
    );
    assert_eq!(
        client.add_ticket_tier(&organizer, &Symbol::new("none"), &String::from("B"), 1, 1).err(),
        Some(EventError::EventNotFound)
    );
    assert_eq!(
        client.update_tier(&organizer, &e, 2, &Some(String::from("Z")), None, None),
        Err(EventError::TierNotFound)
    );
    assert_eq!(client.update_tier(&organizer, &e, 1, &None, None, Some(0)), Err(EventError::InvalidTicketCount));
    assert_eq!(client.update_tier(&organizer, &e, 1, &Some(String::new()), None, None), Err(EventError::InvalidInput));
    assert_eq!(client.update_tier(&organizer, &e, 1, &Some(String::from("Gold")), Some(7), Some(70)), Ok(()));
    let t = &client.get_event(&e).unwrap().tiers[1];
    assert_eq!((t.name.as_str(), t.price, t.capacity), ("Gold", 7, 70));
    client.update_event_status(&organizer, &e, &EventStatus::Active).unwrap();
    assert_eq!(
        client.add_ticket_tier(&organizer, &e, &String::from("Late"), 1, 1).err(),
        Some(EventError::EventNotUpdatable)
    );
    assert_eq!(client.update_tier(&organizer, &e, 0, &None, Some(1), None), Err(EventError::EventNotUpdatable));
    assert_eq!(client.register_for_event(&other, &e, 5), Err(EventError::TierNotFound));
}

#[test]
fn registry_lookups_on_missing_events() {
    let client = EventContract::new();
    let e = Symbol::new("missing");
    assert_eq!(client.get_event_status(&e), Err(EventError::EventNotFound));
    assert_eq!(client.is_registered(&e, &Address::new("A")), Err(EventError::EventNotFound));
    assert_eq!(client.get_attendees(&e), Err(EventError::EventNotFound));
}

#[test]
fn error_codes_are_stable() {
    assert_eq!(EventError::EventNotFound.code(), 1);
    assert_eq!(EventError::TierSoldOut.code(), 11);
    assert_eq!(EventError::AlreadyRegistered.code(), 12);
    assert_eq!(EventError::TierNotFound.code(), 13);
}
