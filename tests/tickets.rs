use event_ticketing::identity::{Address, Symbol};
use event_ticketing::ticket::{TicketContract, TicketError, TicketStatus};

/// Issues ticket 1 to `owner` and brings it to `status`.
fn setup_test_ticket(client: &mut TicketContract, organizer: &Address, owner: &Address, status: TicketStatus) -> u64 {
    let ticket_id = client.mint_ticket(&Symbol::new("event_1"), organizer, owner, 123456);
    match status {
        TicketStatus::Valid => {}
        TicketStatus::Used => client.use_ticket(ticket_id, organizer).unwrap(),
        TicketStatus::Cancelled => client.cancel_ticket(ticket_id, owner).unwrap(),
    }
    ticket_id
}

#[test]
fn test_happy_path_transfer() {
    let mut client = TicketContract::new();
    let alice = Address::new("alice");
    let bob = Address::new("bob");
    let organizer = Address::new("organizer");
    setup_test_ticket(&mut client, &organizer, &alice, TicketStatus::Valid);
    client.transfer_ticket(&alice, &bob, 1).unwrap();
    assert_eq!(client.get_tickets_by_owner(&bob), vec![1]);
    assert_eq!(client.get_tickets_by_owner(&alice), Vec::<u64>::new());
}

#[test]
fn test_transfer_used_ticket() {
    let mut client = TicketContract::new();
    let alice = Address::new("alice");
    let bob = Address::new("bob");
    let organizer = Address::new("organizer");
    setup_test_ticket(&mut client, &organizer, &alice, TicketStatus::Used);
    let result = client.transfer_ticket(&alice, &bob, 1);
    assert_eq!(result, Err(TicketError::TicketNotTransferable));
    assert_eq!(TicketError::TicketNotTransferable.code(), 11);
}

#[test]
fn test_transfer_cancelled_ticket() {
    let mut client = TicketContract::new();
    let alice = Address::new("alice");
    let bob = Address::new("bob");
    let organizer = Address::new("organizer");
    setup_test_ticket(&mut client, &organizer, &alice, TicketStatus::Cancelled);
    let result = client.transfer_ticket(&alice, &bob, 1);
    assert_eq!(result, Err(TicketError::TicketNotTransferable));
}

#[test]
fn test_transfer_to_self() {
    let mut client = TicketContract::new();
    let alice = Address::new("alice");
    let organizer = Address::new("organizer");
    setup_test_ticket(&mut client, &organizer, &alice, TicketStatus::Valid);
    let result = client.transfer_ticket(&alice, &alice, 1);
    assert_eq!(result, Err(TicketError::TransferToSelf));
    assert_eq!(TicketError::TransferToSelf.code(), 12);
}

#[test]
fn test_unauthorized_transfer() {
    let mut client = TicketContract::new();
    let alice = Address::new("alice");
    let bob = Address::new("bob");
    let charlie = Address::new("charlie");
    let organizer = Address::new("organizer");
    setup_test_ticket(&mut client, &organizer, &alice, TicketStatus::Valid);
    let result = client.transfer_ticket(&bob, &charlie, 1);
    assert_eq!(result, Err(TicketError::Unauthorized));
    assert_eq!(TicketError::Unauthorized.code(), 4);
}

#[test]
fn test_chain_transfer() {
    let mut client = TicketContract::new();
    let alice = Address::new("alice");
    let bob = Address::new("bob");
    let charlie = Address::new("charlie");
    let organizer = Address::new("organizer");
    setup_test_ticket(&mut client, &organizer, &alice, TicketStatus::Valid);
    client.transfer_ticket(&alice, &bob, 1).unwrap();
    client.transfer_ticket(&bob, &charlie, 1).unwrap();
    assert_eq!(client.get_tickets_by_owner(&alice), Vec::<u64>::new());
    assert_eq!(client.get_tickets_by_owner(&bob), Vec::<u64>::new());
    assert_eq!(client.get_tickets_by_owner(&charlie), vec![1]);
}

#[test]
fn test_use_ticket_happy_path() {
    let mut client = TicketContract::new();
    let organizer = Address::new("organizer");
    let owner = Address::new("owner");
    let ticket_id = setup_test_ticket(&mut client, &organizer, &owner, TicketStatus::Valid);
    client.use_ticket(ticket_id, &organizer).unwrap();
    assert_eq!(client.get_ticket(ticket_id).unwrap().status, TicketStatus::Used);
}

#[test]
fn test_use_ticket_double_checkin() {
    let mut client = TicketContract::new();
    let organizer = Address::new("organizer");
    let owner = Address::new("owner");
    let ticket_id = setup_test_ticket(&mut client, &organizer, &owner, TicketStatus::Used);
    let result = client.use_ticket(ticket_id, &organizer);
    assert_eq!(result, Err(TicketError::TicketAlreadyUsed));
    assert_eq!(TicketError::TicketAlreadyUsed.code(), 13);
}

#[test]
fn test_use_ticket_unauthorized() {
    let mut client = TicketContract::new();
    let organizer = Address::new("organizer");
    let random_person = Address::new("random");
    let owner = Address::new("owner");
    let ticket_id = setup_test_ticket(&mut client, &organizer, &owner, TicketStatus::Valid);
    let result = client.use_ticket(ticket_id, &random_person);
    assert_eq!(result, Err(TicketError::Unauthorized));
}

#[test]
fn test_use_ticket_cancelled() {
    let mut client = TicketContract::new();
    let organizer = Address::new("organizer");
    let owner = Address::new("owner");
    let ticket_id = setup_test_ticket(&mut client, &organizer, &owner, TicketStatus::Cancelled);
    let result = client.use_ticket(ticket_id, &organizer);
    assert_eq!(result, Err(TicketError::EventNotActive));
    assert_eq!(TicketError::EventNotActive.code(), 14);
}

#[test]
fn scenario_ticket_lifecycle() {
    let mut client = TicketContract::new();
    let organizer = Address::new("organizer");
    let alice = Address::new("alice");
    let bob = Address::new("bob");
    let mallory = Address::new("mallory");
    let id = client.mint_ticket(&Symbol::new("E"), &organizer, &alice, 10);
    assert_eq!(client.transfer_ticket(&alice, &bob, id), Ok(()));
    assert_eq!(client.transfer_ticket(&bob, &bob, id), Err(TicketError::TransferToSelf));
    assert_eq!(client.transfer_ticket(&mallory, &alice, id), Err(TicketError::Unauthorized));
    assert_eq!(client.use_ticket(id, &organizer), Ok(()));
    assert_eq!(client.use_ticket(id, &organizer), Err(TicketError::TicketAlreadyUsed));
    assert_eq!(client.transfer_ticket(&bob, &alice, id), Err(TicketError::TicketNotTransferable));
    assert_eq!(client.get_ticket(id).unwrap().owner, bob);
}

#[test]
fn ownership_listed_under_exactly_one_owner() {
    let mut client = TicketContract::new();
    let organizer = Address::new("organizer");
    let people: Vec<Address> = ["a", "b", "c", "d"].iter().map(|n| Address::new(n)).collect();
    let first = client.mint_ticket(&Symbol::new("E"), &organizer, &people[0], 1);
    let second = client.mint_ticket(&Symbol::new("E"), &organizer, &people[0], 2);
    assert_eq!((first, second), (1, 2));
    client.transfer_ticket(&people[0], &people[1], first).unwrap();
    client.transfer_ticket(&people[1], &people[2], first).unwrap();
    client.transfer_ticket(&people[2], &people[3], first).unwrap();
    client.transfer_ticket(&people[3], &people[0], first).unwrap();
    let holders: Vec<&Address> = people.iter().filter(|p| client.get_tickets_by_owner(p).contains(&first)).collect();
    assert_eq!(holders, vec![&people[0]]);
    assert_eq!(client.get_owner_tickets(&people[0]), vec![2, 1]);
    assert_eq!(client.get_ticket(first).unwrap().owner, people[0]);
}

#[test]
fn minting_lists_tickets_by_event_and_owner() {
    let mut client = TicketContract::new();
    let organizer = Address::new("organizer");
    let alice = Address::new("alice");
    let bob = Address::new("bob");
    let e1 = Symbol::new("E1");
    let e2 = Symbol::new("E2");
    assert_eq!(client.mint_ticket(&e1, &organizer, &alice, 7), 1);
    assert_eq!(client.mint_ticket(&e2, &organizer, &bob, 8), 2);
    assert_eq!(client.mint_ticket(&e1, &organizer, &bob, 9), 3);
    assert_eq!(client.get_event_tickets(&e1), vec![1, 3]);
    assert_eq!(client.get_tickets_by_event(&e2), vec![2]);
    assert_eq!(client.get_owner_tickets(&bob), vec![2, 3]);
    let t = client.get_ticket(3).unwrap();
    assert_eq!((t.ticket_id, t.issued_at, t.status), (3, 9, TicketStatus::Valid));
    assert_eq!(client.get_ticket(4).err(), Some(TicketError::TicketNotFound));
    assert_eq!(client.get_event_tickets(&Symbol::new("none")), Vec::<u64>::new());
}

#[test]
fn only_the_owner_cancels_a_valid_ticket() {
    let mut client = TicketContract::new();
    let organizer = Address::new("organizer");
    let alice = Address::new("alice");
    let id = client.mint_ticket(&Symbol::new("E"), &organizer, &alice, 1);
    assert_eq!(client.cancel_ticket(id, &organizer), Err(TicketError::Unauthorized));
    assert_eq!(client.cancel_ticket(99, &alice), Err(TicketError::TicketNotFound));
    assert_eq!(client.cancel_ticket(id, &alice), Ok(()));
    assert_eq!(client.cancel_ticket(id, &alice), Err(TicketError::TicketAlreadyUsed));
    assert_eq!(client.get_ticket(id).unwrap().status, TicketStatus::Cancelled);
    assert_eq!(client.transfer_ticket(&alice, &organizer, 5), Err(TicketError::TicketNotFound));
}
