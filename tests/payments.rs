use event_ticketing::identity::{Address, Symbol};
use event_ticketing::payments::{PaymentError, PaymentStatus, PaymentsContract};

fn setup_contract_with_token() -> (Address, Address, PaymentsContract) {
    let mut client = PaymentsContract::new();
    let admin = Address::new("admin");
    let token = Address::new("token");
    client.initialize(&admin, &token).unwrap();
    (admin, token, client)
}

/// Checks the payment, then records it as the host does once the funds have
/// moved into custody.
fn pay(client: &mut PaymentsContract, payer: &Address, event_id: &Symbol, amount: i128, now: u64) -> Result<u64, PaymentError> {
    client.payment_token(amount)?;
    client.pay_for_ticket(payer, event_id, amount, now)
}

#[test]
fn test_initialize() {
    let mut client = PaymentsContract::new();
    let admin = Address::new("admin");
    let token = Address::new("token");
    client.initialize(&admin, &token).unwrap();
    assert_eq!(client.get_admin().unwrap(), admin);
    assert_eq!(client.get_accepted_token().unwrap(), token);
}

#[test]
fn test_double_initialization() {
    let mut client = PaymentsContract::new();
    let admin = Address::new("admin");
    let token = Address::new("token");
    client.initialize(&admin, &token).unwrap();
    let result = client.initialize(&Address::new("admin2"), &Address::new("token2"));
    assert!(result.is_ok());
    assert_eq!(client.get_admin().unwrap(), admin);
    assert_eq!(client.get_accepted_token().unwrap(), token);
}

#[test]
fn test_get_nonexistent_payment() {
    let (_admin, _token, client) = setup_contract_with_token();
    let result = client.get_payment(999);
    assert_eq!(result.err(), Some(PaymentError::PaymentNotFound));
}

#[test]
fn test_get_event_revenue_initial() {
    let (_admin, _token, client) = setup_contract_with_token();
    assert_eq!(client.get_event_revenue(&Symbol::new("EVENT1")), 0);
}

#[test]
fn test_pay_for_ticket() {
    let (_admin, token, mut client) = setup_contract_with_token();
    let payer = Address::new("payer");
    let event_id = Symbol::new("EVENT1");
    let amount = 100_000_000i128;
    assert_eq!(client.payment_token(amount), Ok(token.clone()));
    let payment_id = client.pay_for_ticket(&payer, &event_id, amount, 0).unwrap();
    let payment = client.get_payment(payment_id).unwrap();
    assert_eq!(payment.payment_id, payment_id);
    assert_eq!(payment.event_id, event_id);
    assert_eq!(payment.payer, payer);
    assert_eq!(payment.amount, amount);
    assert_eq!(payment.token, token);
    assert_eq!(payment.status, PaymentStatus::Held);
    assert_eq!(client.get_event_revenue(&event_id), amount);
}

#[test]
fn test_pay_for_ticket_invalid_amount_zero() {
    let (_admin, _token, mut client) = setup_contract_with_token();
    let result = pay(&mut client, &Address::new("payer"), &Symbol::new("EVENT1"), 0, 0);
    assert_eq!(result.err(), Some(PaymentError::InvalidAmount));
}

#[test]
fn test_pay_for_ticket_invalid_amount_negative() {
    let (_admin, _token, mut client) = setup_contract_with_token();
    let result = pay(&mut client, &Address::new("payer"), &Symbol::new("EVENT1"), -1, 0);
    assert_eq!(result.err(), Some(PaymentError::InvalidAmount));
}

#[test]
fn test_pay_for_ticket_multiple_payments() {
    let (_admin, _token, mut client) = setup_contract_with_token();
    let payer1 = Address::new("payer1");
    let payer2 = Address::new("payer2");
    let event_id1 = Symbol::new("EVENT1");
    let event_id2 = Symbol::new("EVENT2");
    let amount1 = 100_000_000i128;
    let amount2 = 200_000_000i128;
    let amount3 = 50_000_000i128;

    let payment_id1 = pay(&mut client, &payer1, &event_id1, amount1, 0).unwrap();
    let payment_id2 = pay(&mut client, &payer2, &event_id2, amount2, 0).unwrap();
    let payment_id3 = pay(&mut client, &payer1, &event_id1, amount3, 0).unwrap();
    assert_eq!(payment_id1, 1);
    assert_eq!(payment_id2, 2);
    assert_eq!(payment_id3, 3);

    let payment1 = client.get_payment(payment_id1).unwrap();
    assert_eq!(payment1.event_id, event_id1);
    assert_eq!(payment1.payer, payer1);
    assert_eq!(payment1.amount, amount1);
    assert_eq!(payment1.status, PaymentStatus::Held);

    let payment2 = client.get_payment(payment_id2).unwrap();
    assert_eq!(payment2.event_id, event_id2);
    assert_eq!(payment2.payer, payer2);
    assert_eq!(payment2.amount, amount2);
    assert_eq!(payment2.status, PaymentStatus::Held);

    let payment3 = client.get_payment(payment_id3).unwrap();
    assert_eq!(payment3.event_id, event_id1);
    assert_eq!(payment3.payer, payer1);
    assert_eq!(payment3.amount, amount3);
    assert_eq!(payment3.status, PaymentStatus::Held);

    assert_eq!(client.get_event_revenue(&event_id1), amount1 + amount3);
    assert_eq!(client.get_event_revenue(&event_id2), amount2);
    assert_eq!(client.get_event_payments(&event_id1), vec![1, 3]);
    assert_eq!(client.get_event_payments(&event_id2), vec![2]);
}

#[test]
fn test_pay_for_ticket_query_record() {
    let (_admin, token, mut client) = setup_contract_with_token();
    let payer = Address::new("payer");
    let event_id = Symbol::new("EVENT1");
    let amount = 100_000_000i128;
    let payment_id = pay(&mut client, &payer, &event_id, amount, 1704067200).unwrap();
    let payment = client.get_payment(payment_id).unwrap();
    assert_eq!(payment.payment_id, payment_id);
    assert_eq!(payment.event_id, event_id);
    assert_eq!(payment.payer, payer);
    assert_eq!(payment.amount, amount);
    assert_eq!(payment.token, token);
    assert_eq!(payment.status, PaymentStatus::Held);
    assert!(payment.paid_at > 0);
    assert_eq!(payment.paid_at, 1704067200);
}

#[test]
fn scenario_revenue_accumulates_with_sequential_ids() {
    let (_admin, _token, mut client) = setup_contract_with_token();
    let p = Address::new("P");
    let e = Symbol::new("E");
    assert_eq!(client.get_event_revenue(&e), 0);
    assert_eq!(pay(&mut client, &p, &e, 100, 5), Ok(1));
    assert_eq!(client.get_event_revenue(&e), 100);
    assert_eq!(client.get_payment(1).unwrap().status, PaymentStatus::Held);
    assert_eq!(pay(&mut client, &p, &e, 50, 6), Ok(2));
    assert_eq!(client.get_event_revenue(&e), 150);
}

#[test]
fn refused_payment_consumes_no_id() {
    let (_admin, _token, mut client) = setup_contract_with_token();
    let p = Address::new("P");
    let e = Symbol::new("E");
    assert_eq!(client.pay_for_ticket(&p, &e, 0, 1), Err(PaymentError::InvalidAmount));
    assert_eq!(client.get_event_revenue(&e), 0);
    assert_eq!(client.pay_for_ticket(&p, &e, 10, 1), Ok(1));
}

#[test]
fn payment_before_initialization_fails() {
    let mut client = PaymentsContract::new();
    assert!(!client.is_initialized());
    assert_eq!(client.payment_token(10).err(), Some(PaymentError::NotInitialized));
    assert_eq!(
        client.pay_for_ticket(&Address::new("P"), &Symbol::new("E"), 10, 0),
        Err(PaymentError::NotInitialized)
    );
    assert_eq!(client.get_admin().err(), Some(PaymentError::NotInitialized));
    assert_eq!(client.get_payment(0).err(), Some(PaymentError::PaymentNotFound));
}

#[test]
fn update_payment_replaces_existing_record_only() {
    let (_admin, _token, mut client) = setup_contract_with_token();
    let id = pay(&mut client, &Address::new("P"), &Symbol::new("E"), 10, 1).unwrap();
    let mut record = client.get_payment(id).unwrap();
    record.status = PaymentStatus::Released;
    assert_eq!(client.update_payment(record.clone()), Ok(()));
    assert_eq!(client.get_payment(id).unwrap().status, PaymentStatus::Released);
    record.payment_id = 7;
    assert_eq!(client.update_payment(record), Err(PaymentError::PaymentNotFound));
    assert_eq!(PaymentError::NotInitialized.code(), 7);
}
