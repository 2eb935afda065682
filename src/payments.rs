//! The payment escrow ledger: payments held in custody, numbered from one,
//! and a running revenue total per event.
use crate::identity::{Address, Symbol};
use crate::table::Table;
use vstd::prelude::*;

verus! {

#[derive(Clone, Copy, Debug, PartialEq, Eq, Structural)]
pub enum PaymentError {
    PaymentNotFound,
    InsufficientFunds,
    Unauthorized,
    PaymentAlreadyProcessed,
    InvalidAmount,
    RefundFailed,
    NotInitialized,
}

impl PaymentError {
    /// The numeric code under which hosts report this error.
    pub fn code(&self) -> (r: u32)
        ensures
            1 <= r <= 7,
    {
        match self {
            PaymentError::PaymentNotFound => 1,
            PaymentError::InsufficientFunds => 2,
            PaymentError::Unauthorized => 3,
            PaymentError::PaymentAlreadyProcessed => 4,
            PaymentError::InvalidAmount => 5,
            PaymentError::RefundFailed => 6,
            PaymentError::NotInitialized => 7,
        }
    }
}

#[derive(Clone, Copy, Debug, PartialEq, Eq, Structural)]
pub enum PaymentStatus {
    Held,
    Released,
    Refunded,
}

#[derive(Debug, PartialEq, Eq)]
pub struct PaymentRecord {
    pub payment_id: u64,
    pub event_id: Symbol,
    pub payer: Address,
    pub amount: i128,
    pub token: Address,
    pub status: PaymentStatus,
    pub paid_at: u64,
}

/// A payment record as a mathematical value.
pub struct PaymentView {
    pub payment_id: u64,
    pub event_id: Seq<char>,
    pub payer: Seq<char>,
    pub amount: i128,
    pub token: Seq<char>,
    pub status: PaymentStatus,
    pub paid_at: u64,
}

impl View for PaymentRecord {
    type V = PaymentView;

    open spec fn view(&self) -> PaymentView {
        PaymentView {
            payment_id: self.payment_id,
            event_id: self.event_id@,
            payer: self.payer@,
            amount: self.amount,
            token: self.token@,
            status: self.status,
            paid_at: self.paid_at,
        }
    }
}

impl Clone for PaymentRecord {
    fn clone(&self) -> (r: Self)
        ensures
            r == *self,
    {
        PaymentRecord {
            payment_id: self.payment_id,
            event_id: self.event_id.clone(),
            payer: self.payer.clone(),
            amount: self.amount,
            token: self.token.clone(),
            status: self.status,
            paid_at: self.paid_at,
        }
    }
}

/// The ledger's records as mathematical values. Payment `i + 1` is
/// `payments[i]`.
pub struct PaymentsView {
    pub admin: Option<Seq<char>>,
    pub token: Option<Seq<char>>,
    pub payments: Seq<PaymentView>,
    pub event_payments: Map<Seq<char>, Seq<u64>>,
    pub revenue: Map<Seq<char>, i128>,
}

pub open spec fn address_opt_view(a: Option<Address>) -> Option<Seq<char>> {
    match a {
        Some(x) => Some(x@),
        None => None,
    }
}

/// The ids of the payments made for an event, in the order made.
pub open spec fn payments_of(s: PaymentsView, event_id: Seq<char>) -> Seq<u64> {
    if s.event_payments.contains_key(event_id) {
        s.event_payments[event_id]
    } else {
        Seq::empty()
    }
}

/// The total of the payments made for an event; zero before the first.
pub open spec fn revenue_of(s: PaymentsView, event_id: Seq<char>) -> int {
    if s.revenue.contains_key(event_id) {
        s.revenue[event_id] as int
    } else {
        0
    }
}

pub open spec fn is_initialized_view(s: PaymentsView) -> bool {
    s.admin is Some && s.token is Some
}

/// The first rule that a payment of `amount` breaks.
pub open spec fn payment_error(s: PaymentsView, amount: i128) -> Option<PaymentError> {
    if amount <= 0 {
        Some(PaymentError::InvalidAmount)
    } else if !is_initialized_view(s) {
        Some(PaymentError::NotInitialized)
    } else {
        None
    }
}

/// The record of the next payment.
pub open spec fn next_payment(
    s: PaymentsView,
    payer: Seq<char>,
    event_id: Seq<char>,
    amount: i128,
    now: u64,
) -> PaymentView {
    PaymentView {
        payment_id: (s.payments.len() + 1) as u64,
        event_id,
        payer,
        amount,
        token: s.token->Some_0,
        status: PaymentStatus::Held,
        paid_at: now,
    }
}

/// The ledger after a payment is recorded: its record is stored under the
/// next id, the id joins the event's list and the amount its revenue.
pub open spec fn paid_state(
    s: PaymentsView,
    payer: Seq<char>,
    event_id: Seq<char>,
    amount: i128,
    now: u64,
) -> PaymentsView {
    let id = (s.payments.len() + 1) as u64;
    PaymentsView {
        payments: s.payments.push(next_payment(s, payer, event_id, amount, now)),
        event_payments: s.event_payments.insert(event_id, payments_of(s, event_id).push(id)),
        revenue: s.revenue.insert(event_id, (revenue_of(s, event_id) + amount) as i128),
        ..s
    }
}

pub struct PaymentsContract {
    admin: Option<Address>,
    accepted_token: Option<Address>,
    payments: Vec<PaymentRecord>,
    event_payments: Table<Vec<u64>>,
    event_revenue: Table<i128>,
}

impl View for PaymentsContract {
    type V = PaymentsView;

    closed spec fn view(&self) -> PaymentsView {
        PaymentsView {
            admin: address_opt_view(self.admin),
            token: address_opt_view(self.accepted_token),
            payments: self.payments@.map_values(|p: PaymentRecord| p@),
            event_payments: self.event_payments@.map_values(|v: Vec<u64>| v@),
            revenue: self.event_revenue@,
        }
    }
}

impl PaymentsView {
    /// Payments are numbered from one in the order recorded, and the admin
    /// and token are set together.
    pub open spec fn wf(self) -> bool {
        &&& self.payments.len() < u64::MAX
        &&& forall|i: int| 0 <= i < self.payments.len() ==> (#[trigger] self.payments[i]).payment_id == i + 1
        &&& (self.admin is Some <==> self.token is Some)
    }
}

impl PaymentsContract {
    pub closed spec fn wf(&self) -> bool {
        self.event_payments.wf() && self.event_revenue.wf() && self@.wf()
    }

    pub proof fn lemma_wf(&self)
        requires
            self.wf(),
        ensures
            self@.wf(),
    {
    }

    pub fn new() -> (r: PaymentsContract)
        ensures
            r.wf(),
            (r@.admin is None),
            (r@.token is None),
            r@.payments.len() == 0,
            r@.event_payments == Map::<Seq<char>, Seq<u64>>::empty(),
            r@.revenue == Map::<Seq<char>, i128>::empty(),
    {
        let r = PaymentsContract {
            admin: None,
            accepted_token: None,
            payments: Vec::new(),
            event_payments: Table::new(),
            event_revenue: Table::new(),
        };
        assert(r@.event_payments =~= Map::<Seq<char>, Seq<u64>>::empty());
        r
    }

    /// Whether the admin and the accepted token are set.
    pub fn is_initialized(&self) -> (r: bool)
        requires
            self.wf(),
        ensures
            r == is_initialized_view(self@),
    {
        self.admin.is_some() && self.accepted_token.is_some()
    }

    /// Sets the admin and the accepted token; once they are set, later calls
    /// change nothing.
    pub fn initialize(&mut self, admin: &Address, token: &Address) -> (r: Result<(), PaymentError>)
        requires
            old(self).wf(),
        ensures
            final(self).wf(),
            r == Ok::<(), PaymentError>(()),
            is_initialized_view(old(self)@) ==> final(self)@ == old(self)@,
            !is_initialized_view(old(self)@) ==> final(self)@ == (PaymentsView {
                admin: Some(admin@),
                token: Some(token@),
                ..old(self)@
            }),
    {
        if self.is_initialized() {
            return Ok(());
        }
        self.admin = Some(admin.clone());
        self.accepted_token = Some(token.clone());
        Ok(())
    }

    pub fn get_admin(&self) -> (r: Result<Address, PaymentError>)
        requires
            self.wf(),
        ensures
            match r {
                Ok(a) => self@.admin == Some(a@),
                Err(e) => (self@.admin is None) && e == PaymentError::NotInitialized,
            },
    {
        match &self.admin {
            Some(a) => Ok(a.clone()),
            None => Err(PaymentError::NotInitialized),
        }
    }

    pub fn get_accepted_token(&self) -> (r: Result<Address, PaymentError>)
        requires
            self.wf(),
        ensures
            match r {
                Ok(a) => self@.token == Some(a@),
                Err(e) => (self@.token is None) && e == PaymentError::NotInitialized,
            },
    {
        match &self.accepted_token {
            Some(a) => Ok(a.clone()),
            None => Err(PaymentError::NotInitialized),
        }
    }

    /// How many payments have been recorded; the last one carries this id.
    pub fn payment_count(&self) -> (r: usize)
        ensures
            r == self@.payments.len(),
    {
        self.payments.len()
    }

    /// The payment numbered `payment_id`.
    pub fn get_payment(&self, payment_id: u64) -> (r: Result<PaymentRecord, PaymentError>)
        requires
            self.wf(),
        ensures
            match r {
                Ok(p) => 1 <= payment_id <= self@.payments.len() && p@ == self@.payments[payment_id - 1],
                Err(e) => !(1 <= payment_id <= self@.payments.len()) && e == PaymentError::PaymentNotFound,
            },
    {
        if payment_id == 0 || payment_id as usize > self.payments.len() || payment_id > self.payments.len() as u64 {
            return Err(PaymentError::PaymentNotFound);
        }
        Ok(self.payments[(payment_id - 1) as usize].clone())
    }

    /// The ids of the payments made for the event, in the order made.
    pub fn get_event_payments(&self, event_id: &Symbol) -> (r: Vec<u64>)
        requires
            self.wf(),
        ensures
            r@ == payments_of(self@, event_id@),
    {
        match self.event_payments.get(&event_id.to_key()) {
            Some(v) => {
                let r = v.clone();
                assert(r@ =~= v@);
                r
            },
            None => Vec::new(),
        }
    }

    /// The total paid for the event so far; zero before the first payment.
    pub fn get_event_revenue(&self, event_id: &Symbol) -> (r: i128)
        requires
            self.wf(),
        ensures
            r == revenue_of(self@, event_id@),
    {
        match self.event_revenue.get(&event_id.to_key()) {
            Some(v) => *v,
            None => 0,
        }
    }

    /// Checks a payment of `amount` before any funds move, and names the token
    /// that the payer must transfer into custody.
    pub fn payment_token(&self, amount: i128) -> (r: Result<Address, PaymentError>)
        requires
            self.wf(),
        ensures
            match payment_error(self@, amount) {
                Some(e) => r == Err::<Address, PaymentError>(e),
                None => (r is Ok) && self@.token == Some(r->Ok_0@),
            },
    {
        if amount <= 0 {
            return Err(PaymentError::InvalidAmount);
        }
        if !self.is_initialized() {
            return Err(PaymentError::NotInitialized);
        }
        self.get_accepted_token()
    }

    /// Records a payment whose funds the host has already moved into
    /// custody: the record is held under the next id, and the amount is added
    /// to the event's revenue. Returns the new payment's id.
    pub fn pay_for_ticket(&mut self, payer: &Address, event_id: &Symbol, amount: i128, now: u64) -> (r: Result<
        u64,
        PaymentError,
    >)
        requires
            old(self).wf(),
            old(self)@.payments.len() + 1 < u64::MAX,
            amount > 0 ==> revenue_of(old(self)@, event_id@) + amount <= i128::MAX,
        ensures
            final(self).wf(),
            match payment_error(old(self)@, amount) {
                Some(e) => r == Err::<u64, PaymentError>(e) && final(self)@ == old(self)@,
                None => r == Ok::<u64, PaymentError>((old(self)@.payments.len() + 1) as u64)
                    && final(self)@ == paid_state(old(self)@, payer@, event_id@, amount, now),
            },
    {
        let token = match self.payment_token(amount) {
            Ok(t) => t,
            Err(e) => return Err(e),
        };
        let ghost pre = self@;
        let payment_id = self.payments.len() as u64 + 1;
        let payment = PaymentRecord {
            payment_id,
            event_id: event_id.clone(),
            payer: payer.clone(),
            amount,
            token,
            status: PaymentStatus::Held,
            paid_at: now,
        };
        self.save_payment(payment);
        self.add_event_payment(event_id, payment_id);
        self.add_event_revenue(event_id, amount);
        assert(self@.payments =~= pre.payments.push(next_payment(pre, payer@, event_id@, amount, now)));
        Ok(payment_id)
    }

    /// Stores the record of the next payment.
    fn save_payment(&mut self, payment: PaymentRecord)
        requires
            old(self).wf(),
            payment.payment_id == old(self)@.payments.len() + 1,
            old(self)@.payments.len() + 1 < u64::MAX,
        ensures
            final(self).wf(),
            final(self)@ == (PaymentsView { payments: old(self)@.payments.push(payment@), ..old(self)@ }),
    {
        let ghost pre = self@;
        self.payments.push(payment);
        assert(self@.payments =~= pre.payments.push(payment@));
    }

    /// Appends a payment id to the event's list.
    fn add_event_payment(&mut self, event_id: &Symbol, payment_id: u64)
        requires
            old(self).wf(),
        ensures
            final(self).wf(),
            final(self)@ == (PaymentsView {
                event_payments: old(self)@.event_payments.insert(
                    event_id@,
                    payments_of(old(self)@, event_id@).push(payment_id),
                ),
                ..old(self)@
            }),
    {
        let ghost pre = self@;
        let key = event_id.to_key();
        let mut list = self.get_event_payments(event_id);
        list.push(payment_id);
        self.event_payments.insert(key, list);
        assert(self@.event_payments =~= pre.event_payments.insert(
            event_id@,
            payments_of(pre, event_id@).push(payment_id),
        ));
    }

    /// Adds the amount to the event's revenue.
    fn add_event_revenue(&mut self, event_id: &Symbol, amount: i128)
        requires
            old(self).wf(),
            i128::MIN <= revenue_of(old(self)@, event_id@) + amount <= i128::MAX,
        ensures
            final(self).wf(),
            final(self)@ == (PaymentsView {
                revenue: old(self)@.revenue.insert(
                    event_id@,
                    (revenue_of(old(self)@, event_id@) + amount) as i128,
                ),
                ..old(self)@
            }),
    {
        let current = self.get_event_revenue(event_id);
        self.event_revenue.insert(event_id.to_key(), current + amount);
    }

    /// Replaces the stored record that carries the same id; fails when there
    /// is none.
    pub fn update_payment(&mut self, payment: PaymentRecord) -> (r: Result<(), PaymentError>)
        requires
            old(self).wf(),
        ensures
            final(self).wf(),
            1 <= payment.payment_id <= old(self)@.payments.len() ==> r == Ok::<(), PaymentError>(())
                && final(self)@ == (PaymentsView {
                payments: old(self)@.payments.update(payment.payment_id - 1, payment@),
                ..old(self)@
            }),
            !(1 <= payment.payment_id <= old(self)@.payments.len()) ==> r == Err::<(), PaymentError>(
                PaymentError::PaymentNotFound,
            ) && final(self)@ == old(self)@,
    {
        let id = payment.payment_id;
        if id == 0 || id > self.payments.len() as u64 {
            return Err(PaymentError::PaymentNotFound);
        }
        let ghost pre = self@;
        let ghost pv = payment@;
        self.payments[(id - 1) as usize] = payment;
        assert(self@.payments =~= pre.payments.update(id - 1, pv));
        Ok(())
    }
}

} // verus!
