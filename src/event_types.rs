//! Records of the event registry and their mathematical views.
use crate::identity::{Address, Symbol};
use vstd::prelude::*;

verus! {

/// Smallest lead time, in seconds, between the ledger time and an event's date.
pub const MIN_LEAD_TIME: u64 = 86_400;

/// Exclusive upper bound on a tier's capacity.
pub const MAX_TIER_CAPACITY: u32 = 100_000;

#[derive(Clone, Copy, Debug, PartialEq, Eq, Structural)]
pub enum EventStatus {
    Upcoming,
    Active,
    Completed,
    Cancelled,
}

#[derive(Clone, Copy, Debug, PartialEq, Eq, Structural)]
pub enum EventError {
    EventNotFound,
    EventAlreadyExists,
    InvalidStatusTransition,
    Unauthorized,
    InvalidInput,
    EventNotActive,
    InvalidEventDate,
    InvalidTicketCount,
    InvalidPrice,
    EventNotUpdatable,
    TierSoldOut,
    AlreadyRegistered,
    TierNotFound,
}

impl EventError {
    /// The numeric code under which hosts report this error.
    pub fn code(&self) -> (r: u32)
        ensures
            1 <= r <= 13,
    {
        match self {
            EventError::EventNotFound => 1,
            EventError::EventAlreadyExists => 2,
            EventError::InvalidStatusTransition => 3,
            EventError::Unauthorized => 4,
            EventError::InvalidInput => 5,
            EventError::EventNotActive => 6,
            EventError::InvalidEventDate => 7,
            EventError::InvalidTicketCount => 8,
            EventError::InvalidPrice => 9,
            EventError::EventNotUpdatable => 10,
            EventError::TierSoldOut => 11,
            EventError::AlreadyRegistered => 12,
            EventError::TierNotFound => 13,
        }
    }
}

#[derive(Debug, PartialEq, Eq)]
pub struct TicketTier {
    pub tier_id: u32,
    pub name: String,
    pub price: i128,
    pub capacity: u32,
    pub sold: u32,
}

#[derive(Debug, PartialEq, Eq)]
pub struct TicketTierParams {
    pub name: String,
    pub price: i128,
    pub capacity: u32,
}

#[derive(Debug, PartialEq, Eq)]
pub struct Event {
    pub event_id: Symbol,
    pub organizer: Address,
    pub name: String,
    pub description: String,
    pub venue: String,
    pub event_date: u64,
    pub tiers: Vec<TicketTier>,
    pub status: EventStatus,
    pub created_at: u64,
}

#[derive(Debug, PartialEq, Eq)]
pub struct CreateEventParams {
    pub organizer: Address,
    pub event_id: Symbol,
    pub name: String,
    pub description: String,
    pub venue: String,
    pub event_date: u64,
    pub initial_tiers: Vec<TicketTierParams>,
}

#[derive(Debug, PartialEq, Eq)]
pub struct UpdateEventParams {
    pub organizer: Address,
    pub event_id: Symbol,
    pub name: Option<String>,
    pub description: Option<String>,
    pub venue: Option<String>,
    pub event_date: Option<u64>,
}

/// A tier as a mathematical value.
pub struct TierView {
    pub tier_id: u32,
    pub name: Seq<char>,
    pub price: i128,
    pub capacity: u32,
    pub sold: u32,
}

pub struct TierParamsView {
    pub name: Seq<char>,
    pub price: i128,
    pub capacity: u32,
}

/// An event as a mathematical value.
pub struct EventView {
    pub event_id: Seq<char>,
    pub organizer: Seq<char>,
    pub name: Seq<char>,
    pub description: Seq<char>,
    pub venue: Seq<char>,
    pub event_date: u64,
    pub tiers: Seq<TierView>,
    pub status: EventStatus,
    pub created_at: u64,
}

pub struct CreateEventParamsView {
    pub organizer: Seq<char>,
    pub event_id: Seq<char>,
    pub name: Seq<char>,
    pub description: Seq<char>,
    pub venue: Seq<char>,
    pub event_date: u64,
    pub initial_tiers: Seq<TierParamsView>,
}

pub struct UpdateEventParamsView {
    pub organizer: Seq<char>,
    pub event_id: Seq<char>,
    pub name: Option<Seq<char>>,
    pub description: Option<Seq<char>>,
    pub venue: Option<Seq<char>>,
    pub event_date: Option<u64>,
}

pub open spec fn text_view(s: Option<String>) -> Option<Seq<char>> {
    match s {
        Some(t) => Some(t@),
        None => None,
    }
}

impl View for TicketTier {
    type V = TierView;

    open spec fn view(&self) -> TierView {
        TierView {
            tier_id: self.tier_id,
            name: self.name@,
            price: self.price,
            capacity: self.capacity,
            sold: self.sold,
        }
    }
}

impl View for TicketTierParams {
    type V = TierParamsView;

    open spec fn view(&self) -> TierParamsView {
        TierParamsView { name: self.name@, price: self.price, capacity: self.capacity }
    }
}

impl View for Event {
    type V = EventView;

    open spec fn view(&self) -> EventView {
        EventView {
            event_id: self.event_id@,
            organizer: self.organizer@,
            name: self.name@,
            description: self.description@,
            venue: self.venue@,
            event_date: self.event_date,
            tiers: self.tiers@.map_values(|t: TicketTier| t@),
            status: self.status,
            created_at: self.created_at,
        }
    }
}

impl View for CreateEventParams {
    type V = CreateEventParamsView;

    open spec fn view(&self) -> CreateEventParamsView {
        CreateEventParamsView {
            organizer: self.organizer@,
            event_id: self.event_id@,
            name: self.name@,
            description: self.description@,
            venue: self.venue@,
            event_date: self.event_date,
            initial_tiers: self.initial_tiers@.map_values(|t: TicketTierParams| t@),
        }
    }
}

impl View for UpdateEventParams {
    type V = UpdateEventParamsView;

    open spec fn view(&self) -> UpdateEventParamsView {
        UpdateEventParamsView {
            organizer: self.organizer@,
            event_id: self.event_id@,
            name: text_view(self.name),
            description: text_view(self.description),
            venue: text_view(self.venue),
            event_date: self.event_date,
        }
    }
}

impl Clone for TicketTier {
    fn clone(&self) -> (r: Self)
        ensures
            r == *self,
    {
        TicketTier {
            tier_id: self.tier_id,
            name: self.name.clone(),
            price: self.price,
            capacity: self.capacity,
            sold: self.sold,
        }
    }
}

impl Clone for Event {
    fn clone(&self) -> (r: Self)
        ensures
            r@ == self@,
    {
        let tiers = self.tiers.clone();
        assert(tiers@ =~= self.tiers@);
        Event {
            event_id: self.event_id.clone(),
            organizer: self.organizer.clone(),
            name: self.name.clone(),
            description: self.description.clone(),
            venue: self.venue.clone(),
            event_date: self.event_date,
            tiers,
            status: self.status,
            created_at: self.created_at,
        }
    }
}

/// An event date is accepted when it lies strictly more than the minimum lead
/// time after the ledger time `now`.
pub open spec fn date_accepted(date: u64, now: u64) -> bool {
    date > now + MIN_LEAD_TIME
}

pub open spec fn capacity_accepted(capacity: u32) -> bool {
    0 < capacity < MAX_TIER_CAPACITY
}

/// The first rule that the fields of a proposed tier break, checked in the
/// order name, capacity, price.
pub open spec fn tier_fields_error(name: Seq<char>, price: i128, capacity: u32) -> Option<EventError> {
    if name.len() == 0 {
        Some(EventError::InvalidInput)
    } else if !capacity_accepted(capacity) {
        Some(EventError::InvalidTicketCount)
    } else if price < 0 {
        Some(EventError::InvalidPrice)
    } else {
        None
    }
}

/// The error of the first of the first `n` proposed tiers that breaks a rule.
pub open spec fn tiers_error_upto(tiers: Seq<TierParamsView>, n: nat) -> Option<EventError>
    decreases n,
{
    if n == 0 {
        None
    } else {
        match tiers_error_upto(tiers, (n - 1) as nat) {
            Some(e) => Some(e),
            None => tier_fields_error(
                tiers[n - 1].name,
                tiers[n - 1].price,
                tiers[n - 1].capacity,
            ),
        }
    }
}

pub open spec fn tiers_error(tiers: Seq<TierParamsView>) -> Option<EventError> {
    tiers_error_upto(tiers, tiers.len())
}

/// A stored tier obeys the registry's rules.
pub open spec fn tier_wf(t: TierView, i: int) -> bool {
    &&& t.tier_id == i
    &&& t.name.len() > 0
    &&& t.price >= 0
    &&& capacity_accepted(t.capacity)
    &&& t.sold <= t.capacity
}

/// A stored event obeys the registry's rules: tiers are numbered from zero in
/// order, each within its capacity, and nothing is sold before the event is
/// active.
pub open spec fn event_wf(e: EventView) -> bool {
    &&& e.name.len() > 0
    &&& e.venue.len() > 0
    &&& e.tiers.len() <= u32::MAX
    &&& forall|i: int| 0 <= i < e.tiers.len() ==> tier_wf(#[trigger] e.tiers[i], i)
    &&& e.status == EventStatus::Upcoming ==> forall|i: int|
        0 <= i < e.tiers.len() ==> (#[trigger] e.tiers[i]).sold == 0
}

/// The event that a successful creation stores.
pub open spec fn created_event(p: CreateEventParamsView, now: u64) -> EventView {
    EventView {
        event_id: p.event_id,
        organizer: p.organizer,
        name: p.name,
        description: p.description,
        venue: p.venue,
        event_date: p.event_date,
        tiers: Seq::new(
            p.initial_tiers.len(),
            |i: int|
                TierView {
                    tier_id: i as u32,
                    name: p.initial_tiers[i].name,
                    price: p.initial_tiers[i].price,
                    capacity: p.initial_tiers[i].capacity,
                    sold: 0,
                },
        ),
        status: EventStatus::Upcoming,
        created_at: now,
    }
}

/// The event after the supplied fields of an update replace its own.
pub open spec fn updated_details(e: EventView, p: UpdateEventParamsView) -> EventView {
    EventView {
        name: match p.name {
            Some(n) => n,
            None => e.name,
        },
        description: match p.description {
            Some(d) => d,
            None => e.description,
        },
        venue: match p.venue {
            Some(v) => v,
            None => e.venue,
        },
        event_date: match p.event_date {
            Some(d) => d,
            None => e.event_date,
        },
        ..e
    }
}

/// The transitions that `update_event_status` accepts.
pub open spec fn status_update_allowed(from: EventStatus, to: EventStatus) -> bool {
    ||| from == EventStatus::Upcoming && to == EventStatus::Active
    ||| from == EventStatus::Active && to == EventStatus::Completed
}

/// The statuses that `cancel_event` leaves.
pub open spec fn cancellable(s: EventStatus) -> bool {
    s == EventStatus::Upcoming || s == EventStatus::Active
}

/// Every edge of the status lattice.
pub open spec fn status_edge(from: EventStatus, to: EventStatus) -> bool {
    status_update_allowed(from, to) || (cancellable(from) && to == EventStatus::Cancelled)
}

/// How far along its lifecycle a status stands.
pub open spec fn status_rank(s: EventStatus) -> int {
    match s {
        EventStatus::Upcoming => 0,
        EventStatus::Active => 1,
        EventStatus::Completed => 2,
        EventStatus::Cancelled => 2,
    }
}

} // verus!
