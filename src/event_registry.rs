//! The event registry: creation and lifecycle of events, their ticket tiers,
//! and capacity-limited attendee registration.
use crate::event_storage::{addresses_view, attendees_of, registered, EventStorage, RegistryState};
use crate::event_types::{
    cancellable, capacity_accepted, created_event, date_accepted, event_wf, status_edge,
    status_update_allowed, text_view, tier_fields_error, tier_wf, tiers_error, tiers_error_upto,
    updated_details, CreateEventParams, CreateEventParamsView, Event, EventError, EventStatus,
    EventView, TicketTier, TierParamsView, TierView, UpdateEventParams, UpdateEventParamsView,
    MAX_TIER_CAPACITY, MIN_LEAD_TIME,
};
use crate::identity::{Address, Symbol};
use vstd::prelude::*;

verus! {

/// The first rule that a creation request breaks against the store `s` at
/// ledger time `now`.
pub open spec fn create_event_error(
    s: RegistryState,
    p: CreateEventParamsView,
    now: u64,
) -> Option<EventError> {
    if p.name.len() == 0 || p.venue.len() == 0 {
        Some(EventError::InvalidInput)
    } else if !date_accepted(p.event_date, now) {
        Some(EventError::InvalidEventDate)
    } else if p.initial_tiers.len() == 0 {
        Some(EventError::InvalidInput)
    } else if tiers_error(p.initial_tiers) != None::<EventError> {
        tiers_error(p.initial_tiers)
    } else if s.events.contains_key(p.event_id) {
        Some(EventError::EventAlreadyExists)
    } else {
        None
    }
}

proof fn lemma_tiers_error_stable(tiers: Seq<TierParamsView>, k: nat, n: nat)
    requires
        k <= n,
        tiers_error_upto(tiers, k) != None::<EventError>,
    ensures
        tiers_error_upto(tiers, n) == tiers_error_upto(tiers, k),
    decreases n,
{
    if n > k {
        lemma_tiers_error_stable(tiers, k, (n - 1) as nat);
    }
}

proof fn lemma_tiers_error_none(tiers: Seq<TierParamsView>, n: nat)
    requires
        n <= tiers.len(),
        tiers_error_upto(tiers, n) == None::<EventError>,
    ensures
        forall|i: int|
            0 <= i < n ==> tier_fields_error(
                #[trigger] tiers[i].name,
                tiers[i].price,
                tiers[i].capacity,
            ) == None::<EventError>,
    decreases n,
{
    if n > 0 {
        lemma_tiers_error_none(tiers, (n - 1) as nat);
    }
}

/// The first rule that a caller acting as `organizer` breaks on the event:
/// it must exist and be theirs.
pub open spec fn organizer_error(
    s: RegistryState,
    organizer: Seq<char>,
    event_id: Seq<char>,
) -> Option<EventError> {
    if !s.events.contains_key(event_id) {
        Some(EventError::EventNotFound)
    } else if s.events[event_id].organizer != organizer {
        Some(EventError::Unauthorized)
    } else {
        None
    }
}

/// As `organizer_error`, and the event must still be `Upcoming`.
pub open spec fn editing_error(
    s: RegistryState,
    organizer: Seq<char>,
    event_id: Seq<char>,
) -> Option<EventError> {
    match organizer_error(s, organizer, event_id) {
        Some(e) => Some(e),
        None => if s.events[event_id].status != EventStatus::Upcoming {
            Some(EventError::EventNotUpdatable)
        } else {
            None
        },
    }
}

pub open spec fn is_empty_text(t: Option<Seq<char>>) -> bool {
    match t {
        Some(v) => v.len() == 0,
        None => false,
    }
}

pub open spec fn update_details_error(
    s: RegistryState,
    p: UpdateEventParamsView,
    now: u64,
) -> Option<EventError> {
    match editing_error(s, p.organizer, p.event_id) {
        Some(e) => Some(e),
        None => if is_empty_text(p.name) || is_empty_text(p.venue) {
            Some(EventError::InvalidInput)
        } else if match p.event_date {
            Some(d) => !date_accepted(d, now),
            None => false,
        } {
            Some(EventError::InvalidEventDate)
        } else {
            None
        },
    }
}

pub open spec fn add_tier_error(
    s: RegistryState,
    organizer: Seq<char>,
    event_id: Seq<char>,
    name: Seq<char>,
    price: i128,
    capacity: u32,
) -> Option<EventError> {
    match editing_error(s, organizer, event_id) {
        Some(e) => Some(e),
        None => tier_fields_error(name, price, capacity),
    }
}

/// The tier that `add_ticket_tier` appends to the event.
pub open spec fn added_tier(e: EventView, name: Seq<char>, price: i128, capacity: u32) -> TierView {
    TierView { tier_id: e.tiers.len() as u32, name, price, capacity, sold: 0 }
}

pub open spec fn with_tier(e: EventView, t: TierView) -> EventView {
    EventView { tiers: e.tiers.push(t), ..e }
}

pub open spec fn update_tier_error(
    s: RegistryState,
    organizer: Seq<char>,
    event_id: Seq<char>,
    tier_id: u32,
    name: Option<Seq<char>>,
    price: Option<i128>,
    capacity: Option<u32>,
) -> Option<EventError> {
    match editing_error(s, organizer, event_id) {
        Some(e) => Some(e),
        None => if tier_id >= s.events[event_id].tiers.len() {
            Some(EventError::TierNotFound)
        } else if is_empty_text(name) {
            Some(EventError::InvalidInput)
        } else if match price {
            Some(v) => v < 0,
            None => false,
        } {
            Some(EventError::InvalidPrice)
        } else if match capacity {
            Some(c) => !capacity_accepted(c),
            None => false,
        } {
            Some(EventError::InvalidTicketCount)
        } else {
            None
        },
    }
}

/// The event after the supplied fields replace those of tier `tier_id`.
pub open spec fn with_tier_update(
    e: EventView,
    tier_id: u32,
    name: Option<Seq<char>>,
    price: Option<i128>,
    capacity: Option<u32>,
) -> EventView {
    let t = e.tiers[tier_id as int];
    EventView {
        tiers: e.tiers.update(
            tier_id as int,
            TierView {
                name: match name {
                    Some(n) => n,
                    None => t.name,
                },
                price: match price {
                    Some(v) => v,
                    None => t.price,
                },
                capacity: match capacity {
                    Some(c) => c,
                    None => t.capacity,
                },
                ..t
            },
        ),
        ..e
    }
}

pub open spec fn status_update_error(
    s: RegistryState,
    organizer: Seq<char>,
    event_id: Seq<char>,
    new_status: EventStatus,
) -> Option<EventError> {
    match organizer_error(s, organizer, event_id) {
        Some(e) => Some(e),
        None => if !status_update_allowed(s.events[event_id].status, new_status) {
            Some(EventError::InvalidStatusTransition)
        } else {
            None
        },
    }
}

pub open spec fn cancel_error(
    s: RegistryState,
    organizer: Seq<char>,
    event_id: Seq<char>,
) -> Option<EventError> {
    match organizer_error(s, organizer, event_id) {
        Some(e) => Some(e),
        None => if !cancellable(s.events[event_id].status) {
            Some(EventError::InvalidStatusTransition)
        } else {
            None
        },
    }
}

pub open spec fn with_status(e: EventView, status: EventStatus) -> EventView {
    EventView { status, ..e }
}

/// The first rule that a registration breaks, checked in the order: the event
/// exists and is active, the tier exists and has a free slot, the attendee is
/// not yet registered.
pub open spec fn register_error(
    s: RegistryState,
    attendee: Seq<char>,
    event_id: Seq<char>,
    tier_id: u32,
) -> Option<EventError> {
    if !s.events.contains_key(event_id) {
        Some(EventError::EventNotFound)
    } else if s.events[event_id].status != EventStatus::Active {
        Some(EventError::EventNotActive)
    } else if tier_id >= s.events[event_id].tiers.len() {
        Some(EventError::TierNotFound)
    } else if s.events[event_id].tiers[tier_id as int].sold >= s.events[event_id].tiers[tier_id as int].capacity {
        Some(EventError::TierSoldOut)
    } else if registered(s, event_id, attendee) {
        Some(EventError::AlreadyRegistered)
    } else {
        None
    }
}

/// The event after one more slot of tier `tier_id` is sold.
pub open spec fn with_sale(e: EventView, tier_id: u32) -> EventView {
    let t = e.tiers[tier_id as int];
    EventView { tiers: e.tiers.update(tier_id as int, TierView { sold: (t.sold + 1) as u32, ..t }), ..e }
}

/// The records after a successful registration.
pub open spec fn registered_state(
    s: RegistryState,
    attendee: Seq<char>,
    event_id: Seq<char>,
    tier_id: u32,
) -> RegistryState {
    s.with_event(event_id, with_sale(s.events[event_id], tier_id)).with_registration(event_id, attendee)
}

/// No event disappears, and each event's status is unchanged or has moved
/// along one edge of the status lattice.
pub open spec fn statuses_advance(before: RegistryState, after: RegistryState) -> bool {
    forall|k: Seq<char>| #[trigger]
        before.events.contains_key(k) ==> after.events.contains_key(k) && (after.events[k].status
            == before.events[k].status || status_edge(before.events[k].status, after.events[k].status))
}

/// Every existing tier stays, and its sold count never goes down.
pub open spec fn sales_kept(before: RegistryState, after: RegistryState) -> bool {
    forall|k: Seq<char>, i: int|
        #[trigger] before.events.contains_key(k) && 0 <= i < before.events[k].tiers.len() ==> after.events.contains_key(k)
            && i < after.events[k].tiers.len() && before.events[k].tiers[i].sold <= #[trigger] after.events[k].tiers[i].sold
}

/// Finds the tier numbered `tier_id`.
fn tier_index(event: &Event, tier_id: u32) -> (r: Option<usize>)
    requires
        event_wf(event@),
    ensures
        match r {
            Some(i) => i == tier_id && (tier_id as int) < event@.tiers.len(),
            None => tier_id as int >= event@.tiers.len(),
        },
{
    let mut i: usize = 0;
    while i < event.tiers.len()
        invariant
            event_wf(event@),
            i <= event.tiers.len(),
            i <= tier_id,
        decreases event.tiers.len() - i,
    {
        assert(tier_wf(event@.tiers[i as int], i as int));
        if event.tiers[i].tier_id == tier_id {
            return Some(i);
        }
        i = i + 1;
    }
    None
}

/// The registry of events. Every operation validates against the stored
/// records and then commits all of its writes, or fails and writes nothing.
pub struct EventContract {
    storage: EventStorage,
}

impl View for EventContract {
    type V = RegistryState;

    closed spec fn view(&self) -> RegistryState {
        self.storage@
    }
}

impl EventContract {
    pub closed spec fn wf(&self) -> bool {
        self.storage.wf()
    }

    pub proof fn lemma_wf(&self)
        requires
            self.wf(),
        ensures
            self@.wf(),
    {
        self.storage.lemma_view_wf();
    }

    pub fn new() -> (r: EventContract)
        ensures
            r.wf(),
            r@.events == Map::<Seq<char>, EventView>::empty(),
            r@.attendees == Map::<Seq<char>, Seq<Seq<char>>>::empty(),
    {
        EventContract { storage: EventStorage::new() }
    }

    /// Creates an event for its organizer, with tiers numbered from zero in
    /// the order given, each with nothing sold, and status `Upcoming`.
    pub fn create_event(&mut self, params: &CreateEventParams, now: u64) -> (r: Result<
        Event,
        EventError,
    >)
        requires
            old(self).wf(),
            params.initial_tiers.len() <= u32::MAX,
        ensures
            final(self).wf(),
            statuses_advance(old(self)@, final(self)@),
            sales_kept(old(self)@, final(self)@),
            match r {
                Ok(ev) => create_event_error(old(self)@, params@, now) == None::<EventError>
                    && ev@ == created_event(params@, now) && final(self)@ == old(self)@.with_event(
                    params@.event_id,
                    ev@,
                ),
                Err(e) => create_event_error(old(self)@, params@, now) == Some(e) && final(self)@
                    == old(self)@,
            },
    {
        let ghost p = params@;
        if params.name.as_str().is_empty() {
            return Err(EventError::InvalidInput);
        }
        if params.venue.as_str().is_empty() {
            return Err(EventError::InvalidInput);
        }
        if params.event_date <= now || params.event_date - now <= MIN_LEAD_TIME {
            return Err(EventError::InvalidEventDate);
        }
        if params.initial_tiers.len() == 0 {
            return Err(EventError::InvalidInput);
        }
        let mut tiers: Vec<TicketTier> = Vec::new();
        let mut i: usize = 0;
        while i < params.initial_tiers.len()
            invariant
                p == params@,
                self.wf(),
                self@ == old(self)@,
                tiers_error(p.initial_tiers) != None::<EventError> ==> create_event_error(self@, p, now)
                    == tiers_error(p.initial_tiers),
                i <= params.initial_tiers.len() <= u32::MAX,
                tiers.len() == i,
                tiers_error_upto(p.initial_tiers, i as nat) == None::<EventError>,
                forall|j: int|
                    0 <= j < i ==> (#[trigger] tiers@[j])@ == created_event(p, now).tiers[j],
            decreases params.initial_tiers.len() - i,
        {
            let tier_param = &params.initial_tiers[i];
            assert(tier_param@ == p.initial_tiers[i as int]);
            proof {
                if tiers_error_upto(p.initial_tiers, (i + 1) as nat) != None::<EventError> {
                    lemma_tiers_error_stable(p.initial_tiers, (i + 1) as nat, p.initial_tiers.len());
                }
            }
            if tier_param.name.as_str().is_empty() {
                return Err(EventError::InvalidInput);
            }
            if tier_param.capacity == 0 || tier_param.capacity >= MAX_TIER_CAPACITY {
                return Err(EventError::InvalidTicketCount);
            }
            if tier_param.price < 0 {
                return Err(EventError::InvalidPrice);
            }
            tiers.push(
                TicketTier {
                    tier_id: i as u32,
                    name: tier_param.name.clone(),
                    price: tier_param.price,
                    capacity: tier_param.capacity,
                    sold: 0,
                },
            );
            i = i + 1;
        }
        if self.storage.event_exists(&params.event_id) {
            return Err(EventError::EventAlreadyExists);
        }
        let event = Event {
            event_id: params.event_id.clone(),
            organizer: params.organizer.clone(),
            name: params.name.clone(),
            description: params.description.clone(),
            venue: params.venue.clone(),
            event_date: params.event_date,
            tiers,
            status: EventStatus::Upcoming,
            created_at: now,
        };
        assert(event@.tiers =~= created_event(p, now).tiers);
        assert(event@ == created_event(p, now));
        proof {
            lemma_tiers_error_none(p.initial_tiers, p.initial_tiers.len());
            assert forall|j: int| 0 <= j < event@.tiers.len() implies tier_wf(
                #[trigger] event@.tiers[j],
                j,
            ) by {
                assert(tier_fields_error(
                    p.initial_tiers[j].name,
                    p.initial_tiers[j].price,
                    p.initial_tiers[j].capacity,
                ) == None::<EventError>);
            }
        }
        let result = event.clone();
        self.storage.save_event(&params.event_id, event);
        Ok(result)
    }
    /// Registers the attendee for a slot of tier `tier_id`: the attendee joins
    /// the event's attendee list and the tier's sold count grows by one, in
    /// one commit.
    pub fn register_for_event(&mut self, attendee: &Address, event_id: &Symbol, tier_id: u32) -> (r:
        Result<(), EventError>)
        requires
            old(self).wf(),
        ensures
            final(self).wf(),
            statuses_advance(old(self)@, final(self)@),
            sales_kept(old(self)@, final(self)@),
            match register_error(old(self)@, attendee@, event_id@, tier_id) {
                Some(e) => r == Err::<(), EventError>(e) && final(self)@ == old(self)@,
                None => r == Ok::<(), EventError>(()) && final(self)@ == registered_state(
                    old(self)@,
                    attendee@,
                    event_id@,
                    tier_id,
                ),
            },
    {
        proof {
            self.storage.lemma_view_wf();
        }
        let mut event = match self.storage.get_event(event_id) {
            Ok(e) => e,
            Err(e) => return Err(e),
        };
        if event.status != EventStatus::Active {
            return Err(EventError::EventNotActive);
        }
        let index = match tier_index(&event, tier_id) {
            Some(i) => i,
            None => return Err(EventError::TierNotFound),
        };
        if event.tiers[index].sold >= event.tiers[index].capacity {
            return Err(EventError::TierSoldOut);
        }
        if self.storage.is_registered(event_id, attendee) {
            return Err(EventError::AlreadyRegistered);
        }
        let ghost pre = self@;
        self.storage.save_registration(event_id, attendee);
        let old_tier = &event.tiers[index];
        let tier = TicketTier {
            tier_id: old_tier.tier_id,
            name: old_tier.name.clone(),
            price: old_tier.price,
            capacity: old_tier.capacity,
            sold: old_tier.sold + 1,
        };
        event.tiers[index] = tier;
        assert(event@.tiers =~= with_sale(pre.events[event_id@], tier_id).tiers);
        assert(event@ == with_sale(pre.events[event_id@], tier_id));
        assert(event_wf(event@)) by {
            assert(forall|i: int|
                0 <= i < event@.tiers.len() && i != index ==> event@.tiers[i]
                    == pre.events[event_id@].tiers[i]);
        }
        let ghost mid = self@;
        self.storage.save_event(event_id, event);
        assert(self@ == registered_state(pre, attendee@, event_id@, tier_id)) by {
            assert(self@.events =~= pre.events.insert(event_id@, with_sale(pre.events[event_id@], tier_id)));
            assert(self@.attendees =~= pre.attendees.insert(
                event_id@,
                attendees_of(pre, event_id@).push(attendee@),
            ));
        }
        Ok(())
    }

    /// Replaces the supplied fields of tier `tier_id` of an upcoming event.
    pub fn update_tier(
        &mut self,
        organizer: &Address,
        event_id: &Symbol,
        tier_id: u32,
        name: &Option<String>,
        price: Option<i128>,
        capacity: Option<u32>,
    ) -> (r: Result<(), EventError>)
        requires
            old(self).wf(),
        ensures
            final(self).wf(),
            statuses_advance(old(self)@, final(self)@),
            sales_kept(old(self)@, final(self)@),
            match update_tier_error(old(self)@, organizer@, event_id@, tier_id, text_view(*name), price, capacity) {
                Some(e) => r == Err::<(), EventError>(e) && final(self)@ == old(self)@,
                None => r == Ok::<(), EventError>(()) && final(self)@ == old(self)@.with_event(
                    event_id@,
                    with_tier_update(old(self)@.events[event_id@], tier_id, text_view(*name), price, capacity),
                ),
            },
    {
        proof {
            self.storage.lemma_view_wf();
        }
        let ghost pre = self@;
        let mut event = match self.storage.get_event(event_id) {
            Ok(e) => e,
            Err(e) => return Err(e),
        };
        if !(event.organizer == *organizer) {
            return Err(EventError::Unauthorized);
        }
        if event.status != EventStatus::Upcoming {
            return Err(EventError::EventNotUpdatable);
        }
        let index = match tier_index(&event, tier_id) {
            Some(i) => i,
            None => return Err(EventError::TierNotFound),
        };
        let old_tier = &event.tiers[index];
        let mut tier = old_tier.clone();
        if let Some(n) = name {
            if n.as_str().is_empty() {
                return Err(EventError::InvalidInput);
            }
            tier.name = n.clone();
        }
        if let Some(p) = price {
            if p < 0 {
                return Err(EventError::InvalidPrice);
            }
            tier.price = p;
        }
        if let Some(c) = capacity {
            if c == 0 || c >= MAX_TIER_CAPACITY {
                return Err(EventError::InvalidTicketCount);
            }
            tier.capacity = c;
        }
        event.tiers[index] = tier;
        let ghost target = with_tier_update(pre.events[event_id@], tier_id, text_view(*name), price, capacity);
        assert(event@.tiers =~= target.tiers);
        assert(event@ == target);
        assert(event_wf(event@)) by {
            assert(forall|i: int|
                0 <= i < event@.tiers.len() && i != index ==> event@.tiers[i]
                    == pre.events[event_id@].tiers[i]);
        }
        self.storage.save_event(event_id, event);
        Ok(())
    }

    /// Replaces the supplied details of an upcoming event; details left unset
    /// stay as they are.
    pub fn update_event_details(&mut self, params: &UpdateEventParams, now: u64) -> (r: Result<
        Event,
        EventError,
    >)
        requires
            old(self).wf(),
        ensures
            final(self).wf(),
            statuses_advance(old(self)@, final(self)@),
            sales_kept(old(self)@, final(self)@),
            match r {
                Ok(ev) => update_details_error(old(self)@, params@, now) == None::<EventError>
                    && ev@ == updated_details(old(self)@.events[params@.event_id], params@)
                    && final(self)@ == old(self)@.with_event(params@.event_id, ev@),
                Err(e) => update_details_error(old(self)@, params@, now) == Some(e) && final(self)@
                    == old(self)@,
            },
    {
        proof {
            self.storage.lemma_view_wf();
        }
        let ghost pre = self@;
        let mut event = match self.storage.get_event(&params.event_id) {
            Ok(e) => e,
            Err(e) => return Err(e),
        };
        if !(event.organizer == params.organizer) {
            return Err(EventError::Unauthorized);
        }
        if event.status != EventStatus::Upcoming {
            return Err(EventError::EventNotUpdatable);
        }
        if let Some(n) = &params.name {
            if n.as_str().is_empty() {
                return Err(EventError::InvalidInput);
            }
            event.name = n.clone();
        }
        if let Some(d) = &params.description {
            event.description = d.clone();
        }
        if let Some(v) = &params.venue {
            if v.as_str().is_empty() {
                return Err(EventError::InvalidInput);
            }
            event.venue = v.clone();
        }
        if let Some(date) = params.event_date {
            if date <= now || date - now <= MIN_LEAD_TIME {
                return Err(EventError::InvalidEventDate);
            }
            event.event_date = date;
        }
        assert(event@ == updated_details(pre.events[params@.event_id], params@));
        let result = event.clone();
        self.storage.save_event(&params.event_id, event);
        Ok(result)
    }

    /// Appends a tier to an upcoming event, numbered after the last one.
    pub fn add_ticket_tier(
        &mut self,
        organizer: &Address,
        event_id: &Symbol,
        name: &String,
        price: i128,
        capacity: u32,
    ) -> (r: Result<TicketTier, EventError>)
        requires
            old(self).wf(),
            old(self)@.events.contains_key(event_id@) ==> old(self)@.events[event_id@].tiers.len()
                < u32::MAX,
        ensures
            final(self).wf(),
            statuses_advance(old(self)@, final(self)@),
            sales_kept(old(self)@, final(self)@),
            match r {
                Ok(t) => add_tier_error(old(self)@, organizer@, event_id@, name@, price, capacity)
                    == None::<EventError> && t@ == added_tier(
                    old(self)@.events[event_id@],
                    name@,
                    price,
                    capacity,
                ) && final(self)@ == old(self)@.with_event(
                    event_id@,
                    with_tier(old(self)@.events[event_id@], t@),
                ),
                Err(e) => add_tier_error(old(self)@, organizer@, event_id@, name@, price, capacity)
                    == Some(e) && final(self)@ == old(self)@,
            },
    {
        proof {
            self.storage.lemma_view_wf();
        }
        let ghost pre = self@;
        let mut event = match self.storage.get_event(event_id) {
            Ok(e) => e,
            Err(e) => return Err(e),
        };
        if !(event.organizer == *organizer) {
            return Err(EventError::Unauthorized);
        }
        if event.status != EventStatus::Upcoming {
            return Err(EventError::EventNotUpdatable);
        }
        if name.as_str().is_empty() {
            return Err(EventError::InvalidInput);
        }
        if capacity == 0 || capacity >= MAX_TIER_CAPACITY {
            return Err(EventError::InvalidTicketCount);
        }
        if price < 0 {
            return Err(EventError::InvalidPrice);
        }
        let new_tier = TicketTier {
            tier_id: event.tiers.len() as u32,
            name: name.clone(),
            price,
            capacity,
            sold: 0,
        };
        let result = new_tier.clone();
        event.tiers.push(new_tier);
        assert(event@.tiers =~= with_tier(pre.events[event_id@], result@).tiers);
        assert(event@ == with_tier(pre.events[event_id@], result@));
        self.storage.save_event(event_id, event);
        Ok(result)
    }

    /// Moves the event along `Upcoming -> Active` or `Active -> Completed`.
    pub fn update_event_status(&mut self, organizer: &Address, event_id: &Symbol, new_status: &EventStatus) -> (r:
        Result<(), EventError>)
        requires
            old(self).wf(),
        ensures
            final(self).wf(),
            statuses_advance(old(self)@, final(self)@),
            sales_kept(old(self)@, final(self)@),
            match status_update_error(old(self)@, organizer@, event_id@, *new_status) {
                Some(e) => r == Err::<(), EventError>(e) && final(self)@ == old(self)@,
                None => r == Ok::<(), EventError>(()) && final(self)@ == old(self)@.with_event(
                    event_id@,
                    with_status(old(self)@.events[event_id@], *new_status),
                ),
            },
    {
        proof {
            self.storage.lemma_view_wf();
        }
        let ghost pre = self@;
        let mut event = match self.storage.get_event(event_id) {
            Ok(e) => e,
            Err(e) => return Err(e),
        };
        if !(event.organizer == *organizer) {
            return Err(EventError::Unauthorized);
        }
        let valid_transition = match (event.status, *new_status) {
            (EventStatus::Upcoming, EventStatus::Active) => true,
            (EventStatus::Active, EventStatus::Completed) => true,
            _ => false,
        };
        if !valid_transition {
            return Err(EventError::InvalidStatusTransition);
        }
        event.status = *new_status;
        assert(event@ == with_status(pre.events[event_id@], *new_status));
        match self.storage.update_event(event_id, event) {
            Ok(()) => Ok(()),
            Err(e) => Err(e),
        }
    }

    /// Cancels an upcoming or active event.
    pub fn cancel_event(&mut self, organizer: &Address, event_id: &Symbol) -> (r: Result<(), EventError>)
        requires
            old(self).wf(),
        ensures
            final(self).wf(),
            statuses_advance(old(self)@, final(self)@),
            sales_kept(old(self)@, final(self)@),
            match cancel_error(old(self)@, organizer@, event_id@) {
                Some(e) => r == Err::<(), EventError>(e) && final(self)@ == old(self)@,
                None => r == Ok::<(), EventError>(()) && final(self)@ == old(self)@.with_event(
                    event_id@,
                    with_status(old(self)@.events[event_id@], EventStatus::Cancelled),
                ),
            },
    {
        proof {
            self.storage.lemma_view_wf();
        }
        let ghost pre = self@;
        let mut event = match self.storage.get_event(event_id) {
            Ok(e) => e,
            Err(e) => return Err(e),
        };
        if !(event.organizer == *organizer) {
            return Err(EventError::Unauthorized);
        }
        match event.status {
            EventStatus::Completed | EventStatus::Cancelled => {
                return Err(EventError::InvalidStatusTransition);
            },
            _ => {},
        }
        event.status = EventStatus::Cancelled;
        assert(event@ == with_status(pre.events[event_id@], EventStatus::Cancelled));
        match self.storage.update_event(event_id, event) {
            Ok(()) => Ok(()),
            Err(e) => Err(e),
        }
    }

    /// The event stored under the id.
    pub fn get_event(&self, event_id: &Symbol) -> (r: Result<Event, EventError>)
        requires
            self.wf(),
        ensures
            match r {
                Ok(e) => self@.events.contains_key(event_id@) && e@ == self@.events[event_id@],
                Err(err) => !self@.events.contains_key(event_id@) && err == EventError::EventNotFound,
            },
    {
        self.storage.get_event(event_id)
    }

    /// The status of the event stored under the id.
    pub fn get_event_status(&self, event_id: &Symbol) -> (r: Result<EventStatus, EventError>)
        requires
            self.wf(),
        ensures
            match r {
                Ok(st) => self@.events.contains_key(event_id@) && st == self@.events[event_id@].status,
                Err(err) => !self@.events.contains_key(event_id@) && err == EventError::EventNotFound,
            },
    {
        let event = self.storage.get_event(event_id)?;
        Ok(event.status)
    }

    /// Whether the attendee holds a registration for the event.
    pub fn is_registered(&self, event_id: &Symbol, attendee: &Address) -> (r: Result<bool, EventError>)
        requires
            self.wf(),
        ensures
            match r {
                Ok(b) => self@.events.contains_key(event_id@) && b == registered(self@, event_id@, attendee@),
                Err(err) => !self@.events.contains_key(event_id@) && err == EventError::EventNotFound,
            },
    {
        if !self.storage.event_exists(event_id) {
            return Err(EventError::EventNotFound);
        }
        Ok(self.storage.is_registered(event_id, attendee))
    }

    /// The attendees of the event, in the order in which they registered.
    pub fn get_attendees(&self, event_id: &Symbol) -> (r: Result<Vec<Address>, EventError>)
        requires
            self.wf(),
        ensures
            match r {
                Ok(v) => self@.events.contains_key(event_id@) && addresses_view(v@) == attendees_of(self@, event_id@),
                Err(err) => !self@.events.contains_key(event_id@) && err == EventError::EventNotFound,
            },
    {
        if !self.storage.event_exists(event_id) {
            return Err(EventError::EventNotFound);
        }
        Ok(self.storage.get_attendees(event_id))
    }
}

} // verus!
