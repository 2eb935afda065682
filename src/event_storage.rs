//! The registry's records: events by id, and per event the attendees in the
//! order in which they registered.
use crate::event_types::{event_wf, Event, EventError, EventView};
use crate::identity::{Address, Symbol};
use crate::table::Table;
use vstd::prelude::*;

verus! {

/// The registry's records as mathematical values.
pub struct RegistryState {
    pub events: Map<Seq<char>, EventView>,
    pub attendees: Map<Seq<char>, Seq<Seq<char>>>,
}

/// The attendees of an event in registration order; none when nobody has
/// registered.
pub open spec fn attendees_of(s: RegistryState, event_id: Seq<char>) -> Seq<Seq<char>> {
    if s.attendees.contains_key(event_id) {
        s.attendees[event_id]
    } else {
        Seq::empty()
    }
}

/// A registration exists for the pair.
pub open spec fn registered(s: RegistryState, event_id: Seq<char>, attendee: Seq<char>) -> bool {
    attendees_of(s, event_id).contains(attendee)
}

pub open spec fn addresses_view(v: Seq<Address>) -> Seq<Seq<char>> {
    v.map_values(|a: Address| a@)
}

impl RegistryState {
    /// Every stored event is filed under its own id and obeys the rules, and
    /// no attendee is listed twice for an event.
    pub open spec fn wf(self) -> bool {
        &&& forall|k: Seq<char>|
            #[trigger] self.events.contains_key(k) ==> self.events[k].event_id == k && event_wf(
                self.events[k],
            )
        &&& forall|k: Seq<char>| #[trigger]
            self.attendees.contains_key(k) ==> self.attendees[k].no_duplicates()
    }

    pub open spec fn with_event(self, event_id: Seq<char>, e: EventView) -> RegistryState {
        RegistryState { events: self.events.insert(event_id, e), ..self }
    }

    pub open spec fn with_registration(self, event_id: Seq<char>, attendee: Seq<char>) -> RegistryState {
        RegistryState {
            attendees: self.attendees.insert(event_id, attendees_of(self, event_id).push(attendee)),
            ..self
        }
    }
}

pub struct EventStorage {
    events: Table<Event>,
    attendees: Table<Vec<Address>>,
}

impl View for EventStorage {
    type V = RegistryState;

    closed spec fn view(&self) -> RegistryState {
        RegistryState {
            events: self.events@.map_values(|e: Event| e@),
            attendees: self.attendees@.map_values(|v: Vec<Address>| addresses_view(v@)),
        }
    }
}

impl EventStorage {
    pub closed spec fn wf(&self) -> bool {
        self.events.wf() && self.attendees.wf() && self@.wf()
    }

    pub proof fn lemma_view_wf(&self)
        requires
            self.wf(),
        ensures
            self@.wf(),
    {
    }

    pub fn new() -> (r: EventStorage)
        ensures
            r.wf(),
            r@.events == Map::<Seq<char>, EventView>::empty(),
            r@.attendees == Map::<Seq<char>, Seq<Seq<char>>>::empty(),
    {
        let r = EventStorage { events: Table::new(), attendees: Table::new() };
        assert(r@.events =~= Map::<Seq<char>, EventView>::empty());
        assert(r@.attendees =~= Map::<Seq<char>, Seq<Seq<char>>>::empty());
        r
    }

    /// Whether an event is stored under the id.
    pub fn event_exists(&self, event_id: &Symbol) -> (r: bool)
        requires
            self.wf(),
        ensures
            r == self@.events.contains_key(event_id@),
    {
        self.events.contains_key(&event_id.to_key())
    }

    /// The event stored under the id.
    pub fn get_event(&self, event_id: &Symbol) -> (r: Result<Event, EventError>)
        requires
            self.wf(),
        ensures
            match r {
                Ok(e) => self@.events.contains_key(event_id@) && e@ == self@.events[event_id@],
                Err(err) => !self@.events.contains_key(event_id@) && err == EventError::EventNotFound,
            },
    {
        match self.events.get(&event_id.to_key()) {
            Some(e) => Ok(e.clone()),
            None => Err(EventError::EventNotFound),
        }
    }

    /// Stores the event under the id, replacing any event stored there.
    pub fn save_event(&mut self, event_id: &Symbol, event: Event)
        requires
            old(self).wf(),
            event@.event_id == event_id@,
            event_wf(event@),
        ensures
            final(self).wf(),
            final(self)@ == old(self)@.with_event(event_id@, event@),
    {
        let ghost pre = self@;
        let ghost e = event@;
        self.events.insert(event_id.to_key(), event);
        assert(self@.events =~= pre.events.insert(event_id@, e));
        assert(self@ == pre.with_event(event_id@, e));
    }

    /// Replaces the event stored under the id; fails when there is none.
    pub fn update_event(&mut self, event_id: &Symbol, event: Event) -> (r: Result<(), EventError>)
        requires
            old(self).wf(),
            event@.event_id == event_id@,
            event_wf(event@),
        ensures
            final(self).wf(),
            old(self)@.events.contains_key(event_id@) ==> r == Ok::<(), EventError>(())
                && final(self)@ == old(self)@.with_event(event_id@, event@),
            !old(self)@.events.contains_key(event_id@) ==> r == Err::<(), EventError>(
                EventError::EventNotFound,
            ) && final(self)@ == old(self)@,
    {
        if !self.event_exists(event_id) {
            return Err(EventError::EventNotFound);
        }
        self.save_event(event_id, event);
        Ok(())
    }

    /// Whether the attendee holds a registration for the event.
    pub fn is_registered(&self, event_id: &Symbol, attendee: &Address) -> (r: bool)
        requires
            self.wf(),
        ensures
            r == registered(self@, event_id@, attendee@),
    {
        match self.attendees.get(&event_id.to_key()) {
            Some(list) => {
                assert(self@.attendees[event_id@] == addresses_view(list@));
                let mut i: usize = 0;
                while i < list.len()
                    invariant
                        i <= list.len(),
                        attendees_of(self@, event_id@) == addresses_view(list@),
                        forall|j: int| 0 <= j < i ==> list@[j]@ != attendee@,
                    decreases list.len() - i,
                {
                    if list[i] == *attendee {
                        assert(addresses_view(list@)[i as int] == attendee@);
                        assert(addresses_view(list@).contains(attendee@));
                        return true;
                    }
                    i = i + 1;
                }
                assert(!addresses_view(list@).contains(attendee@));
                false
            },
            None => false,
        }
    }

    /// Records the registration and appends the attendee to the event's list.
    pub fn save_registration(&mut self, event_id: &Symbol, attendee: &Address)
        requires
            old(self).wf(),
            !registered(old(self)@, event_id@, attendee@),
        ensures
            final(self).wf(),
            final(self)@ == old(self)@.with_registration(event_id@, attendee@),
    {
        let ghost pre = self@;
        let key = event_id.to_key();
        let mut list: Vec<Address> = match self.attendees.get(&key) {
            Some(l) => l.clone(),
            None => Vec::new(),
        };
        assert(addresses_view(list@) =~= attendees_of(pre, event_id@));
        list.push(attendee.clone());
        assert(addresses_view(list@) =~= attendees_of(pre, event_id@).push(attendee@));
        self.attendees.insert(key, list);
        assert(self@.attendees =~= pre.attendees.insert(
            event_id@,
            attendees_of(pre, event_id@).push(attendee@),
        ));
        assert(self@.events =~= pre.events);
    }

    /// The attendees of the event in registration order.
    pub fn get_attendees(&self, event_id: &Symbol) -> (r: Vec<Address>)
        requires
            self.wf(),
        ensures
            addresses_view(r@) == attendees_of(self@, event_id@),
    {
        match self.attendees.get(&event_id.to_key()) {
            Some(l) => {
                let r = l.clone();
                assert(r@ =~= l@);
                r
            },
            None => {
                let r = Vec::new();
                assert(addresses_view(r@) =~= Seq::<Seq<char>>::empty());
                r
            },
        }
    }
}

} // verus!
