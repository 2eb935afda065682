//! The registry of deployed event instances: an admin, the code hash that new
//! instances are made from, and each deployed event by id, by organizer and in
//! deployment order.
use crate::identity::{Address, Symbol};
use crate::table::Table;
use vstd::prelude::*;

verus! {

#[derive(Clone, Copy, Debug, PartialEq, Eq, Structural)]
pub enum FactoryError {
    Unauthorized,
    EventAlreadyDeployed,
    EventNotFoundInRegistry,
    NotInitialized,
}

impl FactoryError {
    /// The numeric code under which hosts report this error.
    pub fn code(&self) -> (r: u32)
        ensures
            1 <= r <= 4,
    {
        match self {
            FactoryError::Unauthorized => 1,
            FactoryError::EventAlreadyDeployed => 2,
            FactoryError::EventNotFoundInRegistry => 3,
            FactoryError::NotInitialized => 4,
        }
    }
}

#[derive(Debug, PartialEq, Eq)]
pub struct DeployedEvent {
    pub event_id: Symbol,
    pub contract_address: Address,
    pub organizer: Address,
    pub deployed_at: u64,
}

pub struct DeployedEventView {
    pub event_id: Seq<char>,
    pub contract_address: Seq<char>,
    pub organizer: Seq<char>,
    pub deployed_at: u64,
}

impl View for DeployedEvent {
    type V = DeployedEventView;

    open spec fn view(&self) -> DeployedEventView {
        DeployedEventView {
            event_id: self.event_id@,
            contract_address: self.contract_address@,
            organizer: self.organizer@,
            deployed_at: self.deployed_at,
        }
    }
}

impl Clone for DeployedEvent {
    fn clone(&self) -> (r: Self)
        ensures
            r == *self,
    {
        DeployedEvent {
            event_id: self.event_id.clone(),
            contract_address: self.contract_address.clone(),
            organizer: self.organizer.clone(),
            deployed_at: self.deployed_at,
        }
    }
}

/// The registry's records as mathematical values.
pub struct FactoryView {
    pub admin: Option<Seq<char>>,
    pub event_wasm_hash: Option<Seq<u8>>,
    pub deployed: Map<Seq<char>, DeployedEventView>,
    pub all_events: Seq<Seq<char>>,
    pub organizer_events: Map<Seq<char>, Seq<Seq<char>>>,
}

pub open spec fn symbols_view(v: Seq<Symbol>) -> Seq<Seq<char>> {
    v.map_values(|s: Symbol| s@)
}

/// The ids of the events that an organizer deployed, in deployment order.
pub open spec fn events_of(s: FactoryView, organizer: Seq<char>) -> Seq<Seq<char>> {
    if s.organizer_events.contains_key(organizer) {
        s.organizer_events[organizer]
    } else {
        Seq::empty()
    }
}

pub open spec fn factory_initialized(s: FactoryView) -> bool {
    s.admin is Some && s.event_wasm_hash is Some
}

/// The registry after `e` is recorded.
pub open spec fn with_deployment(s: FactoryView, e: DeployedEventView) -> FactoryView {
    FactoryView {
        deployed: s.deployed.insert(e.event_id, e),
        all_events: s.all_events.push(e.event_id),
        organizer_events: s.organizer_events.insert(e.organizer, events_of(s, e.organizer).push(e.event_id)),
        ..s
    }
}

pub struct FactoryContract {
    admin: Option<Address>,
    event_wasm_hash: Option<[u8; 32]>,
    deployed: Table<DeployedEvent>,
    all_events: Vec<Symbol>,
    organizer_events: Table<Vec<Symbol>>,
}

impl View for FactoryContract {
    type V = FactoryView;

    closed spec fn view(&self) -> FactoryView {
        FactoryView {
            admin: match self.admin {
                Some(a) => Some(a@),
                None => None,
            },
            event_wasm_hash: match self.event_wasm_hash {
                Some(h) => Some(h@),
                None => None,
            },
            deployed: self.deployed@.map_values(|e: DeployedEvent| e@),
            all_events: symbols_view(self.all_events@),
            organizer_events: self.organizer_events@.map_values(|v: Vec<Symbol>| symbols_view(v@)),
        }
    }
}

impl FactoryContract {
    pub closed spec fn wf(&self) -> bool {
        self.deployed.wf() && self.organizer_events.wf()
    }

    pub fn new() -> (r: FactoryContract)
        ensures
            r.wf(),
            (r@.admin is None),
            (r@.event_wasm_hash is None),
            r@.deployed == Map::<Seq<char>, DeployedEventView>::empty(),
            r@.all_events == Seq::<Seq<char>>::empty(),
            r@.organizer_events == Map::<Seq<char>, Seq<Seq<char>>>::empty(),
    {
        let r = FactoryContract {
            admin: None,
            event_wasm_hash: None,
            deployed: Table::new(),
            all_events: Vec::new(),
            organizer_events: Table::new(),
        };
        assert(r@.deployed =~= Map::<Seq<char>, DeployedEventView>::empty());
        assert(r@.all_events =~= Seq::<Seq<char>>::empty());
        assert(r@.organizer_events =~= Map::<Seq<char>, Seq<Seq<char>>>::empty());
        r
    }

    /// Whether the admin and the code hash are set.
    pub fn is_initialized(&self) -> (r: bool)
        ensures
            r == factory_initialized(self@),
    {
        self.admin.is_some() && self.event_wasm_hash.is_some()
    }

    /// Sets the admin and the code hash; once they are set, later calls
    /// change nothing.
    pub fn initialize(&mut self, admin: &Address, event_wasm_hash: &[u8; 32]) -> (r: Result<(), FactoryError>)
        requires
            old(self).wf(),
        ensures
            final(self).wf(),
            r == Ok::<(), FactoryError>(()),
            factory_initialized(old(self)@) ==> final(self)@ == old(self)@,
            !factory_initialized(old(self)@) ==> final(self)@ == (FactoryView {
                admin: Some(admin@),
                event_wasm_hash: Some(event_wasm_hash@),
                ..old(self)@
            }),
    {
        if self.is_initialized() {
            return Ok(());
        }
        self.admin = Some(admin.clone());
        self.event_wasm_hash = Some(*event_wasm_hash);
        Ok(())
    }

    pub fn get_admin(&self) -> (r: Result<Address, FactoryError>)
        ensures
            match r {
                Ok(a) => self@.admin == Some(a@),
                Err(e) => (self@.admin is None) && e == FactoryError::NotInitialized,
            },
    {
        match &self.admin {
            Some(a) => Ok(a.clone()),
            None => Err(FactoryError::NotInitialized),
        }
    }

    pub fn get_event_wasm_hash(&self) -> (r: Result<[u8; 32], FactoryError>)
        ensures
            match r {
                Ok(h) => self@.event_wasm_hash == Some(h@),
                Err(e) => (self@.event_wasm_hash is None) && e == FactoryError::NotInitialized,
            },
    {
        match &self.event_wasm_hash {
            Some(h) => Ok(*h),
            None => Err(FactoryError::NotInitialized),
        }
    }

    /// Records a deployed event under its id, after the events deployed
    /// before it and among its organizer's; an id is recorded at most once.
    pub fn save_deployed_event(&mut self, event: &DeployedEvent) -> (r: Result<(), FactoryError>)
        requires
            old(self).wf(),
        ensures
            final(self).wf(),
            old(self)@.deployed.contains_key(event@.event_id) ==> r == Err::<(), FactoryError>(
                FactoryError::EventAlreadyDeployed,
            ) && final(self)@ == old(self)@,
            !old(self)@.deployed.contains_key(event@.event_id) ==> r == Ok::<(), FactoryError>(())
                && final(self)@ == with_deployment(old(self)@, event@),
    {
        let ghost pre = self@;
        let event_key = event.event_id.to_key();
        if self.deployed.contains_key(&event_key) {
            return Err(FactoryError::EventAlreadyDeployed);
        }
        self.deployed.insert(event_key, event.clone());
        self.all_events.push(event.event_id.clone());
        let mut organizer_events = self.get_organizer_events(&event.organizer);
        organizer_events.push(event.event_id.clone());
        assert(symbols_view(organizer_events@) =~= events_of(pre, event@.organizer).push(event@.event_id));
        self.organizer_events.insert(event.organizer.to_key(), organizer_events);
        let ghost post = with_deployment(pre, event@);
        assert(self@.deployed =~= post.deployed);
        assert(self@.all_events =~= post.all_events);
        assert(self@.organizer_events =~= post.organizer_events);
        Ok(())
    }

    /// The deployed event recorded under the id.
    pub fn get_deployed_event(&self, event_id: &Symbol) -> (r: Result<DeployedEvent, FactoryError>)
        requires
            self.wf(),
        ensures
            match r {
                Ok(e) => self@.deployed.contains_key(event_id@) && e@ == self@.deployed[event_id@],
                Err(err) => !self@.deployed.contains_key(event_id@) && err == FactoryError::EventNotFoundInRegistry,
            },
    {
        match self.deployed.get(&event_id.to_key()) {
            Some(e) => Ok(e.clone()),
            None => Err(FactoryError::EventNotFoundInRegistry),
        }
    }

    /// The ids of all deployed events, in deployment order.
    pub fn get_all_event_ids(&self) -> (r: Vec<Symbol>)
        ensures
            symbols_view(r@) == self@.all_events,
    {
        let r = self.all_events.clone();
        assert(r@ =~= self.all_events@);
        r
    }

    /// The ids of the events that the organizer deployed, in deployment order.
    pub fn get_organizer_events(&self, organizer: &Address) -> (r: Vec<Symbol>)
        requires
            self.wf(),
        ensures
            symbols_view(r@) == events_of(self@, organizer@),
    {
        match self.organizer_events.get(&organizer.to_key()) {
            Some(v) => {
                let r = v.clone();
                assert(r@ =~= v@);
                r
            },
            None => {
                let r = Vec::new();
                assert(symbols_view(r@) =~= Seq::<Seq<char>>::empty());
                r
            },
        }
    }
}

} // verus!
