//! The ticket ledger: tickets numbered from one, each with exactly one current
//! owner, transferable while valid, and used or cancelled at most once.
use crate::identity::{Address, Symbol};
use crate::table::Table;
use vstd::prelude::*;

verus! {

#[derive(Clone, Copy, Debug, PartialEq, Eq, Structural)]
pub enum TicketError {
    TicketNotFound,
    TicketAlreadyExists,
    InvalidStatusTransition,
    Unauthorized,
    InvalidInput,
    TicketNotActive,
    InvalidTicketDate,
    InvalidTicketCount,
    InvalidPrice,
    TicketNotUpdatable,
    TicketNotTransferable,
    TransferToSelf,
    TicketAlreadyUsed,
    EventNotActive,
}

impl TicketError {
    /// The numeric code under which hosts report this error.
    pub fn code(&self) -> (r: u32)
        ensures
            1 <= r <= 14,
    {
        match self {
            TicketError::TicketNotFound => 1,
            TicketError::TicketAlreadyExists => 2,
            TicketError::InvalidStatusTransition => 3,
            TicketError::Unauthorized => 4,
            TicketError::InvalidInput => 5,
            TicketError::TicketNotActive => 6,
            TicketError::InvalidTicketDate => 7,
            TicketError::InvalidTicketCount => 8,
            TicketError::InvalidPrice => 9,
            TicketError::TicketNotUpdatable => 10,
            TicketError::TicketNotTransferable => 11,
            TicketError::TransferToSelf => 12,
            TicketError::TicketAlreadyUsed => 13,
            TicketError::EventNotActive => 14,
        }
    }
}

#[derive(Clone, Copy, Debug, PartialEq, Eq, Structural)]
pub enum TicketStatus {
    Valid,
    Used,
    Cancelled,
}

#[derive(Debug, PartialEq, Eq)]
pub struct Ticket {
    pub ticket_id: u64,
    pub event_id: Symbol,
    pub organizer: Address,
    pub owner: Address,
    pub issued_at: u64,
    pub status: TicketStatus,
}

/// A ticket as a mathematical value.
pub struct TicketView {
    pub ticket_id: u64,
    pub event_id: Seq<char>,
    pub organizer: Seq<char>,
    pub owner: Seq<char>,
    pub issued_at: u64,
    pub status: TicketStatus,
}

impl View for Ticket {
    type V = TicketView;

    open spec fn view(&self) -> TicketView {
        TicketView {
            ticket_id: self.ticket_id,
            event_id: self.event_id@,
            organizer: self.organizer@,
            owner: self.owner@,
            issued_at: self.issued_at,
            status: self.status,
        }
    }
}

impl Clone for Ticket {
    fn clone(&self) -> (r: Self)
        ensures
            r == *self,
    {
        Ticket {
            ticket_id: self.ticket_id,
            event_id: self.event_id.clone(),
            organizer: self.organizer.clone(),
            owner: self.owner.clone(),
            issued_at: self.issued_at,
            status: self.status,
        }
    }
}

/// The ledger's records as mathematical values. Ticket `i + 1` is
/// `tickets[i]`.
pub struct TicketsView {
    pub tickets: Seq<TicketView>,
    pub owner_tickets: Map<Seq<char>, Seq<u64>>,
    pub event_tickets: Map<Seq<char>, Seq<u64>>,
}

pub open spec fn has_ticket(s: TicketsView, ticket_id: u64) -> bool {
    1 <= ticket_id <= s.tickets.len()
}

pub open spec fn ticket_of(s: TicketsView, ticket_id: u64) -> TicketView {
    s.tickets[ticket_id - 1]
}

/// The ids listed under an owner; none when the owner has no list.
pub open spec fn owned_by(s: TicketsView, owner: Seq<char>) -> Seq<u64> {
    if s.owner_tickets.contains_key(owner) {
        s.owner_tickets[owner]
    } else {
        Seq::empty()
    }
}

/// The ids issued for an event, in the order issued.
pub open spec fn issued_for(s: TicketsView, event_id: Seq<char>) -> Seq<u64> {
    if s.event_tickets.contains_key(event_id) {
        s.event_tickets[event_id]
    } else {
        Seq::empty()
    }
}

/// The position of the first occurrence of `x` in `list`.
pub open spec fn first_index(list: Seq<u64>, x: u64) -> int {
    choose|i: int| 0 <= i < list.len() && list[i] == x && forall|j: int| 0 <= j < i ==> list[j] != x
}

impl TicketsView {
    /// Tickets are numbered from one in the order issued; each owner's list
    /// holds each id at most once, only ids of tickets that the owner holds,
    /// and every ticket is listed under its owner.
    pub open spec fn wf(self) -> bool {
        &&& self.tickets.len() < u64::MAX
        &&& forall|i: int| 0 <= i < self.tickets.len() ==> (#[trigger] self.tickets[i]).ticket_id == i + 1
        &&& forall|o: Seq<char>| #[trigger]
            self.owner_tickets.contains_key(o) ==> self.owner_tickets[o].no_duplicates()
        &&& forall|o: Seq<char>, k: int|
            self.owner_tickets.contains_key(o) && 0 <= k < self.owner_tickets[o].len() ==> has_ticket(
                self,
                #[trigger] self.owner_tickets[o][k],
            ) && ticket_of(self, self.owner_tickets[o][k]).owner == o
        &&& forall|i: int|
            0 <= i < self.tickets.len() ==> owned_by(self, (#[trigger] self.tickets[i]).owner).contains(
                (i + 1) as u64,
            )
    }
}

/// The ledger after ticket `len + 1` is issued to `owner`.
pub open spec fn minted_state(
    s: TicketsView,
    event_id: Seq<char>,
    organizer: Seq<char>,
    owner: Seq<char>,
    now: u64,
) -> TicketsView {
    let id = (s.tickets.len() + 1) as u64;
    TicketsView {
        tickets: s.tickets.push(
            TicketView { ticket_id: id, event_id, organizer, owner, issued_at: now, status: TicketStatus::Valid },
        ),
        owner_tickets: s.owner_tickets.insert(owner, owned_by(s, owner).push(id)),
        event_tickets: s.event_tickets.insert(event_id, issued_for(s, event_id).push(id)),
    }
}

/// The first rule that a transfer breaks.
pub open spec fn transfer_error(
    s: TicketsView,
    from: Seq<char>,
    to: Seq<char>,
    ticket_id: u64,
) -> Option<TicketError> {
    if from == to {
        Some(TicketError::TransferToSelf)
    } else if !has_ticket(s, ticket_id) {
        Some(TicketError::TicketNotFound)
    } else if ticket_of(s, ticket_id).owner != from {
        Some(TicketError::Unauthorized)
    } else if ticket_of(s, ticket_id).status != TicketStatus::Valid {
        Some(TicketError::TicketNotTransferable)
    } else {
        None
    }
}

/// The ledger after the ticket passes from `from` to `to`: its owner is
/// replaced, its first occurrence leaves `from`'s list, and it is appended to
/// `to`'s list.
pub open spec fn transferred_state(
    s: TicketsView,
    from: Seq<char>,
    to: Seq<char>,
    ticket_id: u64,
) -> TicketsView {
    let lists = if owned_by(s, from).contains(ticket_id) {
        s.owner_tickets.insert(from, owned_by(s, from).remove(first_index(owned_by(s, from), ticket_id)))
    } else {
        s.owner_tickets
    };
    TicketsView {
        tickets: s.tickets.update(ticket_id - 1, TicketView { owner: to, ..ticket_of(s, ticket_id) }),
        owner_tickets: lists.insert(to, owned_by(s, to).push(ticket_id)),
        ..s
    }
}

pub open spec fn use_error(s: TicketsView, ticket_id: u64, organizer: Seq<char>) -> Option<TicketError> {
    if !has_ticket(s, ticket_id) {
        Some(TicketError::TicketNotFound)
    } else if ticket_of(s, ticket_id).organizer != organizer {
        Some(TicketError::Unauthorized)
    } else if ticket_of(s, ticket_id).status == TicketStatus::Used {
        Some(TicketError::TicketAlreadyUsed)
    } else if ticket_of(s, ticket_id).status == TicketStatus::Cancelled {
        Some(TicketError::EventNotActive)
    } else {
        None
    }
}

pub open spec fn cancel_error(s: TicketsView, ticket_id: u64, caller: Seq<char>) -> Option<TicketError> {
    if !has_ticket(s, ticket_id) {
        Some(TicketError::TicketNotFound)
    } else if ticket_of(s, ticket_id).owner != caller {
        Some(TicketError::Unauthorized)
    } else if ticket_of(s, ticket_id).status != TicketStatus::Valid {
        Some(TicketError::TicketAlreadyUsed)
    } else {
        None
    }
}

pub open spec fn with_ticket_status(s: TicketsView, ticket_id: u64, status: TicketStatus) -> TicketsView {
    TicketsView {
        tickets: s.tickets.update(ticket_id - 1, TicketView { status, ..ticket_of(s, ticket_id) }),
        ..s
    }
}

proof fn lemma_first_index(list: Seq<u64>, x: u64, i: int)
    requires
        0 <= i < list.len(),
        list[i] == x,
        forall|j: int| 0 <= j < i ==> list[j] != x,
    ensures
        first_index(list, x) == i,
{
    let c = first_index(list, x);
    assert(0 <= c < list.len() && list[c] == x && forall|j: int| 0 <= j < c ==> list[j] != x);
    if c < i {
        assert(list[c] != x);
    } else if c > i {
        assert(list[i] != x);
    }
}

proof fn lemma_remove_no_duplicates(list: Seq<u64>, i: int)
    requires
        list.no_duplicates(),
        0 <= i < list.len(),
    ensures
        list.remove(i).no_duplicates(),
        !list.remove(i).contains(list[i]),
        forall|x: u64| x != list[i] && list.contains(x) ==> list.remove(i).contains(x),
        forall|x: u64| list.remove(i).contains(x) ==> list.contains(x),
{
    let r = list.remove(i);
    assert forall|a: int, b: int| 0 <= a < r.len() && 0 <= b < r.len() && a != b implies r[a] != r[b] by {
        let a2 = if a < i { a } else { a + 1 };
        let b2 = if b < i { b } else { b + 1 };
        assert(r[a] == list[a2] && r[b] == list[b2]);
    }
    assert forall|k: int| 0 <= k < r.len() implies r[k] != list[i] by {
        let k2 = if k < i { k } else { k + 1 };
        assert(r[k] == list[k2]);
    }
    assert forall|x: u64| x != list[i] && list.contains(x) implies r.contains(x) by {
        let k = choose|k: int| 0 <= k < list.len() && list[k] == x;
        if k < i {
            assert(r[k] == x);
        } else {
            assert(k != i);
            assert(r[k - 1] == x);
        }
    }
    assert forall|x: u64| r.contains(x) implies list.contains(x) by {
        let k = choose|k: int| 0 <= k < r.len() && r[k] == x;
        if k < i {
            assert(list[k] == x);
        } else {
            assert(list[k + 1] == x);
        }
    }
}

proof fn lemma_transfer_wf(s: TicketsView, from: Seq<char>, to: Seq<char>, ticket_id: u64)
    requires
        s.wf(),
        transfer_error(s, from, to, ticket_id) == None::<TicketError>,
    ensures
        transferred_state(s, from, to, ticket_id).wf(),
        owned_by(s, from).contains(ticket_id),
{
    let s2 = transferred_state(s, from, to, ticket_id);
    let l = owned_by(s, from);
    let m = owned_by(s, to);
    lemma_single_owner(s, ticket_id);
    assert(l.contains(ticket_id));
    assert(!m.contains(ticket_id));
    assert(s.owner_tickets.contains_key(from));
    let k = choose|k: int| 0 <= k < l.len() && l[k] == ticket_id;
    assert(l.no_duplicates());
    lemma_first_index(l, ticket_id, k);
    let l2 = l.remove(k);
    lemma_remove_no_duplicates(l, k);
    let m2 = m.push(ticket_id);
    if s.owner_tickets.contains_key(to) {
        assert(s.owner_tickets[to].no_duplicates());
    }
    assert(m.no_duplicates());
    assert(m2.no_duplicates()) by {
        assert forall|a: int, b: int| 0 <= a < m2.len() && 0 <= b < m2.len() && a != b implies m2[a] != m2[b] by {
            if a == m.len() {
                assert(m2[b] == m[b]);
            } else if b == m.len() {
                assert(m2[a] == m[a]);
            }
        }
    }
    assert forall|o: Seq<char>| #[trigger] owned_by(s2, o) == (if o == to {
        m2
    } else if o == from {
        l2
    } else {
        owned_by(s, o)
    }) by {}
    assert forall|i: int| 0 <= i < s2.tickets.len() implies (#[trigger] s2.tickets[i]).ticket_id == i + 1 by {
        assert(s.tickets[i].ticket_id == i + 1);
    }
    assert forall|o: Seq<char>| #[trigger] s2.owner_tickets.contains_key(o) implies s2.owner_tickets[o].no_duplicates() by {
        assert(s2.owner_tickets[o] == owned_by(s2, o));
        if o != to && o != from {
            assert(s.owner_tickets[o].no_duplicates());
        }
    }
    assert forall|o: Seq<char>, j: int|
        s2.owner_tickets.contains_key(o) && 0 <= j < s2.owner_tickets[o].len() implies has_ticket(
            s2,
            #[trigger] s2.owner_tickets[o][j],
        ) && ticket_of(s2, s2.owner_tickets[o][j]).owner == o by {
        let x = s2.owner_tickets[o][j];
        assert(s2.owner_tickets[o] == owned_by(s2, o));
        if o == to {
            if j < m.len() {
                assert(m[j] == x);
                assert(s.owner_tickets.contains_key(to));
                assert(ticket_of(s, s.owner_tickets[to][j]).owner == to);
                assert(x != ticket_id);
            }
        } else if o == from {
            assert(l2.contains(x));
            assert(l.contains(x));
            let q = choose|q: int| 0 <= q < l.len() && l[q] == x;
            assert(ticket_of(s, s.owner_tickets[from][q]).owner == from);
            assert(x != ticket_id);
        } else {
            assert(s.owner_tickets[o][j] == x);
            assert(ticket_of(s, s.owner_tickets[o][j]).owner == o);
            assert(x != ticket_id);
        }
    }
    assert forall|i: int| 0 <= i < s2.tickets.len() implies owned_by(s2, (#[trigger] s2.tickets[i]).owner).contains(
        (i + 1) as u64,
    ) by {
        let x = (i + 1) as u64;
        assert(s.tickets[i].ticket_id == i + 1);
        assert(owned_by(s, s.tickets[i].owner).contains(x));
        if x == ticket_id {
            assert(m2[m.len() as int] == x);
        } else {
            let o = s.tickets[i].owner;
            assert(s2.tickets[i].owner == o);
            if o == to {
                let q = choose|q: int| 0 <= q < m.len() && m[q] == x;
                assert(m2[q] == x);
            } else if o == from {
                assert(l2.contains(x));
            }
        }
    }
}

/// Each valid ledger lists every ticket under its owner, exactly once, and
/// under nobody else.
pub proof fn lemma_single_owner(s: TicketsView, ticket_id: u64)
    requires
        s.wf(),
        has_ticket(s, ticket_id),
    ensures
        forall|o: Seq<char>| #[trigger] owned_by(s, o).contains(ticket_id) <==> o == ticket_of(s, ticket_id).owner,
        owned_by(s, ticket_of(s, ticket_id).owner).no_duplicates(),
{
    let i = ticket_id - 1;
    assert(s.tickets[i].ticket_id == ticket_id);
    assert(owned_by(s, s.tickets[i].owner).contains((i + 1) as u64));
    assert forall|o: Seq<char>| #[trigger] owned_by(s, o).contains(ticket_id) implies o == ticket_of(s, ticket_id).owner by {
        let k = choose|k: int| 0 <= k < owned_by(s, o).len() && owned_by(s, o)[k] == ticket_id;
        assert(s.owner_tickets.contains_key(o));
        assert(ticket_of(s, s.owner_tickets[o][k]).owner == o);
    }
    let owner = ticket_of(s, ticket_id).owner;
    if s.owner_tickets.contains_key(owner) {
        assert(s.owner_tickets[owner].no_duplicates());
    }
}

/// Ownership stays single-valued across a transfer: afterwards the ledger is
/// still valid, the ticket belongs to `to`, and `to`'s list is the one list
/// that holds its id; `from`'s list no longer does.
pub proof fn lemma_transfer_single_owner(s: TicketsView, from: Seq<char>, to: Seq<char>, ticket_id: u64)
    requires
        s.wf(),
        transfer_error(s, from, to, ticket_id) == None::<TicketError>,
    ensures
        transferred_state(s, from, to, ticket_id).wf(),
        ticket_of(transferred_state(s, from, to, ticket_id), ticket_id).owner == to,
        forall|o: Seq<char>| #[trigger] owned_by(transferred_state(s, from, to, ticket_id), o).contains(ticket_id)
            <==> o == to,
        !owned_by(transferred_state(s, from, to, ticket_id), from).contains(ticket_id),
{
    let s2 = transferred_state(s, from, to, ticket_id);
    lemma_transfer_wf(s, from, to, ticket_id);
    assert(ticket_of(s2, ticket_id).owner == to);
    lemma_single_owner(s2, ticket_id);
}

proof fn lemma_mint_wf(
    s: TicketsView,
    event_id: Seq<char>,
    organizer: Seq<char>,
    owner: Seq<char>,
    now: u64,
)
    requires
        s.wf(),
        s.tickets.len() + 1 < u64::MAX,
    ensures
        minted_state(s, event_id, organizer, owner, now).wf(),
{
    let s2 = minted_state(s, event_id, organizer, owner, now);
    let id = (s.tickets.len() + 1) as u64;
    let l = owned_by(s, owner);
    let l2 = l.push(id);
    if s.owner_tickets.contains_key(owner) {
        assert(s.owner_tickets[owner].no_duplicates());
        assert forall|j: int| 0 <= j < l.len() implies l[j] != id by {
            assert(has_ticket(s, s.owner_tickets[owner][j]));
        }
    }
    assert(l2.no_duplicates()) by {
        assert forall|a: int, b: int| 0 <= a < l2.len() && 0 <= b < l2.len() && a != b implies l2[a] != l2[b] by {
            if a == l.len() {
                assert(l2[b] == l[b]);
            } else if b == l.len() {
                assert(l2[a] == l[a]);
            }
        }
    }
    assert forall|o: Seq<char>| #[trigger] owned_by(s2, o) == (if o == owner {
        l2
    } else {
        owned_by(s, o)
    }) by {}
    assert forall|o: Seq<char>| #[trigger] s2.owner_tickets.contains_key(o) implies s2.owner_tickets[o].no_duplicates() by {
        assert(s2.owner_tickets[o] == owned_by(s2, o));
        if o != owner {
            assert(s.owner_tickets[o].no_duplicates());
        }
    }
    assert forall|o: Seq<char>, j: int|
        s2.owner_tickets.contains_key(o) && 0 <= j < s2.owner_tickets[o].len() implies has_ticket(
            s2,
            #[trigger] s2.owner_tickets[o][j],
        ) && ticket_of(s2, s2.owner_tickets[o][j]).owner == o by {
        assert(s2.owner_tickets[o] == owned_by(s2, o));
        if !(o == owner && j == l.len()) {
            assert(s.owner_tickets[o][j] == s2.owner_tickets[o][j]);
            assert(has_ticket(s, s.owner_tickets[o][j]));
            assert(ticket_of(s, s.owner_tickets[o][j]).owner == o);
        }
    }
    assert forall|i: int| 0 <= i < s2.tickets.len() implies owned_by(s2, (#[trigger] s2.tickets[i]).owner).contains(
        (i + 1) as u64,
    ) by {
        if i < s.tickets.len() {
            let x = (i + 1) as u64;
            assert(owned_by(s, s.tickets[i].owner).contains(x));
            if s.tickets[i].owner == owner {
                let q = choose|q: int| 0 <= q < l.len() && l[q] == x;
                assert(l2[q] == x);
            }
        } else {
            assert(l2[l.len() as int] == id);
        }
    }
}

/// The ledger of tickets.
pub struct TicketContract {
    tickets: Vec<Ticket>,
    owner_tickets: Table<Vec<u64>>,
    event_tickets: Table<Vec<u64>>,
}

impl View for TicketContract {
    type V = TicketsView;

    closed spec fn view(&self) -> TicketsView {
        TicketsView {
            tickets: self.tickets@.map_values(|t: Ticket| t@),
            owner_tickets: self.owner_tickets@.map_values(|v: Vec<u64>| v@),
            event_tickets: self.event_tickets@.map_values(|v: Vec<u64>| v@),
        }
    }
}

fn position(list: &Vec<u64>, x: u64) -> (r: Option<usize>)
    ensures
        match r {
            Some(i) => i < list.len() && list@[i as int] == x && forall|j: int| 0 <= j < i ==> list@[j] != x,
            None => !list@.contains(x),
        },
{
    let mut i: usize = 0;
    while i < list.len()
        invariant
            i <= list.len(),
            forall|j: int| 0 <= j < i ==> list@[j] != x,
        decreases list.len() - i,
    {
        if list[i] == x {
            return Some(i);
        }
        i = i + 1;
    }
    None
}

impl TicketContract {
    pub closed spec fn wf(&self) -> bool {
        self.owner_tickets.wf() && self.event_tickets.wf() && self@.wf()
    }

    pub proof fn lemma_wf(&self)
        requires
            self.wf(),
        ensures
            self@.wf(),
    {
    }

    pub fn new() -> (r: TicketContract)
        ensures
            r.wf(),
            r@.tickets.len() == 0,
            r@.owner_tickets == Map::<Seq<char>, Seq<u64>>::empty(),
            r@.event_tickets == Map::<Seq<char>, Seq<u64>>::empty(),
    {
        let r = TicketContract { tickets: Vec::new(), owner_tickets: Table::new(), event_tickets: Table::new() };
        assert(r@.owner_tickets =~= Map::<Seq<char>, Seq<u64>>::empty());
        assert(r@.event_tickets =~= Map::<Seq<char>, Seq<u64>>::empty());
        r
    }

    fn list_of(table: &Table<Vec<u64>>, key: &String) -> (r: Vec<u64>)
        requires
            table.wf(),
        ensures
            table@.contains_key(key@) ==> r@ == table@[key@]@,
            !table@.contains_key(key@) ==> r@ == Seq::<u64>::empty(),
    {
        match table.get(key) {
            Some(v) => {
                let r = v.clone();
                assert(r@ =~= v@);
                r
            },
            None => Vec::new(),
        }
    }

    /// Issues the next ticket, valid and owned by `owner`, and lists it under
    /// its owner and its event. Returns its id.
    pub fn mint_ticket(&mut self, event_id: &Symbol, organizer: &Address, owner: &Address, now: u64) -> (r: u64)
        requires
            old(self).wf(),
            old(self)@.tickets.len() + 1 < u64::MAX,
        ensures
            final(self).wf(),
            r == old(self)@.tickets.len() + 1,
            final(self)@ == minted_state(old(self)@, event_id@, organizer@, owner@, now),
    {
        let ghost pre = self@;
        let ticket_id = self.tickets.len() as u64 + 1;
        let ticket = Ticket {
            ticket_id,
            event_id: event_id.clone(),
            organizer: organizer.clone(),
            owner: owner.clone(),
            issued_at: now,
            status: TicketStatus::Valid,
        };
        self.tickets.push(ticket);
        let owner_key = owner.to_key();
        let mut owned = Self::list_of(&self.owner_tickets, &owner_key);
        owned.push(ticket_id);
        self.owner_tickets.insert(owner_key, owned);
        let event_key = event_id.to_key();
        let mut issued = Self::list_of(&self.event_tickets, &event_key);
        issued.push(ticket_id);
        self.event_tickets.insert(event_key, issued);
        let ghost post = minted_state(pre, event_id@, organizer@, owner@, now);
        assert(self@.tickets =~= post.tickets);
        assert(self@.owner_tickets =~= post.owner_tickets);
        assert(self@.event_tickets =~= post.event_tickets);
        proof {
            lemma_mint_wf(pre, event_id@, organizer@, owner@, now);
        }
        ticket_id
    }

    /// Passes a valid ticket from its owner `from` to `to`; the ownership and
    /// both owners' lists change together.
    pub fn transfer_ticket(&mut self, from: &Address, to: &Address, ticket_id: u64) -> (r: Result<(), TicketError>)
        requires
            old(self).wf(),
        ensures
            final(self).wf(),
            match transfer_error(old(self)@, from@, to@, ticket_id) {
                Some(e) => r == Err::<(), TicketError>(e) && final(self)@ == old(self)@,
                None => r == Ok::<(), TicketError>(()) && final(self)@ == transferred_state(
                    old(self)@,
                    from@,
                    to@,
                    ticket_id,
                ),
            },
    {
        if *from == *to {
            return Err(TicketError::TransferToSelf);
        }
        if ticket_id == 0 || ticket_id > self.tickets.len() as u64 {
            return Err(TicketError::TicketNotFound);
        }
        let index = (ticket_id - 1) as usize;
        if !(self.tickets[index].owner == *from) {
            return Err(TicketError::Unauthorized);
        }
        if self.tickets[index].status != TicketStatus::Valid {
            return Err(TicketError::TicketNotTransferable);
        }
        let ghost pre = self@;
        let from_key = from.to_key();
        let to_key = to.to_key();
        let mut from_tickets = Self::list_of(&self.owner_tickets, &from_key);
        let mut to_tickets = Self::list_of(&self.owner_tickets, &to_key);
        assert(from_tickets@ == owned_by(pre, from@));
        assert(to_tickets@ == owned_by(pre, to@));
        let mut ticket = self.tickets[index].clone();
        ticket.owner = to.clone();
        self.tickets[index] = ticket;
        match position(&from_tickets, ticket_id) {
            Some(i) => {
                proof {
                    lemma_first_index(from_tickets@, ticket_id, i as int);
                }
                from_tickets.remove(i);
                self.owner_tickets.insert(from_key, from_tickets);
            },
            None => {},
        }
        to_tickets.push(ticket_id);
        self.owner_tickets.insert(to_key, to_tickets);
        let ghost post = transferred_state(pre, from@, to@, ticket_id);
        assert(self@.tickets =~= post.tickets);
        assert(self@.owner_tickets =~= post.owner_tickets);
        proof {
            lemma_transfer_wf(pre, from@, to@, ticket_id);
        }
        Ok(())
    }

    /// Replaces a stored ticket's record, keeping its owner.
    fn update_ticket(&mut self, ticket: Ticket)
        requires
            old(self).wf(),
            has_ticket(old(self)@, ticket.ticket_id),
            ticket@.owner == ticket_of(old(self)@, ticket.ticket_id).owner,
        ensures
            final(self).wf(),
            final(self)@ == (TicketsView {
                tickets: old(self)@.tickets.update(ticket.ticket_id - 1, ticket@),
                ..old(self)@
            }),
    {
        let ghost pre = self@;
        let ghost tv = ticket@;
        assert(ticket.ticket_id <= self.tickets.len());
        let index = (ticket.ticket_id - 1) as usize;
        self.tickets[index] = ticket;
        assert(self@.tickets =~= pre.tickets.update(index as int, tv));
        assert forall|o: Seq<char>| #[trigger] owned_by(self@, o) == owned_by(pre, o) by {}
        assert forall|i: int| 0 <= i < self@.tickets.len() implies owned_by(self@, (#[trigger] self@.tickets[i]).owner).contains(
            (i + 1) as u64,
        ) by {
            if i == index as int {
                assert(self@.tickets[i] == tv);
            }
            assert(self@.tickets[i].owner == pre.tickets[i].owner);
            assert(owned_by(pre, pre.tickets[i].owner).contains((i + 1) as u64));
        }
        assert forall|o: Seq<char>, j: int|
            self@.owner_tickets.contains_key(o) && 0 <= j < self@.owner_tickets[o].len() implies has_ticket(
                self@,
                #[trigger] self@.owner_tickets[o][j],
            ) && ticket_of(self@, self@.owner_tickets[o][j]).owner == o by {
            let x = pre.owner_tickets[o][j];
            assert(ticket_of(pre, x).owner == o);
            if x - 1 == index as int {
                assert(self@.tickets[x - 1] == tv);
            }
        }
        assert forall|i: int| 0 <= i < self@.tickets.len() implies (#[trigger] self@.tickets[i]).ticket_id == i + 1 by {
            if i == index as int {
                assert(self@.tickets[i] == tv);
            }
        }
    }

    /// Marks a valid ticket used; only the ticket's organizer may.
    pub fn use_ticket(&mut self, ticket_id: u64, organizer: &Address) -> (r: Result<(), TicketError>)
        requires
            old(self).wf(),
        ensures
            final(self).wf(),
            match use_error(old(self)@, ticket_id, organizer@) {
                Some(e) => r == Err::<(), TicketError>(e) && final(self)@ == old(self)@,
                None => r == Ok::<(), TicketError>(()) && final(self)@ == with_ticket_status(
                    old(self)@,
                    ticket_id,
                    TicketStatus::Used,
                ),
            },
    {
        let mut ticket = match self.get_ticket(ticket_id) {
            Ok(t) => t,
            Err(e) => return Err(e),
        };
        if !(ticket.organizer == *organizer) {
            return Err(TicketError::Unauthorized);
        }
        if ticket.status == TicketStatus::Used {
            return Err(TicketError::TicketAlreadyUsed);
        }
        if ticket.status == TicketStatus::Cancelled {
            return Err(TicketError::EventNotActive);
        }
        ticket.status = TicketStatus::Used;
        self.update_ticket(ticket);
        Ok(())
    }

    /// Cancels a valid ticket; only its current owner may.
    pub fn cancel_ticket(&mut self, ticket_id: u64, caller: &Address) -> (r: Result<(), TicketError>)
        requires
            old(self).wf(),
        ensures
            final(self).wf(),
            match cancel_error(old(self)@, ticket_id, caller@) {
                Some(e) => r == Err::<(), TicketError>(e) && final(self)@ == old(self)@,
                None => r == Ok::<(), TicketError>(()) && final(self)@ == with_ticket_status(
                    old(self)@,
                    ticket_id,
                    TicketStatus::Cancelled,
                ),
            },
    {
        let mut ticket = match self.get_ticket(ticket_id) {
            Ok(t) => t,
            Err(e) => return Err(e),
        };
        if !(ticket.owner == *caller) {
            return Err(TicketError::Unauthorized);
        }
        if ticket.status != TicketStatus::Valid {
            return Err(TicketError::TicketAlreadyUsed);
        }
        ticket.status = TicketStatus::Cancelled;
        self.update_ticket(ticket);
        Ok(())
    }

    /// How many tickets have been issued; the last one carries this id.
    pub fn ticket_count(&self) -> (r: usize)
        ensures
            r == self@.tickets.len(),
    {
        self.tickets.len()
    }

    /// The ticket numbered `ticket_id`.
    pub fn get_ticket(&self, ticket_id: u64) -> (r: Result<Ticket, TicketError>)
        requires
            self.wf(),
        ensures
            match r {
                Ok(t) => has_ticket(self@, ticket_id) && t@ == ticket_of(self@, ticket_id),
                Err(e) => !has_ticket(self@, ticket_id) && e == TicketError::TicketNotFound,
            },
    {
        if ticket_id == 0 || ticket_id > self.tickets.len() as u64 {
            return Err(TicketError::TicketNotFound);
        }
        Ok(self.tickets[(ticket_id - 1) as usize].clone())
    }

    /// The ids of the tickets that `owner` holds, in the order received.
    pub fn get_tickets_by_owner(&self, owner: &Address) -> (r: Vec<u64>)
        requires
            self.wf(),
        ensures
            r@ == owned_by(self@, owner@),
    {
        Self::list_of(&self.owner_tickets, &owner.to_key())
    }

    /// The ids of the tickets that `owner` holds, in the order received.
    pub fn get_owner_tickets(&self, owner: &Address) -> (r: Vec<u64>)
        requires
            self.wf(),
        ensures
            r@ == owned_by(self@, owner@),
    {
        self.get_tickets_by_owner(owner)
    }

    /// The ids of the tickets issued for the event, in the order issued.
    pub fn get_tickets_by_event(&self, event_id: &Symbol) -> (r: Vec<u64>)
        requires
            self.wf(),
        ensures
            r@ == issued_for(self@, event_id@),
    {
        Self::list_of(&self.event_tickets, &event_id.to_key())
    }

    /// The ids of the tickets issued for the event, in the order issued.
    pub fn get_event_tickets(&self, event_id: &Symbol) -> (r: Vec<u64>)
        requires
            self.wf(),
        ensures
            r@ == issued_for(self@, event_id@),
    {
        self.get_tickets_by_event(event_id)
    }
}

} // verus!
