//! Properties of the event registry that relate several operations or hold
//! of every reachable state.
use crate::event_registry::{
    cancel_error, editing_error, organizer_error, register_error, registered_state,
    status_update_error, statuses_advance, update_details_error,
};
use crate::event_storage::{attendees_of, registered, RegistryState};
use crate::event_types::{
    cancellable, status_edge, status_rank, status_update_allowed, updated_details, EventError,
    EventStatus, UpdateEventParamsView,
};
use vstd::prelude::*;

verus! {

/// A registration request: attendee, event id, tier id.
pub type RegistrationRequest = (Seq<char>, Seq<char>, u32);

/// The records after each request is tried in turn; a request that is
/// refused changes nothing, exactly as `register_for_event` behaves.
pub open spec fn apply_registrations(s: RegistryState, reqs: Seq<RegistrationRequest>) -> RegistryState
    decreases reqs.len(),
{
    if reqs.len() == 0 {
        s
    } else {
        let prev = apply_registrations(s, reqs.drop_last());
        let (a, e, t) = reqs.last();
        match register_error(prev, a, e, t) {
            None => registered_state(prev, a, e, t),
            Some(_) => prev,
        }
    }
}

/// No stored tier ever has more sold than its capacity.
pub proof fn lemma_sold_within_capacity(s: RegistryState, event_id: Seq<char>, tier_id: int)
    requires
        s.wf(),
        s.events.contains_key(event_id),
        0 <= tier_id < s.events[event_id].tiers.len(),
    ensures
        s.events[event_id].tiers[tier_id].sold <= s.events[event_id].tiers[tier_id].capacity,
{
    assert(crate::event_types::tier_wf(s.events[event_id].tiers[tier_id], tier_id));
}

proof fn lemma_registered_after(s: RegistryState, a: Seq<char>, e: Seq<char>, t: u32, e2: Seq<char>, b: Seq<char>)
    ensures
        registered(registered_state(s, a, e, t), e2, b) == (registered(s, e2, b) || (e2 == e && b == a)),
{
    let s2 = registered_state(s, a, e, t);
    if e2 == e {
        assert(attendees_of(s2, e) == attendees_of(s, e).push(a));
        if registered(s, e2, b) {
            let k = choose|k: int| 0 <= k < attendees_of(s, e).len() && attendees_of(s, e)[k] == b;
            assert(attendees_of(s2, e)[k] == b);
        }
        if b == a {
            assert(attendees_of(s2, e)[attendees_of(s, e).len() as int] == a);
        }
        if registered(s2, e2, b) && b != a {
            let k = choose|k: int| 0 <= k < attendees_of(s2, e).len() && attendees_of(s2, e)[k] == b;
            assert(attendees_of(s, e)[k] == b);
        }
    } else {
        assert(attendees_of(s2, e2) == attendees_of(s, e2));
    }
}

proof fn lemma_fill_step(
    s: RegistryState,
    event_id: Seq<char>,
    tier_id: u32,
    reqs: Seq<RegistrationRequest>,
    i: int,
)
    requires
        s.events.contains_key(event_id),
        s.events[event_id].status == EventStatus::Active,
        tier_id < s.events[event_id].tiers.len(),
        s.events[event_id].tiers[tier_id as int].sold == 0,
        0 <= i <= s.events[event_id].tiers[tier_id as int].capacity,
        i <= reqs.len(),
        forall|j: int| 0 <= j < reqs.len() ==> (#[trigger] reqs[j]).1 == event_id && reqs[j].2 == tier_id,
        forall|j: int, k: int| 0 <= j < k < reqs.len() ==> (#[trigger] reqs[j]).0 != (#[trigger] reqs[k]).0,
        forall|j: int| 0 <= j < reqs.len() ==> !registered(s, event_id, (#[trigger] reqs[j]).0),
    ensures
        ({
            let st = apply_registrations(s, reqs.take(i));
            &&& st.events.contains_key(event_id)
            &&& st.events[event_id].status == EventStatus::Active
            &&& st.events[event_id].tiers.len() == s.events[event_id].tiers.len()
            &&& st.events[event_id].tiers[tier_id as int].sold == i
            &&& st.events[event_id].tiers[tier_id as int].capacity == s.events[event_id].tiers[tier_id as int].capacity
            &&& forall|j: int| i <= j < reqs.len() ==> !registered(st, event_id, (#[trigger] reqs[j]).0)
        }),
    decreases i,
{
    if i > 0 {
        lemma_fill_step(s, event_id, tier_id, reqs, i - 1);
        let prev = apply_registrations(s, reqs.take(i - 1));
        assert(reqs.take(i).drop_last() =~= reqs.take(i - 1));
        assert(reqs.take(i).last() == reqs[i - 1]);
        let a = reqs[i - 1].0;
        assert(register_error(prev, a, event_id, tier_id) == None::<EventError>);
        let st = apply_registrations(s, reqs.take(i));
        assert(st == registered_state(prev, a, event_id, tier_id));
        assert forall|j: int| i <= j < reqs.len() implies !registered(st, event_id, (#[trigger] reqs[j]).0) by {
            lemma_registered_after(prev, a, event_id, tier_id, event_id, reqs[j].0);
            assert(reqs[i - 1].0 != reqs[j].0);
        }
    } else {
        assert(reqs.take(0) =~= Seq::<RegistrationRequest>::empty());
    }
}

/// Registering for a tier of capacity `c` in an active event, with nothing
/// sold yet: `c` distinct attendees that hold no registration each succeed,
/// one after another, and the next distinct attendee is refused as sold out.
pub proof fn lemma_fill_tier(s: RegistryState, event_id: Seq<char>, tier_id: u32, reqs: Seq<RegistrationRequest>)
    requires
        s.wf(),
        s.events.contains_key(event_id),
        s.events[event_id].status == EventStatus::Active,
        tier_id < s.events[event_id].tiers.len(),
        s.events[event_id].tiers[tier_id as int].sold == 0,
        reqs.len() == s.events[event_id].tiers[tier_id as int].capacity + 1,
        forall|j: int| 0 <= j < reqs.len() ==> (#[trigger] reqs[j]).1 == event_id && reqs[j].2 == tier_id,
        forall|j: int, k: int| 0 <= j < k < reqs.len() ==> (#[trigger] reqs[j]).0 != (#[trigger] reqs[k]).0,
        forall|j: int| 0 <= j < reqs.len() ==> !registered(s, event_id, (#[trigger] reqs[j]).0),
    ensures
        forall|i: int|
            0 <= i < reqs.len() - 1 ==> register_error(
                #[trigger] apply_registrations(s, reqs.take(i)),
                reqs[i].0,
                event_id,
                tier_id,
            ) == None::<EventError>,
        register_error(
            apply_registrations(s, reqs.take(reqs.len() - 1)),
            reqs[reqs.len() - 1].0,
            event_id,
            tier_id,
        ) == Some(EventError::TierSoldOut),
{
    let cap = s.events[event_id].tiers[tier_id as int].capacity;
    assert forall|i: int|
        0 <= i < reqs.len() - 1 implies register_error(
            #[trigger] apply_registrations(s, reqs.take(i)),
            reqs[i].0,
            event_id,
            tier_id,
        ) == None::<EventError> by {
        lemma_fill_step(s, event_id, tier_id, reqs, i);
    }
    lemma_fill_step(s, event_id, tier_id, reqs, cap as int);
}

/// A registration, once made, survives every later registration request.
pub proof fn lemma_registration_persists(
    s: RegistryState,
    event_id: Seq<char>,
    attendee: Seq<char>,
    reqs: Seq<RegistrationRequest>,
)
    requires
        registered(s, event_id, attendee),
    ensures
        registered(apply_registrations(s, reqs), event_id, attendee),
    decreases reqs.len(),
{
    if reqs.len() > 0 {
        lemma_registration_persists(s, event_id, attendee, reqs.drop_last());
        let prev = apply_registrations(s, reqs.drop_last());
        let (a, e, t) = reqs.last();
        lemma_registered_after(prev, a, e, t, event_id, attendee);
    }
}

/// At most one registration per event and attendee: after a successful
/// registration, and whatever other registrations follow, a second attempt
/// by the same attendee never succeeds, and it is refused as a duplicate
/// whenever the event is active and the tier exists with a free slot.
pub proof fn lemma_single_registration(
    s: RegistryState,
    attendee: Seq<char>,
    event_id: Seq<char>,
    tier_id: u32,
    reqs: Seq<RegistrationRequest>,
    retry_tier: u32,
)
    requires
        register_error(s, attendee, event_id, tier_id) == None::<EventError>,
    ensures
        ({
            let st = apply_registrations(registered_state(s, attendee, event_id, tier_id), reqs);
            &&& register_error(st, attendee, event_id, retry_tier) != None::<EventError>
            &&& (st.events.contains_key(event_id) && st.events[event_id].status == EventStatus::Active && retry_tier
                < st.events[event_id].tiers.len() && st.events[event_id].tiers[retry_tier as int].sold
                < st.events[event_id].tiers[retry_tier as int].capacity) ==> register_error(
                st,
                attendee,
                event_id,
                retry_tier,
            ) == Some(EventError::AlreadyRegistered)
        }),
{
    let s1 = registered_state(s, attendee, event_id, tier_id);
    lemma_registered_after(s, attendee, event_id, tier_id, event_id, attendee);
    lemma_registration_persists(s1, event_id, attendee, reqs);
}

/// In a valid store no attendee appears twice in an event's list.
pub proof fn lemma_attendees_distinct(s: RegistryState, event_id: Seq<char>)
    requires
        s.wf(),
    ensures
        attendees_of(s, event_id).no_duplicates(),
{
}

/// Every edge of the status lattice moves strictly forward, and nothing
/// leaves `Completed` or `Cancelled`.
pub proof fn lemma_status_edges_advance(from: EventStatus, to: EventStatus)
    ensures
        status_edge(from, to) ==> status_rank(from) < status_rank(to),
        from == EventStatus::Completed || from == EventStatus::Cancelled ==> !status_edge(from, to),
{
}

/// An event's statuses over any run of operations: once the status has
/// changed it never returns to an earlier value, and it never moves back
/// along the lattice.
pub proof fn lemma_status_never_regresses(path: Seq<EventStatus>)
    requires
        forall|i: int|
            0 <= i < path.len() - 1 ==> #[trigger] path[i] == path[i + 1] || status_edge(path[i], path[i + 1]),
    ensures
        forall|i: int, j: int|
            0 <= i <= j < path.len() ==> status_rank(#[trigger] path[i]) <= status_rank(#[trigger] path[j])
                && (path[i] == path[j] || status_rank(path[i]) < status_rank(path[j])),
    decreases path.len(),
{
    if path.len() > 1 {
        let front = path.drop_last();
        assert forall|i: int| 0 <= i < front.len() - 1 implies #[trigger] front[i] == front[i + 1] || status_edge(
            front[i],
            front[i + 1],
        ) by {
            assert(front[i] == path[i] && front[i + 1] == path[i + 1]);
        }
        lemma_status_never_regresses(front);
        let n = path.len() - 1;
        assert forall|i: int, j: int|
            0 <= i <= j < path.len() implies status_rank(#[trigger] path[i]) <= status_rank(#[trigger] path[j])
                && (path[i] == path[j] || status_rank(path[i]) < status_rank(path[j])) by {
            if j == n && i < n {
                assert(path[n - 1] == path[n] || status_edge(path[n - 1], path[n]));
                assert(front[i] == path[i] && front[n - 1] == path[n - 1]);
                if path[i] != path[n - 1] {
                    assert(status_rank(path[i]) < status_rank(path[n - 1]));
                }
            } else if j < n {
                assert(front[i] == path[i] && front[j] == path[j]);
            }
        }
    }
}

/// The status of an event over successive valid operations follows the
/// lattice: the statuses that a run of operations leaves behind form a path
/// of equal steps and lattice edges.
pub proof fn lemma_statuses_along_run(states: Seq<RegistryState>, event_id: Seq<char>)
    requires
        states.len() > 0,
        states[0].events.contains_key(event_id),
        forall|i: int| 0 <= i < states.len() - 1 ==> statuses_advance(#[trigger] states[i], states[i + 1]),
    ensures
        forall|i: int| 0 <= i < states.len() ==> (#[trigger] states[i]).events.contains_key(event_id),
        forall|i: int, j: int|
            0 <= i <= j < states.len() ==> status_rank((#[trigger] states[i]).events[event_id].status)
                <= status_rank((#[trigger] states[j]).events[event_id].status),
    decreases states.len(),
{
    if states.len() > 1 {
        let front = states.drop_last();
        assert forall|i: int| 0 <= i < front.len() - 1 implies statuses_advance(#[trigger] front[i], front[i + 1]) by {
            assert(front[i] == states[i] && front[i + 1] == states[i + 1]);
        }
        lemma_statuses_along_run(front, event_id);
        let n = states.len() - 1;
        assert(front[n - 1] == states[n - 1]);
        assert(statuses_advance(states[n - 1], states[n]));
        assert(states[n - 1].events.contains_key(event_id));
        assert forall|i: int| 0 <= i < states.len() implies (#[trigger] states[i]).events.contains_key(event_id) by {
            if i < n {
                assert(front[i] == states[i]);
            }
        }
        assert forall|i: int, j: int|
            0 <= i <= j < states.len() implies status_rank((#[trigger] states[i]).events[event_id].status)
                <= status_rank((#[trigger] states[j]).events[event_id].status) by {
            if i < n {
                assert(front[i] == states[i]);
            }
            if j < n {
                assert(front[j] == states[j]);
            }
            if j == n && i < n {
                assert(front[n - 1] == states[n - 1]);
                lemma_status_edges_advance(states[n - 1].events[event_id].status, states[n].events[event_id].status);
            }
        }
    }
}

/// For the organizer of an existing event, a status update is accepted
/// exactly on `Upcoming -> Active` and `Active -> Completed`, and a
/// cancellation exactly from `Upcoming` or `Active`; every other pair fails
/// with `InvalidStatusTransition`.
pub proof fn lemma_status_transitions(
    s: RegistryState,
    organizer: Seq<char>,
    event_id: Seq<char>,
    new_status: EventStatus,
)
    requires
        organizer_error(s, organizer, event_id) == None::<EventError>,
    ensures
        status_update_error(s, organizer, event_id, new_status) == None::<EventError>
            <==> status_update_allowed(s.events[event_id].status, new_status),
        !status_update_allowed(s.events[event_id].status, new_status) ==> status_update_error(
            s,
            organizer,
            event_id,
            new_status,
        ) == Some(EventError::InvalidStatusTransition),
        cancel_error(s, organizer, event_id) == None::<EventError> <==> cancellable(s.events[event_id].status),
        !cancellable(s.events[event_id].status) ==> cancel_error(s, organizer, event_id) == Some(
            EventError::InvalidStatusTransition,
        ),
{
}

/// An update that supplies no field leaves the stored event, and the whole
/// store, exactly as they were.
pub proof fn lemma_update_details_noop(s: RegistryState, p: UpdateEventParamsView, now: u64)
    requires
        p.name is None,
        p.description is None,
        p.venue is None,
        p.event_date is None,
        editing_error(s, p.organizer, p.event_id) == None::<EventError>,
    ensures
        update_details_error(s, p, now) == None::<EventError>,
        updated_details(s.events[p.event_id], p) == s.events[p.event_id],
        s.with_event(p.event_id, updated_details(s.events[p.event_id], p)) == s,
{
    assert(s.events.insert(p.event_id, s.events[p.event_id]) =~= s.events);
}

} // verus!
