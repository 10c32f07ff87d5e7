//! System-wide laws, stated over the spec-level transitions and proved once
//! and for all: well-formedness survives every operation sequence, a code is
//! never claimed twice, logins are case-insensitive, a logout can always be
//! undone by the same identity, the counters count exactly the successful
//! submissions, inbound relays move no counter, and a purge removes exactly
//! the out-of-retention messages.

use vstd::prelude::*;

use crate::codes::{is_normalized, lemma_to_upper_idempotent, to_upper};
use crate::reducers::{
    lemma_cleanup_preserves_wf, lemma_filter_messages_wf, lemma_init_preserves_wf,
    lemma_login_preserves_wf, lemma_logout_preserves_wf, lemma_receive_preserves_wf,
    lemma_send_preserves_wf, lemma_update_status_preserves_wf, login_fits, send_fits, spec_cleanup,
    spec_init, spec_login, spec_logout, spec_receive, spec_retained, spec_send,
    spec_update_status,
};
use crate::state::StateV;
use crate::types::{MessageStatus, MessageV, RelayError, StationV};

verus! {

/// One externally invokable operation, with the values the host supplies
/// with the call.
pub ghost enum Event {
    Init,
    Login { caller: u64, code: Seq<char>, now: u64 },
    Logout { caller: u64 },
    Disconnect { caller: u64 },
    SendMessage {
        caller: u64,
        now: u64,
        receiver_code: Seq<char>,
        payload: Seq<char>,
        route_to_hoppie: bool,
    },
    ReceiveHoppie { now: u64, sender_code: Seq<char>, receiver_code: Seq<char>, payload: Seq<char> },
    UpdateStatus { message_id: u64, new_status: MessageStatus },
    Cleanup { now: u64 },
}

/// The state an event leaves behind. A failed operation leaves the state
/// unchanged, so the outcome does not matter here.
pub open spec fn apply_event(s: StateV, e: Event) -> StateV {
    match e {
        Event::Init => spec_init(s),
        Event::Login { caller, code, now } => spec_login(s, caller, code, now).0,
        Event::Logout { caller } => spec_logout(s, caller).0,
        Event::Disconnect { caller } => spec_logout(s, caller).0,
        Event::SendMessage { caller, now, receiver_code, payload, route_to_hoppie } => spec_send(
            s,
            caller,
            now,
            receiver_code,
            payload,
            route_to_hoppie,
        ).0,
        Event::ReceiveHoppie { now, sender_code, receiver_code, payload } => spec_receive(
            s,
            now,
            sender_code,
            receiver_code,
            payload,
        ),
        Event::UpdateStatus { message_id, new_status } => spec_update_status(
            s,
            message_id,
            new_status,
        ).0,
        Event::Cleanup { now } => spec_cleanup(s, now),
    }
}

/// The machine-range headroom an event needs: the same bounds the
/// executable operations require.
pub open spec fn event_fits(s: StateV, e: Event) -> bool {
    match e {
        Event::Login { .. } => login_fits(s),
        Event::SendMessage { route_to_hoppie, .. } => send_fits(s, route_to_hoppie),
        Event::ReceiveHoppie { .. } => s.next_message_id < u64::MAX,
        _ => true,
    }
}

/// The state after a whole sequence of operations.
pub open spec fn run(s: StateV, evs: Seq<Event>) -> StateV
    decreases evs.len(),
{
    if evs.len() == 0 {
        s
    } else {
        run(apply_event(s, evs[0]), evs.drop_first())
    }
}

/// Whether every event of the sequence has its headroom when its turn
/// comes.
pub open spec fn events_fit(s: StateV, evs: Seq<Event>) -> bool
    decreases evs.len(),
{
    evs.len() == 0 || (event_fits(s, evs[0]) && events_fit(apply_event(s, evs[0]), evs.drop_first()))
}

/// Every single operation preserves well-formedness.
pub proof fn lemma_event_preserves_wf(s: StateV, e: Event)
    requires
        s.wf(),
        event_fits(s, e),
    ensures
        apply_event(s, e).wf(),
{
    match e {
        Event::Init => lemma_init_preserves_wf(s),
        Event::Login { caller, code, now } => lemma_login_preserves_wf(s, caller, code, now),
        Event::Logout { caller } => lemma_logout_preserves_wf(s, caller),
        Event::Disconnect { caller } => lemma_logout_preserves_wf(s, caller),
        Event::SendMessage { caller, now, receiver_code, payload, route_to_hoppie } => {
            lemma_send_preserves_wf(s, caller, now, receiver_code, payload, route_to_hoppie)
        },
        Event::ReceiveHoppie { now, sender_code, receiver_code, payload } => {
            lemma_receive_preserves_wf(s, now, sender_code, receiver_code, payload)
        },
        Event::UpdateStatus { message_id, new_status } => {
            lemma_update_status_preserves_wf(s, message_id, new_status)
        },
        Event::Cleanup { now } => lemma_cleanup_preserves_wf(s, now),
    }
}

/// Well-formedness survives every sequence of operations from a well-formed
/// start.
pub proof fn lemma_run_preserves_wf(s: StateV, evs: Seq<Event>)
    requires
        s.wf(),
        events_fit(s, evs),
    ensures
        run(s, evs).wf(),
    decreases evs.len(),
{
    if evs.len() > 0 {
        lemma_event_preserves_wf(s, evs[0]);
        lemma_run_preserves_wf(apply_event(s, evs[0]), evs.drop_first());
    }
}

/// Initialization is idempotent: running it on an already-initialized state
/// is the identity, so a repeated run changes nothing.
pub proof fn lemma_init_idempotent(s: StateV)
    ensures
        spec_init(spec_init(s)) == spec_init(s),
{
}

/// The message-identifier counter never moves backwards, so identifiers are
/// handed out strictly increasing across the store's whole lifetime and a
/// deleted identifier is never reused.
pub proof fn lemma_next_id_monotonic(s: StateV, e: Event)
    requires
        event_fits(s, e),
    ensures
        apply_event(s, e).next_message_id >= s.next_message_id,
{
}

/// In a well-formed state — so, by [`lemma_run_preserves_wf`], at every
/// instant of every operation sequence — at most one identity holds a given
/// station code online: no double claim ever survives.
pub proof fn lemma_no_double_claim(s: StateV, i: int, j: int)
    requires
        s.wf(),
        0 <= i < s.stations.len(),
        0 <= j < s.stations.len(),
        i != j,
        s.stations[i].is_online,
        s.stations[j].is_online,
    ensures
        s.stations[i].station_code != s.stations[j].station_code,
{
}

/// A logout followed by a login with the same code by the same identity
/// succeeds and restores the online flag, with the new login time.
pub proof fn lemma_logout_then_login_restores(s: StateV, caller: u64, now: u64)
    requires
        s.wf(),
        login_fits(s),
        s.has_station(caller),
        s.station_of(caller).is_online,
    ensures
        ({
            let code = s.station_of(caller).station_code;
            let (s1, r1) = spec_logout(s, caller);
            let (s2, r2) = spec_login(s1, caller, code, now);
            &&& r1 is Ok
            &&& r2 is Ok
            &&& s2.has_station(caller)
            &&& s2.station_of(caller) == (StationV {
                client_id: caller,
                station_code: code,
                login_time: now,
                is_online: true,
            })
        }),
{
    let code = s.station_of(caller).station_code;
    let i = s.station_index(caller);
    let (s1, r1) = spec_logout(s, caller);
    lemma_logout_preserves_wf(s, caller);
    assert(is_normalized(code));
    assert(s1.stations[i].client_id == caller);
    assert(s1.has_station(caller));
    s1.lemma_station_index_unique(caller, i);
    assert(!s1.code_owned_by_other(caller, code)) by {
        if s1.code_owned_by_other(caller, code) {
            let k = choose|k: int|
                0 <= k < s1.stations.len() && #[trigger] s1.conflict_at(caller, code, k);
            assert(k != i);
            assert(s.stations[k].is_online && s.stations[k].station_code == code);
            assert(s.stations[k].station_code != s.stations[i].station_code);
        }
    }
    let (s2, r2) = spec_login(s1, caller, code, now);
    lemma_login_preserves_wf(s1, caller, code, now);
    lemma_to_upper_idempotent(code);
    assert(s2.stations == s1.stations.update(
        i,
        StationV { client_id: caller, station_code: code, login_time: now, is_online: true },
    ));
    s2.lemma_station_index_unique(caller, i);
}

/// Logging in with a code and with its uppercase-normalized form are the
/// same operation: same outcome, same state.
pub proof fn lemma_login_case_insensitive(s: StateV, caller: u64, code: Seq<char>, now: u64)
    ensures
        spec_login(s, caller, code, now) == spec_login(s, caller, to_upper(code), now),
{
    lemma_to_upper_idempotent(code);
}

/// While one identity is online under a code, a different identity's login
/// under it — in any letter case — fails with the conflict error and leaves
/// the whole state, the first identity's record included, unchanged.
pub proof fn lemma_login_conflict_rejected(s: StateV, caller: u64, code: Seq<char>, now: u64)
    requires
        s.code_owned_by_other(caller, to_upper(code)),
    ensures
        spec_login(s, caller, code, now).0 == s,
        spec_login(s, caller, code, now).1 == Err::<(), RelayError>(RelayError::StationAlreadyActive),
{
}

/// Whether an event is a submission that succeeds in state `s`.
pub open spec fn counted_send(s: StateV, e: Event) -> bool {
    e matches Event::SendMessage { caller, .. } && s.has_station(caller)
}

/// Whether an event is a successful submission routed to the external
/// network.
pub open spec fn counted_relay(s: StateV, e: Event) -> bool {
    e matches Event::SendMessage { caller, route_to_hoppie, .. } && s.has_station(caller)
        && route_to_hoppie
}

/// How many submissions of the sequence succeed.
pub open spec fn send_count(s: StateV, evs: Seq<Event>) -> int
    decreases evs.len(),
{
    if evs.len() == 0 {
        0
    } else {
        (if counted_send(s, evs[0]) {
            1int
        } else {
            0int
        }) + send_count(apply_event(s, evs[0]), evs.drop_first())
    }
}

/// How many submissions of the sequence succeed with external routing.
pub open spec fn relay_count(s: StateV, evs: Seq<Event>) -> int
    decreases evs.len(),
{
    if evs.len() == 0 {
        0
    } else {
        (if counted_relay(s, evs[0]) {
            1int
        } else {
            0int
        }) + relay_count(apply_event(s, evs[0]), evs.drop_first())
    }
}

/// One event moves the two monotonic counters by exactly its own
/// contribution.
proof fn lemma_event_stats(s: StateV, e: Event)
    requires
        s.stats is Some,
        event_fits(s, e),
    ensures
        apply_event(s, e).stats is Some,
        apply_event(s, e).stats->Some_0.id == s.stats->Some_0.id,
        apply_event(s, e).stats->Some_0.total_messages_sent == s.stats->Some_0.total_messages_sent
            + (if counted_send(s, e) {
            1int
        } else {
            0int
        }),
        apply_event(s, e).stats->Some_0.total_hoppie_relays == s.stats->Some_0.total_hoppie_relays
            + (if counted_relay(s, e) {
            1int
        } else {
            0int
        }),
{
}

/// After any sequence of operations from an initialized state, the sent
/// counter has grown by exactly the number of successful submissions, and
/// the relay counter by exactly the number of those routed to the external
/// network.
pub proof fn lemma_statistics_count_sends(s: StateV, evs: Seq<Event>)
    requires
        s.stats is Some,
        events_fit(s, evs),
    ensures
        run(s, evs).stats is Some,
        run(s, evs).stats->Some_0.total_messages_sent == s.stats->Some_0.total_messages_sent
            + send_count(s, evs),
        run(s, evs).stats->Some_0.total_hoppie_relays == s.stats->Some_0.total_hoppie_relays
            + relay_count(s, evs),
    decreases evs.len(),
{
    if evs.len() > 0 {
        lemma_event_stats(s, evs[0]);
        lemma_statistics_count_sends(apply_event(s, evs[0]), evs.drop_first());
    }
}

/// An inbound relay stores one new message — already delivered, tagged as
/// inbound — and touches neither the presence records nor any counter.
pub proof fn lemma_receive_inbound(
    s: StateV,
    now: u64,
    sender_code: Seq<char>,
    receiver_code: Seq<char>,
    payload: Seq<char>,
)
    ensures
        ({
            let s1 = spec_receive(s, now, sender_code, receiver_code, payload);
            &&& s1.stats == s.stats
            &&& s1.stations == s.stations
            &&& s1.messages.len() == s.messages.len() + 1
            &&& s1.messages.last().status is Delivered
            &&& s1.messages.last().direction is InboundFromHoppie
            &&& forall|k: int| 0 <= k < s.messages.len() ==> s1.messages[k] == s.messages[k]
        }),
{
}

/// A purge at time `now` removes exactly the messages strictly older than
/// the cutoff: every survivor was stored and lies at or after the cutoff,
/// and every stored message at or after the cutoff survives.
pub proof fn lemma_cleanup_exact(s: StateV, now: u64)
    requires
        s.wf(),
    ensures
        ({
            let kept = spec_cleanup(s, now).messages;
            &&& forall|k: int|
                0 <= k < kept.len() ==> spec_retained((#[trigger] kept[k]).timestamp, now)
                    && s.messages.contains(kept[k])
            &&& forall|k: int|
                0 <= k < s.messages.len() && spec_retained(
                    (#[trigger] s.messages[k]).timestamp,
                    now,
                ) ==> kept.contains(s.messages[k])
        }),
{
    broadcast use vstd::seq_lib::group_filter_ensures;

    let pred = |m: MessageV| spec_retained(m.timestamp, now);
    lemma_filter_messages_wf(s.messages, pred);
}

} // verus!
