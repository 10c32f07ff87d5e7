//! The atomic operations of the relay.
//!
//! Each operation takes the whole state by `&mut` — the host runs it as one
//! serialized atomic unit — together with the values the host supplies with
//! the call: the caller's identity and the call's timestamp. Each operation
//! has a spec-level transition function stating exactly the state it leaves
//! behind and the outcome it reports; on every failure the state is
//! unchanged.

use vstd::prelude::*;

use crate::codes::{lemma_to_upper_idempotent, to_upper, to_uppercase};
use crate::state::{RelayState, StateV};
use crate::types::{Message, MessageDirection, MessageStatus, MessageV, RelayError, Station, StationV, Statistics, StatsDelta};

verus! {

/// Whether applying `d` to the statistics row (when present) stays within
/// the counters' machine range. The online counter only ever saturates
/// downwards, so no bound is needed on `stations_left`.
pub open spec fn delta_fits(stats: Option<Statistics>, d: StatsDelta) -> bool {
    stats matches Some(t) ==> {
        &&& t.total_messages_sent + d.messages_sent <= u64::MAX
        &&& t.total_hoppie_relays + d.hoppie_relays <= u64::MAX
        &&& t.active_stations_count + d.stations_joined <= u32::MAX
    }
}

/// The statistics row after applying `d`: both message counters grow by
/// their increment, and the online counter grows by `stations_joined` and
/// then shrinks by `stations_left`, saturating at zero. An absent row stays
/// absent.
pub open spec fn spec_apply_delta(stats: Option<Statistics>, d: StatsDelta) -> Option<Statistics> {
    match stats {
        None => None,
        Some(t) => Some(
            Statistics {
                id: t.id,
                total_messages_sent: (t.total_messages_sent + d.messages_sent) as u64,
                total_hoppie_relays: (t.total_hoppie_relays + d.hoppie_relays) as u64,
                active_stations_count: {
                    let joined = (t.active_stations_count + d.stations_joined) as u32;
                    if joined >= d.stations_left {
                        (joined - d.stations_left) as u32
                    } else {
                        0u32
                    }
                },
            },
        ),
    }
}

/// Applies a counter delta to the statistics singleton, in the same atomic
/// unit as the event that produced it. If the singleton is absent — which
/// initialization rules out — the update is deliberately a no-op rather
/// than an error.
pub fn update_stats(state: &mut RelayState, delta: StatsDelta)
    requires
        delta_fits(old(state)@.stats, delta),
    ensures
        final(state)@ == (StateV {
            stats: spec_apply_delta(old(state)@.stats, delta),
            ..old(state)@
        }),
{
    match state.stats {
        Some(t) => {
            let joined = t.active_stations_count + delta.stations_joined;
            let active = if joined >= delta.stations_left {
                joined - delta.stations_left
            } else {
                0
            };
            state.stats = Some(
                Statistics {
                    id: t.id,
                    total_messages_sent: t.total_messages_sent + delta.messages_sent,
                    total_hoppie_relays: t.total_hoppie_relays + delta.hoppie_relays,
                    active_stations_count: active,
                },
            );
        },
        None => {},
    }
}

/// The state after initialization: the statistics singleton exists with all
/// counters at zero; a state that already has the singleton is untouched.
pub open spec fn spec_init(s: StateV) -> StateV {
    if s.stats is Some {
        s
    } else {
        StateV {
            stats: Some(
                Statistics {
                    id: 0,
                    total_messages_sent: 0,
                    total_hoppie_relays: 0,
                    active_stations_count: 0,
                },
            ),
            ..s
        }
    }
}

/// Initialization keeps the state well-formed.
pub proof fn lemma_init_preserves_wf(s: StateV)
    requires
        s.wf(),
    ensures
        spec_init(s).wf(),
{
}

/// Idempotently ensures the statistics singleton exists. Run once at system
/// start; a repeated call changes nothing.
pub fn init(state: &mut RelayState)
    requires
        old(state)@.wf(),
    ensures
        final(state)@ == spec_init(old(state)@),
        final(state)@.wf(),
        final(state)@.stats is Some,
{
    match state.stats {
        Some(_) => {},
        None => {
            state.stats = Some(
                Statistics {
                    id: 0,
                    total_messages_sent: 0,
                    total_hoppie_relays: 0,
                    active_stations_count: 0,
                },
            );
        },
    }
}

/// The position of the presence record owned by `caller`, if any.
fn find_station(stations: &Vec<Station>, caller: u64) -> (idx: Option<usize>)
    ensures
        match idx {
            Some(p) => p < stations@.len() && stations@[p as int].client_id == caller,
            None => forall|k: int| 0 <= k < stations@.len() ==> stations@[k].client_id != caller,
        },
{
    let n = stations.len();
    let mut j: usize = 0;
    while j < n
        invariant
            n == stations@.len(),
            j <= n,
            forall|k: int| 0 <= k < j ==> stations@[k].client_id != caller,
        decreases n - j,
    {
        if stations[j].client_id == caller {
            return Some(j);
        }
        j += 1;
    }
    None
}

/// The position of the message with identifier `id`, if any.
fn find_message(messages: &Vec<Message>, id: u64) -> (idx: Option<usize>)
    ensures
        match idx {
            Some(p) => p < messages@.len() && messages@[p as int].id == id,
            None => forall|k: int| 0 <= k < messages@.len() ==> messages@[k].id != id,
        },
{
    let n = messages.len();
    let mut j: usize = 0;
    while j < n
        invariant
            n == messages@.len(),
            j <= n,
            forall|k: int| 0 <= k < j ==> messages@[k].id != id,
        decreases n - j,
    {
        if messages[j].id == id {
            return Some(j);
        }
        j += 1;
    }
    None
}

/// The counter delta of a successful login: one more station online.
pub open spec fn login_delta() -> StatsDelta {
    StatsDelta { messages_sent: 0, hoppie_relays: 0, stations_joined: 1, stations_left: 0 }
}

/// Headroom the online counter needs before a login.
pub open spec fn login_fits(s: StateV) -> bool {
    delta_fits(s.stats, login_delta())
}

/// The state and outcome of a login: the code is normalized; if a different
/// identity is online under it the call fails and changes nothing, and
/// otherwise the caller's presence record is created or overwritten (online,
/// with the new login time) and the online counter grows by one — on every
/// successful call, whether or not the caller was already online.
pub open spec fn spec_login(s: StateV, caller: u64, code: Seq<char>, now: u64) -> (StateV, Result<
    (),
    RelayError,
>) {
    let u = to_upper(code);
    if s.code_owned_by_other(caller, u) {
        (s, Err(RelayError::StationAlreadyActive))
    } else {
        let st = StationV { client_id: caller, station_code: u, login_time: now, is_online: true };
        let stations = if s.has_station(caller) {
            s.stations.update(s.station_index(caller), st)
        } else {
            s.stations.push(st)
        };
        (
            StateV { stations, stats: spec_apply_delta(s.stats, login_delta()), ..s },
            Ok(()),
        )
    }
}

/// A login keeps the state well-formed: in particular, it never lets two
/// identities be online under one code.
pub proof fn lemma_login_preserves_wf(s: StateV, caller: u64, code: Seq<char>, now: u64)
    requires
        s.wf(),
    ensures
        spec_login(s, caller, code, now).0.wf(),
{
    let u = to_upper(code);
    lemma_to_upper_idempotent(code);
    if !s.code_owned_by_other(caller, u) {
        let st = StationV { client_id: caller, station_code: u, login_time: now, is_online: true };
        let s1 = spec_login(s, caller, code, now).0;
        if s.has_station(caller) {
            let i = s.station_index(caller);
            assert(s1.stations =~= s.stations.update(i, st));
            assert forall|p: int, q: int|
                0 <= p < s1.stations.len() && 0 <= q < s1.stations.len() && p != q
                    && #[trigger] s1.stations[p].is_online && #[trigger] s1.stations[q].is_online
                implies s1.stations[p].station_code != s1.stations[q].station_code by {
                if p == i {
                    assert(s.stations[q].client_id != caller);
                    assert(!s.conflict_at(caller, u, q));
                } else if q == i {
                    assert(s.stations[p].client_id != caller);
                    assert(!s.conflict_at(caller, u, p));
                }
            }
        } else {
            let i = s.stations.len() as int;
            assert(s1.stations =~= s.stations.push(st));
            assert forall|p: int, q: int|
                0 <= p < s1.stations.len() && 0 <= q < s1.stations.len() && p != q
                    && #[trigger] s1.stations[p].is_online && #[trigger] s1.stations[q].is_online
                implies s1.stations[p].station_code != s1.stations[q].station_code by {
                if p == i {
                    assert(!s.conflict_at(caller, u, q));
                } else if q == i {
                    assert(!s.conflict_at(caller, u, p));
                }
            }
        }
    }
}

/// Logs the caller into a station. The code is uppercase-normalized; a
/// *different* identity already online under it makes the call fail with
/// [`RelayError::StationAlreadyActive`] and change nothing. Otherwise the
/// caller's presence record is inserted or overwritten in place, and the
/// online counter grows by one.
pub fn login(state: &mut RelayState, caller: u64, now: u64, station_code: &str) -> (result: Result<
    (),
    RelayError,
>)
    requires
        old(state)@.wf(),
        login_fits(old(state)@),
    ensures
        final(state)@ == spec_login(old(state)@, caller, station_code@, now).0,
        result == spec_login(old(state)@, caller, station_code@, now).1,
        final(state)@.wf(),
{
    proof {
        lemma_login_preserves_wf(old(state)@, caller, station_code@, now);
    }
    let ghost sv = state@;
    let ghost u = to_upper(station_code@);
    let code = to_uppercase(station_code);
    let n = state.stations.len();

    let mut i: usize = 0;
    while i < n
        invariant
            state@ == sv,
            sv == old(state)@,
            sv.wf(),
            n == sv.stations.len(),
            i <= n,
            code@ == u,
            u == to_upper(station_code@),
            forall|k: int| 0 <= k < i ==> !sv.conflict_at(caller, u, k),
        decreases n - i,
    {
        let st = &state.stations[i];
        if st.is_online && st.client_id != caller && st.station_code == code {
            proof {
                assert(sv.conflict_at(caller, u, i as int));
            }
            return Err(RelayError::StationAlreadyActive);
        }
        proof {
            assert(!sv.conflict_at(caller, u, i as int));
        }
        i += 1;
    }
    proof {
        assert(!sv.code_owned_by_other(caller, u));
    }

    let idx = find_station(&state.stations, caller);
    let station = Station { client_id: caller, station_code: code, login_time: now, is_online: true };
    let ghost stv = station@;
    match idx {
        Some(p) => {
            proof {
                sv.lemma_station_index_unique(caller, p as int);
            }
            state.stations[p] = station;
            proof {
                assert(state@.stations =~= sv.stations.update(p as int, stv));
            }
        },
        None => {
            proof {
                assert(!sv.has_station(caller));
            }
            state.stations.push(station);
            proof {
                assert(state@.stations =~= sv.stations.push(stv));
            }
        },
    }
    update_stats(
        state,
        StatsDelta { messages_sent: 0, hoppie_relays: 0, stations_joined: 1, stations_left: 0 },
    );
    proof {
        assert(final(state)@ =~= spec_login(sv, caller, station_code@, now).0);
    }
    Ok(())
}

/// The counter delta of a logout that takes a station offline.
pub open spec fn logout_delta() -> StatsDelta {
    StatsDelta { messages_sent: 0, hoppie_relays: 0, stations_joined: 0, stations_left: 1 }
}

/// The state and outcome of a logout: with no presence record the call
/// fails and changes nothing; an online record is archived as offline and
/// the online counter shrinks by one, saturating at zero; an offline record
/// makes the call a successful no-op.
pub open spec fn spec_logout(s: StateV, caller: u64) -> (StateV, Result<(), RelayError>) {
    if !s.has_station(caller) {
        (s, Err(RelayError::NotLoggedIn))
    } else {
        let i = s.station_index(caller);
        let st = s.stations[i];
        if st.is_online {
            (
                StateV {
                    stations: s.stations.update(i, StationV { is_online: false, ..st }),
                    stats: spec_apply_delta(s.stats, logout_delta()),
                    ..s
                },
                Ok(()),
            )
        } else {
            (s, Ok(()))
        }
    }
}

/// A logout keeps the state well-formed.
pub proof fn lemma_logout_preserves_wf(s: StateV, caller: u64)
    requires
        s.wf(),
    ensures
        spec_logout(s, caller).0.wf(),
{
    if s.has_station(caller) {
        let i = s.station_index(caller);
        if s.stations[i].is_online {
            let s1 = spec_logout(s, caller).0;
            assert(forall|k: int|
                0 <= k < s1.stations.len() && k != i ==> s1.stations[k] == s.stations[k]);
        }
    }
}

/// Marks the caller offline. Fails with [`RelayError::NotLoggedIn`] when the
/// caller never logged in; succeeds as a no-op when the caller is already
/// offline; otherwise archives the record offline and decrements the online
/// counter, saturating at zero.
pub fn logout(state: &mut RelayState, caller: u64) -> (result: Result<(), RelayError>)
    requires
        old(state)@.wf(),
    ensures
        final(state)@ == spec_logout(old(state)@, caller).0,
        result == spec_logout(old(state)@, caller).1,
        final(state)@.wf(),
{
    proof {
        lemma_logout_preserves_wf(old(state)@, caller);
    }
    let ghost sv = state@;
    let idx = find_station(&state.stations, caller);
    match idx {
        None => {
            proof {
                assert(!sv.has_station(caller));
            }
            Err(RelayError::NotLoggedIn)
        },
        Some(p) => {
            proof {
                sv.lemma_station_index_unique(caller, p as int);
            }
            if state.stations[p].is_online {
                let st = &mut state.stations[p];
                st.is_online = false;
                proof {
                    assert(state@.stations =~= sv.stations.update(
                        p as int,
                        StationV { is_online: false, ..sv.stations[p as int] },
                    ));
                }
                update_stats(
                    state,
                    StatsDelta {
                        messages_sent: 0,
                        hoppie_relays: 0,
                        stations_joined: 0,
                        stations_left: 1,
                    },
                );
                proof {
                    assert(final(state)@ =~= spec_logout(sv, caller).0);
                }
            }
            Ok(())
        },
    }
}

/// The system-fired disconnect hook: has exactly the effect of a logout by
/// the dropping caller, except that the "never logged in" failure is
/// swallowed — a disconnecting caller cannot receive a reply.
pub fn client_disconnected(state: &mut RelayState, caller: u64)
    requires
        old(state)@.wf(),
    ensures
        final(state)@ == spec_logout(old(state)@, caller).0,
        final(state)@.wf(),
{
    let _ = logout(state, caller);
}

/// The counter delta of a successful submission: one more message sent, and
/// one more external relay when the message is routed outward.
pub open spec fn send_delta(route_to_hoppie: bool) -> StatsDelta {
    StatsDelta {
        messages_sent: 1,
        hoppie_relays: if route_to_hoppie {
            1u64
        } else {
            0u64
        },
        stations_joined: 0,
        stations_left: 0,
    }
}

/// Headroom a submission needs: an unused message identifier and room in
/// the two monotonic counters.
pub open spec fn send_fits(s: StateV, route_to_hoppie: bool) -> bool {
    s.next_message_id < u64::MAX && delta_fits(s.stats, send_delta(route_to_hoppie))
}

/// The state and outcome of a submission: a caller without a presence
/// record fails and changes nothing; otherwise a new pending message is
/// appended under the next identifier — sender code taken from the caller's
/// record, receiver code normalized, direction chosen by the routing flag —
/// and the sent (and, when routed outward, relay) counters grow by one.
pub open spec fn spec_send(
    s: StateV,
    caller: u64,
    now: u64,
    receiver_code: Seq<char>,
    payload: Seq<char>,
    route_to_hoppie: bool,
) -> (StateV, Result<(), RelayError>) {
    if !s.has_station(caller) {
        (s, Err(RelayError::NotLoggedIn))
    } else {
        let m = MessageV {
            id: s.next_message_id,
            sender_code: s.station_of(caller).station_code,
            receiver_code: to_upper(receiver_code),
            payload,
            timestamp: now,
            direction: if route_to_hoppie {
                MessageDirection::OutboundToHoppie
            } else {
                MessageDirection::Internal
            },
            status: MessageStatus::Pending,
        };
        (
            StateV {
                messages: s.messages.push(m),
                stats: spec_apply_delta(s.stats, send_delta(route_to_hoppie)),
                next_message_id: (s.next_message_id + 1) as u64,
                ..s
            },
            Ok(()),
        )
    }
}

/// Appending a message under the next identifier keeps the message store
/// well-formed.
pub(crate) proof fn lemma_push_message_wf(s: StateV, m: MessageV)
    requires
        s.wf(),
        m.id == s.next_message_id,
        s.next_message_id < u64::MAX,
    ensures
        (StateV {
            messages: s.messages.push(m),
            next_message_id: (s.next_message_id + 1) as u64,
            ..s
        }).wf(),
{
}

/// A submission keeps the state well-formed, as long as a message
/// identifier is still free.
pub proof fn lemma_send_preserves_wf(
    s: StateV,
    caller: u64,
    now: u64,
    receiver_code: Seq<char>,
    payload: Seq<char>,
    route_to_hoppie: bool,
)
    requires
        s.wf(),
        s.next_message_id < u64::MAX,
    ensures
        spec_send(s, caller, now, receiver_code, payload, route_to_hoppie).0.wf(),
{
    if s.has_station(caller) {
        let m = spec_send(s, caller, now, receiver_code, payload, route_to_hoppie).0.messages.last();
        lemma_push_message_wf(s, m);
        assert(spec_send(s, caller, now, receiver_code, payload, route_to_hoppie).0.messages
            =~= s.messages.push(m));
    }
}

/// Sends an ACARS message from the caller's station. Fails with
/// [`RelayError::NotLoggedIn`] when the caller has no presence record;
/// otherwise stores the message as pending — outbound to the external
/// network when `route_to_hoppie` is set, internal otherwise — and bumps
/// the counters.
pub fn send_message(
    state: &mut RelayState,
    caller: u64,
    now: u64,
    receiver_code: &str,
    payload: String,
    route_to_hoppie: bool,
) -> (result: Result<(), RelayError>)
    requires
        old(state)@.wf(),
        send_fits(old(state)@, route_to_hoppie),
    ensures
        final(state)@ == spec_send(
            old(state)@,
            caller,
            now,
            receiver_code@,
            payload@,
            route_to_hoppie,
        ).0,
        result == spec_send(
            old(state)@,
            caller,
            now,
            receiver_code@,
            payload@,
            route_to_hoppie,
        ).1,
        final(state)@.wf(),
{
    let ghost sv = state@;
    let idx = find_station(&state.stations, caller);
    match idx {
        None => {
            proof {
                assert(!sv.has_station(caller));
            }
            Err(RelayError::NotLoggedIn)
        },
        Some(p) => {
            proof {
                sv.lemma_station_index_unique(caller, p as int);
            }
            let sender_code = state.stations[p].station_code.clone();
            let msg = Message {
                id: state.next_message_id,
                sender_code,
                receiver_code: to_uppercase(receiver_code),
                payload,
                timestamp: now,
                direction: if route_to_hoppie {
                    MessageDirection::OutboundToHoppie
                } else {
                    MessageDirection::Internal
                },
                status: MessageStatus::Pending,
            };
            let ghost mv = msg@;
            state.messages.push(msg);
            state.next_message_id = state.next_message_id + 1;
            proof {
                assert(state@.messages =~= sv.messages.push(mv));
            }
            update_stats(
                state,
                StatsDelta {
                    messages_sent: 1,
                    hoppie_relays: if route_to_hoppie {
                        1
                    } else {
                        0
                    },
                    stations_joined: 0,
                    stations_left: 0,
                },
            );
            proof {
                lemma_push_message_wf(sv, mv);
                assert(final(state)@ =~= spec_send(
                    sv,
                    caller,
                    now,
                    receiver_code@,
                    payload@,
                    route_to_hoppie,
                ).0);
            }
            Ok(())
        },
    }
}

/// The state after an inbound relay: a message from the external network is
/// appended under the next identifier, with both codes normalized, already
/// delivered, and tagged as inbound. The statistics are untouched — inbound
/// traffic counts neither as a sent message nor as a relay.
pub open spec fn spec_receive(
    s: StateV,
    now: u64,
    sender_code: Seq<char>,
    receiver_code: Seq<char>,
    payload: Seq<char>,
) -> StateV {
    let m = MessageV {
        id: s.next_message_id,
        sender_code: to_upper(sender_code),
        receiver_code: to_upper(receiver_code),
        payload,
        timestamp: now,
        direction: MessageDirection::InboundFromHoppie,
        status: MessageStatus::Delivered,
    };
    StateV {
        messages: s.messages.push(m),
        next_message_id: (s.next_message_id + 1) as u64,
        ..s
    }
}

/// An inbound relay keeps the state well-formed, as long as a message
/// identifier is still free.
pub proof fn lemma_receive_preserves_wf(
    s: StateV,
    now: u64,
    sender_code: Seq<char>,
    receiver_code: Seq<char>,
    payload: Seq<char>,
)
    requires
        s.wf(),
        s.next_message_id < u64::MAX,
    ensures
        spec_receive(s, now, sender_code, receiver_code, payload).wf(),
{
    let m = spec_receive(s, now, sender_code, receiver_code, payload).messages.last();
    lemma_push_message_wf(s, m);
    assert(spec_receive(s, now, sender_code, receiver_code, payload).messages
        =~= s.messages.push(m));
}

/// Stores a message pushed in by the trusted external-relay collaborator.
/// Needs no logged-in caller, always succeeds, and leaves every counter as
/// it was: the message arrives already confirmed.
pub fn receive_hoppie_message(
    state: &mut RelayState,
    now: u64,
    sender_code: &str,
    receiver_code: &str,
    payload: String,
) -> (result: Result<(), RelayError>)
    requires
        old(state)@.wf(),
        old(state)@.next_message_id < u64::MAX,
    ensures
        final(state)@ == spec_receive(old(state)@, now, sender_code@, receiver_code@, payload@),
        result is Ok,
        final(state)@.wf(),
{
    let ghost sv = state@;
    let msg = Message {
        id: state.next_message_id,
        sender_code: to_uppercase(sender_code),
        receiver_code: to_uppercase(receiver_code),
        payload,
        timestamp: now,
        direction: MessageDirection::InboundFromHoppie,
        status: MessageStatus::Delivered,
    };
    let ghost mv = msg@;
    state.messages.push(msg);
    state.next_message_id = state.next_message_id + 1;
    proof {
        assert(state@.messages =~= sv.messages.push(mv));
        lemma_push_message_wf(sv, mv);
        assert(state@ =~= spec_receive(sv, now, sender_code@, receiver_code@, payload@));
    }
    Ok(())
}

/// The state and outcome of a status update: an unknown identifier fails
/// and changes nothing; otherwise the message's status is overwritten — any
/// status may replace any other — and every other field stays as it was.
pub open spec fn spec_update_status(s: StateV, message_id: u64, new_status: MessageStatus) -> (
    StateV,
    Result<(), RelayError>,
) {
    if !s.has_message(message_id) {
        (s, Err(RelayError::MessageNotFound))
    } else {
        let i = s.message_index(message_id);
        let m = s.messages[i];
        (
            StateV {
                messages: s.messages.update(i, MessageV { status: new_status, ..m }),
                ..s
            },
            Ok(()),
        )
    }
}

/// Overwriting one message's status keeps the state well-formed: every
/// identifier stays as it was.
pub proof fn lemma_update_status_preserves_wf(s: StateV, message_id: u64, new_status: MessageStatus)
    requires
        s.wf(),
    ensures
        spec_update_status(s, message_id, new_status).0.wf(),
{
    if s.has_message(message_id) {
        let i = s.message_index(message_id);
        let s1 = spec_update_status(s, message_id, new_status).0;
        assert(forall|k: int|
            0 <= k < s1.messages.len() ==> #[trigger] s1.messages[k].id == s.messages[k].id);
    }
}

/// Sets the status of the message with the given identifier, for example
/// from pending to delivered or failed. Fails with
/// [`RelayError::MessageNotFound`] when no message has that identifier.
pub fn update_message_status(
    state: &mut RelayState,
    message_id: u64,
    new_status: MessageStatus,
) -> (result: Result<(), RelayError>)
    requires
        old(state)@.wf(),
    ensures
        final(state)@ == spec_update_status(old(state)@, message_id, new_status).0,
        result == spec_update_status(old(state)@, message_id, new_status).1,
        final(state)@.wf(),
{
    proof {
        lemma_update_status_preserves_wf(old(state)@, message_id, new_status);
    }
    let ghost sv = state@;
    let idx = find_message(&state.messages, message_id);
    match idx {
        None => {
            proof {
                assert(!sv.has_message(message_id));
            }
            Err(RelayError::MessageNotFound)
        },
        Some(p) => {
            proof {
                sv.lemma_message_index_unique(message_id, p as int);
            }
            let m = &mut state.messages[p];
            m.status = new_status;
            proof {
                assert(state@.messages =~= sv.messages.update(
                    p as int,
                    MessageV { status: new_status, ..sv.messages[p as int] },
                ));
                assert(state@ =~= spec_update_status(sv, message_id, new_status).0);
            }
            Ok(())
        },
    }
}

/// How long a message is retained, in microseconds: one hour.
pub const RETENTION_MICROS: u64 = 3_600_000_000;

/// The purge cutoff for a run at time `now`: one hour earlier, saturating
/// at the epoch.
pub open spec fn spec_cutoff(now: u64) -> u64 {
    if now >= RETENTION_MICROS {
        (now - RETENTION_MICROS) as u64
    } else {
        0u64
    }
}

/// Whether a message created at `timestamp` survives a purge at `now`: it
/// does exactly when it is not strictly older than the cutoff.
pub open spec fn spec_retained(timestamp: u64, now: u64) -> bool {
    timestamp >= spec_cutoff(now)
}

/// The state after a purge at time `now`: exactly the messages strictly
/// older than the cutoff are gone, everything else — including their order
/// and all other stores — is untouched.
pub open spec fn spec_cleanup(s: StateV, now: u64) -> StateV {
    StateV { messages: s.messages.filter(|m: MessageV| spec_retained(m.timestamp, now)), ..s }
}

/// Filtering the message log keeps it well-formed: the survivors are a
/// subsequence, so their identifiers still increase and stay bounded.
pub(crate) proof fn lemma_filter_messages_wf(msgs: Seq<MessageV>, pred: spec_fn(MessageV) -> bool)
    requires
        forall|i: int, j: int| 0 <= i < j < msgs.len() ==> #[trigger] msgs[i].id < #[trigger] msgs[j].id,
    ensures
        forall|i: int, j: int|
            0 <= i < j < msgs.filter(pred).len() ==> #[trigger] msgs.filter(pred)[i].id
                < #[trigger] msgs.filter(pred)[j].id,
        forall|i: int|
            0 <= i < msgs.filter(pred).len() ==> msgs.contains(#[trigger] msgs.filter(pred)[i]),
    decreases msgs.len(),
{
    reveal(Seq::filter);
    if msgs.len() > 0 {
        let d = msgs.drop_last();
        let l = msgs.last();
        lemma_filter_messages_wf(d, pred);
        assert(forall|i: int|
            0 <= i < d.filter(pred).len() ==> d.contains(#[trigger] d.filter(pred)[i]));
        assert forall|x: MessageV| d.contains(x) implies msgs.contains(x) by {
            let k = choose|k: int| 0 <= k < d.len() && d[k] == x;
            assert(msgs[k] == x);
        }
        if pred(l) {
            assert(msgs.filter(pred) == d.filter(pred).push(l));
            assert forall|i: int|
                0 <= i < d.filter(pred).len() implies #[trigger] d.filter(pred)[i].id < l.id by {
                let x = d.filter(pred)[i];
                let k = choose|k: int| 0 <= k < d.len() && d[k] == x;
                assert(msgs[k].id < msgs[msgs.len() - 1].id);
            }
            assert(msgs.contains(l)) by {
                assert(msgs[msgs.len() - 1] == l);
            }
        }
    }
}

/// A purge keeps the state well-formed.
pub proof fn lemma_cleanup_preserves_wf(s: StateV, now: u64)
    requires
        s.wf(),
    ensures
        spec_cleanup(s, now).wf(),
{
    let pred = |m: MessageV| spec_retained(m.timestamp, now);
    lemma_filter_messages_wf(s.messages, pred);
    assert forall|k: int|
        0 <= k < s.messages.filter(pred).len() implies #[trigger] s.messages.filter(
        pred,
    )[k].id < s.next_message_id by {
        let x = s.messages.filter(pred)[k];
        let q = choose|q: int| 0 <= q < s.messages.len() && s.messages[q] == x;
        assert(s.messages[q].id < s.next_message_id);
    }
}

/// Deletes every message strictly older than one hour before `now`.
/// Messages at or after the cutoff — including any inserted concurrently
/// with timestamps at or after it — are left untouched, as are the presence
/// records and the statistics.
pub fn cleanup_old_messages(state: &mut RelayState, now: u64)
    requires
        old(state)@.wf(),
    ensures
        final(state)@ == spec_cleanup(old(state)@, now),
        final(state)@.wf(),
{
    let cut = if now >= RETENTION_MICROS {
        now - RETENTION_MICROS
    } else {
        0
    };
    let ghost sv = state@;
    let ghost pred = |m: MessageV| spec_retained(m.timestamp, now);
    let n = state.messages.len();
    let mut kept: Vec<Message> = Vec::new();
    let mut i: usize = 0;
    proof {
        assert(sv.messages.take(0) =~= Seq::<MessageV>::empty());
        reveal(Seq::filter);
    }
    while i < n
        invariant
            state@ == sv,
            sv == old(state)@,
            n == sv.messages.len(),
            i <= n,
            cut == spec_cutoff(now),
            pred == (|m: MessageV| spec_retained(m.timestamp, now)),
            kept@.map_values(|m: Message| m@) =~= sv.messages.take(i as int).filter(pred),
        decreases n - i,
    {
        let m = &state.messages[i];
        if m.timestamp >= cut {
            kept.push(m.clone());
        }
        proof {
            sv.messages.lemma_take_succ_push(i as int);
            sv.messages.take(i as int).lemma_filter_push(sv.messages[i as int], pred);
            assert(kept@.map_values(|m: Message| m@) =~= sv.messages.take(i as int + 1).filter(
                pred,
            ));
        }
        i += 1;
    }
    state.messages = kept;
    proof {
        assert(sv.messages.take(n as int) =~= sv.messages);
        lemma_cleanup_preserves_wf(sv, now);
        assert(final(state)@ =~= spec_cleanup(sv, now));
    }
}

} // verus!
