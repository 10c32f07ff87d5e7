use acars_relay::{
    cleanup_old_messages, client_disconnected, init, login, logout, receive_hoppie_message,
    send_message, to_uppercase, update_message_status, update_stats, MessageDirection,
    MessageStatus, RelayError, RelayState, StatsDelta,
};

const HOUR_MICROS: u64 = 3_600_000_000;

fn fresh() -> RelayState {
    let mut s = RelayState::new();
    init(&mut s);
    s
}

fn stats(s: &RelayState) -> (u64, u64, u32) {
    let t = s.stats.unwrap();
    (
        t.total_messages_sent,
        t.total_hoppie_relays,
        t.active_stations_count,
    )
}

#[test]
fn to_uppercase_normalizes_ascii() {
    assert_eq!(to_uppercase("ymml"), "YMML");
    assert_eq!(to_uppercase("YsSy"), "YSSY");
    assert_eq!(to_uppercase("YMML"), "YMML");
    assert_eq!(to_uppercase(""), "");
    assert_eq!(to_uppercase("a1-z9"), "A1-Z9");
}

#[test]
fn init_creates_singleton_once() {
    let mut s = RelayState::new();
    assert!(s.stats.is_none());
    init(&mut s);
    let t = s.stats.unwrap();
    assert_eq!(t.id, 0);
    assert_eq!(t.total_messages_sent, 0);
    assert_eq!(t.total_hoppie_relays, 0);
    assert_eq!(t.active_stations_count, 0);

    // A second run is a no-op, even after the counters moved.
    login(&mut s, 1, 10, "YMML").unwrap();
    init(&mut s);
    assert_eq!(s.stats.unwrap().active_stations_count, 1);
}

#[test]
fn login_claims_station() {
    let mut s = fresh();
    assert_eq!(login(&mut s, 7, 42, "ymml"), Ok(()));
    assert_eq!(s.stations.len(), 1);
    assert_eq!(s.stations[0].client_id, 7);
    assert_eq!(s.stations[0].station_code, "YMML");
    assert_eq!(s.stations[0].login_time, 42);
    assert!(s.stations[0].is_online);
    assert_eq!(stats(&s), (0, 0, 1));
}

#[test]
fn login_case_normalization_is_equivalent() {
    // login("ymml") and login("YMML") claim the same station.
    let mut a = fresh();
    login(&mut a, 1, 10, "ymml").unwrap();
    let mut b = fresh();
    login(&mut b, 1, 10, "YMML").unwrap();
    assert_eq!(a.stations[0].station_code, b.stations[0].station_code);

    // A second, distinct identity fails on the conflict whatever the case,
    // and the first identity's record is unchanged.
    let r = login(&mut a, 2, 11, "YMML");
    assert_eq!(r, Err(RelayError::StationAlreadyActive));
    let r = login(&mut a, 2, 11, "ymml");
    assert_eq!(r, Err(RelayError::StationAlreadyActive));
    assert_eq!(a.stations.len(), 1);
    assert_eq!(a.stations[0].client_id, 1);
    assert_eq!(a.stations[0].login_time, 10);
    assert!(a.stations[0].is_online);
    assert_eq!(stats(&a), (0, 0, 1));
}

#[test]
fn relogin_by_same_identity_succeeds() {
    let mut s = fresh();
    login(&mut s, 1, 10, "YMML").unwrap();
    // The same identity may re-claim its own code; the record is overwritten
    // in place and the online counter grows again (the literal semantics).
    assert_eq!(login(&mut s, 1, 20, "YMML"), Ok(()));
    assert_eq!(s.stations.len(), 1);
    assert_eq!(s.stations[0].login_time, 20);
    assert_eq!(stats(&s).2, 2);
}

#[test]
fn logout_then_login_restores_online() {
    let mut s = fresh();
    login(&mut s, 1, 10, "YMML").unwrap();
    assert_eq!(logout(&mut s, 1), Ok(()));
    assert!(!s.stations[0].is_online);
    assert_eq!(stats(&s).2, 0);
    assert_eq!(login(&mut s, 1, 30, "YMML"), Ok(()));
    assert_eq!(s.stations.len(), 1);
    assert!(s.stations[0].is_online);
    assert_eq!(s.stations[0].login_time, 30);
    assert_eq!(stats(&s).2, 1);
}

#[test]
fn logout_without_login_fails() {
    let mut s = fresh();
    assert_eq!(logout(&mut s, 99), Err(RelayError::NotLoggedIn));
    assert_eq!(stats(&s), (0, 0, 0));
}

#[test]
fn logout_when_offline_is_a_noop() {
    let mut s = fresh();
    login(&mut s, 1, 10, "YMML").unwrap();
    logout(&mut s, 1).unwrap();
    // Already offline: still Ok, and the counter is not decremented again.
    assert_eq!(logout(&mut s, 1), Ok(()));
    assert_eq!(stats(&s).2, 0);
}

#[test]
fn online_counter_saturates_at_zero() {
    let mut s = fresh();
    login(&mut s, 1, 10, "YMML").unwrap();
    // Drain the counter behind the operation's back, then log out: the
    // decrement saturates instead of wrapping.
    update_stats(
        &mut s,
        StatsDelta {
            messages_sent: 0,
            hoppie_relays: 0,
            stations_joined: 0,
            stations_left: 1,
        },
    );
    assert_eq!(stats(&s).2, 0);
    assert_eq!(logout(&mut s, 1), Ok(()));
    assert_eq!(stats(&s).2, 0);
}

#[test]
fn disconnect_swallows_the_error() {
    let mut s = fresh();
    // Unknown identity: logout would fail, the hook must not.
    client_disconnected(&mut s, 99);
    assert_eq!(stats(&s), (0, 0, 0));

    login(&mut s, 1, 10, "YMML").unwrap();
    client_disconnected(&mut s, 1);
    assert!(!s.stations[0].is_online);
    assert_eq!(stats(&s).2, 0);
}

#[test]
fn update_stats_without_singleton_is_a_noop() {
    let mut s = RelayState::new();
    update_stats(
        &mut s,
        StatsDelta {
            messages_sent: 1,
            hoppie_relays: 1,
            stations_joined: 1,
            stations_left: 0,
        },
    );
    assert!(s.stats.is_none());
}

#[test]
fn send_message_requires_presence() {
    let mut s = fresh();
    let r = send_message(&mut s, 5, 100, "YSSY", "HELLO".to_string(), false);
    assert_eq!(r, Err(RelayError::NotLoggedIn));
    assert_eq!(s.messages.len(), 0);
    assert_eq!(stats(&s), (0, 0, 0));
}

#[test]
fn send_message_stores_pending_message() {
    let mut s = fresh();
    login(&mut s, 1, 10, "ymml").unwrap();
    send_message(&mut s, 1, 100, "yssy", "G'DAY".to_string(), false).unwrap();
    assert_eq!(s.messages.len(), 1);
    let m = &s.messages[0];
    assert_eq!(m.id, 1);
    assert_eq!(m.sender_code, "YMML");
    assert_eq!(m.receiver_code, "YSSY");
    assert_eq!(m.payload, "G'DAY");
    assert_eq!(m.timestamp, 100);
    assert_eq!(m.direction, MessageDirection::Internal);
    assert_eq!(m.status, MessageStatus::Pending);
}

#[test]
fn an_offline_record_still_allows_sending() {
    // Sending needs a presence record, not an online one: a logged-out
    // station keeps its code and may still submit.
    let mut s = fresh();
    login(&mut s, 1, 10, "YMML").unwrap();
    logout(&mut s, 1).unwrap();
    assert_eq!(
        send_message(&mut s, 1, 100, "YSSY", "LATE".to_string(), false),
        Ok(())
    );
    assert_eq!(s.messages[0].sender_code, "YMML");
}

#[test]
fn counters_count_sends_and_relays() {
    let mut s = fresh();
    login(&mut s, 1, 10, "YMML").unwrap();
    send_message(&mut s, 1, 100, "YSSY", "ONE".to_string(), false).unwrap();
    send_message(&mut s, 1, 101, "YSSY", "TWO".to_string(), true).unwrap();
    send_message(&mut s, 1, 102, "YBBN", "THREE".to_string(), true).unwrap();
    // A failed send counts nothing.
    let _ = send_message(&mut s, 9, 103, "YSSY", "NOPE".to_string(), true);
    let (sent, relays, _) = stats(&s);
    assert_eq!(sent, 3);
    assert_eq!(relays, 2);
    assert_eq!(
        s.messages[1].direction,
        MessageDirection::OutboundToHoppie
    );
    // Identifiers are assigned strictly increasing.
    assert_eq!(s.messages[0].id, 1);
    assert_eq!(s.messages[1].id, 2);
    assert_eq!(s.messages[2].id, 3);
}

#[test]
fn receive_inbound_is_delivered_and_uncounted() {
    let mut s = fresh();
    login(&mut s, 1, 10, "YMML").unwrap();
    send_message(&mut s, 1, 100, "YSSY", "OUT".to_string(), true).unwrap();
    let before = stats(&s);
    receive_hoppie_message(&mut s, 200, "yssy", "ymml", "ACK".to_string()).unwrap();
    let m = &s.messages[1];
    assert_eq!(m.sender_code, "YSSY");
    assert_eq!(m.receiver_code, "YMML");
    assert_eq!(m.payload, "ACK");
    assert_eq!(m.direction, MessageDirection::InboundFromHoppie);
    assert_eq!(m.status, MessageStatus::Delivered);
    // Inbound traffic moves no counter.
    assert_eq!(stats(&s), before);
}

#[test]
fn update_status_overwrites_existing() {
    let mut s = fresh();
    login(&mut s, 1, 10, "YMML").unwrap();
    send_message(&mut s, 1, 100, "YSSY", "MSG".to_string(), false).unwrap();
    assert_eq!(
        update_message_status(&mut s, 1, MessageStatus::Delivered),
        Ok(())
    );
    assert_eq!(s.messages[0].status, MessageStatus::Delivered);
    // No forward-only validation: any status may replace any other.
    assert_eq!(
        update_message_status(&mut s, 1, MessageStatus::Pending),
        Ok(())
    );
    assert_eq!(s.messages[0].status, MessageStatus::Pending);
    // Everything else is untouched.
    assert_eq!(s.messages[0].payload, "MSG");
}

#[test]
fn update_status_unknown_id_changes_nothing() {
    let mut s = fresh();
    login(&mut s, 1, 10, "YMML").unwrap();
    send_message(&mut s, 1, 100, "YSSY", "MSG".to_string(), false).unwrap();
    let r = update_message_status(&mut s, 42, MessageStatus::Failed);
    assert_eq!(r, Err(RelayError::MessageNotFound));
    assert_eq!(s.messages.len(), 1);
    assert_eq!(s.messages[0].status, MessageStatus::Pending);
    assert_eq!(stats(&s), (1, 0, 1));
}

#[test]
fn cleanup_removes_exactly_the_old_messages() {
    let mut s = fresh();
    login(&mut s, 1, 10, "YMML").unwrap();
    let now = 2 * HOUR_MICROS;
    let cutoff = now - HOUR_MICROS;
    send_message(&mut s, 1, cutoff - 1, "YSSY", "OLD".to_string(), false).unwrap();
    send_message(&mut s, 1, cutoff, "YSSY", "EDGE".to_string(), false).unwrap();
    send_message(&mut s, 1, cutoff + 1, "YSSY", "NEW".to_string(), false).unwrap();
    cleanup_old_messages(&mut s, now);
    // Strictly older than the cutoff is gone; at the cutoff survives.
    assert_eq!(s.messages.len(), 2);
    assert_eq!(s.messages[0].payload, "EDGE");
    assert_eq!(s.messages[1].payload, "NEW");
    // The counters and presence records are untouched.
    assert_eq!(stats(&s), (3, 0, 1));
    assert_eq!(s.stations.len(), 1);
}

#[test]
fn cleanup_near_the_epoch_deletes_nothing() {
    let mut s = fresh();
    login(&mut s, 1, 10, "YMML").unwrap();
    send_message(&mut s, 1, 0, "YSSY", "EARLY".to_string(), false).unwrap();
    // Less than one hour after the epoch the cutoff saturates at zero.
    cleanup_old_messages(&mut s, HOUR_MICROS - 1);
    assert_eq!(s.messages.len(), 1);
}

#[test]
fn error_messages_read_as_expected() {
    assert_eq!(
        RelayError::StationAlreadyActive.message(),
        "Station is already active"
    );
    assert_eq!(RelayError::NotLoggedIn.message(), "Not logged in");
    assert_eq!(RelayError::MessageNotFound.message(), "Message not found");
}

#[test]
fn full_scenario() {
    let mut s = fresh();

    // Identity A logs in as "YMML": online counter 1.
    assert_eq!(login(&mut s, 1, 10, "YMML"), Ok(()));
    assert_eq!(stats(&s).2, 1);

    // Identity B attempts "YMML": conflict, counter unchanged.
    assert_eq!(login(&mut s, 2, 11, "YMML"), Err(RelayError::StationAlreadyActive));
    assert_eq!(stats(&s).2, 1);

    // A sends to "YSSY" without external routing.
    assert_eq!(
        send_message(&mut s, 1, 12, "YSSY", "QNH 1013".to_string(), false),
        Ok(())
    );
    let m = &s.messages[0];
    assert_eq!(m.direction, MessageDirection::Internal);
    assert_eq!(m.status, MessageStatus::Pending);
    assert_eq!(stats(&s), (1, 0, 1));

    // A logs out: counter back to 0.
    assert_eq!(logout(&mut s, 1), Ok(()));
    assert_eq!(stats(&s).2, 0);

    // The external collaborator pushes an inbound acknowledgement.
    assert_eq!(
        receive_hoppie_message(&mut s, 13, "YSSY", "YMML", "ACK".to_string()),
        Ok(())
    );
    let m = &s.messages[1];
    assert_eq!(m.status, MessageStatus::Delivered);
    assert_eq!(m.direction, MessageDirection::InboundFromHoppie);
    assert_eq!(stats(&s), (1, 0, 0));
}

#[test]
fn check_wf_accepts_reachable_states() {
    let mut s = fresh();
    assert!(s.check_wf());
    login(&mut s, 1, 10, "ymml").unwrap();
    send_message(&mut s, 1, 100, "yssy", "MSG".to_string(), true).unwrap();
    receive_hoppie_message(&mut s, 200, "yssy", "ymml", "ACK".to_string()).unwrap();
    logout(&mut s, 1).unwrap();
    assert!(s.check_wf());
}

#[test]
fn check_wf_rejects_corrupted_states() {
    // A station code stored in lowercase.
    let mut s = fresh();
    login(&mut s, 1, 10, "YMML").unwrap();
    s.stations[0].station_code = "ymml".to_string();
    assert!(!s.check_wf());

    // Two identities online under one code.
    let mut s = fresh();
    login(&mut s, 1, 10, "YMML").unwrap();
    login(&mut s, 2, 11, "YSSY").unwrap();
    s.stations[1].station_code = "YMML".to_string();
    assert!(!s.check_wf());

    // A message identifier at or above the next one to be assigned.
    let mut s = fresh();
    login(&mut s, 1, 10, "YMML").unwrap();
    send_message(&mut s, 1, 100, "YSSY", "MSG".to_string(), false).unwrap();
    s.messages[0].id = s.next_message_id;
    assert!(!s.check_wf());
}

#[test]
fn freed_code_can_be_claimed_by_another_identity() {
    let mut s = fresh();
    login(&mut s, 1, 10, "YMML").unwrap();
    logout(&mut s, 1).unwrap();
    // The code is only guarded while its holder is online; afterwards a
    // different identity may claim it. Both records remain archived.
    assert_eq!(login(&mut s, 2, 20, "YMML"), Ok(()));
    assert_eq!(s.stations.len(), 2);
    assert!(!s.stations[0].is_online);
    assert!(s.stations[1].is_online);
    assert_eq!(s.stations[1].client_id, 2);
}

#[test]
fn empty_code_is_a_station_like_any_other() {
    let mut s = fresh();
    assert_eq!(login(&mut s, 1, 10, ""), Ok(()));
    assert_eq!(s.stations[0].station_code, "");
    assert_eq!(
        login(&mut s, 2, 11, ""),
        Err(RelayError::StationAlreadyActive)
    );
}

#[test]
fn normalization_touches_only_ascii_letters() {
    // Codes are ASCII in practice; anything else passes through unchanged.
    assert_eq!(to_uppercase("münchen"), "MüNCHEN");
    assert_eq!(to_uppercase("y2k!"), "Y2K!");
}
