//! The three kinds of record the relay keeps, and the outcomes its
//! operations report.
//!
//! Caller identities are opaque references handed in by the hosting
//! platform; the core only ever compares them for equality, so they are
//! carried as plain `u64` values. Timestamps are microseconds since the Unix
//! epoch, also supplied by the host with each operation.

use vstd::prelude::*;

verus! {

/// A presence record: which identity claimed which station code, when it
/// last logged in, and whether it is currently online.
///
/// There is exactly one record per identity that has ever logged in; a
/// logout archives the record as offline rather than deleting it.
pub struct Station {
    /// The owning caller identity (primary key).
    pub client_id: u64,
    /// The claimed station code, uppercase-normalized (e.g. `YMML`).
    pub station_code: String,
    /// When the identity last logged in, in microseconds since the epoch.
    pub login_time: u64,
    /// Whether the identity currently holds the code.
    pub is_online: bool,
}

/// Where a message came from and where it is headed, relative to the
/// external relay network. Immutable once the message is stored.
#[derive(Clone, Copy, PartialEq, Eq, Structural, Debug)]
pub enum MessageDirection {
    /// Between two stations of this system.
    Internal,
    /// Queued for the external relay network to pick up.
    OutboundToHoppie,
    /// Injected by the external relay network.
    InboundFromHoppie,
}

/// Delivery state of a stored message.
#[derive(Clone, Copy, PartialEq, Eq, Structural, Debug)]
pub enum MessageStatus {
    Pending,
    Delivered,
    Failed,
}

/// One entry of the message log.
pub struct Message {
    /// Store-assigned identifier: strictly increasing, never reused.
    pub id: u64,
    /// Sender station code, uppercase-normalized.
    pub sender_code: String,
    /// Receiver station code, uppercase-normalized.
    pub receiver_code: String,
    /// Opaque message text.
    pub payload: String,
    /// Creation time, in microseconds since the epoch.
    pub timestamp: u64,
    pub direction: MessageDirection,
    pub status: MessageStatus,
}

/// The singleton aggregate row: running counters maintained in lockstep
/// with every presence and message event.
#[derive(Clone, Copy, PartialEq, Eq, Structural, Debug)]
pub struct Statistics {
    /// Always zero: the fixed identifier of the singleton row.
    pub id: u32,
    /// Successful message submissions to date (monotonic).
    pub total_messages_sent: u64,
    /// Submissions that were routed to the external network (monotonic).
    pub total_hoppie_relays: u64,
    /// Stations currently online (never negative).
    pub active_stations_count: u32,
}

/// The change one event makes to the statistics counters: how many messages
/// were sent and relayed externally, and how many stations joined or left.
#[derive(Clone, Copy, PartialEq, Eq, Structural, Debug)]
pub struct StatsDelta {
    pub messages_sent: u64,
    pub hoppie_relays: u64,
    pub stations_joined: u32,
    pub stations_left: u32,
}

/// The failure outcomes an operation can report. Every failure leaves the
/// state exactly as it was.
#[derive(Clone, Copy, PartialEq, Eq, Structural, Debug)]
pub enum RelayError {
    /// A different identity already holds the requested station code online.
    StationAlreadyActive,
    /// The caller has no presence record.
    NotLoggedIn,
    /// No message has the requested identifier.
    MessageNotFound,
}

impl RelayError {
    /// The human-readable text of this failure.
    pub fn message(&self) -> (r: &'static str)
        ensures
            *self is StationAlreadyActive ==> r@ == "Station is already active"@,
            *self is NotLoggedIn ==> r@ == "Not logged in"@,
            *self is MessageNotFound ==> r@ == "Message not found"@,
    {
        match self {
            RelayError::StationAlreadyActive => "Station is already active",
            RelayError::NotLoggedIn => "Not logged in",
            RelayError::MessageNotFound => "Message not found",
        }
    }
}

/// The mathematical image of a [`Station`]: the code as a character
/// sequence, everything else as it is stored.
#[verifier::ext_equal]
pub ghost struct StationV {
    pub client_id: u64,
    pub station_code: Seq<char>,
    pub login_time: u64,
    pub is_online: bool,
}

impl View for Station {
    type V = StationV;

    open spec fn view(&self) -> StationV {
        StationV {
            client_id: self.client_id,
            station_code: self.station_code@,
            login_time: self.login_time,
            is_online: self.is_online,
        }
    }
}

/// The mathematical image of a [`Message`].
#[verifier::ext_equal]
pub ghost struct MessageV {
    pub id: u64,
    pub sender_code: Seq<char>,
    pub receiver_code: Seq<char>,
    pub payload: Seq<char>,
    pub timestamp: u64,
    pub direction: MessageDirection,
    pub status: MessageStatus,
}

impl Clone for Message {
    /// An exact copy: every field of the clone equals the original's.
    fn clone(&self) -> (r: Message)
        ensures
            r@ == self@,
    {
        Message {
            id: self.id,
            sender_code: self.sender_code.clone(),
            receiver_code: self.receiver_code.clone(),
            payload: self.payload.clone(),
            timestamp: self.timestamp,
            direction: self.direction,
            status: self.status,
        }
    }
}

impl View for Message {
    type V = MessageV;

    open spec fn view(&self) -> MessageV {
        MessageV {
            id: self.id,
            sender_code: self.sender_code@,
            receiver_code: self.receiver_code@,
            payload: self.payload@,
            timestamp: self.timestamp,
            direction: self.direction,
            status: self.status,
        }
    }
}

} // verus!
