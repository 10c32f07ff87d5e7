//! The shared state the operations act on, and its well-formedness
//! invariant.
//!
//! The hosting platform executes each operation as one atomic, serializable
//! unit; within that unit the operation owns the state exclusively, which is
//! what the `&mut RelayState` parameter of every operation expresses.

use vstd::prelude::*;

use crate::codes::is_normalized;
use crate::types::{Message, MessageV, Station, StationV, Statistics};

verus! {

/// The three stores, held together so that every operation reads and
/// mutates them as a single unit.
pub struct RelayState {
    /// Presence records, one per identity that has ever logged in.
    pub stations: Vec<Station>,
    /// The message log, in order of insertion (so in id order).
    pub messages: Vec<Message>,
    /// The statistics singleton; absent only before initialization.
    pub stats: Option<Statistics>,
    /// The identifier the next stored message will receive.
    pub next_message_id: u64,
}

/// The mathematical image of the whole state.
#[verifier::ext_equal]
pub ghost struct StateV {
    pub stations: Seq<StationV>,
    pub messages: Seq<MessageV>,
    pub stats: Option<Statistics>,
    pub next_message_id: u64,
}

impl View for RelayState {
    type V = StateV;

    open spec fn view(&self) -> StateV {
        StateV {
            stations: self.stations@.map_values(|s: Station| s@),
            messages: self.messages@.map_values(|m: Message| m@),
            stats: self.stats,
            next_message_id: self.next_message_id,
        }
    }
}

impl StateV {
    /// Presence-store invariant: one record per identity, every stored code
    /// normalized, and no station code held online twice.
    pub open spec fn stations_wf(self) -> bool {
        &&& forall|i: int, j: int|
            0 <= i < j < self.stations.len() ==> #[trigger] self.stations[i].client_id
                != #[trigger] self.stations[j].client_id
        &&& forall|i: int|
            0 <= i < self.stations.len() ==> is_normalized(
                #[trigger] self.stations[i].station_code,
            )
        &&& forall|i: int, j: int|
            0 <= i < self.stations.len() && 0 <= j < self.stations.len() && i != j
                && #[trigger] self.stations[i].is_online && #[trigger] self.stations[j].is_online
                ==> self.stations[i].station_code != self.stations[j].station_code
    }

    /// Message-store invariant: identifiers strictly increase with the
    /// insertion order and stay below the next one to be assigned.
    pub open spec fn messages_wf(self) -> bool {
        &&& forall|i: int, j: int|
            0 <= i < j < self.messages.len() ==> #[trigger] self.messages[i].id
                < #[trigger] self.messages[j].id
        &&& forall|i: int|
            0 <= i < self.messages.len() ==> #[trigger] self.messages[i].id
                < self.next_message_id
    }

    /// Statistics invariant: the singleton row, when present, carries the
    /// fixed identifier zero.
    pub open spec fn stats_wf(self) -> bool {
        self.stats matches Some(t) ==> t.id == 0
    }

    /// The whole well-formedness invariant. Every operation preserves it.
    pub open spec fn wf(self) -> bool {
        self.stations_wf() && self.messages_wf() && self.stats_wf()
    }

    /// Whether the given identity has a presence record.
    pub open spec fn has_station(self, caller: u64) -> bool {
        exists|i: int| 0 <= i < self.stations.len() && #[trigger] self.stations[i].client_id == caller
    }

    /// The position of the identity's presence record. Meaningful only when
    /// [`Self::has_station`] holds; unique whenever the state is well-formed.
    pub open spec fn station_index(self, caller: u64) -> int {
        choose|i: int| 0 <= i < self.stations.len() && #[trigger] self.stations[i].client_id == caller
    }

    /// The identity's presence record.
    pub open spec fn station_of(self, caller: u64) -> StationV {
        self.stations[self.station_index(caller)]
    }

    /// Whether the presence record at position `i` blocks `caller` from
    /// claiming `code`: it is online under that code and belongs to someone
    /// else.
    pub open spec fn conflict_at(self, caller: u64, code: Seq<char>, i: int) -> bool {
        self.stations[i].is_online && self.stations[i].station_code == code
            && self.stations[i].client_id != caller
    }

    /// Whether some identity other than `caller` is online under `code`.
    /// This is the condition on which a login is refused.
    pub open spec fn code_owned_by_other(self, caller: u64, code: Seq<char>) -> bool {
        exists|i: int| 0 <= i < self.stations.len() && #[trigger] self.conflict_at(caller, code, i)
    }

    /// Whether a message with the given identifier is stored.
    pub open spec fn has_message(self, id: u64) -> bool {
        exists|i: int| 0 <= i < self.messages.len() && #[trigger] self.messages[i].id == id
    }

    /// The position of the message with the given identifier. Meaningful
    /// only when [`Self::has_message`] holds; unique under well-formedness.
    pub open spec fn message_index(self, id: u64) -> int {
        choose|i: int| 0 <= i < self.messages.len() && #[trigger] self.messages[i].id == id
    }

    /// In a well-formed state, two positions holding the same identity are
    /// the same position.
    pub proof fn lemma_station_index_unique(self, caller: u64, i: int)
        requires
            self.stations_wf(),
            0 <= i < self.stations.len(),
            self.stations[i].client_id == caller,
        ensures
            self.has_station(caller),
            self.station_index(caller) == i,
    {
        assert(self.has_station(caller));
        let j = self.station_index(caller);
        if i < j {
            assert(self.stations[i].client_id != self.stations[j].client_id);
        } else if j < i {
            assert(self.stations[j].client_id != self.stations[i].client_id);
        }
    }

    /// In a well-formed state, two positions holding the same message
    /// identifier are the same position.
    pub proof fn lemma_message_index_unique(self, id: u64, i: int)
        requires
            self.messages_wf(),
            0 <= i < self.messages.len(),
            self.messages[i].id == id,
        ensures
            self.has_message(id),
            self.message_index(id) == i,
    {
        assert(self.has_message(id));
        let j = self.message_index(id);
        if i < j {
            assert(self.messages[i].id < self.messages[j].id);
        } else if j < i {
            assert(self.messages[j].id < self.messages[i].id);
        }
    }
}

impl RelayState {
    /// Decides the well-formedness invariant at run time, so that an
    /// unverified host that rebuilt a state from its own storage can check
    /// it before calling the operations.
    pub fn check_wf(&self) -> (b: bool)
        ensures
            b == self@.wf(),
    {
        let ghost sv = self@;
        let n = self.stations.len();
        let mut i: usize = 0;
        while i < n
            invariant
                sv == self@,
                n == sv.stations.len(),
                i <= n,
                forall|p: int, q: int|
                    0 <= p < q < i ==> #[trigger] sv.stations[p].client_id
                        != #[trigger] sv.stations[q].client_id,
                forall|p: int| 0 <= p < i ==> is_normalized(#[trigger] sv.stations[p].station_code),
                forall|p: int, q: int|
                    0 <= p < q < i && #[trigger] sv.stations[p].is_online
                        && #[trigger] sv.stations[q].is_online ==> sv.stations[p].station_code
                        != sv.stations[q].station_code,
            decreases n - i,
        {
            let st = &self.stations[i];
            if !(crate::codes::to_uppercase(st.station_code.as_str()) == st.station_code) {
                proof {
                    assert(!is_normalized(sv.stations[i as int].station_code));
                }
                return false;
            }
            let mut j: usize = 0;
            while j < i
                invariant
                    sv == self@,
                    n == sv.stations.len(),
                    j <= i < n,
                    forall|p: int|
                        0 <= p < j ==> #[trigger] sv.stations[p].client_id
                            != sv.stations[i as int].client_id,
                    forall|p: int|
                        0 <= p < j && #[trigger] sv.stations[p].is_online
                            && sv.stations[i as int].is_online
                            ==> sv.stations[p].station_code != sv.stations[i as int].station_code,
                decreases i - j,
            {
                let other = &self.stations[j];
                let cur = &self.stations[i];
                if other.client_id == cur.client_id {
                    proof {
                        assert(sv.stations[j as int].client_id == sv.stations[i as int].client_id);
                        assert(!sv.stations_wf());
                    }
                    return false;
                }
                if other.is_online && cur.is_online && other.station_code == cur.station_code {
                    proof {
                        assert(sv.stations[j as int].is_online && sv.stations[i as int].is_online);
                        assert(sv.stations[j as int].station_code == sv.stations[i as int].station_code);
                        assert(!sv.stations_wf());
                    }
                    return false;
                }
                j += 1;
            }
            i += 1;
        }
        proof {
            assert forall|p: int, q: int|
                0 <= p < sv.stations.len() && 0 <= q < sv.stations.len() && p != q
                    && #[trigger] sv.stations[p].is_online && #[trigger] sv.stations[q].is_online
                implies sv.stations[p].station_code != sv.stations[q].station_code by {
                if q < p {
                    assert(sv.stations[q].is_online && sv.stations[p].is_online);
                }
            }
        }

        let m = self.messages.len();
        let mut k: usize = 0;
        while k < m
            invariant
                sv == self@,
                m == sv.messages.len(),
                k <= m,
                forall|p: int, q: int|
                    0 <= p < q < k ==> #[trigger] sv.messages[p].id < #[trigger] sv.messages[q].id,
                forall|p: int| 0 <= p < k ==> #[trigger] sv.messages[p].id < sv.next_message_id,
            decreases m - k,
        {
            let msg = &self.messages[k];
            if !(msg.id < self.next_message_id) {
                proof {
                    assert(sv.messages[k as int].id >= sv.next_message_id);
                }
                return false;
            }
            if k > 0 && !(self.messages[k - 1].id < msg.id) {
                proof {
                    assert(!(sv.messages[k as int - 1].id < sv.messages[k as int].id));
                }
                return false;
            }
            proof {
                assert forall|p: int| 0 <= p < k implies #[trigger] sv.messages[p].id
                    < sv.messages[k as int].id by {
                    if p < k - 1 {
                        assert(sv.messages[p].id < sv.messages[k - 1].id);
                    }
                }
            }
            k += 1;
        }

        match self.stats {
            Some(t) => t.id == 0,
            None => true,
        }
    }

    /// An empty relay: nobody logged in, no messages, statistics not yet
    /// initialized, first message identifier one.
    pub fn new() -> (s: RelayState)
        ensures
            s@.wf(),
            s@.stations.len() == 0,
            s@.messages.len() == 0,
            s@.stats is None,
            s@.next_message_id == 1,
    {
        let s = RelayState {
            stations: Vec::new(),
            messages: Vec::new(),
            stats: None,
            next_message_id: 1,
        };
        proof {
            assert(s@.stations =~= Seq::<StationV>::empty());
            assert(s@.messages =~= Seq::<MessageV>::empty());
        }
        s
    }
}

} // verus!
