//! A shared-state message relay for air-traffic-control stations exchanging
//! ACARS-style text messages, with an optional hand-off to an external relay
//! network.
//!
//! The core is a transactional state machine: station presence, the message
//! log and the aggregate statistics live in one state value, and every
//! operation either applies completely or reports an error and leaves the
//! state untouched. Station codes are uppercase-normalized throughout; the
//! hosting platform supplies caller identities and timestamps and runs each
//! operation as one atomic, serialized unit.

pub mod codes;
pub mod laws;
pub mod reducers;
pub mod state;
pub mod types;

pub use codes::to_uppercase;
pub use reducers::cleanup_old_messages;
pub use reducers::client_disconnected;
pub use reducers::init;
pub use reducers::login;
pub use reducers::logout;
pub use reducers::receive_hoppie_message;
pub use reducers::send_message;
pub use reducers::update_message_status;
pub use reducers::update_stats;
pub use state::RelayState;
pub use types::Message;
pub use types::MessageDirection;
pub use types::MessageStatus;
pub use types::RelayError;
pub use types::Station;
pub use types::Statistics;
pub use types::StatsDelta;
