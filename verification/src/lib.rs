//! A per-participant check-in ledger: each participant owns exactly one
//! record, stored at an address derived deterministically from the
//! participant's identity, and the record's payload can change only when the
//! participant and the fixed event organizer both authorize the update.

pub mod addressing;
pub mod identity;
pub mod laws;
pub mod state;

pub use identity::Address;
pub use identity::Identity;
pub use state::CheckIn;
pub use state::HuntError;
pub use state::Initialize;
pub use state::Payload;
pub use state::PayloadKind;
pub use state::Registry;
pub use state::UserState;
