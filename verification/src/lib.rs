//! A registry of claims on fingerprints.
//!
//! A fingerprint is a short byte string. The registry records, for each
//! claimed fingerprint, the account that owns it and the block at which the
//! ownership was established. Claims are created, revoked and transferred;
//! only the current owner may revoke or transfer.
//!
//! Every operation is a total function of the registry, the caller and the
//! arguments. The caller of the registry authenticates accounts, reads the
//! clock and publishes the events that successful operations hand back.

pub mod bytes;
pub mod claim;
pub mod laws;
pub mod registry;
pub mod rules;

pub use claim::{outcome_of, AccountId, BlockNumber, Claim, Config, Error, Event, EventView};
pub use registry::Pallet;
