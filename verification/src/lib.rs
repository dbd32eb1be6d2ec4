//! The session lifecycle core of an end-to-end encrypted chat client.
//!
//! The crate keeps the pairwise sessions with other devices and the group
//! sessions of rooms, decides which session an operation uses and what is
//! written to the store, classifies what goes wrong, and authenticates
//! signed JSON objects. The ratchets and the Ed25519 check are cryptographic
//! primitives that the caller runs: an operation is a sequence of decisions
//! of a manager, between which the caller runs the primitive on a copy of a
//! session and reports what came of it.
//!
//! * [`error`]: the error families.
//! * [`json`] and [`signature`]: JSON values, their canonical text, and the
//!   verification of signatures.
//! * [`session`] and [`store`]: the records that are kept, the contract of a
//!   store, and a store in memory.
//! * [`olm`]: the manager of pairwise sessions.
//! * [`megolm`]: the manager of group sessions.

pub mod error;
pub mod json;
pub mod megolm;
pub mod olm;
pub mod session;
pub mod signature;
pub mod store;

pub use error::{
    CryptoStoreError, EventError, MegolmError, MegolmResult, OlmError, OlmGroupSessionError,
    OlmResult, OlmSessionError, SignatureError,
};
pub use json::{JsonModel, JsonValue};
pub use megolm::GroupSessionManager;
pub use olm::DeviceSessionManager;
pub use session::{DeviceIdentity, DeviceSession, InboundGroupSession, OutboundGroupSession};
pub use signature::{verify, SignatureCheck, SignedPayload, SigningKey};
pub use store::{CryptoStore, MemoryStore, StoreState};
