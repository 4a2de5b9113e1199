//! A signing bunker for Nostr events on behalf of NEAR accounts.
//!
//! The crate holds the logic of three request handlers that share one data
//! model: the MPC-backed OutLayer worker (`worker`), its session-enabled
//! variant (`sessions`) and the standalone bunker (`bunker`). The building
//! blocks they share are the Base64 encoder, the NIP-01 event serialisation,
//! SHA-256 digests in lowercase hex, and a small keyed store.
pub mod text;
pub mod digest;
pub mod base64;
pub mod json;
pub mod event;
pub mod store;
pub mod clock;
pub mod worker;
pub mod session;
pub mod sessions;
pub mod bunker;
pub mod json_read;
