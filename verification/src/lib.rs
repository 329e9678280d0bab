//! A decentralized identity and credential trust layer with session-scoped
//! message-access control: identities with verifiable key-rotation chains,
//! purpose-key attestations, signed expiring attribute credentials, and a
//! session trust registry that gates delivery through relay addresses.

pub mod bytes;
pub mod crypto;
pub mod errors;
pub mod credential;
pub mod host;
pub mod identifier;
pub mod identity;
pub mod purpose_key;
pub mod relay;
pub mod retriever;
pub mod session;
pub mod vault;
