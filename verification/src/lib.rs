//! Coordination of the gossip rounds of a randomness beacon: one round per
//! block, in which nodes broadcast shares of randomness, collect those of
//! their peers, and combine a threshold of them into the block's random seed.
//!
//! [`RandomnessGossip`] is the coordinator of the rounds, [`Session`] one
//! round, [`GossipMessage`] the envelope in which a share travels, and
//! [`GossipValidator`] the filter that the transport applies to payloads.
//! The module `laws` states what holds of the coordinator on every run.
//! The module `remote_ext` is a tool of its own: it plans the copy of the
//! storage of a remote chain.

pub mod compact;
pub mod error;
pub mod gossip;
pub mod hex;
pub mod keybox;
pub mod laws;
pub mod message;
pub mod remote_ext;
pub mod session;
pub mod validator;

pub use crate::compact::DecodeError;
pub use crate::error::Error;
pub use crate::gossip::Action;
pub use crate::gossip::Event;
pub use crate::gossip::NonceSource;
pub use crate::gossip::RandomnessGossip;
pub use crate::hex::HexDisplayExt;
pub use crate::hex::HexSlice;
pub use crate::message::GossipMessage;
pub use crate::message::Message;
pub use crate::message::Nonce;
pub use crate::message::ShareBytes;
pub use crate::remote_ext::Builder;
pub use crate::session::OutgoingMessage;
pub use crate::session::Session;
pub use crate::session::SEND_INTERVAL;
pub use crate::validator::GossipValidator;
pub use crate::validator::ValidationResult;
