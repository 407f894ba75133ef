//! The filter that the transport applies to every payload before it hands
//! it to a subscriber, and the names under which the protocol registers.

use vstd::prelude::*;
use crate::message::decoding;
use crate::message::GossipMessage;
use crate::message::Nonce;

verus! {

/// The tag of the gossip engine of the randomness beacon: the bytes `rndb`.
pub const RANDOMNESS_BEACON_ID: [u8; 4] = [0x72, 0x6e, 0x64, 0x62];

/// The name of the protocol of the randomness beacon.
pub const RB_PROTOCOL_NAME: &'static str = "/randomness_beacon";

/// What the transport does with a payload.
#[derive(Debug, PartialEq, Eq)]
pub enum ValidationResult {
    /// Hand the payload to the subscribers of this topic and keep it for
    /// peers that join later.
    ProcessAndKeep(Nonce),
    /// Drop the payload.
    Discard,
}

/// A verdict of the filter, with its topic as a sequence of bytes.
pub enum ValidationView {
    ProcessAndKeep(Seq<u8>),
    Discard,
}

impl View for ValidationResult {
    type V = ValidationView;

    open spec fn view(&self) -> ValidationView {
        match self {
            ValidationResult::ProcessAndKeep(topic) => ValidationView::ProcessAndKeep(topic@),
            ValidationResult::Discard => ValidationView::Discard,
        }
    }
}

/// The verdict on `data`: a payload that holds an envelope goes to the topic
/// of the nonce in that envelope; any other payload is dropped.
pub open spec fn validation_of(data: Seq<u8>) -> ValidationView {
    match decoding(data) {
        Ok(envelope) => ValidationView::ProcessAndKeep(envelope.nonce),
        Err(_) => ValidationView::Discard,
    }
}

/// The filter for payloads of the randomness beacon. It holds nothing, and
/// looks at the form of a payload only: whether a share is valid is decided
/// later, in the round that the share belongs to.
#[derive(Debug, Clone, Copy)]
pub struct GossipValidator {}

impl GossipValidator {
    /// A filter.
    pub fn new() -> (v: GossipValidator) {
        GossipValidator {  }
    }

    /// Judges the payload `data` that a peer sent. Who sent it plays no
    /// part in the verdict.
    pub fn validate(&self, _sender: &[u8], data: &[u8]) -> (r: ValidationResult)
        ensures
            r@ == validation_of(data@),
    {
        match GossipMessage::decode(data) {
            Ok(gm) => {
                let topic = gm.nonce();
                ValidationResult::ProcessAndKeep(topic)
            },
            Err(_) => ValidationResult::Discard,
        }
    }
}

} // verus!
