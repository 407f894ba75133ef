//! Opening a round: what the lookup of a block's key material leads to.
//!
//! Before a round can be opened, the node asks which place it has among the
//! participants of the block's round and under which storage key its secret
//! key lies. Only a participant has a secret key to fetch. The fetched key
//! is four 64-bit words, stored as 32 bytes.

use vstd::prelude::*;
use parity_scale_codec::Decode;

verus! {

/// The number of 64-bit words in a secret key.
pub const RAW_KEY_WORDS: usize = 4;

/// A secret key as it is handed to the round's cryptography.
pub type RawKey = [u64; 4];

/// The part of a block's public key material that decides how its round is
/// opened.
#[derive(Clone, Copy, Debug, PartialEq, Eq)]
pub struct KeyboxParts {
    /// The place of this node among the participants, if it is one.
    pub node_index: Option<u64>,
}

/// What to do next to obtain the cryptography of a round.
#[derive(Debug, PartialEq, Eq)]
pub enum BoxPlan {
    /// No round can be opened for the block.
    Unavailable,
    /// Fetch the secret key stored under this key, then build.
    Fetch { storage_key: Vec<u8> },
    /// Build without a secret key: this node only verifies and combines.
    Build,
}

/// A plan, with its storage key as a sequence of bytes.
pub enum BoxPlanView {
    Unavailable,
    Fetch { storage_key: Seq<u8> },
    Build,
}

impl View for BoxPlan {
    type V = BoxPlanView;

    open spec fn view(&self) -> BoxPlanView {
        match self {
            BoxPlan::Unavailable => BoxPlanView::Unavailable,
            BoxPlan::Fetch { storage_key } => BoxPlanView::Fetch { storage_key: storage_key@ },
            BoxPlan::Build => BoxPlanView::Build,
        }
    }
}

/// The bytes of the storage key in `key`, if there is one.
pub open spec fn key_of(key: Option<Vec<u8>>) -> Option<Seq<u8>> {
    match key {
        Some(k) => Some(k@),
        None => None,
    }
}

/// The plan that the two lookups lead to.
pub open spec fn plan_for(parts: Option<KeyboxParts>, storage_key: Option<Seq<u8>>) -> BoxPlanView {
    match (parts, storage_key) {
        (Some(p), Some(key)) => if p.node_index is Some {
            BoxPlanView::Fetch { storage_key: key }
        } else {
            BoxPlanView::Build
        },
        _ => BoxPlanView::Unavailable,
    }
}

/// Decides how the cryptography of a round is obtained, from the public key
/// material of its block and the storage key of this node's secret key.
/// Where either is missing no round can be opened. The secret key is
/// fetched only where this node is a participant.
pub fn get_rbbox(parts: Option<KeyboxParts>, storage_key: Option<Vec<u8>>) -> (plan: BoxPlan)
    ensures
        plan@ == plan_for(parts, key_of(storage_key)),
{
    let parts = match parts {
        Some(parts) => parts,
        None => {
            return BoxPlan::Unavailable;
        },
    };
    let storage_key = match storage_key {
        Some(key) => key,
        None => {
            return BoxPlan::Unavailable;
        },
    };
    if parts.node_index.is_some() {
        BoxPlan::Fetch { storage_key }
    } else {
        BoxPlan::Build
    }
}

/// The number whose eight bytes, least significant first, stand in `data`
/// from `at` on.
pub open spec fn le_word(data: Seq<u8>, at: int) -> nat {
    data[at] as nat + 0x100 * (data[at + 1] as nat) + 0x1_0000 * (data[at + 2] as nat)
        + 0x100_0000 * (data[at + 3] as nat) + 0x1_0000_0000 * (data[at + 4] as nat)
        + 0x100_0000_0000 * (data[at + 5] as nat) + 0x1_0000_0000_0000 * (data[at + 6] as nat)
        + 0x100_0000_0000_0000 * (data[at + 7] as nat)
}

/// The secret key that `data` holds: its first 32 bytes, read as four words.
/// Shorter data holds none.
pub open spec fn raw_key_in(data: Seq<u8>) -> Option<Seq<u64>> {
    if data.len() < 8 * RAW_KEY_WORDS {
        None
    } else {
        Some(Seq::new(RAW_KEY_WORDS as nat, |i: int| le_word(data, 8 * i) as u64))
    }
}

/// The secret key that a fetch brought, if it brought one.
pub open spec fn raw_key_of(fetched: Option<Seq<u8>>) -> Option<Seq<u64>> {
    match fetched {
        Some(data) => raw_key_in(data),
        None => None,
    }
}

/// The words of the key in `key`, if there is one.
pub open spec fn words_of(key: Option<RawKey>) -> Option<Seq<u64>> {
    match key {
        Some(k) => Some(k@),
        None => None,
    }
}

/// Calls `parity_scale_codec::Decode::decode` for `[u64; 4]` on `data`. The
/// codec reads 32 bytes from the start of the input and takes each group of
/// eight as one little-endian word; it fails only on a shorter input, and
/// ignores what follows the 32 bytes.
#[verifier::external_body]
fn scale_decode_words(data: &[u8]) -> (r: Option<RawKey>)
    ensures
        words_of(r) == raw_key_in(data@),
{
    let mut input: &[u8] = data;
    <[u64; 4]>::decode(&mut input).ok()
}

/// Reads the secret key out of what a fetch brought. A fetch that brought
/// nothing, or too few bytes, gives no key.
pub fn decode_raw_key(fetched: Option<Vec<u8>>) -> (key: Option<RawKey>)
    ensures
        words_of(key) == raw_key_of(key_of(fetched)),
{
    match fetched {
        Some(data) => scale_decode_words(data.as_slice()),
        None => None,
    }
}

} // verus!
