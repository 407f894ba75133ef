//! The values that travel between nodes and their form on the wire.
//!
//! An envelope is the 32 bytes of the nonce, then the length of the share as
//! a variable-width prefix, then the share itself. A reader takes an
//! envelope from the start of its input and ignores what follows it.

use vstd::prelude::*;
use vstd::slice::slice_subrange;
use vstd::slice::slice_to_vec;
use crate::compact::lemma_parse_prefix_canonical;
use crate::compact::lemma_parse_prefix_of;
use crate::compact::lemma_prefix_len;
use crate::compact::parse_prefix;
use crate::compact::prefix_of;
use crate::compact::read_prefix;
use crate::compact::write_prefix;
use crate::compact::DecodeError;
use crate::compact::MAX_LEN;

verus! {

/// The number of bytes in a nonce.
pub const NONCE_LEN: usize = 32;

/// A share of randomness in its serialized form.
pub type ShareBytes = Vec<u8>;

/// Identifier of a block: its hash. It names the round that produces the
/// block's randomness and the gossip topic on which that round runs.
#[derive(Clone, Copy, Debug, PartialEq, Eq, Hash)]
pub struct Nonce(pub [u8; 32]);

impl View for Nonce {
    type V = Seq<u8>;

    open spec fn view(&self) -> Seq<u8> {
        self.0@
    }
}

impl Nonce {
    /// Whether the two nonces name the same block.
    pub fn same(&self, other: &Nonce) -> (r: bool)
        ensures
            r == (self@ == other@),
    {
        let mut i: usize = 0;
        while i < 32
            invariant
                i <= 32,
                forall|j: int| 0 <= j < i ==> self.0@[j] == other.0@[j],
            decreases 32 - i,
        {
            if self.0[i] != other.0[i] {
                return false;
            }
            i += 1;
        }
        assert(self.0@ =~= other.0@);
        true
    }

    /// The nonce that the first 32 bytes of `data` spell, if there are as
    /// many.
    pub fn read(data: &[u8]) -> (r: Option<Nonce>)
        ensures
            r is Some <==> data@.len() >= NONCE_LEN,
            r matches Some(n) ==> n@ == data@.subrange(0, NONCE_LEN as int),
    {
        if data.len() < NONCE_LEN {
            return None;
        }
        let mut bytes = [0u8; 32];
        let mut i: usize = 0;
        while i < 32
            invariant
                i <= 32,
                data@.len() >= 32,
                forall|j: int| 0 <= j < i ==> bytes@[j] == data@[j],
            decreases 32 - i,
        {
            bytes[i] = data[i];
            i += 1;
        }
        assert(bytes@ =~= data@.subrange(0, 32));
        Some(Nonce(bytes))
    }
}

/// The payload of an envelope: one serialized share, of at most `MAX_LEN`
/// bytes, which is the longest payload that the wire format can frame.
#[derive(Debug, PartialEq, Eq)]
pub struct Message {
    share: ShareBytes,
}

impl View for Message {
    type V = Seq<u8>;

    closed spec fn view(&self) -> Seq<u8> {
        self.share@
    }
}

impl Clone for Message {
    fn clone(&self) -> (m: Message)
        ensures
            m@ == self@,
    {
        proof {
            use_type_invariant(self);
        }
        Message { share: self.share.clone() }
    }
}

impl Message {
    #[verifier::type_invariant]
    spec fn framed(self) -> bool {
        self.share@.len() <= MAX_LEN
    }

    /// Wraps a serialized share. A share of more than `MAX_LEN` bytes cannot
    /// be framed and is handed back.
    pub fn new(share: ShareBytes) -> (r: Result<Message, ShareBytes>)
        ensures
            r is Ok <==> share@.len() <= MAX_LEN,
            match r {
                Ok(m) => m@ == share@,
                Err(rejected) => rejected@ == share@,
            },
    {
        if share.len() <= MAX_LEN {
            Ok(Message { share })
        } else {
            Err(share)
        }
    }

    /// The serialized share.
    pub fn share(&self) -> (s: &ShareBytes)
        ensures
            s@ == self@,
            s@.len() <= MAX_LEN,
    {
        proof {
            use_type_invariant(self);
        }
        &self.share
    }
}

/// What an envelope says: for which round, and which share.
pub struct Envelope {
    pub nonce: Seq<u8>,
    pub share: Seq<u8>,
}

impl Envelope {
    /// Whether an envelope of this content can exist.
    pub open spec fn constructible(self) -> bool {
        self.nonce.len() == NONCE_LEN && self.share.len() <= MAX_LEN
    }

    /// The bytes that carry this content.
    pub open spec fn encoding(self) -> Seq<u8> {
        self.nonce + prefix_of(self.share.len()) + self.share
    }
}

/// What a reader finds at the start of `data`.
pub open spec fn decoding(data: Seq<u8>) -> Result<Envelope, DecodeError> {
    if data.len() < NONCE_LEN {
        Err(DecodeError::Truncated)
    } else {
        match parse_prefix(data.skip(NONCE_LEN as int)) {
            Err(e) => Err(e),
            Ok((n, k)) => if data.len() - NONCE_LEN - k < n {
                Err(DecodeError::Truncated)
            } else {
                Ok(
                    Envelope {
                        nonce: data.subrange(0, NONCE_LEN as int),
                        share: data.subrange(NONCE_LEN + k, NONCE_LEN + k + n),
                    },
                )
            },
        }
    }
}

/// Decoding inverts encoding: a reader given the bytes of an envelope,
/// followed by anything, finds that envelope.
pub proof fn lemma_decode_encode(m: Envelope, rest: Seq<u8>)
    requires
        m.constructible(),
    ensures
        decoding(m.encoding() + rest) == Ok::<Envelope, DecodeError>(m),
        decoding(m.encoding()) == Ok::<Envelope, DecodeError>(m),
{
    let p = prefix_of(m.share.len());
    lemma_prefix_len(m.share.len());
    assert forall|tail: Seq<u8>| decoding(m.encoding() + tail) == Ok::<Envelope, DecodeError>(
        m,
    ) by {
        let data = m.encoding() + tail;
        assert(data.skip(32) =~= p + (m.share + tail));
        lemma_parse_prefix_of(m.share.len(), m.share + tail);
        assert(data.subrange(0, 32) =~= m.nonce);
        assert(data.subrange(32 + p.len() as int, 32 + p.len() + m.share.len() as int) =~= m.share);
    }
    assert(m.encoding() + Seq::<u8>::empty() =~= m.encoding());
}

/// A reader accepts nothing but the encoding of what it reports: where it
/// finds an envelope, the input starts with the bytes of that envelope.
pub proof fn lemma_decoded_is_encoded(data: Seq<u8>)
    requires
        decoding(data) is Ok,
    ensures
        decoding(data)->Ok_0.constructible(),
        decoding(data)->Ok_0.encoding().len() <= data.len(),
        data.subrange(0, decoding(data)->Ok_0.encoding().len() as int) == decoding(
            data,
        )->Ok_0.encoding(),
{
    let m = decoding(data)->Ok_0;
    let tail = data.skip(32);
    lemma_parse_prefix_canonical(tail);
    let k = parse_prefix(tail)->Ok_0.1;
    assert(tail.subrange(0, k as int) =~= data.subrange(32, 32 + k as int));
    assert(data.subrange(0, m.encoding().len() as int) =~= m.encoding());
}

/// The envelope in which a share travels.
#[derive(Debug, PartialEq, Eq)]
pub struct GossipMessage {
    nonce: Nonce,
    message: Message,
}

impl View for GossipMessage {
    type V = Envelope;

    closed spec fn view(&self) -> Envelope {
        Envelope { nonce: self.nonce@, share: self.message@ }
    }
}

impl GossipMessage {
    /// The envelope that carries `message` for the round of `nonce`.
    pub fn new(nonce: Nonce, message: Message) -> (gm: GossipMessage)
        ensures
            gm@ == (Envelope { nonce: nonce@, share: message@ }),
            gm@.constructible(),
    {
        proof {
            use_type_invariant(&message);
        }
        GossipMessage { nonce, message }
    }

    /// The round that the envelope belongs to.
    pub fn nonce(&self) -> (n: Nonce)
        ensures
            n@ == self@.nonce,
    {
        self.nonce
    }

    /// The payload of the envelope.
    pub fn message(&self) -> (m: &Message)
        ensures
            m@ == self@.share,
    {
        &self.message
    }

    /// Opens the envelope.
    pub fn into_message(self) -> (m: Message)
        ensures
            m@ == self@.share,
    {
        self.message
    }

    /// The bytes that carry the envelope.
    pub fn encode(&self) -> (out: Vec<u8>)
        ensures
            out@ == self@.encoding(),
            self@.constructible(),
    {
        let share = self.message.share();
        let mut out: Vec<u8> = Vec::new();
        let mut i: usize = 0;
        while i < 32
            invariant
                i <= 32,
                out@ == self.nonce@.subrange(0, i as int),
            decreases 32 - i,
        {
            out.push(self.nonce.0[i]);
            assert(out@ =~= self.nonce@.subrange(0, i + 1));
            i += 1;
        }
        assert(out@ =~= self.nonce@);
        write_prefix(&mut out, share.len());
        let ghost head = out@;
        let mut j: usize = 0;
        while j < share.len()
            invariant
                j <= share@.len(),
                out@ == head + share@.subrange(0, j as int),
            decreases share@.len() - j,
        {
            out.push(share[j]);
            assert(out@ =~= head + share@.subrange(0, j + 1));
            j += 1;
        }
        assert(out@ =~= head + share@);
        out
    }

    /// Reads the envelope at the start of `data`.
    pub fn decode(data: &[u8]) -> (r: Result<GossipMessage, DecodeError>)
        ensures
            match r {
                Ok(gm) => decoding(data@) == Ok::<Envelope, DecodeError>(gm@),
                Err(e) => decoding(data@) == Err::<Envelope, DecodeError>(e),
            },
    {
        let nonce = match Nonce::read(data) {
            Some(nonce) => nonce,
            None => {
                return Err(DecodeError::Truncated);
            },
        };
        let tail = slice_subrange(data, NONCE_LEN, data.len());
        assert(tail@ =~= data@.skip(32));
        match read_prefix(tail) {
            Err(e) => Err(e),
            Ok((n, k)) => {
                proof {
                    lemma_parse_prefix_canonical(data@.skip(32));
                }
                if data.len() - NONCE_LEN - k < n {
                    return Err(DecodeError::Truncated);
                }
                let share = slice_to_vec(slice_subrange(data, NONCE_LEN + k, NONCE_LEN + k + n));
                Ok(GossipMessage { nonce, message: Message { share } })
            },
        }
    }
}

} // verus!
