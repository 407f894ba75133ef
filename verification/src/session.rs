//! One round: the state that the coordinator keeps for one nonce.
//!
//! A round is opened when its nonce is first seen. It holds the shares that
//! were accepted so far, in the order of their arrival, and, where this node
//! takes part in the round, the message that it broadcasts again whenever
//! the send interval has elapsed. The round completes at the append that
//! makes the number of shares equal to the threshold; it stays complete.

use vstd::prelude::*;
use crate::message::Envelope;
use crate::message::GossipMessage;
use crate::message::Message;
use crate::message::Nonce;

verus! {

/// The time between two broadcasts of a node's own share, in seconds.
pub const SEND_INTERVAL: u64 = 1;

/// What is handed to the transport for one broadcast.
#[derive(Debug, PartialEq, Eq)]
pub struct Publication {
    /// The topic to publish on.
    pub topic: Nonce,
    /// The bytes of the envelope.
    pub data: Vec<u8>,
    /// Whether peers that were sent these bytes before get them again.
    pub force: bool,
}

/// This node's own share for a round, ready to be broadcast.
#[derive(Debug)]
pub struct OutgoingMessage {
    nonce: Nonce,
    msg: Message,
}

impl Clone for OutgoingMessage {
    fn clone(&self) -> (o: OutgoingMessage)
        ensures
            o.nonce()@ == self.nonce()@,
            o.share() == self.share(),
    {
        OutgoingMessage { nonce: self.nonce, msg: self.msg.clone() }
    }
}

impl OutgoingMessage {
    /// The round that the share belongs to.
    pub closed spec fn nonce(&self) -> Nonce {
        self.nonce
    }

    /// The serialized share.
    pub closed spec fn share(&self) -> Seq<u8> {
        self.msg@
    }

    /// The outgoing message that carries `msg` in the round of `nonce`.
    pub fn new(nonce: Nonce, msg: Message) -> (o: OutgoingMessage)
        ensures
            o.nonce()@ == nonce@,
            o.share() == msg@,
    {
        OutgoingMessage { nonce, msg }
    }

    /// Frames the share for one broadcast: the envelope of this round, for
    /// the topic of this round, to be sent also to peers that have seen it.
    pub fn send(&self) -> (p: Publication)
        ensures
            p.topic@ == self.nonce()@,
            p.data@ == (Envelope { nonce: self.nonce()@, share: self.share() }).encoding(),
            p.force,
    {
        let message = GossipMessage::new(self.nonce, self.msg.clone());
        Publication { topic: self.nonce, data: message.encode(), force: true }
    }
}

/// The deadline of a timer that is set at `now` to run for `interval`: the
/// clock does not go beyond `u64::MAX`, and neither does a deadline.
pub open spec fn rearmed(now: nat, interval: nat) -> nat {
    if now + interval > u64::MAX {
        u64::MAX as nat
    } else {
        now + interval
    }
}

/// What a round holds.
pub struct RoundState {
    /// The share that this node broadcasts, if it takes part.
    pub outgoing: Option<Seq<u8>>,
    /// The time from which on the next broadcast is due.
    pub next_send: nat,
    /// The accepted shares, oldest first.
    pub shares: Seq<Seq<u8>>,
    /// Whether the shares were handed out to be combined.
    pub completed: bool,
}

impl RoundState {
    /// A round is complete exactly when it holds a threshold of shares. With
    /// a threshold of zero no round completes.
    pub open spec fn consistent(self, threshold: nat) -> bool {
        self.completed <==> 1 <= threshold <= self.shares.len()
    }

    /// A round that was opened at `now` and holds nothing yet.
    pub open spec fn fresh(now: nat, interval: nat) -> RoundState {
        RoundState {
            outgoing: None,
            next_send: rearmed(now, interval),
            shares: Seq::empty(),
            completed: false,
        }
    }

    /// Whether the next share to be appended completes the round.
    pub open spec fn completes_with_next(self, threshold: nat) -> bool {
        !self.completed && self.shares.len() + 1 == threshold
    }

    /// The round after `share` was appended.
    pub open spec fn append(self, share: Seq<u8>, threshold: nat) -> RoundState {
        RoundState {
            shares: self.shares.push(share),
            completed: self.completed || self.shares.len() + 1 == threshold,
            ..self
        }
    }

    /// The round as it is opened at `now`: with this node's own share as its
    /// first share and as its outgoing message, where the node produced one.
    pub open spec fn opened(
        local: Option<Seq<u8>>,
        now: nat,
        interval: nat,
        threshold: nat,
    ) -> RoundState {
        match local {
            None => Self::fresh(now, interval),
            Some(share) => RoundState {
                outgoing: Some(share),
                ..Self::fresh(now, interval).append(share, threshold)
            },
        }
    }

    /// Whether a broadcast is due at `now`.
    pub open spec fn due(self, now: nat) -> bool {
        self.outgoing is Some && now >= self.next_send
    }

    /// The round after the clock was read at `now`: where a broadcast was
    /// due, the timer runs anew from `now`.
    pub open spec fn clocked(self, now: nat, interval: nat) -> RoundState {
        if self.due(now) {
            RoundState { next_send: rearmed(now, interval), ..self }
        } else {
            self
        }
    }
}

/// The bytes of the share in `local`, if there is one.
pub open spec fn share_of(local: Option<Message>) -> Option<Seq<u8>> {
    match local {
        Some(m) => Some(m@),
        None => None,
    }
}

/// The views of the shares in `shares`.
pub open spec fn share_views(shares: Seq<Message>) -> Seq<Seq<u8>> {
    shares.map_values(|m: Message| m@)
}

/// Prepares a round for `nonce`, given the share that this node produced
/// for it, if any: the outgoing message and the first accepted share are
/// that share; without one there is neither.
pub fn initialize_nonce(nonce: Nonce, maybe_share: Option<Message>) -> (r: (
    Option<OutgoingMessage>,
    Vec<Message>,
))
    ensures
        match maybe_share {
            Some(share) => {
                &&& r.0 is Some
                &&& r.0->0.nonce()@ == nonce@
                &&& r.0->0.share() == share@
                &&& share_views(r.1@) == seq![share@]
            },
            None => r.0 is None && r.1@.len() == 0,
        },
{
    let mut message: Option<OutgoingMessage> = None;
    let mut shares: Vec<Message> = Vec::new();
    if let Some(share) = maybe_share {
        shares.push(share.clone());
        message = Some(OutgoingMessage::new(nonce, share));
        assert(share_views(shares@) =~= seq![share@]);
    }
    (message, shares)
}

/// A copy of `shares`.
pub fn copy_shares(shares: &Vec<Message>) -> (out: Vec<Message>)
    ensures
        share_views(out@) == share_views(shares@),
        out@.len() == shares@.len(),
        forall|i: int| 0 <= i < out@.len() ==> (#[trigger] out@[i])@ == shares@[i]@,
{
    let mut out: Vec<Message> = Vec::new();
    let mut i: usize = 0;
    while i < shares.len()
        invariant
            i <= shares@.len(),
            out@.len() == i,
            forall|j: int| 0 <= j < i ==> out@[j]@ == shares@[j]@,
        decreases shares@.len() - i,
    {
        out.push(shares[i].clone());
        i += 1;
    }
    assert(share_views(out@) =~= share_views(shares@));
    out
}

/// The round of one nonce.
#[derive(Debug)]
pub struct Session {
    nonce: Nonce,
    outgoing: Option<OutgoingMessage>,
    next_send: u64,
    shares: Vec<Message>,
    completed: bool,
}

impl View for Session {
    type V = RoundState;

    closed spec fn view(&self) -> RoundState {
        RoundState {
            outgoing: match self.outgoing {
                Some(o) => Some(o.share()),
                None => None,
            },
            next_send: self.next_send as nat,
            shares: share_views(self.shares@),
            completed: self.completed,
        }
    }
}

impl Session {
    #[verifier::type_invariant]
    spec fn own_topic(self) -> bool {
        self.outgoing matches Some(o) ==> o.nonce()@ == self.nonce@
    }

    /// The nonce of the round.
    pub closed spec fn topic(&self) -> Seq<u8> {
        self.nonce@
    }

    /// Opens the round of `nonce` at `now`. The second result tells whether
    /// the round is complete from the start, which it is where this node's
    /// own share alone makes a threshold.
    pub fn open(
        nonce: Nonce,
        local: Option<Message>,
        now: u64,
        interval: u64,
        threshold: u64,
    ) -> (r: (Session, bool))
        ensures
            r.0.topic() == nonce@,
            r.0@ == RoundState::opened(
                share_of(local),
                now as nat,
                interval as nat,
                threshold as nat,
            ),
            r.1 == r.0@.completed,
            r.0@.consistent(threshold as nat),
    {
        let next_send: u64 = if now > u64::MAX - interval {
            u64::MAX
        } else {
            now + interval
        };
        let ghost own = share_of(local);
        let (outgoing, shares) = initialize_nonce(nonce, local);
        let completed = shares.len() > 0 && shares.len() as u64 == threshold;
        let session = Session { nonce, outgoing, next_send, shares, completed };
        proof {
            if own is Some {
                assert(session@.shares =~= Seq::<Seq<u8>>::empty().push(own->0));
            } else {
                assert(session@.shares =~= Seq::<Seq<u8>>::empty());
            }
        }
        (session, completed)
    }

    /// The nonce of the round.
    pub fn nonce(&self) -> (n: Nonce)
        ensures
            n@ == self.topic(),
    {
        self.nonce
    }

    /// The number of accepted shares.
    pub fn share_count(&self) -> (n: usize)
        ensures
            n == self@.shares.len(),
    {
        self.shares.len()
    }

    /// Whether the round is complete.
    pub fn is_completed(&self) -> (b: bool)
        ensures
            b == self@.completed,
    {
        self.completed
    }

    /// Whether this node broadcasts a share in the round.
    pub fn has_outgoing(&self) -> (b: bool)
        ensures
            b == self@.outgoing is Some,
    {
        self.outgoing.is_some()
    }

    /// The time from which on the next broadcast is due.
    pub fn next_send(&self) -> (t: u64)
        ensures
            t == self@.next_send,
    {
        self.next_send
    }

    /// A copy of the accepted shares, oldest first.
    pub fn collected(&self) -> (out: Vec<Message>)
        ensures
            share_views(out@) == self@.shares,
            out@.len() == self@.shares.len(),
            forall|i: int| 0 <= i < out@.len() ==> (#[trigger] out@[i])@ == self@.shares[i],
    {
        copy_shares(&self.shares)
    }

    /// Reads the clock: where a broadcast is due at `now`, hands out what is
    /// to be published and sets the timer anew.
    pub fn clock(&mut self, now: u64, interval: u64) -> (p: Option<Publication>)
        ensures
            final(self).topic() == old(self).topic(),
            final(self)@ == old(self)@.clocked(now as nat, interval as nat),
            p is Some <==> old(self)@.due(now as nat),
            p matches Some(publication) ==> {
                &&& publication.topic@ == old(self).topic()
                &&& publication.data@ == (Envelope {
                    nonce: old(self).topic(),
                    share: old(self)@.outgoing->0,
                }).encoding()
                &&& publication.force
            },
    {
        proof {
            use_type_invariant(&*self);
        }
        if now < self.next_send {
            return None;
        }
        match &self.outgoing {
            None => None,
            Some(message) => {
                let publication = message.send();
                self.next_send = if now > u64::MAX - interval {
                    u64::MAX
                } else {
                    now + interval
                };
                Some(publication)
            },
        }
    }

    /// Appends a share that was found valid. The result tells whether this
    /// share completes the round.
    pub fn accept(&mut self, share: Message, threshold: u64) -> (reached: bool)
        ensures
            final(self).topic() == old(self).topic(),
            final(self)@ == old(self)@.append(share@, threshold as nat),
            reached == old(self)@.completes_with_next(threshold as nat),
    {
        proof {
            use_type_invariant(&*self);
        }
        let mut shares: Vec<Message> = Vec::new();
        core::mem::swap(&mut self.shares, &mut shares);
        let ghost before = shares@;
        shares.push(share);
        assert(share_views(shares@) =~= share_views(before).push(share@));
        let reached = !self.completed && shares.len() as u64 == threshold;
        self.shares = shares;
        if reached {
            self.completed = true;
        }
        reached
    }
}

/// Appending a share keeps a round consistent with its threshold.
pub proof fn lemma_append_consistent(s: RoundState, share: Seq<u8>, threshold: nat)
    requires
        s.consistent(threshold),
    ensures
        s.append(share, threshold).consistent(threshold),
        s.append(share, threshold).shares.len() == s.shares.len() + 1,
        s.append(share, threshold).completed == (s.completed || s.completes_with_next(
            threshold,
        )),
{
}

/// After a broadcast at `fired`, the next one is due at `later` exactly when
/// the interval has elapsed since: not before, and at every reading of the
/// clock from then on.
pub proof fn lemma_rebroadcast_timing(s: RoundState, fired: nat, later: nat, interval: nat)
    requires
        s.due(fired),
        fired <= later <= u64::MAX,
    ensures
        s.clocked(fired, interval).due(later) <==> later >= rearmed(fired, interval),
        fired + interval <= u64::MAX ==> (s.clocked(fired, interval).due(later) <==> later
            >= fired + interval),
{
}

/// A round that this node takes part in broadcasts for the first time when
/// the interval has elapsed since it was opened, and not before.
pub proof fn lemma_first_broadcast_timing(
    share: Seq<u8>,
    opened_at: nat,
    later: nat,
    interval: nat,
    threshold: nat,
)
    requires
        opened_at <= later <= u64::MAX,
    ensures
        RoundState::opened(Some(share), opened_at, interval, threshold).due(later) <==> later
            >= rearmed(opened_at, interval),
        opened_at + interval <= u64::MAX ==> (RoundState::opened(
            Some(share),
            opened_at,
            interval,
            threshold,
        ).due(later) <==> later >= opened_at + interval),
        !RoundState::opened(None, opened_at, interval, threshold).due(later),
{
}

/// Reading the clock when no broadcast is due changes nothing.
pub proof fn lemma_clock_idle(s: RoundState, now: nat, interval: nat)
    requires
        !s.due(now),
    ensures
        s.clocked(now, interval) == s,
{
}

} // verus!
