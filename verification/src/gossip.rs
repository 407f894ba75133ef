//! The coordinator: every round in flight, driven by one loop.
//!
//! The coordinator decides; its driver acts. The driver polls the
//! transport, the source of new nonces, the clock and the subscriptions,
//! asks the cryptography of a round for its verdicts, and reports each
//! outcome as an [`Event`]. The coordinator answers each event with the
//! [`Action`] that the driver performs next. One pass of the driver is:
//!
//! 1. `Transport`; on `Terminate` the coordinator is done.
//! 2. `Notification`, with at most one new nonce; on `Terminate` the
//!    coordinator is done, on `Yield` the pass ends.
//! 3. On `LookUp`: `Lookup`, then `Secret` where a fetch was asked for, then
//!    `Opened` where a round was to be opened.
//! 4. For every round, in any order: `Clock`, and `Delivery` for a payload
//!    that is ready, followed by `Verdict` where a share was to be verified.
//! 5. `Emission` after each `Combine`.

use vstd::prelude::*;
use crate::error::Error;
use crate::error::ErrorView;
use crate::error::consumer_gone;
use crate::keybox::decode_raw_key;
use crate::keybox::get_rbbox;
use crate::keybox::key_of;
use crate::keybox::plan_for;
use crate::keybox::raw_key_of;
use crate::keybox::words_of;
use crate::keybox::BoxPlan;
use crate::keybox::BoxPlanView;
use crate::keybox::KeyboxParts;
use crate::keybox::RawKey;
use crate::message::decoding;
use crate::message::Envelope;
use crate::message::GossipMessage;
use crate::message::Message;
use crate::message::Nonce;
use crate::session::share_of;
use crate::session::share_views;
use crate::session::lemma_append_consistent;
use crate::session::RoundState;
use crate::session::Session;
use crate::session::SEND_INTERVAL;

verus! {

/// What polling the source of new nonces gave.
#[derive(Debug, PartialEq, Eq)]
pub enum NonceSource {
    /// Nothing is ready.
    Pending,
    /// The source is closed: no nonce will come any more.
    Closed,
    /// A block needs randomness.
    Ready(Nonce),
}

/// What the driver reports to the coordinator.
#[derive(Debug, PartialEq, Eq)]
pub enum Event {
    /// The transport was polled.
    Transport { finished: bool },
    /// The source of new nonces was polled.
    Notification(NonceSource),
    /// The key material of a block was looked up.
    Lookup { nonce: Nonce, parts: Option<KeyboxParts>, storage_key: Option<Vec<u8>> },
    /// The fetch of this node's secret key ended.
    Secret { nonce: Nonce, fetched: Option<Vec<u8>> },
    /// The cryptography of a round is there, the topic is subscribed to, and
    /// this node's own share was asked for.
    Opened { nonce: Nonce, local_share: Option<Message>, now: u64 },
    /// The clock was read for a round.
    Clock { nonce: Nonce, now: u64 },
    /// A payload arrived on the subscription of a round.
    Delivery { nonce: Nonce, data: Vec<u8> },
    /// The cryptography of a round has judged a share.
    Verdict { nonce: Nonce, share: Message, valid: bool },
    /// The randomness of a round was offered to its consumer.
    Emission { nonce: Nonce, delivered: bool },
}

/// What the coordinator asks of its driver.
#[derive(Debug, PartialEq, Eq)]
pub enum Action {
    /// The coordinator is done.
    Terminate,
    /// Nothing can be done before something new is ready.
    Yield,
    /// Poll the source of new nonces.
    PollNotifications,
    /// Look up the key material of this block.
    LookUp(Nonce),
    /// Fetch this node's secret key from under `storage_key`.
    FetchSecret { nonce: Nonce, storage_key: Vec<u8> },
    /// Build the cryptography of the round with this secret key, subscribe
    /// to its topic and ask for this node's own share.
    Open { nonce: Nonce, raw_key: Option<RawKey> },
    /// Go through the rounds.
    Drive,
    /// Publish `data` on `topic`.
    Broadcast { topic: Nonce, data: Vec<u8>, force: bool },
    /// Have the cryptography of the round judge this share.
    Verify { nonce: Nonce, share: Message },
    /// Combine these shares and offer the result to the consumer.
    Combine { nonce: Nonce, shares: Vec<Message> },
    /// The event asks for nothing.
    Nothing,
    /// Report this failure; the coordinator goes on.
    Fail(Error),
}

/// An action, with its payloads as sequences.
pub enum ActionView {
    Terminate,
    Yield,
    PollNotifications,
    LookUp(Seq<u8>),
    FetchSecret { nonce: Seq<u8>, storage_key: Seq<u8> },
    Open { nonce: Seq<u8>, raw_key: Option<Seq<u64>> },
    Drive,
    Broadcast { topic: Seq<u8>, data: Seq<u8>, force: bool },
    Verify { nonce: Seq<u8>, share: Seq<u8> },
    Combine { nonce: Seq<u8>, shares: Seq<Seq<u8>> },
    Nothing,
    Fail(ErrorView),
}

impl View for Action {
    type V = ActionView;

    open spec fn view(&self) -> ActionView {
        match self {
            Action::Terminate => ActionView::Terminate,
            Action::Yield => ActionView::Yield,
            Action::PollNotifications => ActionView::PollNotifications,
            Action::LookUp(nonce) => ActionView::LookUp(nonce@),
            Action::FetchSecret { nonce, storage_key } => ActionView::FetchSecret {
                nonce: nonce@,
                storage_key: storage_key@,
            },
            Action::Open { nonce, raw_key } => ActionView::Open {
                nonce: nonce@,
                raw_key: words_of(*raw_key),
            },
            Action::Drive => ActionView::Drive,
            Action::Broadcast { topic, data, force } => ActionView::Broadcast {
                topic: topic@,
                data: data@,
                force: *force,
            },
            Action::Verify { nonce, share } => ActionView::Verify { nonce: nonce@, share: share@ },
            Action::Combine { nonce, shares } => ActionView::Combine {
                nonce: nonce@,
                shares: share_views(shares@),
            },
            Action::Nothing => ActionView::Nothing,
            Action::Fail(error) => ActionView::Fail(error@),
        }
    }
}

/// What the coordinator holds: its two settings and the rounds in flight,
/// each under its nonce.
pub struct GossipState {
    /// The number of shares that completes a round.
    pub threshold: nat,
    /// The time between two broadcasts of a share.
    pub interval: nat,
    /// The rounds.
    pub topics: Map<Seq<u8>, RoundState>,
}

impl GossipState {
    /// Whether a round is open for `nonce`.
    pub open spec fn has(self, nonce: Seq<u8>) -> bool {
        self.topics.dom().contains(nonce)
    }

    /// The same coordinator with `round` under `nonce`.
    pub open spec fn with_round(self, nonce: Seq<u8>, round: RoundState) -> GossipState {
        GossipState { topics: self.topics.insert(nonce, round), ..self }
    }

    /// Every round is complete exactly when it holds a threshold of shares.
    pub open spec fn consistent(self) -> bool {
        forall|nonce: Seq<u8>| #[trigger]
            self.has(nonce) ==> self.topics[nonce].consistent(self.threshold)
    }

    /// The answer to a poll of the transport: once the transport is done,
    /// so is the coordinator, whatever rounds are open.
    pub open spec fn transport_action(self, finished: bool) -> ActionView {
        if finished {
            ActionView::Terminate
        } else {
            ActionView::PollNotifications
        }
    }

    /// The answer to a poll of the source of nonces. A nonce without a
    /// round is looked up. Otherwise the rounds are gone through, if there
    /// are any; without rounds the coordinator is done once the source is
    /// closed, and waits as long as it is not.
    pub open spec fn notification_action(self, source: NonceSource) -> ActionView {
        match source {
            NonceSource::Ready(nonce) => if self.has(nonce@) {
                ActionView::Drive
            } else {
                ActionView::LookUp(nonce@)
            },
            NonceSource::Closed => if self.topics.dom() =~= Set::empty() {
                ActionView::Terminate
            } else {
                ActionView::Drive
            },
            NonceSource::Pending => if self.topics.dom() =~= Set::empty() {
                ActionView::Yield
            } else {
                ActionView::Drive
            },
        }
    }

    /// The answer to the lookup of a block's key material: without it the
    /// notification is dropped.
    pub open spec fn lookup_action(
        self,
        nonce: Seq<u8>,
        parts: Option<KeyboxParts>,
        storage_key: Option<Seq<u8>>,
    ) -> ActionView {
        match plan_for(parts, storage_key) {
            BoxPlanView::Unavailable => ActionView::Nothing,
            BoxPlanView::Fetch { storage_key } => ActionView::FetchSecret { nonce, storage_key },
            BoxPlanView::Build => ActionView::Open { nonce, raw_key: None },
        }
    }

    /// The answer to the end of a fetch: the round is opened with the key
    /// that the fetch brought, or without one.
    pub open spec fn secret_action(self, nonce: Seq<u8>, fetched: Option<Seq<u8>>) -> ActionView {
        ActionView::Open { nonce, raw_key: raw_key_of(fetched) }
    }

    /// The coordinator after a round was to be opened for `nonce`: it has
    /// a new round unless it had one for that nonce.
    pub open spec fn opened(self, nonce: Seq<u8>, local: Option<Seq<u8>>, now: nat) -> GossipState {
        if self.has(nonce) {
            self
        } else {
            self.with_round(nonce, RoundState::opened(local, now, self.interval, self.threshold))
        }
    }

    /// The answer to the opening of a round: its shares are combined if
    /// this node's own share is all that the threshold asks for.
    pub open spec fn opened_action(
        self,
        nonce: Seq<u8>,
        local: Option<Seq<u8>>,
        now: nat,
    ) -> ActionView {
        let round = RoundState::opened(local, now, self.interval, self.threshold);
        if !self.has(nonce) && round.completed {
            ActionView::Combine { nonce, shares: round.shares }
        } else {
            ActionView::Nothing
        }
    }

    /// The coordinator after the clock was read for the round of `nonce`.
    pub open spec fn clocked(self, nonce: Seq<u8>, now: nat) -> GossipState {
        if self.has(nonce) {
            self.with_round(nonce, self.topics[nonce].clocked(now, self.interval))
        } else {
            self
        }
    }

    /// The answer to a reading of the clock: a broadcast of this node's own
    /// share where one is due.
    pub open spec fn clock_action(self, nonce: Seq<u8>, now: nat) -> ActionView {
        if self.has(nonce) && self.topics[nonce].due(now) {
            ActionView::Broadcast {
                topic: nonce,
                data: (Envelope { nonce, share: self.topics[nonce].outgoing->0 }).encoding(),
                force: true,
            }
        } else {
            ActionView::Nothing
        }
    }

    /// The answer to a payload: the share that it carries is to be
    /// verified. A payload that cannot be read, or that comes for a nonce
    /// without a round, is dropped. The nonce inside the envelope is not
    /// looked at: the transport delivers on a topic only what its filter
    /// has filed under that topic.
    pub open spec fn delivery_action(self, nonce: Seq<u8>, data: Seq<u8>) -> ActionView {
        if !self.has(nonce) {
            ActionView::Nothing
        } else {
            match decoding(data) {
                Ok(envelope) => ActionView::Verify { nonce, share: envelope.share },
                Err(_) => ActionView::Nothing,
            }
        }
    }

    /// The coordinator once a share was judged. A valid share is appended to its
    /// round, an invalid one changes nothing.
    pub open spec fn judged(self, nonce: Seq<u8>, share: Seq<u8>, valid: bool) -> GossipState {
        if valid && self.has(nonce) {
            self.with_round(nonce, self.topics[nonce].append(share, self.threshold))
        } else {
            self
        }
    }

    /// The answer to a judged share. The shares of the round are combined if
    /// this share completes it.
    pub open spec fn verdict_action(self, nonce: Seq<u8>, share: Seq<u8>, valid: bool) -> ActionView {
        if valid && self.has(nonce) && self.topics[nonce].completes_with_next(self.threshold) {
            ActionView::Combine { nonce, shares: self.topics[nonce].shares.push(share) }
        } else {
            ActionView::Nothing
        }
    }

    /// The answer to an emission: a failure is reported where the consumer
    /// did not take the randomness.
    pub open spec fn emission_action(self, delivered: bool) -> ActionView {
        if delivered {
            ActionView::Nothing
        } else {
            ActionView::Fail(ErrorView::Consumer(consumer_gone()))
        }
    }

    /// The coordinator after `event`.
    pub open spec fn next(self, event: Event) -> GossipState {
        match event {
            Event::Opened { nonce, local_share, now } => self.opened(
                nonce@,
                share_of(local_share),
                now as nat,
            ),
            Event::Clock { nonce, now } => self.clocked(nonce@, now as nat),
            Event::Verdict { nonce, share, valid } => self.judged(nonce@, share@, valid),
            _ => self,
        }
    }

    /// The answer to `event`.
    pub open spec fn action(self, event: Event) -> ActionView {
        match event {
            Event::Transport { finished } => self.transport_action(finished),
            Event::Notification(source) => self.notification_action(source),
            Event::Lookup { nonce, parts, storage_key } => self.lookup_action(
                nonce@,
                parts,
                key_of(storage_key),
            ),
            Event::Secret { nonce, fetched } => self.secret_action(nonce@, key_of(fetched)),
            Event::Opened { nonce, local_share, now } => self.opened_action(
                nonce@,
                share_of(local_share),
                now as nat,
            ),
            Event::Clock { nonce, now } => self.clock_action(nonce@, now as nat),
            Event::Delivery { nonce, data } => self.delivery_action(nonce@, data@),
            Event::Verdict { nonce, share, valid } => self.verdict_action(nonce@, share@, valid),
            Event::Emission { nonce, delivered } => self.emission_action(delivered),
        }
    }
}

spec fn holds(sessions: Seq<Session>, nonce: Seq<u8>) -> bool {
    exists|i: int| 0 <= i < sessions.len() && #[trigger] sessions[i].topic() == nonce
}

spec fn slot_of(sessions: Seq<Session>, nonce: Seq<u8>) -> int {
    choose|i: int| 0 <= i < sessions.len() && #[trigger] sessions[i].topic() == nonce
}

spec fn distinct(sessions: Seq<Session>) -> bool {
    forall|i: int, j: int|
        #![trigger sessions[i].topic(), sessions[j].topic()]
        0 <= i < sessions.len() && 0 <= j < sessions.len() && sessions[i].topic()
            == sessions[j].topic() ==> i == j
}

spec fn rounds_of(sessions: Seq<Session>) -> Map<Seq<u8>, RoundState> {
    Map::new(|nonce: Seq<u8>| holds(sessions, nonce), |nonce: Seq<u8>| sessions[slot_of(sessions, nonce)]@)
}

proof fn lemma_slot(sessions: Seq<Session>, i: int)
    requires
        distinct(sessions),
        0 <= i < sessions.len(),
    ensures
        holds(sessions, sessions[i].topic()),
        slot_of(sessions, sessions[i].topic()) == i,
        rounds_of(sessions).dom().contains(sessions[i].topic()),
        rounds_of(sessions)[sessions[i].topic()] == sessions[i]@,
{
    let nonce = sessions[i].topic();
    assert(holds(sessions, nonce));
    let j = slot_of(sessions, nonce);
    assert(0 <= j < sessions.len() && sessions[j].topic() == nonce);
}

proof fn lemma_push(sessions: Seq<Session>, session: Session)
    requires
        distinct(sessions),
        !holds(sessions, session.topic()),
    ensures
        distinct(sessions.push(session)),
        rounds_of(sessions.push(session)) == rounds_of(sessions).insert(
            session.topic(),
            session@,
        ),
{
    let after = sessions.push(session);
    let last = sessions.len() as int;
    assert forall|i: int, j: int|
        #![trigger after[i].topic(), after[j].topic()]
        0 <= i < after.len() && 0 <= j < after.len() && after[i].topic()
            == after[j].topic() implies i == j by {
        if i < last && j < last {
            assert(sessions[i].topic() == sessions[j].topic());
        } else if i < last {
            assert(sessions[i].topic() == session.topic());
        } else if j < last {
            assert(sessions[j].topic() == session.topic());
        }
    }
    let expected = rounds_of(sessions).insert(session.topic(), session@);
    assert forall|nonce: Seq<u8>| rounds_of(after).dom().contains(nonce)
        <==> expected.dom().contains(nonce) by {
        if holds(after, nonce) {
            let i = slot_of(after, nonce);
            if i < last {
                assert(sessions[i].topic() == nonce);
            }
        }
        if holds(sessions, nonce) {
            let i = slot_of(sessions, nonce);
            assert(after[i].topic() == nonce);
        }
        if nonce == session.topic() {
            assert(after[last].topic() == nonce);
        }
    }
    assert forall|nonce: Seq<u8>| rounds_of(after).dom().contains(nonce) implies rounds_of(
        after,
    )[nonce] == expected[nonce] by {
        let i = slot_of(after, nonce);
        lemma_slot(after, i);
        if i < last {
            assert(sessions[i].topic() == nonce);
            lemma_slot(sessions, i);
        }
    }
    assert(rounds_of(after) =~= expected);
}

proof fn lemma_update(sessions: Seq<Session>, i: int, session: Session)
    requires
        distinct(sessions),
        0 <= i < sessions.len(),
        session.topic() == sessions[i].topic(),
    ensures
        distinct(sessions.update(i, session)),
        rounds_of(sessions.update(i, session)) == rounds_of(sessions).insert(
            session.topic(),
            session@,
        ),
{
    let after = sessions.update(i, session);
    assert forall|a: int, b: int|
        #![trigger after[a].topic(), after[b].topic()]
        0 <= a < after.len() && 0 <= b < after.len() && after[a].topic()
            == after[b].topic() implies a == b by {
        assert(sessions[a].topic() == sessions[b].topic());
    }
    let expected = rounds_of(sessions).insert(session.topic(), session@);
    assert forall|nonce: Seq<u8>| rounds_of(after).dom().contains(nonce)
        <==> expected.dom().contains(nonce) by {
        if holds(after, nonce) {
            let a = slot_of(after, nonce);
            assert(sessions[a].topic() == nonce);
        }
        if holds(sessions, nonce) {
            let a = slot_of(sessions, nonce);
            assert(after[a].topic() == nonce);
        }
        if nonce == session.topic() {
            assert(after[i].topic() == nonce);
        }
    }
    assert forall|nonce: Seq<u8>| rounds_of(after).dom().contains(nonce) implies rounds_of(
        after,
    )[nonce] == expected[nonce] by {
        let a = slot_of(after, nonce);
        lemma_slot(after, a);
        if a != i {
            assert(sessions[a].topic() == nonce);
            lemma_slot(sessions, a);
        }
    }
    assert(rounds_of(after) =~= expected);
}

proof fn lemma_count(sessions: Seq<Session>)
    requires
        distinct(sessions),
    ensures
        rounds_of(sessions).dom().finite(),
        rounds_of(sessions).dom().len() == sessions.len(),
    decreases sessions.len(),
{
    if sessions.len() == 0 {
        assert(rounds_of(sessions).dom() =~= Set::empty());
    } else {
        let front = sessions.drop_last();
        let last = sessions.last();
        assert forall|i: int, j: int|
            #![trigger front[i].topic(), front[j].topic()]
            0 <= i < front.len() && 0 <= j < front.len() && front[i].topic()
                == front[j].topic() implies i == j by {
            assert(sessions[i].topic() == sessions[j].topic());
        }
        if holds(front, last.topic()) {
            let i = slot_of(front, last.topic());
            assert(sessions[i].topic() == sessions[sessions.len() - 1].topic());
        }
        lemma_count(front);
        lemma_push(front, last);
        assert(front.push(last) =~= sessions);
        assert(rounds_of(sessions).dom() =~= rounds_of(front).dom().insert(last.topic()));
    }
}

/// The coordinator of the rounds of a randomness beacon.
#[derive(Debug)]
pub struct RandomnessGossip {
    threshold: u64,
    interval: u64,
    topics: Vec<Session>,
}

impl View for RandomnessGossip {
    type V = GossipState;

    closed spec fn view(&self) -> GossipState {
        GossipState {
            threshold: self.threshold as nat,
            interval: self.interval as nat,
            topics: rounds_of(self.topics@),
        }
    }
}

impl RandomnessGossip {
    #[verifier::type_invariant]
    spec fn sound(self) -> bool {
        &&& distinct(self.topics@)
        &&& forall|i: int|
            0 <= i < self.topics@.len() ==> (#[trigger] self.topics@[i]@).consistent(
                self.threshold as nat,
            )
    }

    proof fn lemma_consistent(self)
        requires
            self.sound(),
        ensures
            self@.consistent(),
    {
        assert forall|nonce: Seq<u8>| #[trigger] self@.has(nonce) implies self@.topics[nonce].consistent(
            self@.threshold,
        ) by {
            let i = slot_of(self.topics@, nonce);
            lemma_slot(self.topics@, i);
        }
    }

    /// A coordinator without rounds, which completes a round at `threshold`
    /// shares and broadcasts every `SEND_INTERVAL`. Its clock counts seconds.
    pub fn new(threshold: u64) -> (gossip: RandomnessGossip)
        ensures
            gossip@ == (GossipState {
                threshold: threshold as nat,
                interval: SEND_INTERVAL as nat,
                topics: Map::empty(),
            }),
            gossip@.consistent(),
    {
        Self::with_interval(threshold, SEND_INTERVAL)
    }

    /// A coordinator without rounds, which completes a round at `threshold`
    /// shares and broadcasts every `interval`, for a driver whose clock
    /// counts in a unit of its own choice.
    pub fn with_interval(threshold: u64, interval: u64) -> (gossip: RandomnessGossip)
        ensures
            gossip@ == (GossipState {
                threshold: threshold as nat,
                interval: interval as nat,
                topics: Map::empty(),
            }),
            gossip@.consistent(),
    {
        let gossip = RandomnessGossip { threshold, interval, topics: Vec::new() };
        assert(rounds_of(gossip.topics@) =~= Map::empty());
        gossip
    }

    /// The number of shares that completes a round.
    pub fn threshold(&self) -> (t: u64)
        ensures
            t == self@.threshold,
    {
        self.threshold
    }

    /// The time between two broadcasts of a share.
    pub fn interval(&self) -> (t: u64)
        ensures
            t == self@.interval,
    {
        self.interval
    }

    /// The number of rounds.
    pub fn topic_count(&self) -> (n: usize)
        ensures
            self@.topics.dom().finite(),
            n == self@.topics.dom().len(),
    {
        proof {
            use_type_invariant(self);
            lemma_count(self.topics@);
        }
        self.topics.len()
    }

    fn slot(&self, nonce: &Nonce) -> (r: Option<usize>)
        ensures
            r is Some <==> self@.has(nonce@),
            r matches Some(i) ==> i < self.topics@.len() && self.topics@[i as int].topic()
                == nonce@ && self@.topics[nonce@] == self.topics@[i as int]@,
    {
        proof {
            use_type_invariant(self);
        }
        let mut i: usize = 0;
        while i < self.topics.len()
            invariant
                i <= self.topics@.len(),
                distinct(self.topics@),
                forall|j: int| 0 <= j < i ==> (#[trigger] self.topics@[j]).topic() != nonce@,
            decreases self.topics@.len() - i,
        {
            if self.topics[i].nonce().same(nonce) {
                proof {
                    lemma_slot(self.topics@, i as int);
                }
                return Some(i);
            }
            i += 1;
        }
        assert(!holds(self.topics@, nonce@));
        None
    }

    /// Whether a round is open for `nonce`.
    pub fn has_topic(&self, nonce: &Nonce) -> (b: bool)
        ensures
            b == self@.has(nonce@),
    {
        self.slot(nonce).is_some()
    }

    /// The nonces of the rounds, each once.
    pub fn topics(&self) -> (out: Vec<Nonce>)
        ensures
            out@.len() == self@.topics.dom().len(),
            forall|nonce: Seq<u8>|
                self@.has(nonce) <==> exists|i: int| 0 <= i < out@.len() && #[trigger] out@[i]@ == nonce,
            forall|i: int, j: int|
                0 <= i < out@.len() && 0 <= j < out@.len() && #[trigger] out@[i]@ == #[trigger] out@[j]@
                    ==> i == j,
    {
        proof {
            use_type_invariant(self);
            lemma_count(self.topics@);
        }
        let mut out: Vec<Nonce> = Vec::new();
        let mut i: usize = 0;
        while i < self.topics.len()
            invariant
                i <= self.topics@.len(),
                out@.len() == i,
                forall|j: int| 0 <= j < i ==> (#[trigger] out@[j])@ == self.topics@[j].topic(),
            decreases self.topics@.len() - i,
        {
            out.push(self.topics[i].nonce());
            i += 1;
        }
        proof {
            assert forall|nonce: Seq<u8>| self@.has(nonce) <==> exists|i: int|
                0 <= i < out@.len() && #[trigger] out@[i]@ == nonce by {
                if self@.has(nonce) {
                    let k = slot_of(self.topics@, nonce);
                    assert(out@[k]@ == nonce);
                }
                if exists|i: int| 0 <= i < out@.len() && #[trigger] out@[i]@ == nonce {
                    let k = choose|i: int| 0 <= i < out@.len() && #[trigger] out@[i]@ == nonce;
                    assert(self.topics@[k].topic() == nonce);
                }
            }
            assert forall|a: int, b: int|
                0 <= a < out@.len() && 0 <= b < out@.len() && #[trigger] out@[a]@ == #[trigger] out@[b]@ implies a
                == b by {
                assert(self.topics@[a].topic() == self.topics@[b].topic());
            }
        }
        out
    }

    /// The number of shares accepted in the round of `nonce`.
    pub fn share_count(&self, nonce: &Nonce) -> (n: Option<usize>)
        ensures
            n is Some <==> self@.has(nonce@),
            n matches Some(count) ==> count == self@.topics[nonce@].shares.len(),
    {
        match self.slot(nonce) {
            Some(i) => Some(self.topics[i].share_count()),
            None => None,
        }
    }

    /// Whether the round of `nonce` is complete.
    pub fn is_completed(&self, nonce: &Nonce) -> (b: Option<bool>)
        ensures
            b is Some <==> self@.has(nonce@),
            b matches Some(completed) ==> completed == self@.topics[nonce@].completed,
    {
        match self.slot(nonce) {
            Some(i) => Some(self.topics[i].is_completed()),
            None => None,
        }
    }

    /// A copy of the shares accepted in the round of `nonce`, oldest first.
    pub fn shares(&self, nonce: &Nonce) -> (out: Option<Vec<Message>>)
        ensures
            out is Some <==> self@.has(nonce@),
            out matches Some(shares) ==> {
                &&& share_views(shares@) == self@.topics[nonce@].shares
                &&& shares@.len() == self@.topics[nonce@].shares.len()
                &&& forall|i: int|
                    0 <= i < shares@.len() ==> (#[trigger] shares@[i])@
                        == self@.topics[nonce@].shares[i]
            },
    {
        match self.slot(nonce) {
            Some(i) => Some(self.topics[i].collected()),
            None => None,
        }
    }

    /// The time from which on the round of `nonce` broadcasts next, if this
    /// node broadcasts in it.
    pub fn next_send(&self, nonce: &Nonce) -> (t: Option<u64>)
        ensures
            t is Some <==> self@.has(nonce@) && self@.topics[nonce@].outgoing is Some,
            t matches Some(at) ==> at == self@.topics[nonce@].next_send,
    {
        match self.slot(nonce) {
            Some(i) => if self.topics[i].has_outgoing() {
                Some(self.topics[i].next_send())
            } else {
                None
            },
            None => None,
        }
    }

    /// Answers a poll of the transport.
    pub fn on_transport(&self, finished: bool) -> (action: Action)
        ensures
            action@ == self@.transport_action(finished),
    {
        if finished {
            Action::Terminate
        } else {
            Action::PollNotifications
        }
    }

    /// Answers a poll of the source of new nonces.
    pub fn on_notification(&self, source: NonceSource) -> (action: Action)
        ensures
            action@ == self@.notification_action(source),
    {
        proof {
            use_type_invariant(self);
            lemma_count(self.topics@);
        }
        let no_rounds = self.topics.len() == 0;
        proof {
            if no_rounds {
                assert(self@.topics.dom() =~= Set::empty());
            } else {
                lemma_slot(self.topics@, 0);
            }
        }
        match source {
            NonceSource::Ready(nonce) => if self.slot(&nonce).is_some() {
                Action::Drive
            } else {
                Action::LookUp(nonce)
            },
            NonceSource::Closed => if no_rounds {
                Action::Terminate
            } else {
                Action::Drive
            },
            NonceSource::Pending => if no_rounds {
                Action::Yield
            } else {
                Action::Drive
            },
        }
    }

    /// Answers the lookup of the key material of the block of `nonce`.
    pub fn on_lookup(
        &self,
        nonce: Nonce,
        parts: Option<KeyboxParts>,
        storage_key: Option<Vec<u8>>,
    ) -> (action: Action)
        ensures
            action@ == self@.lookup_action(nonce@, parts, key_of(storage_key)),
    {
        match get_rbbox(parts, storage_key) {
            BoxPlan::Unavailable => Action::Nothing,
            BoxPlan::Fetch { storage_key } => Action::FetchSecret { nonce, storage_key },
            BoxPlan::Build => Action::Open { nonce, raw_key: None },
        }
    }

    /// Answers the end of the fetch of this node's secret key.
    pub fn on_secret(&self, nonce: Nonce, fetched: Option<Vec<u8>>) -> (action: Action)
        ensures
            action@ == self@.secret_action(nonce@, key_of(fetched)),
    {
        Action::Open { nonce, raw_key: decode_raw_key(fetched) }
    }

    /// Opens the round of `nonce` at `now`, unless one is open already.
    pub fn on_opened(&mut self, nonce: Nonce, local_share: Option<Message>, now: u64) -> (action:
        Action)
        ensures
            final(self)@ == old(self)@.opened(nonce@, share_of(local_share), now as nat),
            action@ == old(self)@.opened_action(nonce@, share_of(local_share), now as nat),
            final(self)@.consistent(),
    {
        proof {
            use_type_invariant(&*self);
            self.lemma_consistent();
        }
        if self.slot(&nonce).is_some() {
            return Action::Nothing;
        }
        let (session, reached) = Session::open(
            nonce,
            local_share,
            now,
            self.interval,
            self.threshold,
        );
        let action = if reached {
            Action::Combine { nonce, shares: session.collected() }
        } else {
            Action::Nothing
        };
        let mut topics: Vec<Session> = Vec::new();
        core::mem::swap(&mut self.topics, &mut topics);
        proof {
            lemma_push(topics@, session);
        }
        topics.push(session);
        self.topics = topics;
        proof {
            self.lemma_consistent();
        }
        action
    }

    /// Reads the clock for the round of `nonce`.
    pub fn on_clock(&mut self, nonce: Nonce, now: u64) -> (action: Action)
        ensures
            final(self)@ == old(self)@.clocked(nonce@, now as nat),
            action@ == old(self)@.clock_action(nonce@, now as nat),
            final(self)@.consistent(),
    {
        proof {
            use_type_invariant(&*self);
            self.lemma_consistent();
        }
        let i = match self.slot(&nonce) {
            Some(i) => i,
            None => {
                return Action::Nothing;
            },
        };
        let interval = self.interval;
        let mut topics: Vec<Session> = Vec::new();
        core::mem::swap(&mut self.topics, &mut topics);
        let ghost before = topics@;
        let publication = topics[i].clock(now, interval);
        proof {
            lemma_update(before, i as int, topics@[i as int]);
            assert(topics@ =~= before.update(i as int, topics@[i as int]));
        }
        self.topics = topics;
        proof {
            self.lemma_consistent();
        }
        match publication {
            Some(p) => Action::Broadcast { topic: p.topic, data: p.data, force: p.force },
            None => {
                assert(self@.topics =~= old(self)@.topics);
                Action::Nothing
            },
        }
    }

    /// Answers a payload that arrived for the round of `nonce`.
    pub fn on_delivery(&self, nonce: Nonce, data: &[u8]) -> (action: Action)
        ensures
            action@ == self@.delivery_action(nonce@, data@),
    {
        if self.slot(&nonce).is_none() {
            return Action::Nothing;
        }
        match GossipMessage::decode(data) {
            Ok(envelope) => Action::Verify { nonce, share: envelope.into_message() },
            Err(_) => Action::Nothing,
        }
    }

    /// Takes the verdict on a share of the round of `nonce`.
    pub fn on_verdict(&mut self, nonce: Nonce, share: Message, valid: bool) -> (action: Action)
        ensures
            final(self)@ == old(self)@.judged(nonce@, share@, valid),
            action@ == old(self)@.verdict_action(nonce@, share@, valid),
            final(self)@.consistent(),
    {
        proof {
            use_type_invariant(&*self);
            self.lemma_consistent();
        }
        if !valid {
            return Action::Nothing;
        }
        let i = match self.slot(&nonce) {
            Some(i) => i,
            None => {
                return Action::Nothing;
            },
        };
        let threshold = self.threshold;
        let mut topics: Vec<Session> = Vec::new();
        core::mem::swap(&mut self.topics, &mut topics);
        let ghost before = topics@;
        let reached = topics[i].accept(share, threshold);
        let action = if reached {
            Action::Combine { nonce, shares: topics[i].collected() }
        } else {
            Action::Nothing
        };
        proof {
            lemma_update(before, i as int, topics@[i as int]);
            assert(topics@ =~= before.update(i as int, topics@[i as int]));
            lemma_append_consistent(before[i as int]@, share@, threshold as nat);
        }
        self.topics = topics;
        proof {
            self.lemma_consistent();
        }
        action
    }

    /// Answers the outcome of an emission.
    pub fn on_emission(&self, _nonce: Nonce, delivered: bool) -> (action: Action)
        ensures
            action@ == self@.emission_action(delivered),
    {
        if delivered {
            Action::Nothing
        } else {
            Action::Fail(Error::undelivered())
        }
    }

    /// Takes one event and answers with what the driver is to do next.
    pub fn step(&mut self, event: Event) -> (action: Action)
        ensures
            final(self)@ == old(self)@.next(event),
            action@ == old(self)@.action(event),
            final(self)@.consistent(),
    {
        proof {
            use_type_invariant(&*self);
            self.lemma_consistent();
        }
        match event {
            Event::Transport { finished } => self.on_transport(finished),
            Event::Notification(source) => self.on_notification(source),
            Event::Lookup { nonce, parts, storage_key } => self.on_lookup(nonce, parts, storage_key),
            Event::Secret { nonce, fetched } => self.on_secret(nonce, fetched),
            Event::Opened { nonce, local_share, now } => self.on_opened(nonce, local_share, now),
            Event::Clock { nonce, now } => self.on_clock(nonce, now),
            Event::Delivery { nonce, data } => self.on_delivery(nonce, data.as_slice()),
            Event::Verdict { nonce, share, valid } => self.on_verdict(nonce, share, valid),
            Event::Emission { nonce, delivered } => self.on_emission(nonce, delivered),
        }
    }
}

} // verus!
