//! What holds of the coordinator whatever its driver reports.

use vstd::prelude::*;
use crate::gossip::ActionView;
use crate::gossip::Event;
use crate::gossip::GossipState;
use crate::gossip::NonceSource;
use crate::keybox::KeyboxParts;
use crate::message::decoding;
use crate::message::Nonce;
use crate::session::rearmed;
use crate::session::RoundState;

verus! {

/// The coordinator after all of `events`, taken in their order.
pub open spec fn run(start: GossipState, events: Seq<Event>) -> GossipState
    decreases events.len(),
{
    if events.len() == 0 {
        start
    } else {
        run(start, events.drop_last()).next(events.last())
    }
}

/// Whether `action` asks to combine the shares of the round of `nonce`.
pub open spec fn combines(action: ActionView, nonce: Seq<u8>) -> bool {
    action matches ActionView::Combine { nonce: n, .. } && n == nonce
}

/// How often, in answer to `events`, the coordinator asks to combine the
/// shares of the round of `nonce`.
pub open spec fn emissions(start: GossipState, events: Seq<Event>, nonce: Seq<u8>) -> nat
    decreases events.len(),
{
    if events.len() == 0 {
        0
    } else {
        let before = run(start, events.drop_last());
        let now: nat = if combines(before.action(events.last()), nonce) {
            1
        } else {
            0
        };
        emissions(start, events.drop_last(), nonce) + now
    }
}

/// Whether `action` asks to broadcast on the topic of `nonce`.
pub open spec fn broadcasts(action: ActionView, nonce: Seq<u8>) -> bool {
    action matches ActionView::Broadcast { topic, .. } && topic == nonce
}

/// Whether the coordinator answers none of `events` with a broadcast on the
/// topic of `nonce`.
pub open spec fn silent(start: GossipState, events: Seq<Event>, nonce: Seq<u8>) -> bool
    decreases events.len(),
{
    events.len() == 0 || (silent(start, events.drop_last(), nonce) && !broadcasts(
        run(start, events.drop_last()).action(events.last()),
        nonce,
    ))
}

/// Whether the round of `nonce` is open and complete.
pub open spec fn completed_in(state: GossipState, nonce: Seq<u8>) -> bool {
    state.has(nonce) && state.topics[nonce].completed
}

/// A nonce without a round gets exactly one when its round is opened: the
/// rounds are those that were there and the new one. A nonce that has a
/// round keeps it as it is, whatever is reported for it later, and a new
/// notification for it asks for no lookup.
pub proof fn lemma_one_round_per_nonce(
    state: GossipState,
    nonce: Nonce,
    local: Option<Seq<u8>>,
    now: nat,
    again: Option<Seq<u8>>,
    later: nat,
)
    requires
        state.topics.dom().finite(),
    ensures
        !state.has(nonce@) ==> {
            let after = state.opened(nonce@, local, now);
            &&& after.topics.dom() == state.topics.dom().insert(nonce@)
            &&& after.topics.dom().len() == state.topics.dom().len() + 1
            &&& after.topics[nonce@] == RoundState::opened(
                local,
                now,
                state.interval,
                state.threshold,
            )
            &&& forall|other: Seq<u8>|
                state.has(other) ==> after.has(other) && after.topics[other]
                    == state.topics[other]
        },
        !state.has(nonce@) ==> state.notification_action(NonceSource::Ready(nonce))
            == ActionView::LookUp(nonce@),
        state.has(nonce@) ==> state.opened(nonce@, local, now) == state,
        state.has(nonce@) ==> state.opened_action(nonce@, local, now) == ActionView::Nothing,
        state.opened(nonce@, local, now).opened(nonce@, again, later) == state.opened(
            nonce@,
            local,
            now,
        ),
        state.opened(nonce@, local, now).notification_action(NonceSource::Ready(nonce))
            == ActionView::Drive,
{
}

/// Without the key material of its block no round is opened: the
/// notification is dropped, and nothing stands in the way of a later one.
pub proof fn lemma_lookup_miss(
    state: GossipState,
    nonce: Nonce,
    parts: Option<KeyboxParts>,
    storage_key: Option<Seq<u8>>,
)
    requires
        parts is None || storage_key is None,
    ensures
        state.lookup_action(nonce@, parts, storage_key) == ActionView::Nothing,
        !state.has(nonce@) ==> state.notification_action(NonceSource::Ready(nonce))
            == ActionView::LookUp(nonce@),
{
}

/// A share that was found valid makes its round longer by exactly that
/// share, at the end, and leaves every other round alone. A share that was
/// found invalid changes nothing, and neither does a payload, whether it
/// can be read or not; one that cannot be read is not even verified.
pub proof fn lemma_shares_grow_by_valid_ones(
    state: GossipState,
    nonce: Seq<u8>,
    share: Seq<u8>,
    data: Vec<u8>,
    topic: Nonce,
)
    requires
        state.has(nonce),
    ensures
        state.judged(nonce, share, true).topics[nonce].shares == state.topics[nonce].shares.push(
            share,
        ),
        state.judged(nonce, share, true).topics[nonce].shares.len()
            == state.topics[nonce].shares.len() + 1,
        state.judged(nonce, share, true).topics.dom() == state.topics.dom(),
        forall|other: Seq<u8>|
            other != nonce ==> state.judged(nonce, share, true).topics[other]
                == state.topics[other],
        state.judged(nonce, share, false) == state,
        state.verdict_action(nonce, share, false) == ActionView::Nothing,
        state.next(Event::Delivery { nonce: topic, data }) == state,
        decoding(data@) is Err ==> state.action(Event::Delivery { nonce: topic, data })
            == ActionView::Nothing,
{
    assert(state.judged(nonce, share, true).topics.dom() =~= state.topics.dom());
}

/// A broadcast is asked for exactly when one is due. After a broadcast at
/// `fired` the next one is due when the interval has elapsed, not before;
/// a reading of the clock in between changes nothing. A round in which this
/// node has no share never broadcasts.
pub proof fn lemma_broadcast_once_per_interval(
    state: GossipState,
    nonce: Seq<u8>,
    fired: nat,
    later: nat,
)
    requires
        state.has(nonce),
        fired <= later <= u64::MAX,
    ensures
        state.clock_action(nonce, fired) is Broadcast <==> state.topics[nonce].due(fired),
        state.topics[nonce].outgoing is None ==> state.clock_action(nonce, fired)
            == ActionView::Nothing,
        !state.topics[nonce].due(fired) ==> state.clocked(nonce, fired) == state,
        state.topics[nonce].due(fired) ==> (state.clocked(nonce, fired).clock_action(
            nonce,
            later,
        ) is Broadcast <==> later >= rearmed(fired, state.interval)),
        state.topics[nonce].due(fired) && fired + state.interval <= u64::MAX ==> (state.clocked(
            nonce,
            fired,
        ).clock_action(nonce, later) is Broadcast <==> later >= fired + state.interval),
{
    if !state.topics[nonce].due(fired) {
        assert(state.clocked(nonce, fired).topics =~= state.topics);
    }
}

/// The timer of a round is set anew by a broadcast and by nothing else.
/// So after a broadcast at `fired`, whatever is reported in between, the
/// next broadcast comes with the first reading of the clock at which the
/// interval has elapsed, and with none before.
pub proof fn lemma_next_broadcast(
    state: GossipState,
    nonce: Seq<u8>,
    fired: nat,
    events: Seq<Event>,
    later: nat,
)
    requires
        state.has(nonce),
        state.topics[nonce].due(fired),
        fired <= later <= u64::MAX,
        silent(state.clocked(nonce, fired), events, nonce),
    ensures
        run(state.clocked(nonce, fired), events).has(nonce),
        run(state.clocked(nonce, fired), events).topics[nonce].next_send == rearmed(
            fired,
            state.interval,
        ),
        broadcasts(run(state.clocked(nonce, fired), events).clock_action(nonce, later), nonce)
            <==> later >= rearmed(fired, state.interval),
    decreases events.len(),
{
    let start = state.clocked(nonce, fired);
    lemma_rounds_persist(start, events, nonce);
    if events.len() > 0 {
        lemma_next_broadcast(state, nonce, fired, events.drop_last(), later);
        lemma_rounds_persist(start, events.drop_last(), nonce);
    }
}

/// One event: the settings stay, a round that is open stays open and
/// keeps its outgoing share, and what it held is the start of what it holds.
pub proof fn lemma_step_keeps_rounds(state: GossipState, event: Event, nonce: Seq<u8>)
    requires
        state.has(nonce),
    ensures
        state.next(event).threshold == state.threshold,
        state.next(event).interval == state.interval,
        state.next(event).has(nonce),
        state.next(event).topics[nonce].outgoing == state.topics[nonce].outgoing,
        state.topics[nonce].shares.is_prefix_of(state.next(event).topics[nonce].shares),
        state.next(event).topics[nonce].shares.len() <= state.topics[nonce].shares.len() + 1,
{
}

/// Whatever is reported: nothing but the end of the coordinator ends a
/// round, and the shares of a round only grow, at their end.
pub proof fn lemma_rounds_persist(start: GossipState, events: Seq<Event>, nonce: Seq<u8>)
    requires
        start.has(nonce),
    ensures
        run(start, events).threshold == start.threshold,
        run(start, events).interval == start.interval,
        run(start, events).has(nonce),
        run(start, events).topics[nonce].outgoing == start.topics[nonce].outgoing,
        start.topics[nonce].shares.is_prefix_of(run(start, events).topics[nonce].shares),
        run(start, events).topics[nonce].shares.len() <= start.topics[nonce].shares.len()
            + events.len(),
    decreases events.len(),
{
    if events.len() > 0 {
        lemma_rounds_persist(start, events.drop_last(), nonce);
        lemma_step_keeps_rounds(run(start, events.drop_last()), events.last(), nonce);
    }
}

/// One event: the rounds stay consistent with the threshold, a complete
/// round stays complete, and the shares of a round are asked to be combined
/// exactly when the event completes that round; they are then all the
/// shares of the round, a threshold of them.
pub proof fn lemma_step_emits_on_completion(state: GossipState, event: Event, nonce: Seq<u8>)
    requires
        state.consistent(),
    ensures
        state.next(event).consistent(),
        completed_in(state, nonce) ==> completed_in(state.next(event), nonce),
        combines(state.action(event), nonce) <==> completed_in(state.next(event), nonce)
            && !completed_in(state, nonce),
        state.action(event) matches ActionView::Combine { nonce: n, shares } ==> shares
            == state.next(event).topics[n].shares && shares.len() == state.threshold,
{
    let after = state.next(event);
    assert forall|n: Seq<u8>| #[trigger] after.has(n) implies after.topics[n].consistent(
        after.threshold,
    ) by {
        if state.has(n) {
            assert(state.topics[n].consistent(state.threshold));
        }
    }
    if state.has(nonce) {
        assert(state.topics[nonce].consistent(state.threshold));
    }
    match event {
        Event::Verdict { nonce: n, share, valid } => {
            if state.has(n@) {
                assert(state.topics[n@].consistent(state.threshold));
            }
        },
        _ => {},
    }
}

/// Whatever is reported, and in whatever order: the shares of a round are
/// asked to be combined once if the round becomes complete, and not at all
/// if it does not, or if it was complete before.
pub proof fn lemma_emitted_once(start: GossipState, events: Seq<Event>, nonce: Seq<u8>)
    requires
        start.consistent(),
    ensures
        run(start, events).consistent(),
        completed_in(start, nonce) ==> completed_in(run(start, events), nonce),
        emissions(start, events, nonce) == (if completed_in(run(start, events), nonce)
            && !completed_in(start, nonce) {
            1nat
        } else {
            0nat
        }),
        emissions(start, events, nonce) <= 1,
    decreases events.len(),
{
    if events.len() > 0 {
        lemma_emitted_once(start, events.drop_last(), nonce);
        lemma_step_emits_on_completion(run(start, events.drop_last()), events.last(), nonce);
    }
}

} // verus!
