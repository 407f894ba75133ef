use randomness_beacon::error::Error;
use randomness_beacon::gossip::Action;
use randomness_beacon::gossip::Event;
use randomness_beacon::gossip::NonceSource;
use randomness_beacon::gossip::RandomnessGossip;
use randomness_beacon::keybox::KeyboxParts;
use randomness_beacon::message::GossipMessage;
use randomness_beacon::message::Message;
use randomness_beacon::message::Nonce;
use randomness_beacon::session::SEND_INTERVAL;

fn nonce(seed: u8) -> Nonce {
    Nonce([seed; 32])
}

fn share(bytes: &[u8]) -> Message {
    Message::new(bytes.to_vec()).unwrap()
}

fn payload(topic: Nonce, bytes: &[u8]) -> Vec<u8> {
    GossipMessage::new(topic, share(bytes)).encode()
}

/// Delivers a payload and, where the coordinator asks for it, a verdict.
fn deliver(g: &mut RandomnessGossip, topic: Nonce, data: Vec<u8>, valid: bool) -> Action {
    match g.step(Event::Delivery { nonce: topic, data }) {
        Action::Verify { nonce, share } => g.step(Event::Verdict { nonce, share, valid }),
        other => other,
    }
}

#[test]
fn new_coordinator_has_no_rounds() {
    let g = RandomnessGossip::new(3);
    assert_eq!(g.threshold(), 3);
    assert_eq!(g.interval(), SEND_INTERVAL);
    assert_eq!(g.topic_count(), 0);
    assert!(g.topics().is_empty());
    assert!(!g.has_topic(&nonce(1)));
    assert_eq!(g.share_count(&nonce(1)), None);
    assert_eq!(g.is_completed(&nonce(1)), None);
    assert_eq!(g.shares(&nonce(1)), None);
    assert_eq!(g.next_send(&nonce(1)), None);
}

#[test]
fn send_interval_is_one_tick() {
    assert_eq!(SEND_INTERVAL, 1);
    assert_eq!(RandomnessGossip::with_interval(2, 1000).interval(), 1000);
}

#[test]
fn transport_done_ends_the_coordinator_whatever_is_open() {
    // The transport reports completion while rounds are in progress.
    let mut g = RandomnessGossip::new(2);
    assert_eq!(g.step(Event::Transport { finished: true }), Action::Terminate);
    g.step(Event::Opened { nonce: nonce(1), local_share: Some(share(b"mine")), now: 0 });
    g.step(Event::Opened { nonce: nonce(2), local_share: None, now: 0 });
    assert_eq!(g.topic_count(), 2);
    assert_eq!(g.step(Event::Transport { finished: true }), Action::Terminate);
    assert_eq!(g.on_transport(true), Action::Terminate);
}

#[test]
fn transport_alive_goes_on_to_the_notifications() {
    let mut g = RandomnessGossip::new(2);
    assert_eq!(g.step(Event::Transport { finished: false }), Action::PollNotifications);
}

#[test]
fn nothing_pending_and_no_rounds_yields() {
    let mut g = RandomnessGossip::new(2);
    assert_eq!(g.step(Event::Notification(NonceSource::Pending)), Action::Yield);
}

#[test]
fn source_closed_and_no_rounds_terminates() {
    let mut g = RandomnessGossip::new(2);
    assert_eq!(g.step(Event::Notification(NonceSource::Closed)), Action::Terminate);
}

#[test]
fn source_closed_with_rounds_keeps_driving() {
    let mut g = RandomnessGossip::new(2);
    g.step(Event::Opened { nonce: nonce(1), local_share: None, now: 0 });
    assert_eq!(g.step(Event::Notification(NonceSource::Closed)), Action::Drive);
    assert_eq!(g.step(Event::Notification(NonceSource::Pending)), Action::Drive);
}

#[test]
fn new_nonce_is_looked_up() {
    let mut g = RandomnessGossip::new(2);
    assert_eq!(
        g.step(Event::Notification(NonceSource::Ready(nonce(5)))),
        Action::LookUp(nonce(5))
    );
    // Asking does not open anything yet.
    assert_eq!(g.topic_count(), 0);
}

#[test]
fn lookup_of_a_participant_fetches_the_secret_then_opens() {
    let mut g = RandomnessGossip::new(2);
    let a = g.step(Event::Lookup {
        nonce: nonce(5),
        parts: Some(KeyboxParts { node_index: Some(1) }),
        storage_key: Some(vec![0x10, 0x20]),
    });
    assert_eq!(a, Action::FetchSecret { nonce: nonce(5), storage_key: vec![0x10, 0x20] });
    let mut secret = vec![0u8; 32];
    secret[0] = 9;
    let b = g.step(Event::Secret { nonce: nonce(5), fetched: Some(secret) });
    assert_eq!(b, Action::Open { nonce: nonce(5), raw_key: Some([9, 0, 0, 0]) });
    assert_eq!(g.topic_count(), 0);
}

#[test]
fn failed_fetch_opens_without_a_secret() {
    let mut g = RandomnessGossip::new(2);
    assert_eq!(
        g.step(Event::Secret { nonce: nonce(5), fetched: None }),
        Action::Open { nonce: nonce(5), raw_key: None }
    );
    assert_eq!(
        g.step(Event::Secret { nonce: nonce(5), fetched: Some(vec![1, 2, 3]) }),
        Action::Open { nonce: nonce(5), raw_key: None }
    );
}

#[test]
fn lookup_of_a_bystander_opens_without_a_secret() {
    let mut g = RandomnessGossip::new(2);
    let a = g.step(Event::Lookup {
        nonce: nonce(5),
        parts: Some(KeyboxParts { node_index: None }),
        storage_key: Some(vec![0x10]),
    });
    assert_eq!(a, Action::Open { nonce: nonce(5), raw_key: None });
}

#[test]
fn notification_before_lookup_data_exists_is_dropped_and_can_come_again() {
    // A notification for Y arrives before its lookup data exists.
    let y = nonce(0x59);
    let mut g = RandomnessGossip::new(2);
    assert_eq!(g.step(Event::Notification(NonceSource::Ready(y))), Action::LookUp(y));
    assert_eq!(
        g.step(Event::Lookup { nonce: y, parts: None, storage_key: None }),
        Action::Nothing
    );
    assert!(!g.has_topic(&y));
    assert_eq!(g.topic_count(), 0);
    // Later the data is there.
    assert_eq!(g.step(Event::Notification(NonceSource::Ready(y))), Action::LookUp(y));
    assert_eq!(
        g.step(Event::Lookup {
            nonce: y,
            parts: Some(KeyboxParts { node_index: None }),
            storage_key: Some(vec![1]),
        }),
        Action::Open { nonce: y, raw_key: None }
    );
    assert_eq!(
        g.step(Event::Opened { nonce: y, local_share: None, now: 3 }),
        Action::Nothing
    );
    assert!(g.has_topic(&y));
    assert_eq!(g.topic_count(), 1);
}

#[test]
fn lookup_without_storage_key_is_dropped() {
    let mut g = RandomnessGossip::new(2);
    let a = g.step(Event::Lookup {
        nonce: nonce(5),
        parts: Some(KeyboxParts { node_index: Some(1) }),
        storage_key: None,
    });
    assert_eq!(a, Action::Nothing);
}

#[test]
fn opening_creates_exactly_one_round() {
    let mut g = RandomnessGossip::new(3);
    let n = nonce(7);
    assert_eq!(
        g.step(Event::Opened { nonce: n, local_share: Some(share(b"own")), now: 10 }),
        Action::Nothing
    );
    assert_eq!(g.topic_count(), 1);
    assert_eq!(g.topics(), vec![n]);
    assert_eq!(g.share_count(&n), Some(1));
    assert_eq!(g.shares(&n), Some(vec![share(b"own")]));
    assert_eq!(g.is_completed(&n), Some(false));
    assert_eq!(g.next_send(&n), Some(10 + SEND_INTERVAL));
}

#[test]
fn repeated_notification_creates_no_second_round() {
    let mut g = RandomnessGossip::new(3);
    let n = nonce(7);
    g.step(Event::Opened { nonce: n, local_share: Some(share(b"own")), now: 10 });
    // A second notification for the same nonce asks for no lookup.
    assert_eq!(g.step(Event::Notification(NonceSource::Ready(n))), Action::Drive);
    // Even a second opening changes nothing.
    assert_eq!(
        g.step(Event::Opened { nonce: n, local_share: Some(share(b"other")), now: 99 }),
        Action::Nothing
    );
    assert_eq!(g.topic_count(), 1);
    assert_eq!(g.shares(&n), Some(vec![share(b"own")]));
    assert_eq!(g.next_send(&n), Some(10 + SEND_INTERVAL));
}

#[test]
fn rounds_are_kept_apart() {
    let mut g = RandomnessGossip::new(2);
    g.step(Event::Opened { nonce: nonce(1), local_share: None, now: 0 });
    g.step(Event::Opened { nonce: nonce(2), local_share: None, now: 0 });
    g.step(Event::Opened { nonce: nonce(3), local_share: Some(share(b"s")), now: 0 });
    assert_eq!(g.topic_count(), 3);
    let mut topics = g.topics();
    topics.sort_by_key(|n| n.0);
    assert_eq!(topics, vec![nonce(1), nonce(2), nonce(3)]);
    deliver(&mut g, nonce(2), payload(nonce(2), b"x"), true);
    assert_eq!(g.share_count(&nonce(1)), Some(0));
    assert_eq!(g.share_count(&nonce(2)), Some(1));
    assert_eq!(g.share_count(&nonce(3)), Some(1));
}

#[test]
fn round_without_local_share_does_not_broadcast() {
    let mut g = RandomnessGossip::new(2);
    let n = nonce(1);
    g.step(Event::Opened { nonce: n, local_share: None, now: 0 });
    assert_eq!(g.next_send(&n), None);
    assert_eq!(g.step(Event::Clock { nonce: n, now: 0 }), Action::Nothing);
    assert_eq!(g.step(Event::Clock { nonce: n, now: 1000 }), Action::Nothing);
    assert_eq!(g.step(Event::Clock { nonce: n, now: u64::MAX }), Action::Nothing);
}

#[test]
fn broadcast_fires_when_the_interval_has_elapsed_and_not_before() {
    let mut g = RandomnessGossip::with_interval(5, 10);
    let n = nonce(1);
    g.step(Event::Opened { nonce: n, local_share: Some(share(b"own")), now: 100 });
    assert_eq!(g.next_send(&n), Some(110));
    assert_eq!(g.step(Event::Clock { nonce: n, now: 100 }), Action::Nothing);
    assert_eq!(g.step(Event::Clock { nonce: n, now: 109 }), Action::Nothing);
    assert_eq!(g.next_send(&n), Some(110));
    let expected = Action::Broadcast { topic: n, data: payload(n, b"own"), force: true };
    assert_eq!(g.step(Event::Clock { nonce: n, now: 110 }), expected);
    // The timer runs anew from the moment of the broadcast.
    assert_eq!(g.next_send(&n), Some(120));
    assert_eq!(g.step(Event::Clock { nonce: n, now: 110 }), Action::Nothing);
    assert_eq!(g.step(Event::Clock { nonce: n, now: 119 }), Action::Nothing);
    assert_eq!(g.step(Event::Clock { nonce: n, now: 127 }), expected);
    assert_eq!(g.next_send(&n), Some(137));
    assert_eq!(g.step(Event::Clock { nonce: n, now: 136 }), Action::Nothing);
    assert_eq!(g.step(Event::Clock { nonce: n, now: 137 }), expected);
}

#[test]
fn broadcast_carries_the_envelope_of_the_own_share() {
    let mut g = RandomnessGossip::new(5);
    let n = nonce(0xab);
    g.step(Event::Opened { nonce: n, local_share: Some(share(&[1, 2, 3])), now: 0 });
    match g.step(Event::Clock { nonce: n, now: 1 }) {
        Action::Broadcast { topic, data, force } => {
            assert_eq!(topic, n);
            assert!(force);
            let mut expected = vec![0xab; 32];
            expected.extend_from_slice(&[0x0c, 1, 2, 3]);
            assert_eq!(data, expected);
        }
        other => panic!("no broadcast: {:?}", other),
    }
}

#[test]
fn deadline_does_not_go_beyond_the_end_of_the_clock() {
    let mut g = RandomnessGossip::with_interval(5, 10);
    let n = nonce(1);
    g.step(Event::Opened { nonce: n, local_share: Some(share(b"own")), now: u64::MAX - 3 });
    assert_eq!(g.next_send(&n), Some(u64::MAX));
    assert_eq!(g.step(Event::Clock { nonce: n, now: u64::MAX - 1 }), Action::Nothing);
    assert!(matches!(
        g.step(Event::Clock { nonce: n, now: u64::MAX }),
        Action::Broadcast { .. }
    ));
    assert_eq!(g.next_send(&n), Some(u64::MAX));
}

#[test]
fn clock_for_an_unknown_nonce_does_nothing() {
    let mut g = RandomnessGossip::new(2);
    assert_eq!(g.step(Event::Clock { nonce: nonce(9), now: 50 }), Action::Nothing);
    assert_eq!(g.topic_count(), 0);
}

#[test]
fn well_formed_payload_is_handed_to_verification() {
    let mut g = RandomnessGossip::new(2);
    let n = nonce(1);
    g.step(Event::Opened { nonce: n, local_share: None, now: 0 });
    assert_eq!(
        g.step(Event::Delivery { nonce: n, data: payload(n, b"peer") }),
        Action::Verify { nonce: n, share: share(b"peer") }
    );
    // Nothing is accepted before the verdict.
    assert_eq!(g.share_count(&n), Some(0));
}

#[test]
fn payload_for_an_unknown_nonce_is_dropped() {
    let mut g = RandomnessGossip::new(2);
    assert_eq!(
        g.step(Event::Delivery { nonce: nonce(1), data: payload(nonce(1), b"peer") }),
        Action::Nothing
    );
}

#[test]
fn malformed_payload_changes_nothing() {
    // A malformed byte sequence arrives on the topic of an active round.
    let mut g = RandomnessGossip::new(2);
    let n = nonce(1);
    g.step(Event::Opened { nonce: n, local_share: Some(share(b"own")), now: 0 });
    for data in [vec![], vec![0xff; 10], vec![1u8; 32], {
        let mut d = vec![1u8; 32];
        d.extend_from_slice(&[0x20, 1, 2]);
        d
    }] {
        assert_eq!(g.step(Event::Delivery { nonce: n, data }), Action::Nothing);
    }
    assert_eq!(g.share_count(&n), Some(1));
    assert_eq!(g.shares(&n), Some(vec![share(b"own")]));
    assert_eq!(g.is_completed(&n), Some(false));
}

#[test]
fn verified_share_grows_the_round_by_one() {
    let mut g = RandomnessGossip::new(10);
    let n = nonce(1);
    g.step(Event::Opened { nonce: n, local_share: None, now: 0 });
    for k in 1u8..=5 {
        assert_eq!(deliver(&mut g, n, payload(n, &[k]), true), Action::Nothing);
        assert_eq!(g.share_count(&n), Some(k as usize));
    }
    assert_eq!(
        g.shares(&n),
        Some(vec![share(&[1]), share(&[2]), share(&[3]), share(&[4]), share(&[5])])
    );
}

#[test]
fn invalid_share_never_grows_the_round() {
    let mut g = RandomnessGossip::new(2);
    let n = nonce(1);
    g.step(Event::Opened { nonce: n, local_share: None, now: 0 });
    for k in 1u8..=5 {
        assert_eq!(deliver(&mut g, n, payload(n, &[k]), false), Action::Nothing);
    }
    assert_eq!(g.share_count(&n), Some(0));
    assert_eq!(g.is_completed(&n), Some(false));
}

#[test]
fn verdict_for_an_unknown_nonce_does_nothing() {
    let mut g = RandomnessGossip::new(1);
    assert_eq!(
        g.step(Event::Verdict { nonce: nonce(1), share: share(b"s"), valid: true }),
        Action::Nothing
    );
    assert_eq!(g.topic_count(), 0);
}

#[test]
fn two_of_three_shares_emit_exactly_once() {
    // Threshold 2; three peers each produce one share for nonce X.
    let x = nonce(0x58);
    let mut g = RandomnessGossip::new(2);
    g.step(Event::Opened { nonce: x, local_share: None, now: 0 });
    assert_eq!(deliver(&mut g, x, payload(x, b"peer-a"), true), Action::Nothing);
    assert_eq!(g.is_completed(&x), Some(false));
    assert_eq!(
        deliver(&mut g, x, payload(x, b"peer-b"), true),
        Action::Combine { nonce: x, shares: vec![share(b"peer-a"), share(b"peer-b")] }
    );
    assert_eq!(g.is_completed(&x), Some(true));
    // The third share is accepted, and nothing is emitted again.
    assert_eq!(deliver(&mut g, x, payload(x, b"peer-c"), true), Action::Nothing);
    assert_eq!(g.share_count(&x), Some(3));
    assert_eq!(g.is_completed(&x), Some(true));
}

#[test]
fn any_two_verified_shares_complete_the_round() {
    let x = nonce(0x58);
    let all: [&[u8]; 3] = [b"peer-a", b"peer-b", b"peer-c"];
    for (first, second) in [(0usize, 1usize), (1, 0), (0, 2), (2, 0), (1, 2), (2, 1)] {
        let mut g = RandomnessGossip::new(2);
        g.step(Event::Opened { nonce: x, local_share: None, now: 0 });
        assert_eq!(deliver(&mut g, x, payload(x, all[first]), true), Action::Nothing);
        assert_eq!(
            deliver(&mut g, x, payload(x, all[second]), true),
            Action::Combine { nonce: x, shares: vec![share(all[first]), share(all[second])] }
        );
    }
}

#[test]
fn own_share_counts_towards_the_threshold() {
    let n = nonce(1);
    let mut g = RandomnessGossip::new(2);
    g.step(Event::Opened { nonce: n, local_share: Some(share(b"own")), now: 0 });
    assert_eq!(
        deliver(&mut g, n, payload(n, b"peer"), true),
        Action::Combine { nonce: n, shares: vec![share(b"own"), share(b"peer")] }
    );
}

#[test]
fn own_share_alone_completes_a_round_of_threshold_one() {
    let n = nonce(1);
    let mut g = RandomnessGossip::new(1);
    assert_eq!(
        g.step(Event::Opened { nonce: n, local_share: Some(share(b"own")), now: 0 }),
        Action::Combine { nonce: n, shares: vec![share(b"own")] }
    );
    assert_eq!(g.is_completed(&n), Some(true));
    assert_eq!(deliver(&mut g, n, payload(n, b"peer"), true), Action::Nothing);
}

#[test]
fn threshold_one_without_own_share_completes_at_the_first_valid_share() {
    let n = nonce(1);
    let mut g = RandomnessGossip::new(1);
    assert_eq!(g.step(Event::Opened { nonce: n, local_share: None, now: 0 }), Action::Nothing);
    assert_eq!(deliver(&mut g, n, payload(n, b"bad"), false), Action::Nothing);
    assert_eq!(
        deliver(&mut g, n, payload(n, b"peer"), true),
        Action::Combine { nonce: n, shares: vec![share(b"peer")] }
    );
}

#[test]
fn threshold_zero_never_completes() {
    let n = nonce(1);
    let mut g = RandomnessGossip::new(0);
    assert_eq!(g.step(Event::Opened { nonce: n, local_share: None, now: 0 }), Action::Nothing);
    for k in 0u8..4 {
        assert_eq!(deliver(&mut g, n, payload(n, &[k]), true), Action::Nothing);
    }
    assert_eq!(g.is_completed(&n), Some(false));
    assert_eq!(g.share_count(&n), Some(4));
}

#[test]
fn invalid_shares_do_not_count_towards_the_threshold() {
    let n = nonce(1);
    let mut g = RandomnessGossip::new(2);
    g.step(Event::Opened { nonce: n, local_share: None, now: 0 });
    assert_eq!(deliver(&mut g, n, payload(n, b"a"), true), Action::Nothing);
    assert_eq!(deliver(&mut g, n, payload(n, b"forged"), false), Action::Nothing);
    assert_eq!(deliver(&mut g, n, vec![0u8; 5], true), Action::Nothing);
    assert_eq!(g.is_completed(&n), Some(false));
    assert_eq!(
        deliver(&mut g, n, payload(n, b"b"), true),
        Action::Combine { nonce: n, shares: vec![share(b"a"), share(b"b")] }
    );
}

#[test]
fn the_same_share_delivered_twice_counts_twice() {
    // Shares are not told apart by their producer: a repeated delivery of
    // one valid share fills the round like two shares would.
    let n = nonce(1);
    let mut g = RandomnessGossip::new(2);
    g.step(Event::Opened { nonce: n, local_share: None, now: 0 });
    assert_eq!(deliver(&mut g, n, payload(n, b"dup"), true), Action::Nothing);
    assert_eq!(
        deliver(&mut g, n, payload(n, b"dup"), true),
        Action::Combine { nonce: n, shares: vec![share(b"dup"), share(b"dup")] }
    );
}

#[test]
fn each_round_is_emitted_once_over_a_long_run() {
    let mut g = RandomnessGossip::new(3);
    let rounds = [nonce(1), nonce(2), nonce(3)];
    for n in rounds {
        g.step(Event::Opened { nonce: n, local_share: Some(share(b"own")), now: 0 });
    }
    let mut combined = [0usize; 3];
    for tick in 0u64..40 {
        for (i, n) in rounds.iter().enumerate() {
            g.step(Event::Clock { nonce: *n, now: tick });
            let valid = (tick as usize + i) % 3 != 0;
            if let Action::Combine { nonce, shares } =
                deliver(&mut g, *n, payload(*n, &[tick as u8, i as u8]), valid)
            {
                assert_eq!(nonce, *n);
                assert_eq!(shares.len(), 3);
                combined[i] += 1;
            }
            g.step(Event::Opened { nonce: *n, local_share: None, now: tick });
        }
    }
    assert_eq!(combined, [1, 1, 1]);
    assert_eq!(g.topic_count(), 3);
}

#[test]
fn emission_that_was_taken_asks_for_nothing() {
    let mut g = RandomnessGossip::new(2);
    assert_eq!(g.step(Event::Emission { nonce: nonce(1), delivered: true }), Action::Nothing);
}

#[test]
fn emission_that_nobody_took_is_reported_and_the_rounds_stay() {
    let n = nonce(1);
    let mut g = RandomnessGossip::new(1);
    g.step(Event::Opened { nonce: n, local_share: Some(share(b"own")), now: 0 });
    let a = g.step(Event::Emission { nonce: n, delivered: false });
    assert_eq!(a, Action::Fail(Error::undelivered()));
    match a {
        Action::Fail(e) => {
            assert_eq!(e.text(), "problem with sending new randomness to the block proposer");
            assert!(matches!(e, Error::Consumer(_)));
        }
        other => panic!("no failure: {:?}", other),
    }
    assert!(g.has_topic(&n));
    assert_eq!(g.step(Event::Notification(NonceSource::Pending)), Action::Drive);
}

#[test]
fn errors_carry_their_text() {
    assert_eq!(Error::Network("down".to_string()).text(), "down");
    assert_eq!(Error::Signing("no key".to_string()).text(), "no key");
    assert_eq!(Error::Network("down".to_string()).clone(), Error::Network("down".to_string()));
}

#[test]
fn handlers_answer_like_step() {
    let n = nonce(4);
    let mut a = RandomnessGossip::new(2);
    let mut b = RandomnessGossip::new(2);
    assert_eq!(a.on_transport(false), b.step(Event::Transport { finished: false }));
    assert_eq!(
        a.on_notification(NonceSource::Ready(n)),
        b.step(Event::Notification(NonceSource::Ready(n)))
    );
    assert_eq!(
        a.on_lookup(n, Some(KeyboxParts { node_index: Some(2) }), Some(vec![7])),
        b.step(Event::Lookup {
            nonce: n,
            parts: Some(KeyboxParts { node_index: Some(2) }),
            storage_key: Some(vec![7]),
        })
    );
    assert_eq!(
        a.on_secret(n, Some(vec![1u8; 32])),
        b.step(Event::Secret { nonce: n, fetched: Some(vec![1u8; 32]) })
    );
    assert_eq!(
        a.on_opened(n, Some(share(b"own")), 5),
        b.step(Event::Opened { nonce: n, local_share: Some(share(b"own")), now: 5 })
    );
    assert_eq!(a.on_clock(n, 6), b.step(Event::Clock { nonce: n, now: 6 }));
    assert_eq!(
        a.on_delivery(n, &payload(n, b"peer")),
        b.step(Event::Delivery { nonce: n, data: payload(n, b"peer") })
    );
    assert_eq!(
        a.on_verdict(n, share(b"peer"), true),
        b.step(Event::Verdict { nonce: n, share: share(b"peer"), valid: true })
    );
    assert_eq!(a.on_emission(n, false), b.step(Event::Emission { nonce: n, delivered: false }));
    assert_eq!(a.shares(&n), b.shares(&n));
}

#[test]
fn only_a_broadcast_moves_the_timer() {
    let mut g = RandomnessGossip::with_interval(10, 100);
    let n = nonce(1);
    let other = nonce(2);
    g.step(Event::Opened { nonce: n, local_share: Some(share(b"own")), now: 0 });
    g.step(Event::Opened { nonce: other, local_share: Some(share(b"theirs")), now: 50 });
    assert!(matches!(g.step(Event::Clock { nonce: n, now: 100 }), Action::Broadcast { .. }));
    assert_eq!(g.next_send(&n), Some(200));
    // Whatever else happens leaves the deadline where it is.
    deliver(&mut g, n, payload(n, b"a"), true);
    deliver(&mut g, n, payload(n, b"b"), false);
    deliver(&mut g, n, vec![1, 2, 3], true);
    assert!(matches!(g.step(Event::Clock { nonce: other, now: 150 }), Action::Broadcast { .. }));
    g.step(Event::Notification(NonceSource::Pending));
    g.step(Event::Transport { finished: false });
    g.step(Event::Emission { nonce: n, delivered: false });
    assert_eq!(g.step(Event::Clock { nonce: n, now: 199 }), Action::Nothing);
    assert_eq!(g.next_send(&n), Some(200));
    assert_eq!(g.next_send(&other), Some(250));
    assert!(matches!(g.step(Event::Clock { nonce: n, now: 200 }), Action::Broadcast { .. }));
    assert_eq!(g.next_send(&n), Some(300));
}
