use randomness_beacon::message::GossipMessage;
use randomness_beacon::message::Message;
use randomness_beacon::message::Nonce;
use randomness_beacon::session::copy_shares;
use randomness_beacon::session::initialize_nonce;
use randomness_beacon::session::OutgoingMessage;
use randomness_beacon::session::Session;

fn share(bytes: &[u8]) -> Message {
    Message::new(bytes.to_vec()).unwrap()
}

#[test]
fn initialize_with_a_share_arms_the_outgoing_message() {
    let n = Nonce([3; 32]);
    let (outgoing, shares) = initialize_nonce(n, Some(share(b"mine")));
    assert_eq!(shares, vec![share(b"mine")]);
    let p = outgoing.unwrap().send();
    assert_eq!(p.topic, n);
    assert!(p.force);
    assert_eq!(p.data, GossipMessage::new(n, share(b"mine")).encode());
}

#[test]
fn initialize_without_a_share_has_neither() {
    let (outgoing, shares) = initialize_nonce(Nonce([3; 32]), None);
    assert!(outgoing.is_none());
    assert!(shares.is_empty());
}

#[test]
fn outgoing_message_sends_the_same_bytes_every_time() {
    let o = OutgoingMessage::new(Nonce([1; 32]), share(&[5; 80]));
    assert_eq!(o.send(), o.send());
    assert_eq!(o.clone().send(), o.send());
    assert_eq!(o.send().data.len(), 32 + 2 + 80);
}

#[test]
fn copy_of_shares_is_equal() {
    let shares = vec![share(b"a"), share(b""), share(&[7; 100])];
    assert_eq!(copy_shares(&shares), shares);
    assert_eq!(copy_shares(&Vec::new()), Vec::<Message>::new());
}

#[test]
fn session_opens_with_its_timer_set() {
    let n = Nonce([8; 32]);
    let (s, complete) = Session::open(n, Some(share(b"own")), 40, 2, 3);
    assert!(!complete);
    assert_eq!(s.nonce(), n);
    assert_eq!(s.share_count(), 1);
    assert!(s.has_outgoing());
    assert!(!s.is_completed());
    assert_eq!(s.next_send(), 42);
    assert_eq!(s.collected(), vec![share(b"own")]);
}

#[test]
fn session_clock_rearms_only_when_it_fires() {
    let n = Nonce([8; 32]);
    let (mut s, _) = Session::open(n, Some(share(b"own")), 40, 2, 3);
    assert!(s.clock(41, 2).is_none());
    assert_eq!(s.next_send(), 42);
    let p = s.clock(45, 2).unwrap();
    assert_eq!(p.data, GossipMessage::new(n, share(b"own")).encode());
    assert_eq!(s.next_send(), 47);
}

#[test]
fn session_accept_tells_the_completing_share() {
    let (mut s, _) = Session::open(Nonce([8; 32]), None, 0, 1, 2);
    assert!(!s.accept(share(b"a"), 2));
    assert!(s.accept(share(b"b"), 2));
    assert!(s.is_completed());
    assert!(!s.accept(share(b"c"), 2));
    assert_eq!(s.share_count(), 3);
    assert_eq!(s.collected(), vec![share(b"a"), share(b"b"), share(b"c")]);
}
