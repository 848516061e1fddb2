use zcash_wire::action::action;
use zcash_wire::command::{command_bytes, Command};
use zcash_wire::filter::{DrainOutcome, FilterDecision, MessageFilter, RETRY_BUDGET};
use zcash_wire::fuzz::{metadata_compliant_random_bytes, random_bytes, zeroes};
use zcash_wire::handshake::{
    event_of_message, initiator_step, non_version_test_messages, outcome_of_transport_error,
    reject_test_verdict, responder_step, HandshakeAction, HandshakeEvent, HandshakeState,
    ReplyOutcome,
};
use zcash_wire::message::{read_message_from_bytes, Message};
use zcash_wire::payload::Nonce;
use zcash_wire::transport::{
    classify_transport_error, is_termination_error, TransportErrorKind, TransportOutcome,
};
use zcash_wire::MAX_MESSAGE_LEN;
use zcash_wire::codec::ParseError;
use zcash_wire::transport::TransportErrorKind::{
    BrokenPipe, ConnectionAborted, ConnectionReset, Other, TimedOut, UnexpectedEof, WouldBlock,
};
use sha2::Digest;

#[test]
fn filter_decides_canonical_replies() {
    let f = MessageFilter::with_all_auto_reply();
    let v = zcash_wire::version::Version::new(
        zcash_wire::payload::NetAddr::new(1, vec![0; 16], 8233),
        zcash_wire::payload::NetAddr::new(1, vec![1; 16], 8233),
        77,
        1_700_000_000,
    );
    assert_eq!(f.decide(&Message::Version(v)), FilterDecision::Reply(Message::Verack));
    assert_eq!(
        f.decide(&Message::Ping(Nonce::new(99))),
        FilterDecision::Reply(Message::Pong(Nonce::new(99)))
    );
    assert_eq!(f.decide(&Message::Verack), FilterDecision::Consume);
    assert_eq!(f.decide(&Message::GetAddr), FilterDecision::Consume);
    // Kinds the policy table does not cover always reach the caller.
    assert_eq!(f.decide(&Message::Tx(vec![])), FilterDecision::Deliver);

    let off = MessageFilter::with_all_disabled();
    assert_eq!(off.decide(&Message::Ping(Nonce::new(7))), FilterDecision::Deliver);
}

#[test]
fn filter_flood_ends_within_budget() {
    // A peer that sends nothing but auto-replyable traffic: the drain call
    // must give control back after the budget, never hang past it.
    let f = MessageFilter::with_all_auto_reply().enable_logging();
    let flood: Vec<Message> = (0..25u64).map(|i| Message::Ping(Nonce::new(i))).collect();
    let (replies, outcome) = f.next_unfiltered_from(&flood, RETRY_BUDGET);
    assert_eq!(outcome, DrainOutcome::BudgetExhausted { processed: RETRY_BUDGET });
    assert_eq!(replies.len(), RETRY_BUDGET);
    for (i, r) in replies.iter().enumerate() {
        assert_eq!(*r, Message::Pong(Nonce::new(i as u64)));
    }
}

#[test]
fn filter_drains_short_queue() {
    let f = MessageFilter::with_all_auto_reply();
    let queue = vec![
        Message::Ping(Nonce::new(1)),
        Message::Verack,
        Message::Ping(Nonce::new(2)),
    ];
    let (replies, outcome) = f.next_unfiltered_from(&queue, RETRY_BUDGET);
    assert_eq!(outcome, DrainOutcome::QueueEmptied { processed: 3 });
    assert_eq!(
        replies,
        vec![Message::Pong(Nonce::new(1)), Message::Pong(Nonce::new(2))]
    );
}

#[test]
fn filter_delivers_first_unfiltered_message() {
    let f = MessageFilter::with_all_auto_reply();
    let queue = vec![
        Message::Ping(Nonce::new(1)),
        Message::GetAddr,
        Message::Tx(vec![1, 2]),
        Message::Ping(Nonce::new(2)),
    ];
    let (replies, outcome) = f.next_unfiltered_from(&queue, RETRY_BUDGET);
    assert_eq!(outcome, DrainOutcome::Delivered { index: 2 });
    assert_eq!(replies, vec![Message::Pong(Nonce::new(1))]);
}

#[test]
fn transport_errors_collapse_to_three_outcomes() {
    for k in [ConnectionReset, ConnectionAborted, BrokenPipe, UnexpectedEof] {
        assert_eq!(classify_transport_error(k), TransportOutcome::ConnectionTerminated);
        assert!(is_termination_error(k));
    }
    for k in [TimedOut, WouldBlock] {
        assert_eq!(classify_transport_error(k), TransportOutcome::Timeout);
        assert!(!is_termination_error(k));
    }
    assert_eq!(classify_transport_error(Other), TransportOutcome::Unexpected);
    assert!(!is_termination_error(Other));
}

#[test]
fn handshake_responder_scenario() {
    // Send Version, expect Version back, send Verack, expect Verack back.
    let (s1, a1) = responder_step(HandshakeState::Start, HandshakeEvent::Begin);
    assert_eq!((s1, a1), (HandshakeState::VersionSent, HandshakeAction::SendVersion));
    let (s2, a2) = responder_step(s1, HandshakeEvent::GotVersion);
    assert_eq!((s2, a2), (HandshakeState::VerackSent, HandshakeAction::SendVerack));
    let (s3, a3) = responder_step(s2, HandshakeEvent::GotVerack);
    assert_eq!((s3, a3), (HandshakeState::Done, HandshakeAction::Stop));
}

#[test]
fn handshake_responder_rejects_deviation() {
    let (s1, _) = responder_step(HandshakeState::Start, HandshakeEvent::Begin);
    for bad in [HandshakeEvent::GotVerack, HandshakeEvent::GotOther, HandshakeEvent::Interrupted] {
        let (s2, a2) = responder_step(s1, bad);
        assert_eq!((s2, a2), (HandshakeState::Failed, HandshakeAction::Stop));
        // Failure is terminal.
        let (s3, _) = responder_step(s2, HandshakeEvent::GotVersion);
        assert_eq!(s3, HandshakeState::Failed);
    }
    let (s2, _) = responder_step(s1, HandshakeEvent::GotVersion);
    let (s3, _) = responder_step(s2, HandshakeEvent::GotOther);
    assert_eq!(s3, HandshakeState::Failed);
}

#[test]
fn handshake_initiator_scenario() {
    // The node dials us: read its Version, answer Version, expect Verack.
    let (s1, a1) = initiator_step(HandshakeState::Start, HandshakeEvent::GotVersion);
    assert_eq!((s1, a1), (HandshakeState::VersionSent, HandshakeAction::SendVersion));
    let (s2, a2) = initiator_step(s1, HandshakeEvent::GotVerack);
    assert_eq!((s2, a2), (HandshakeState::Done, HandshakeAction::SendVerack));
}

#[test]
fn handshake_events_from_messages() {
    let v = zcash_wire::version::Version::new(
        zcash_wire::payload::NetAddr::new(1, vec![0; 16], 1),
        zcash_wire::payload::NetAddr::new(1, vec![1; 16], 2),
        1,
        1,
    );
    assert_eq!(event_of_message(&Message::Version(v)), HandshakeEvent::GotVersion);
    assert_eq!(event_of_message(&Message::Verack), HandshakeEvent::GotVerack);
    assert_eq!(event_of_message(&Message::GetAddr), HandshakeEvent::GotOther);
}

#[test]
fn reject_non_version_outcomes() {
    // For every injected non-Version message, a node that either completes
    // the handshake or terminates the connection is in-spec; any other
    // message or a timeout is out of spec.
    let injected = non_version_test_messages();
    assert_eq!(injected.len(), 8);
    for m in injected.iter() {
        assert!(!matches!(m, Message::Version(_)));
        for ok in [ReplyOutcome::VerackReceived, ReplyOutcome::Terminated] {
            assert!(reject_test_verdict(ok));
        }
        for bad in [ReplyOutcome::OtherMessage, ReplyOutcome::TimedOut] {
            assert!(!reject_test_verdict(bad));
        }
    }
    assert_eq!(injected[3], Message::Ping(Nonce::default()));
    assert_eq!(injected[4], Message::Pong(Nonce::default()));
}

#[test]
fn reject_outcomes_from_transport_errors() {
    for k in [ConnectionReset, ConnectionAborted, BrokenPipe, UnexpectedEof] {
        assert_eq!(outcome_of_transport_error(k), ReplyOutcome::Terminated);
        assert!(reject_test_verdict(outcome_of_transport_error(k)));
    }
    assert_eq!(outcome_of_transport_error(TimedOut), ReplyOutcome::TimedOut);
    assert!(!reject_test_verdict(outcome_of_transport_error(TimedOut)));
    assert_eq!(outcome_of_transport_error(Other), ReplyOutcome::OtherMessage);
}

#[test]
fn fuzz_zeroes_shape() {
    let bufs = zeroes(7);
    assert_eq!(bufs.len(), 7);
    for b in &bufs {
        assert!(1 <= b.len() && b.len() < 2 * MAX_MESSAGE_LEN as usize);
        assert!(b.iter().all(|&x| x == 0));
    }
}

#[test]
fn fuzz_random_bytes_shape() {
    let bufs = random_bytes(7);
    assert_eq!(bufs.len(), 7);
    for b in &bufs {
        assert!(1 <= b.len() && b.len() < 0x10000);
    }
}

#[test]
fn fuzz_metadata_compliant_shape() {
    let known: Vec<Vec<u8>> = [
        Command::Version,
        Command::Verack,
        Command::Ping,
        Command::Pong,
        Command::GetAddr,
        Command::Addr,
        Command::GetHeaders,
        Command::Headers,
        Command::GetBlocks,
        Command::Block,
        Command::GetData,
        Command::Inv,
        Command::NotFound,
        Command::MemPool,
        Command::Tx,
        Command::Reject,
    ]
    .into_iter()
    .map(command_bytes)
    .collect();

    let frames = metadata_compliant_random_bytes(7);
    assert_eq!(frames.len(), 7);
    for (header, payload) in &frames {
        assert!(known.iter().any(|c| c == &header.command));
        assert_eq!(header.length as usize, payload.len());
        assert_eq!(header.magic, vec![36, 233, 39, 100]);
        let digest = sha2::Sha256::digest(sha2::Sha256::digest(payload));
        assert_eq!(header.checksum.as_slice(), &digest[0..4]);

        // The whole frame passes every header-level check; only command
        // dispatch may reject its random body.
        let mut frame = header.encode();
        frame.extend_from_slice(payload);
        match read_message_from_bytes(&frame) {
            Ok(_) => {}
            Err(e) => {
                assert!(matches!(
                    e,
                    ParseError::TruncatedInput | ParseError::TrailingBytes
                        | ParseError::MalformedField
                ));
            }
        }
    }
}

#[test]
fn action_describes_itself() {
    let a = action();
    assert_eq!(
        a.info(),
        "a synth node which only connects and immediately disconnects properly"
    );
    assert!(!a.config().wait_for_peer);
}
