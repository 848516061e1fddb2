use vstd::prelude::*;
use crate::message::{Message, MessageV};
use crate::payload::{Addr, Nonce};
use crate::block::Headers;
use crate::transport::{spec_classify, TransportErrorKind, TransportOutcome};

verus! {

/// Where a handshake stands. Both canonical protocols move through the same
/// states; which messages move them differs by side.
#[derive(Clone, Copy, Debug, PartialEq, Eq, Structural)]
pub enum HandshakeState {
    /// Nothing exchanged yet.
    Start,
    /// Our Version is out; the peer's Version is owed.
    VersionSent,
    /// The peer's Version arrived and our Verack is out; their Verack is
    /// owed.
    VerackSent,
    /// Version and Verack both exchanged: the handshake is complete.
    Done,
    /// A wrong message, a timeout or a termination ended the attempt.
    Failed,
}

/// What the driver must do after a step.
#[derive(Clone, Copy, Debug, PartialEq, Eq, Structural)]
pub enum HandshakeAction {
    /// Send our Version body.
    SendVersion,
    /// Send our Verack.
    SendVerack,
    /// Nothing to send; wait for the peer.
    Wait,
    /// The exchange is over, completed or failed; stop driving.
    Stop,
}

/// Which kind of message moved a handshake, with everything else collapsed:
/// only Version and Verack steer the exchange.
#[derive(Clone, Copy, Debug, PartialEq, Eq, Structural)]
pub enum HandshakeEvent {
    /// The connection is open and the machine should begin.
    Begin,
    /// A Version arrived.
    GotVersion,
    /// A Verack arrived.
    GotVerack,
    /// Any other message arrived.
    GotOther,
    /// The read deadline expired or the peer closed the connection.
    Interrupted,
}

/// The event a received message raises.
pub fn event_of_message(m: &Message) -> (r: HandshakeEvent)
    ensures
        r == HandshakeEvent::GotVersion <==> m@ is Version,
        r == HandshakeEvent::GotVerack <==> m@ is Verack,
        r == HandshakeEvent::GotOther <==> (!(m@ is Version) && !(m@ is Verack)),
{
    match m {
        Message::Version(_) => HandshakeEvent::GotVersion,
        Message::Verack => HandshakeEvent::GotVerack,
        _ => HandshakeEvent::GotOther,
    }
}

/// One step of the responder-side protocol: the test dials the node, sends
/// Version, expects Version back, sends Verack, expects Verack back. Any
/// deviation fails the exchange.
pub open spec fn spec_responder_step(st: HandshakeState, ev: HandshakeEvent) -> (
    HandshakeState,
    HandshakeAction,
) {
    match (st, ev) {
        (HandshakeState::Start, HandshakeEvent::Begin) => (
            HandshakeState::VersionSent,
            HandshakeAction::SendVersion,
        ),
        (HandshakeState::VersionSent, HandshakeEvent::GotVersion) => (
            HandshakeState::VerackSent,
            HandshakeAction::SendVerack,
        ),
        (HandshakeState::VerackSent, HandshakeEvent::GotVerack) => (
            HandshakeState::Done,
            HandshakeAction::Stop,
        ),
        (HandshakeState::Done, _) => (HandshakeState::Done, HandshakeAction::Stop),
        (HandshakeState::Failed, _) => (HandshakeState::Failed, HandshakeAction::Stop),
        _ => (HandshakeState::Failed, HandshakeAction::Stop),
    }
}

pub fn responder_step(st: HandshakeState, ev: HandshakeEvent) -> (r: (
    HandshakeState,
    HandshakeAction,
))
    ensures
        r == spec_responder_step(st, ev),
{
    match (st, ev) {
        (HandshakeState::Start, HandshakeEvent::Begin) => (
            HandshakeState::VersionSent,
            HandshakeAction::SendVersion,
        ),
        (HandshakeState::VersionSent, HandshakeEvent::GotVersion) => (
            HandshakeState::VerackSent,
            HandshakeAction::SendVerack,
        ),
        (HandshakeState::VerackSent, HandshakeEvent::GotVerack) => (
            HandshakeState::Done,
            HandshakeAction::Stop,
        ),
        (HandshakeState::Done, _) => (HandshakeState::Done, HandshakeAction::Stop),
        (HandshakeState::Failed, _) => (HandshakeState::Failed, HandshakeAction::Stop),
        _ => (HandshakeState::Failed, HandshakeAction::Stop),
    }
}

/// One step of the initiator-side protocol: the node dials us; we read its
/// Version, answer with our Version, expect its Verack, then send ours.
pub open spec fn spec_initiator_step(st: HandshakeState, ev: HandshakeEvent) -> (
    HandshakeState,
    HandshakeAction,
) {
    match (st, ev) {
        (HandshakeState::Start, HandshakeEvent::GotVersion) => (
            HandshakeState::VersionSent,
            HandshakeAction::SendVersion,
        ),
        (HandshakeState::VersionSent, HandshakeEvent::GotVerack) => (
            HandshakeState::Done,
            HandshakeAction::SendVerack,
        ),
        (HandshakeState::Done, _) => (HandshakeState::Done, HandshakeAction::Stop),
        (HandshakeState::Failed, _) => (HandshakeState::Failed, HandshakeAction::Stop),
        _ => (HandshakeState::Failed, HandshakeAction::Stop),
    }
}

pub fn initiator_step(st: HandshakeState, ev: HandshakeEvent) -> (r: (
    HandshakeState,
    HandshakeAction,
))
    ensures
        r == spec_initiator_step(st, ev),
{
    match (st, ev) {
        (HandshakeState::Start, HandshakeEvent::GotVersion) => (
            HandshakeState::VersionSent,
            HandshakeAction::SendVersion,
        ),
        (HandshakeState::VersionSent, HandshakeEvent::GotVerack) => (
            HandshakeState::Done,
            HandshakeAction::SendVerack,
        ),
        (HandshakeState::Done, _) => (HandshakeState::Done, HandshakeAction::Stop),
        (HandshakeState::Failed, _) => (HandshakeState::Failed, HandshakeAction::Stop),
        _ => (HandshakeState::Failed, HandshakeAction::Stop),
    }
}

/// The responder exchange completes on exactly the event order Begin,
/// GotVersion, GotVerack, answering SendVersion then SendVerack; any
/// received deviation fails it and no later event revives it.
pub proof fn lemma_responder_accepts_exactly_version_then_verack(
    e1: HandshakeEvent,
    e2: HandshakeEvent,
)
    ensures
        ({
            let (s1, a1) = spec_responder_step(HandshakeState::Start, HandshakeEvent::Begin);
            let (s2, a2) = spec_responder_step(s1, e1);
            let (s3, a3) = spec_responder_step(s2, e2);
            &&& a1 == HandshakeAction::SendVersion
            &&& (s3 == HandshakeState::Done <==> (e1 == HandshakeEvent::GotVersion && e2
                == HandshakeEvent::GotVerack))
            &&& (e1 == HandshakeEvent::GotVersion ==> a2 == HandshakeAction::SendVerack)
            &&& (e1 != HandshakeEvent::GotVersion ==> s2 == HandshakeState::Failed)
        }),
{
}

/// The final outcome a non-Version-reply test observes after injecting its
/// message and completing its own Version send.
#[derive(Clone, Copy, Debug, PartialEq, Eq, Structural)]
pub enum ReplyOutcome {
    /// The node ignored the injection and completed the handshake.
    VerackReceived,
    /// The node answered with some other message kind.
    OtherMessage,
    /// The node terminated the connection.
    Terminated,
    /// The node went silent past the deadline.
    TimedOut,
}

/// The observed outcome a transport error maps to in this scenario.
pub fn outcome_of_transport_error(k: TransportErrorKind) -> (r: ReplyOutcome)
    ensures
        r == ReplyOutcome::Terminated <==> spec_classify(k)
            == TransportOutcome::ConnectionTerminated,
        r == ReplyOutcome::TimedOut <==> spec_classify(k) == TransportOutcome::Timeout,
        r == ReplyOutcome::OtherMessage <==> spec_classify(k) == TransportOutcome::Unexpected,
    {
    match crate::transport::classify_transport_error(k) {
        TransportOutcome::ConnectionTerminated => ReplyOutcome::Terminated,
        TransportOutcome::Timeout => ReplyOutcome::TimedOut,
        TransportOutcome::Unexpected => ReplyOutcome::OtherMessage,
    }
}

/// A node is in-spec after a non-Version injection exactly when it either
/// ignored the message and still completed the handshake, or terminated the
/// connection; any other message, or a timeout, is out of spec.
pub fn reject_test_verdict(outcome: ReplyOutcome) -> (r: bool)
    ensures
        r == (outcome == ReplyOutcome::VerackReceived || outcome == ReplyOutcome::Terminated),
{
    matches!(outcome, ReplyOutcome::VerackReceived | ReplyOutcome::Terminated)
}

/// The non-Version messages the rejection scenario injects, one independent
/// concurrent connection each.
pub fn non_version_test_messages() -> (r: Vec<Message>)
    ensures
        r@.len() == 8,
        r@[0]@ == MessageV::GetAddr,
        r@[1]@ == MessageV::MemPool,
        r@[2]@ == MessageV::Verack,
        r@[3]@ matches MessageV::Ping(n) && n.value == 0,
        r@[4]@ matches MessageV::Pong(n) && n.value == 0,
        r@[5]@ == MessageV::GetAddr,
        r@[6]@ matches MessageV::Addr(a) && a.addrs.len() == 0,
        r@[7]@ matches MessageV::Headers(h) && h.headers.len() == 0,
        forall|i: int| 0 <= i < 8 ==> !((#[trigger] r@[i])@ is Version),
        forall|i: int| 0 <= i < 8 ==> (#[trigger] r@[i])@.wf(),
{
    let mut v: Vec<Message> = Vec::new();
    v.push(Message::GetAddr);
    v.push(Message::MemPool);
    v.push(Message::Verack);
    v.push(Message::Ping(Nonce::zero()));
    v.push(Message::Pong(Nonce::zero()));
    v.push(Message::GetAddr);
    v.push(Message::Addr(Addr::empty()));
    v.push(Message::Headers(Headers::empty()));
    v
}

} // verus!
