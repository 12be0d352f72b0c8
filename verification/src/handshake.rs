//! The SOCKS5 handshake: the greeting, the connect request, and the replies
//! each of them earns.
//!
//! A session consumes exactly two inbound messages.  A violation seen before
//! a structurally valid request was parsed ends the session silently (the
//! protocol defines no reply for it); a request that is structurally valid
//! but semantically rejected earns a best-effort defined error reply.

use vstd::prelude::*;

use crate::adapter::ChannelEvent;
use crate::addr::decode_addr;
use crate::addr::decode_addr_spec;
use crate::addr::DecodeOutcome;
use crate::addr::DecodeSpec;
use crate::addr::TargetAddress;
use crate::addr::TargetSpec;

verus! {

/// The reply to a valid greeting: version five, no authentication required.
pub open spec fn greeting_reply_spec() -> Seq<u8> {
    seq![5u8, 0u8]
}

/// A reply to a request: version, status, reserved zero, the IPv4 address
/// type and an all-zero placeholder address and port (no local-bind
/// reporting is offered).
pub open spec fn reply_spec(status: u8) -> Seq<u8> {
    seq![5u8, status, 0u8, 1u8, 0u8, 0u8, 0u8, 0u8, 0u8, 0u8]
}

/// A greeting is valid when its version byte is five and its length is two
/// plus its method count.
pub open spec fn greeting_valid(b: Seq<u8>) -> bool {
    b.len() >= 2 && b[0] == 5 && b.len() == 2 + (b[1] as int)
}

/// Handles the greeting message: the reply to send on a valid greeting, or
/// nothing on an invalid one, which ends the session silently.
pub fn process_greeting(msg: &[u8]) -> (r: Option<Vec<u8>>)
    ensures
        greeting_valid(msg@) ==> (r matches Some(rep) && rep@ == greeting_reply_spec()),
        !greeting_valid(msg@) ==> r is None,
{
    let len: usize = msg.len();
    if len >= 2 && msg[0] == 5 && len == 2 + (msg[1] as usize) {
        let mut rep: Vec<u8> = Vec::new();
        rep.push(5);
        rep.push(0);
        proof {
            assert(rep@ =~= greeting_reply_spec());
        }
        Some(rep)
    } else {
        None
    }
}

/// The model of a handshake outcome.
#[verifier::ext_equal]
pub enum HandshakeOutcomeSpec {
    Connect(TargetSpec),
    UnsupportedCommand,
    UnsupportedAddressType,
    MalformedRequest,
}

/// What the request message earned: a target to connect to, a rejection of
/// the command or of the address type (each owed a defined error reply), or
/// a malformed request, which ends the session silently.
pub enum HandshakeOutcome {
    Connect(TargetAddress),
    UnsupportedCommand,
    UnsupportedAddressType,
    MalformedRequest,
}

impl View for HandshakeOutcome {
    type V = HandshakeOutcomeSpec;

    open spec fn view(&self) -> HandshakeOutcomeSpec {
        match self {
            HandshakeOutcome::Connect(t) => HandshakeOutcomeSpec::Connect(t@),
            HandshakeOutcome::UnsupportedCommand => HandshakeOutcomeSpec::UnsupportedCommand,
            HandshakeOutcome::UnsupportedAddressType => {
                HandshakeOutcomeSpec::UnsupportedAddressType
            },
            HandshakeOutcome::MalformedRequest => HandshakeOutcomeSpec::MalformedRequest,
        }
    }
}

/// What a request message decides, byte for byte: too short or of the wrong
/// version is malformed, a command other than connect is unsupported, and
/// otherwise the target-address field settles it.
pub open spec fn request_outcome_spec(b: Seq<u8>) -> HandshakeOutcomeSpec {
    if b.len() < 4 || b[0] != 5 {
        HandshakeOutcomeSpec::MalformedRequest
    } else if b[1] != 1 {
        HandshakeOutcomeSpec::UnsupportedCommand
    } else {
        match decode_addr_spec(b.subrange(3, b.len() as int)) {
            DecodeSpec::Target(t) => HandshakeOutcomeSpec::Connect(t),
            DecodeSpec::UnsupportedAddressType => HandshakeOutcomeSpec::UnsupportedAddressType,
            DecodeSpec::MalformedRequest => HandshakeOutcomeSpec::MalformedRequest,
        }
    }
}

/// Handles the request message.
pub fn process_request(msg: &[u8]) -> (r: HandshakeOutcome)
    ensures
        r@ == request_outcome_spec(msg@),
        r@ matches HandshakeOutcomeSpec::Connect(t) ==> t.wf(),
{
    let len: usize = msg.len();
    if len < 4 || msg[0] != 5 {
        return HandshakeOutcome::MalformedRequest;
    }
    if msg[1] != 1 {
        return HandshakeOutcome::UnsupportedCommand;
    }
    match decode_addr(&msg[3..len]) {
        DecodeOutcome::Target(t) => HandshakeOutcome::Connect(t),
        DecodeOutcome::UnsupportedAddressType => HandshakeOutcome::UnsupportedAddressType,
        DecodeOutcome::MalformedRequest => HandshakeOutcome::MalformedRequest,
    }
}

/// Builds a request reply with the given status byte.
fn make_reply(status: u8) -> (r: Vec<u8>)
    ensures
        r@ == reply_spec(status),
{
    let mut rep: Vec<u8> = Vec::new();
    rep.push(5);
    rep.push(status);
    rep.push(0);
    rep.push(1);
    rep.push(0);
    rep.push(0);
    rep.push(0);
    rep.push(0);
    rep.push(0);
    rep.push(0);
    proof {
        assert(rep@ =~= reply_spec(status));
    }
    rep
}

/// The defined error reply a rejected request is owed, if any: command not
/// supported (status seven) or address type not supported (status eight).
/// A connect outcome is owed its reply only after the connection attempt,
/// and a malformed request is owed none at all.
pub fn outcome_reply(o: &HandshakeOutcome) -> (r: Option<Vec<u8>>)
    ensures
        match o@ {
            HandshakeOutcomeSpec::Connect(_) => r is None,
            HandshakeOutcomeSpec::UnsupportedCommand => r matches Some(rep) && rep@ == reply_spec(
                7,
            ),
            HandshakeOutcomeSpec::UnsupportedAddressType => r matches Some(rep) && rep@
                == reply_spec(8),
            HandshakeOutcomeSpec::MalformedRequest => r is None,
        },
{
    match o {
        HandshakeOutcome::Connect(_) => None,
        HandshakeOutcome::UnsupportedCommand => Some(make_reply(7)),
        HandshakeOutcome::UnsupportedAddressType => Some(make_reply(8)),
        HandshakeOutcome::MalformedRequest => None,
    }
}

/// The reply that reports the connection attempt: status zero on success,
/// status one (general failure) otherwise.
pub fn connect_reply(connected: bool) -> (r: Vec<u8>)
    ensures
        connected ==> r@ == reply_spec(0),
        !connected ==> r@ == reply_spec(1),
{
    if connected {
        make_reply(0)
    } else {
        make_reply(1)
    }
}

/// A request whose command is not connect is rejected as an unsupported
/// command, never as a target to connect to, whatever its address field
/// holds.
pub proof fn lemma_non_connect_command_rejected(b: Seq<u8>)
    requires
        b.len() >= 4,
        b[0] == 5,
        b[1] != 1,
    ensures
        request_outcome_spec(b) == HandshakeOutcomeSpec::UnsupportedCommand,
{
}

/// A connect request for an IPv4 target is accepted exactly when it is ten
/// bytes long, and then the target is the four address bytes and the
/// big-endian port that follow the address type.
pub proof fn lemma_ipv4_request(b: Seq<u8>)
    requires
        b.len() >= 4,
        b[0] == 5,
        b[1] == 1,
        b[3] == 1,
    ensures
        b.len() == 10 ==> request_outcome_spec(b) == HandshakeOutcomeSpec::Connect(
            TargetSpec::V4 { addr: b.subrange(4, 8), port: crate::wire::be16(b[8], b[9]) },
        ),
        b.len() != 10 ==> request_outcome_spec(b) == HandshakeOutcomeSpec::MalformedRequest,
{
    let f = b.subrange(3, b.len() as int);
    assert(f[0] == 1);
    if b.len() == 10 {
        assert(f.len() == 7);
        assert(f.subrange(1, 5) =~= b.subrange(4, 8));
        assert(f[5] == b[8] && f[6] == b[9]);
    }
}

/// A connect request for a domain target whose length byte is `n` is
/// rejected as malformed unless its total length is the header, the length
/// byte, `n` name bytes and the port; at exactly that length, with a valid
/// UTF-8 name, the decoded name is those `n` bytes.
pub proof fn lemma_domain_request(b: Seq<u8>, n: u8)
    requires
        b.len() >= 5,
        b[0] == 5,
        b[1] == 1,
        b[3] == 3,
        b[4] == n,
    ensures
        b.len() != 4 + 1 + (n as int) + 2 ==> request_outcome_spec(b)
            == HandshakeOutcomeSpec::MalformedRequest,
        b.len() == 4 + 1 + (n as int) + 2 && vstd::utf8::valid_utf8(
            b.subrange(5, 5 + (n as int)),
        ) ==> request_outcome_spec(b) == HandshakeOutcomeSpec::Connect(
            TargetSpec::Domain {
                name: b.subrange(5, 5 + (n as int)),
                port: crate::wire::be16(b[5 + (n as int)], b[6 + (n as int)]),
            },
        ),
{
    let f = b.subrange(3, b.len() as int);
    assert(f[0] == 3);
    assert(f[1] == n);
    if b.len() == 4 + 1 + (n as int) + 2 {
        assert(f.len() == 4 + (n as int));
        assert(f.subrange(2, 2 + (n as int)) =~= b.subrange(5, 5 + (n as int)));
        assert(f[2 + (n as int)] == b[5 + (n as int)]);
        assert(f[3 + (n as int)] == b[6 + (n as int)]);
    }
}

/// A connect request for an IPv6 target is accepted exactly when it is
/// twenty-two bytes long, and then the target's eight groups are the
/// big-endian pairs of the sixteen address bytes, and the last two bytes are
/// the big-endian port.
pub proof fn lemma_ipv6_request(b: Seq<u8>)
    requires
        b.len() >= 4,
        b[0] == 5,
        b[1] == 1,
        b[3] == 4,
    ensures
        b.len() == 22 ==> request_outcome_spec(b) == HandshakeOutcomeSpec::Connect(
            TargetSpec::V6 {
                groups: Seq::new(8, |i: int| crate::wire::be16(b[4 + 2 * i], b[5 + 2 * i])),
                port: crate::wire::be16(b[20], b[21]),
            },
        ),
        b.len() != 22 ==> request_outcome_spec(b) == HandshakeOutcomeSpec::MalformedRequest,
{
    let f = b.subrange(3, b.len() as int);
    assert(f[0] == 4);
    if b.len() == 22 {
        assert(f.len() == 19);
        let from_field = Seq::new(8, |i: int| crate::wire::be16(f[1 + 2 * i], f[2 + 2 * i]));
        let from_request = Seq::new(8, |i: int| crate::wire::be16(b[4 + 2 * i], b[5 + 2 * i]));
        assert forall|i: int| 0 <= i < 8 implies from_field[i] == from_request[i] by {
            assert(f[1 + 2 * i] == b[4 + 2 * i]);
            assert(f[2 + 2 * i] == b[5 + 2 * i]);
        }
        assert(from_field =~= from_request);
        assert(f[17] == b[20] && f[18] == b[21]);
    }
}

/// Where the handshake stands: awaiting the greeting, awaiting the request,
/// or finished.
#[derive(Debug, PartialEq, Eq, Structural)]
pub enum HandshakeState {
    AwaitGreeting,
    AwaitRequest,
    Done,
}

/// What the session must do next with the action the machine chose.
pub enum HandshakeAction {
    /// Send this reply; on success feed the machine the next event.
    SendGreetingReply(Vec<u8>),
    /// Send this defined error reply best-effort, then end the session.
    SendErrorReply(Vec<u8>),
    /// End the session without sending anything.
    AbortSilently,
    /// The handshake accepted this target: attempt the connection, then
    /// send the connect reply.
    OpenConnection(TargetAddress),
}

/// The handshake as a state machine over inbound channel events.  It is
/// driven by exactly two events; everything after the second, and any
/// non-binary or end-of-channel event, ends it.
pub struct HandshakeMachine {
    pub state: HandshakeState,
}

impl HandshakeMachine {
    /// A fresh machine awaiting the greeting.
    pub fn new() -> (m: Self)
        ensures
            m.state == HandshakeState::AwaitGreeting,
    {
        HandshakeMachine { state: HandshakeState::AwaitGreeting }
    }

    /// Consumes one inbound event and decides the next action.
    pub fn step(&mut self, event: ChannelEvent) -> (a: HandshakeAction)
        ensures
            match event {
                ChannelEvent::Binary(msg) => {
                    if old(self).state == HandshakeState::AwaitGreeting {
                        if greeting_valid(msg@) {
                            &&& final(self).state == HandshakeState::AwaitRequest
                            &&& a matches HandshakeAction::SendGreetingReply(rep) && rep@
                                == greeting_reply_spec()
                        } else {
                            &&& final(self).state == HandshakeState::Done
                            &&& a is AbortSilently
                        }
                    } else if old(self).state == HandshakeState::AwaitRequest {
                        &&& final(self).state == HandshakeState::Done
                        &&& match request_outcome_spec(msg@) {
                            HandshakeOutcomeSpec::Connect(t) => a matches
                                HandshakeAction::OpenConnection(target) && target@ == t && t.wf(),
                            HandshakeOutcomeSpec::UnsupportedCommand => a matches
                                HandshakeAction::SendErrorReply(rep) && rep@ == reply_spec(7),
                            HandshakeOutcomeSpec::UnsupportedAddressType => a matches
                                HandshakeAction::SendErrorReply(rep) && rep@ == reply_spec(8),
                            HandshakeOutcomeSpec::MalformedRequest => a is AbortSilently,
                        }
                    } else {
                        &&& final(self).state == HandshakeState::Done
                        &&& a is AbortSilently
                    }
                },
                _ => final(self).state == HandshakeState::Done && a is AbortSilently,
            },
    {
        match event {
            ChannelEvent::Binary(msg) => {
                if self.state == HandshakeState::AwaitGreeting {
                    match process_greeting(msg.as_slice()) {
                        Some(rep) => {
                            self.state = HandshakeState::AwaitRequest;
                            HandshakeAction::SendGreetingReply(rep)
                        },
                        None => {
                            self.state = HandshakeState::Done;
                            HandshakeAction::AbortSilently
                        },
                    }
                } else if self.state == HandshakeState::AwaitRequest {
                    self.state = HandshakeState::Done;
                    match process_request(msg.as_slice()) {
                        HandshakeOutcome::Connect(t) => HandshakeAction::OpenConnection(t),
                        HandshakeOutcome::UnsupportedCommand => HandshakeAction::SendErrorReply(
                            make_reply(7),
                        ),
                        HandshakeOutcome::UnsupportedAddressType => {
                            HandshakeAction::SendErrorReply(make_reply(8))
                        },
                        HandshakeOutcome::MalformedRequest => HandshakeAction::AbortSilently,
                    }
                } else {
                    self.state = HandshakeState::Done;
                    HandshakeAction::AbortSilently
                }
            },
            _ => {
                self.state = HandshakeState::Done;
                HandshakeAction::AbortSilently
            },
        }
    }
}

} // verus!
