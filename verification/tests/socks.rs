use wsocks::adapter::ChannelEvent;
use wsocks::adapter::ReadError;
use wsocks::adapter::WebSocketConnection;
use wsocks::addr::decode_addr;
use wsocks::addr::encode_addr;
use wsocks::addr::addr_text;
use wsocks::addr::connect_string;
use wsocks::addr::DecodeOutcome;
use wsocks::addr::TargetAddress;
use wsocks::handshake::connect_reply;
use wsocks::handshake::outcome_reply;
use wsocks::handshake::process_greeting;
use wsocks::handshake::process_request;
use wsocks::handshake::HandshakeAction;
use wsocks::handshake::HandshakeMachine;
use wsocks::handshake::HandshakeOutcome;
use wsocks::handshake::HandshakeState;

#[test]
fn greeting_valid_gets_no_auth_reply() {
    assert_eq!(process_greeting(&[5, 1, 0]), Some(vec![5, 0]));
    assert_eq!(process_greeting(&[5, 0]), Some(vec![5, 0]));
    assert_eq!(process_greeting(&[5, 3, 0, 1, 2]), Some(vec![5, 0]));
}

#[test]
fn greeting_invalid_gets_no_reply() {
    assert_eq!(process_greeting(&[]), None);
    assert_eq!(process_greeting(&[5]), None);
    assert_eq!(process_greeting(&[4, 1, 0]), None);
    assert_eq!(process_greeting(&[5, 2, 0]), None);
    assert_eq!(process_greeting(&[5, 0, 0]), None);
}

#[test]
fn non_connect_command_is_rejected_without_connecting() {
    let req = [5u8, 2, 0, 1, 127, 0, 0, 1, 0, 80];
    let outcome = process_request(&req);
    assert!(matches!(outcome, HandshakeOutcome::UnsupportedCommand));
    let reply = outcome_reply(&outcome);
    assert_eq!(reply, Some(vec![5, 7, 0, 1, 0, 0, 0, 0, 0, 0]));
}

#[test]
fn wrong_version_or_short_request_is_malformed() {
    assert!(matches!(
        process_request(&[4, 1, 0, 1, 127, 0, 0, 1, 0, 80]),
        HandshakeOutcome::MalformedRequest
    ));
    assert!(matches!(
        process_request(&[5, 1, 0]),
        HandshakeOutcome::MalformedRequest
    ));
    assert_eq!(
        outcome_reply(&HandshakeOutcome::MalformedRequest),
        None
    );
}

#[test]
fn ipv4_request_of_ten_bytes_decodes_address_and_port() {
    let req = [5u8, 1, 0, 1, 127, 0, 0, 1, 0x12, 0x34];
    match process_request(&req) {
        HandshakeOutcome::Connect(TargetAddress::V4 { addr, port }) => {
            assert_eq!(addr, vec![127, 0, 0, 1]);
            assert_eq!(port, 0x1234);
        }
        _ => panic!("expected an IPv4 connect target"),
    }
}

#[test]
fn ipv4_field_of_wrong_length_is_malformed() {
    assert!(matches!(
        decode_addr(&[1, 127, 0, 0, 1, 0]),
        DecodeOutcome::MalformedRequest
    ));
    assert!(matches!(
        decode_addr(&[1, 127, 0, 0, 1, 0, 80, 9]),
        DecodeOutcome::MalformedRequest
    ));
}

#[test]
fn domain_request_of_exact_length_is_accepted() {
    // atyp 3, length 11, "example.com", port 8080
    let mut req = vec![5u8, 1, 0, 3, 11];
    req.extend_from_slice(b"example.com");
    req.extend_from_slice(&[0x1F, 0x90]);
    assert_eq!(req.len(), 4 + 1 + 11 + 2);
    match process_request(&req) {
        HandshakeOutcome::Connect(TargetAddress::Domain { name, port }) => {
            assert_eq!(name, b"example.com".to_vec());
            assert_eq!(port, 8080);
        }
        _ => panic!("expected a domain connect target"),
    }
}

#[test]
fn domain_request_of_other_length_is_malformed() {
    // length byte says 11, but one name byte is missing
    let mut short = vec![5u8, 1, 0, 3, 11];
    short.extend_from_slice(b"example.co");
    short.extend_from_slice(&[0x1F, 0x90]);
    assert!(matches!(
        process_request(&short),
        HandshakeOutcome::MalformedRequest
    ));
    // one byte too many
    let mut long = vec![5u8, 1, 0, 3, 11];
    long.extend_from_slice(b"example.com!");
    long.extend_from_slice(&[0x1F, 0x90]);
    assert!(matches!(
        process_request(&long),
        HandshakeOutcome::MalformedRequest
    ));
}

#[test]
fn domain_name_must_be_utf8() {
    let req = [5u8, 1, 0, 3, 2, 0xFF, 0xFE, 0, 80];
    assert!(matches!(
        process_request(&req),
        HandshakeOutcome::MalformedRequest
    ));
}

#[test]
fn ipv6_request_of_twenty_two_bytes_decodes_groups_and_port() {
    let req = [
        5u8, 1, 0, 4, 0x20, 0x01, 0x0d, 0xb8, 0, 0, 0, 0, 0, 0, 0, 0, 0, 0, 0x00, 0x01, 0x01,
        0xbb,
    ];
    assert_eq!(req.len(), 22);
    match process_request(&req) {
        HandshakeOutcome::Connect(TargetAddress::V6 { groups, port }) => {
            assert_eq!(groups, vec![0x2001, 0x0db8, 0, 0, 0, 0, 0, 1]);
            assert_eq!(port, 443);
        }
        _ => panic!("expected an IPv6 connect target"),
    }
}

#[test]
fn ipv6_request_of_other_length_is_rejected() {
    let short = [5u8, 1, 0, 4, 0, 0, 0, 0, 0, 0, 0, 0, 0, 0, 0, 0, 0, 0, 0, 0, 80];
    assert!(matches!(
        process_request(&short),
        HandshakeOutcome::MalformedRequest
    ));
    let long = [
        5u8, 1, 0, 4, 0, 0, 0, 0, 0, 0, 0, 0, 0, 0, 0, 0, 0, 0, 0, 0, 0, 80, 9,
    ];
    assert!(matches!(
        process_request(&long),
        HandshakeOutcome::MalformedRequest
    ));
}

#[test]
fn unknown_address_type_is_unsupported() {
    let req = [5u8, 1, 0, 5, 1, 2, 3, 4, 0, 80];
    let outcome = process_request(&req);
    assert!(matches!(outcome, HandshakeOutcome::UnsupportedAddressType));
    assert_eq!(
        outcome_reply(&outcome),
        Some(vec![5, 8, 0, 1, 0, 0, 0, 0, 0, 0])
    );
}

#[test]
fn connect_replies_report_the_attempt() {
    assert_eq!(connect_reply(true), vec![5, 0, 0, 1, 0, 0, 0, 0, 0, 0]);
    assert_eq!(connect_reply(false), vec![5, 1, 0, 1, 0, 0, 0, 0, 0, 0]);
}

#[test]
fn machine_runs_greeting_then_request() {
    let mut m = HandshakeMachine::new();
    assert_eq!(m.state, HandshakeState::AwaitGreeting);
    let a = m.step(ChannelEvent::Binary(vec![5, 1, 0]));
    match a {
        HandshakeAction::SendGreetingReply(rep) => assert_eq!(rep, vec![5, 0]),
        _ => panic!("expected the greeting reply"),
    }
    assert_eq!(m.state, HandshakeState::AwaitRequest);
    let a = m.step(ChannelEvent::Binary(vec![5, 1, 0, 1, 127, 0, 0, 1, 0, 80]));
    match a {
        HandshakeAction::OpenConnection(TargetAddress::V4 { addr, port }) => {
            assert_eq!(addr, vec![127, 0, 0, 1]);
            assert_eq!(port, 80);
        }
        _ => panic!("expected a connection attempt"),
    }
    assert_eq!(m.state, HandshakeState::Done);
    // anything after the handshake is over is ignored silently
    let a = m.step(ChannelEvent::Binary(vec![5, 1, 0]));
    assert!(matches!(a, HandshakeAction::AbortSilently));
}

#[test]
fn machine_aborts_on_invalid_greeting_or_non_binary_events() {
    let mut m = HandshakeMachine::new();
    let a = m.step(ChannelEvent::Binary(vec![4, 1, 0]));
    assert!(matches!(a, HandshakeAction::AbortSilently));
    assert_eq!(m.state, HandshakeState::Done);

    let mut m = HandshakeMachine::new();
    let a = m.step(ChannelEvent::Other);
    assert!(matches!(a, HandshakeAction::AbortSilently));
    assert_eq!(m.state, HandshakeState::Done);

    let mut m = HandshakeMachine::new();
    let a = m.step(ChannelEvent::Closed);
    assert!(matches!(a, HandshakeAction::AbortSilently));
    assert_eq!(m.state, HandshakeState::Done);
}

#[test]
fn machine_rejects_non_connect_command_with_defined_reply() {
    let mut m = HandshakeMachine::new();
    m.step(ChannelEvent::Binary(vec![5, 1, 0]));
    let a = m.step(ChannelEvent::Binary(vec![5, 3, 0, 1, 127, 0, 0, 1, 0, 80]));
    match a {
        HandshakeAction::SendErrorReply(rep) => {
            assert_eq!(rep, vec![5, 7, 0, 1, 0, 0, 0, 0, 0, 0])
        }
        _ => panic!("expected the command-not-supported reply"),
    }
}

#[test]
fn encode_then_decode_reproduces_ipv4_target() {
    let t = TargetAddress::V4 { addr: vec![10, 0, 0, 7], port: 65535 };
    let field = encode_addr(&t);
    assert_eq!(field, vec![1, 10, 0, 0, 7, 0xFF, 0xFF]);
    match decode_addr(&field) {
        DecodeOutcome::Target(TargetAddress::V4 { addr, port }) => {
            assert_eq!(addr, vec![10, 0, 0, 7]);
            assert_eq!(port, 65535);
        }
        _ => panic!("round trip lost the IPv4 target"),
    }
}

#[test]
fn encode_then_decode_reproduces_ipv6_target() {
    let groups = vec![0x2001u16, 0x0db8, 0, 0x8d3, 0, 0x8a2e, 0x70, 0x7344];
    let t = TargetAddress::V6 { groups: groups.clone(), port: 993 };
    let field = encode_addr(&t);
    assert_eq!(field.len(), 19);
    match decode_addr(&field) {
        DecodeOutcome::Target(TargetAddress::V6 { groups: g, port }) => {
            assert_eq!(g, groups);
            assert_eq!(port, 993);
        }
        _ => panic!("round trip lost the IPv6 target"),
    }
}

#[test]
fn encode_then_decode_reproduces_domain_target() {
    let t = TargetAddress::Domain { name: b"np.example".to_vec(), port: 0 };
    let field = encode_addr(&t);
    assert_eq!(field[0], 3);
    assert_eq!(field[1], 10);
    match decode_addr(&field) {
        DecodeOutcome::Target(TargetAddress::Domain { name, port }) => {
            assert_eq!(name, b"np.example".to_vec());
            assert_eq!(port, 0);
        }
        _ => panic!("round trip lost the domain target"),
    }
}

#[test]
fn targets_spell_as_connectable_text() {
    let v4 = TargetAddress::V4 { addr: vec![127, 0, 0, 1], port: 80 };
    assert_eq!(connect_string(&v4), "127.0.0.1:80");
    assert_eq!(addr_text(&v4), b"127.0.0.1:80".to_vec());

    let v6 = TargetAddress::V6 {
        groups: vec![0x2001, 0x0db8, 0, 0, 0, 0, 0, 1],
        port: 443,
    };
    assert_eq!(connect_string(&v6), "[2001:db8:0:0:0:0:0:1]:443");

    let dom = TargetAddress::Domain { name: b"example.com".to_vec(), port: 8080 };
    assert_eq!(connect_string(&dom), "example.com:8080");
}

#[test]
fn full_handshake_for_local_target_produces_the_protocol_bytes() {
    // greeting [05 01 00] earns [05 00]; the connect request for
    // 127.0.0.1:80 earns a connection attempt; a successful attempt earns
    // [05 00 00 01 00 00 00 00 00 00].
    let mut m = HandshakeMachine::new();
    match m.step(ChannelEvent::Binary(vec![0x05, 0x01, 0x00])) {
        HandshakeAction::SendGreetingReply(rep) => assert_eq!(rep, vec![0x05, 0x00]),
        _ => panic!("expected the greeting reply"),
    }
    let req = vec![0x05, 0x01, 0x00, 0x01, 0x7F, 0x00, 0x00, 0x01, 0x00, 0x50];
    let target = match m.step(ChannelEvent::Binary(req)) {
        HandshakeAction::OpenConnection(t) => t,
        _ => panic!("expected a connection attempt"),
    };
    assert_eq!(connect_string(&target), "127.0.0.1:80");
    assert_eq!(
        connect_reply(true),
        vec![0x05, 0x00, 0x00, 0x01, 0x00, 0x00, 0x00, 0x00, 0x00, 0x00]
    );
}

#[test]
fn failed_connection_attempt_earns_the_general_failure_reply() {
    assert_eq!(
        connect_reply(false),
        vec![0x05, 0x01, 0x00, 0x01, 0x00, 0x00, 0x00, 0x00, 0x00, 0x00]
    );
}

#[test]
fn adapter_reassembles_a_relayed_message_without_loss() {
    let payload: Vec<u8> = (0u8..=255).collect();
    let mut c = WebSocketConnection::new();
    assert!(c
        .accept_event(ChannelEvent::Binary(payload.clone()))
        .is_ok());
    let mut got: Vec<u8> = Vec::new();
    while !c.needs_message() {
        got.extend_from_slice(&c.take(7));
    }
    assert_eq!(got, payload);
}

#[test]
fn adapter_truncates_and_keeps_the_remainder() {
    let mut c = WebSocketConnection::new();
    assert!(c.needs_message());
    assert!(c.accept_event(ChannelEvent::Binary(vec![1, 2, 3, 4, 5])).is_ok());
    assert!(!c.needs_message());
    assert_eq!(c.take(2), vec![1, 2]);
    assert_eq!(c.take(2), vec![3, 4]);
    assert!(!c.needs_message());
    assert_eq!(c.take(100), vec![5]);
    assert!(c.needs_message());
    assert_eq!(c.take(4), Vec::<u8>::new());
}

#[test]
fn adapter_surfaces_bad_events_as_fatal_read_errors() {
    let mut c = WebSocketConnection::new();
    assert!(matches!(
        c.accept_event(ChannelEvent::Other),
        Err(ReadError::UnsupportedMessageKind)
    ));
    assert!(matches!(
        c.accept_event(ChannelEvent::Closed),
        Err(ReadError::UnexpectedEndOfStream)
    ));
    assert!(c.needs_message());
}
