use freeswitch_esl::command::{api_command, auth_command, event_command, word_command};
use freeswitch_esl::{
    api_outcome, bgapi_outcome, decode_frame, ConnectionMode, EslError, Event, Handshake,
    HandshakeState, ProtocolFault, Step,
};

fn frame(bytes: &[u8]) -> Event {
    decode_frame(bytes).unwrap().unwrap().0
}

fn reply(text: &str) -> Event {
    frame(format!("Content-Type: command/reply\nReply-Text: {}\n\n", text).as_bytes())
}

fn sent(s: Step) -> Vec<u8> {
    match s {
        Step::Send(b) => b,
        other => panic!("expected bytes to send, got {:?}", other),
    }
}

const SUBSCRIBE: &[u8] = b"event json BACKGROUND_JOB CHANNEL_EXECUTE_COMPLETE\n\n";

#[test]
fn inbound_auth_accepted() {
    let mut h = Handshake::inbound("ClueCon");
    let s = h.on_frame(&frame(b"Content-Type: auth/request\n\n"));
    assert_eq!(sent(s), b"auth ClueCon\n\n".to_vec());
    assert_eq!(h.state(), HandshakeState::AwaitAuthReply);
    let s = h.on_frame(&reply("+OK accepted\n"));
    assert_eq!(sent(s), SUBSCRIBE.to_vec());
    assert!(h.connected());
    assert!(matches!(h.on_frame(&reply("+OK\n")), Step::Ready));
    assert_eq!(h.state(), HandshakeState::Ready);
    assert!(h.connected());
}

#[test]
fn inbound_auth_refused() {
    let mut h = Handshake::inbound("wrong");
    h.on_frame(&frame(b"Content-Type: auth/request\n\n"));
    match h.on_frame(&reply("-ERR invalid\n")) {
        Step::Fail(e) => assert_eq!(e, EslError::AuthFailed),
        other => panic!("unexpected {:?}", other),
    }
    assert!(!h.connected());
    assert_eq!(h.state(), HandshakeState::Failed);
}

#[test]
fn inbound_unknown_auth_status() {
    let mut h = Handshake::inbound("pw");
    h.on_frame(&frame(b"Content-Type: auth/request\n\n"));
    match h.on_frame(&reply("maybe so\n")) {
        Step::Fail(e) => assert_eq!(e, EslError::ProtocolError(ProtocolFault::UnknownStatus)),
        other => panic!("unexpected {:?}", other),
    }
}

#[test]
fn inbound_reply_without_text() {
    let mut h = Handshake::inbound("pw");
    h.on_frame(&frame(b"Content-Type: auth/request\n\n"));
    match h.on_frame(&frame(b"Content-Type: command/reply\n\n")) {
        Step::Fail(e) => assert_eq!(e, EslError::ProtocolError(ProtocolFault::MissingReplyText)),
        other => panic!("unexpected {:?}", other),
    }
}

#[test]
fn inbound_rude_rejection() {
    let mut h = Handshake::inbound("pw");
    match h.on_frame(&frame(b"Content-Type: text/rude-rejection\n\n")) {
        Step::Fail(e) => assert_eq!(e, EslError::RejectedError),
        other => panic!("unexpected {:?}", other),
    }
}

#[test]
fn inbound_unexpected_first_frame() {
    let mut h = Handshake::inbound("pw");
    match h.on_frame(&reply("+OK\n")) {
        Step::Fail(e) => assert_eq!(e, EslError::ProtocolError(ProtocolFault::UnexpectedFrame)),
        other => panic!("unexpected {:?}", other),
    }
}

#[test]
fn outbound_handshake_reads_call_uuid() {
    let (mut h, first) = Handshake::outbound();
    assert_eq!(first, b"connect\n\n".to_vec());
    let snapshot = frame(b"Content-Type: command/reply\nReply-Text: +OK\nChannel-Unique-ID: abc-123\nCaller-Caller-ID-Number: 1000\n\n");
    assert_eq!(sent(h.on_frame(&snapshot)), SUBSCRIBE.to_vec());
    let ev = frame(b"Content-Type: text/event-json\nContent-Length: 2\n\n{}");
    assert!(matches!(h.on_frame(&ev), Step::Wait));
    assert_eq!(sent(h.on_frame(&reply("+OK\n"))), b"myevents\n\n".to_vec());
    assert!(matches!(h.on_frame(&reply("+OK\n")), Step::Ready));
    assert_eq!(h.call_uuid(), Some("abc-123".to_string()));
    assert_eq!(h.get_info_string("Caller-Caller-ID-Number"), Some("1000".to_string()));
    assert_eq!(h.get_info_string("Nope"), None);
    assert!(!h.connected());
}

#[test]
fn outbound_without_call_uuid_fails() {
    let (mut h, _) = Handshake::outbound();
    h.on_frame(&reply("+OK\n"));
    h.on_frame(&reply("+OK\n"));
    match h.on_frame(&reply("+OK\n")) {
        Step::Fail(e) => assert_eq!(e, EslError::ProtocolError(ProtocolFault::MissingCallUuid)),
        other => panic!("unexpected {:?}", other),
    }
}

#[test]
fn mark_disconnected_clears_flag() {
    let mut h = Handshake::inbound("pw");
    h.on_frame(&frame(b"Content-Type: auth/request\n\n"));
    h.on_frame(&reply("+OK accepted\n"));
    assert!(h.connected());
    h.mark_disconnected();
    assert!(!h.connected());
}

#[test]
fn mode_values_differ() {
    assert_ne!(ConnectionMode::Inbound, ConnectionMode::Outbound);
}

#[test]
fn api_outcomes() {
    let ok = frame(b"Content-Type: api/response\nContent-Length: 12\n\n+OK started\n");
    assert_eq!(api_outcome(&ok), Ok("started".to_string()));
    let err = frame(b"Content-Type: api/response\nContent-Length: 13\n\n-ERR no such\n");
    assert_eq!(api_outcome(&err), Err(EslError::ApiError("no such".to_string())));
    let raw = frame(b"Content-Type: api/response\nContent-Length: 12\n\nUP 0 years\n\n");
    assert_eq!(api_outcome(&raw), Ok("UP 0 years\n\n".to_string()));
    assert_eq!(api_outcome(&reply("+OK\n")), Err(EslError::ProtocolError(ProtocolFault::MissingBody)));
}

#[test]
fn bgapi_outcomes() {
    let body = r#"{"Job-UUID":"j","_body":"+OK reloaded\n"}"#;
    let ev = frame(format!("Content-Type: text/event-json\nContent-Length: {}\n\n{}", body.len(), body).as_bytes());
    assert_eq!(bgapi_outcome(&ev), Ok("reloaded".to_string()));
    let body = r#"{"_body":"-ERR no\n"}"#;
    let ev = frame(format!("Content-Type: text/event-json\nContent-Length: {}\n\n{}", body.len(), body).as_bytes());
    assert_eq!(bgapi_outcome(&ev), Err(EslError::ApiError("no".to_string())));
    let body = r#"{"Job-UUID":"j"}"#;
    let ev = frame(format!("Content-Type: text/event-json\nContent-Length: {}\n\n{}", body.len(), body).as_bytes());
    assert_eq!(bgapi_outcome(&ev), Err(EslError::ProtocolError(ProtocolFault::MissingBody)));
}

#[test]
fn command_bytes() {
    assert_eq!(auth_command("pw"), b"auth pw\n\n".to_vec());
    assert_eq!(api_command("status"), b"api status\n\n".to_vec());
    assert_eq!(event_command(&["A", "B", "C"]), b"event json A B C\n\n".to_vec());
    assert_eq!(event_command(&[]), b"event json \n\n".to_vec());
    assert_eq!(word_command("exit"), b"exit\n\n".to_vec());
}
