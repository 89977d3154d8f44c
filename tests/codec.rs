use freeswitch_esl::code::parse_code;
use freeswitch_esl::{
    decode_frame, get_header_end, parse_api_response, parse_body, parse_header, Code, EslCodec,
    EslError, Event, InboundResponse, ProtocolFault,
};

fn header<'a>(e: &'a Event, key: &str) -> Option<&'a [u8]> {
    e.header(key.as_bytes()).map(|v| v.as_slice())
}

#[test]
fn status_ok_with_message() {
    let (code, text) = parse_api_response(b"+OK accepted\n").unwrap();
    assert_eq!(code, Code::Okay);
    assert_eq!(text, "accepted");
}

#[test]
fn status_err_with_message() {
    let (code, text) = parse_api_response(b"-ERR invalid credentials\n").unwrap();
    assert_eq!(code, Code::Error);
    assert_eq!(text, "invalid credentials");
}

#[test]
fn status_ok_without_message() {
    let (code, text) = parse_api_response(b"+OK\n").unwrap();
    assert_eq!(code, Code::Okay);
    assert_eq!(text, "");
}

#[test]
fn status_unknown_token() {
    let (code, text) = parse_api_response(b"hello world\n").unwrap();
    assert_eq!(code, Code::Unknown);
    assert_eq!(text, "world");
}

#[test]
fn status_without_whitespace_is_refused() {
    assert_eq!(
        parse_api_response(b"+OK"),
        Err(EslError::ProtocolError(ProtocolFault::MissingStatus))
    );
}

#[test]
fn code_tokens() {
    assert_eq!(parse_code(b"+OK"), Code::Okay);
    assert_eq!(parse_code(b"-ERR"), Code::Error);
    assert_eq!(parse_code(b"+ok"), Code::Unknown);
}

#[test]
fn header_end_found() {
    assert_eq!(get_header_end(b"A: b\n\nrest"), Some(4));
    assert_eq!(get_header_end(b"A: b\nC: d\n"), None);
    assert_eq!(get_header_end(b""), None);
}

#[test]
fn header_lines_are_split_and_trimmed() {
    let h = parse_header(b"Content-Type:  api/response \nX: a:b").unwrap();
    assert_eq!(h.len(), 2);
    assert_eq!(h[0].0, b"Content-Type".to_vec());
    assert_eq!(h[0].1, b"api/response".to_vec());
    assert_eq!(h[1].0, b"X".to_vec());
    assert_eq!(h[1].1, b"a:b".to_vec());
}

#[test]
fn header_line_without_colon_is_refused() {
    assert_eq!(
        parse_header(b"Content-Type: x\nbroken"),
        Err(EslError::ProtocolError(ProtocolFault::BadHeaderLine))
    );
}

#[test]
fn body_follows_blank_line() {
    assert_eq!(parse_body(b"\n\nhello!", 5), b"hello".to_vec());
}

#[test]
fn decode_api_response_leaves_trailing_bytes() {
    let mut buf = b"Content-Type: api/response\nContent-Length: 4\n\n+OK\nContent-Type: auth/request\n\n".to_vec();
    let mut codec = EslCodec {};
    let e = codec.decode(&mut buf).unwrap().unwrap();
    assert_eq!(header(&e, "Content-Type"), Some(&b"api/response"[..]));
    assert_eq!(e.body(), Some(&b"+OK\n".to_vec()));
    assert_eq!(buf, b"Content-Type: auth/request\n\n".to_vec());
    let e2 = codec.decode(&mut buf).unwrap().unwrap();
    assert_eq!(header(&e2, "Content-Type"), Some(&b"auth/request"[..]));
    assert!(e2.body().is_none());
    assert!(buf.is_empty());
}

#[test]
fn decode_round_trip_event_json() {
    let body = br#"{"Job-UUID":"abc"}"#;
    let mut frame = format!("Content-Length: {}\nContent-Type: text/event-json\n\n", body.len()).into_bytes();
    frame.extend_from_slice(body);
    let mut buf = frame.clone();
    buf.extend_from_slice(b"tail");
    let r = decode_frame(&buf).unwrap().unwrap();
    assert_eq!(r.1, frame.len());
    assert_eq!(r.0.body, Some(body.to_vec()));
    let mut codec = EslCodec {};
    codec.decode(&mut buf).unwrap().unwrap();
    assert_eq!(buf, b"tail".to_vec());
}

#[test]
fn decode_partial_inputs_need_more() {
    let frame = b"Content-Type: api/response\nContent-Length: 5\n\nhello";
    let mut codec = EslCodec {};
    for m in 0..frame.len() {
        let mut buf = frame[..m].to_vec();
        assert_eq!(codec.decode(&mut buf), Ok(None));
        assert_eq!(buf, frame[..m].to_vec());
    }
}

#[test]
fn decode_command_reply_without_body() {
    let r = decode_frame(b"Content-Type: command/reply\nReply-Text: +OK accepted\n\n").unwrap().unwrap();
    assert_eq!(r.1, 54);
    assert_eq!(header(&r.0, "Reply-Text"), Some(&b"+OK accepted"[..]));
}

#[test]
fn decode_duplicate_header_last_wins() {
    let r = decode_frame(b"Content-Type: command/reply\nX: 1\nX: 2\n\n").unwrap().unwrap();
    assert_eq!(header(&r.0, "X"), Some(&b"2"[..]));
}

#[test]
fn decode_rude_rejection() {
    let r = decode_frame(b"Content-Type: text/rude-rejection\n\n").unwrap().unwrap();
    assert_eq!(header(&r.0, "Content-Type"), Some(&b"text/rude-rejection"[..]));
}

#[test]
fn decode_disconnect_notice_with_and_without_body() {
    let r = decode_frame(b"Content-Type: text/disconnect-notice\n\n").unwrap().unwrap();
    assert!(r.0.body.is_none());
    let r = decode_frame(b"Content-Type: text/disconnect-notice\nContent-Length: 3\n\nbye").unwrap().unwrap();
    assert_eq!(r.0.body, Some(b"bye".to_vec()));
}

#[test]
fn decode_missing_content_length() {
    assert_eq!(
        decode_frame(b"Content-Type: api/response\n\n+OK\n").map(|r| r.is_some()),
        Err(EslError::ProtocolError(ProtocolFault::MissingContentLength))
    );
}

#[test]
fn decode_bad_content_length() {
    assert_eq!(
        decode_frame(b"Content-Type: api/response\nContent-Length: 4x\n\n+OK\n").map(|r| r.is_some()),
        Err(EslError::ProtocolError(ProtocolFault::BadContentLength))
    );
    assert_eq!(
        decode_frame(b"Content-Type: api/response\nContent-Length: 99999999999999999999999\n\n").map(|r| r.is_some()),
        Err(EslError::ProtocolError(ProtocolFault::BadContentLength))
    );
}

#[test]
fn decode_unknown_content_type() {
    let mut buf = b"Content-Type: text/unknown\n\n".to_vec();
    let mut codec = EslCodec {};
    assert_eq!(codec.decode(&mut buf), Err(EslError::ProtocolError(ProtocolFault::UnknownContentType)));
    assert_eq!(buf, b"Content-Type: text/unknown\n\n".to_vec());
}

#[test]
fn decode_missing_content_type() {
    assert_eq!(
        decode_frame(b"Reply-Text: +OK\n\n").map(|r| r.is_some()),
        Err(EslError::ProtocolError(ProtocolFault::MissingContentType))
    );
}

#[test]
fn decode_bad_header_line() {
    assert_eq!(
        decode_frame(b"Content-Type api/response\n\n").map(|r| r.is_some()),
        Err(EslError::ProtocolError(ProtocolFault::BadHeaderLine))
    );
}

#[test]
fn encode_appends_bytes() {
    let mut codec = EslCodec {};
    let mut dst = b"a".to_vec();
    codec.encode(b"api status\n\n", &mut dst);
    assert_eq!(dst, b"aapi status\n\n".to_vec());
}

#[test]
fn inbound_response_of_frames() {
    let auth = decode_frame(b"Content-Type: auth/request\n\n").unwrap().unwrap().0;
    assert_eq!(InboundResponse::from_event(&auth), Some(InboundResponse::Auth));
    let reply = decode_frame(b"Content-Type: command/reply\nReply-Text: +OK done\n\n").unwrap().unwrap().0;
    assert_eq!(InboundResponse::from_event(&reply), Some(InboundResponse::Reply("+OK done".to_string())));
    let api = decode_frame(b"Content-Type: api/response\nContent-Length: 3\n\nabc").unwrap().unwrap().0;
    assert_eq!(InboundResponse::from_event(&api), Some(InboundResponse::ApiResponse("abc".to_string())));
    let bye = decode_frame(b"Content-Type: text/disconnect-notice\n\n").unwrap().unwrap().0;
    assert_eq!(InboundResponse::from_event(&bye), None);
}
