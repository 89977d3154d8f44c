use freeswitch_esl::{decode_frame, Correlator, Dispatch, Event};

fn frame(bytes: &[u8]) -> Event {
    decode_frame(bytes).unwrap().unwrap().0
}

fn event_json(body: &str) -> Event {
    let text = format!("Content-Type: text/event-json\nContent-Length: {}\n\n{}", body.len(), body);
    frame(text.as_bytes())
}

fn api_reply(body: &str) -> Event {
    let text = format!("Content-Type: api/response\nContent-Length: {}\n\n{}", body.len(), body);
    frame(text.as_bytes())
}

fn delivered(d: Dispatch<u32>) -> Option<u32> {
    match d {
        Dispatch::Deliver(t) => Some(t),
        _ => None,
    }
}

#[test]
fn replies_follow_issue_order() {
    let mut c: Correlator<u32> = Correlator::new();
    let cmds: Vec<Vec<u8>> = (1..=3).map(|i| c.begin_api(&format!("cmd{}", i), i)).collect();
    assert_eq!(cmds[0], b"api cmd1\n\n".to_vec());
    assert_eq!(c.pending_requests(), 3);
    let got: Vec<Option<u32>> = (0..3).map(|_| delivered(c.dispatch(&api_reply("+OK x\n")))).collect();
    assert_eq!(got, vec![Some(1), Some(2), Some(3)]);
    assert_eq!(c.pending_requests(), 0);
}

#[test]
fn reply_with_nobody_waiting_is_dropped() {
    let mut c: Correlator<u32> = Correlator::new();
    assert!(matches!(c.dispatch(&api_reply("+OK\n")), Dispatch::Dropped));
}

#[test]
fn job_resolves_only_on_its_own_id() {
    let mut c: Correlator<u32> = Correlator::new();
    c.register_job("X".to_string(), 7);
    c.register_job("Z".to_string(), 8);
    let other = event_json(r#"{"Job-UUID":"Y","_body":"+OK\n"}"#);
    assert!(matches!(c.dispatch(&other), Dispatch::Dropped));
    assert_eq!(c.pending_jobs(), 2);
    let mine = event_json(r#"{"Job-UUID":"X","_body":"+OK\n"}"#);
    assert_eq!(delivered(c.dispatch(&mine)), Some(7));
    assert_eq!(c.pending_jobs(), 1);
    assert!(matches!(c.dispatch(&mine), Dispatch::Dropped));
    let z = event_json(r#"{"Job-UUID":"Z"}"#);
    assert_eq!(delivered(c.dispatch(&z)), Some(8));
}

#[test]
fn events_never_reach_the_reply_queue() {
    let mut c: Correlator<u32> = Correlator::new();
    c.register_request(1);
    let ev = event_json(r#"{"Event-Name":"HEARTBEAT"}"#);
    assert!(matches!(c.dispatch(&ev), Dispatch::Dropped));
    assert_eq!(c.pending_requests(), 1);
}

#[test]
fn execute_completion_resolves_by_application_uuid() {
    let mut c: Correlator<u32> = Correlator::new();
    let (id, bytes) = c.begin_execute("call-1", "playback", "a.wav", 1, 2);
    let expected = format!(
        "sendmsg call-1\nexecute-app-name: playback\nexecute-app-arg: a.wav\ncall-command: execute\nEvent-UUID: {}\n\n",
        id
    );
    assert_eq!(bytes, expected.into_bytes());
    assert_eq!(delivered(c.dispatch(&frame(b"Content-Type: command/reply\nReply-Text: +OK\n\n"))), Some(1));
    let wrong_name = event_json(&format!(r#"{{"Application-UUID":"{}","Event-Name":"CHANNEL_EXECUTE"}}"#, id));
    assert!(matches!(c.dispatch(&wrong_name), Dispatch::Dropped));
    let done = event_json(&format!(r#"{{"Application-UUID":"{}","Event-Name":"CHANNEL_EXECUTE_COMPLETE"}}"#, id));
    assert_eq!(delivered(c.dispatch(&done)), Some(2));
    assert_eq!(c.pending_jobs(), 0);
}

#[test]
fn bgapi_registers_job_and_ack() {
    let mut c: Correlator<u32> = Correlator::new();
    let (id, bytes) = c.begin_bgapi("status", 1, 2);
    assert_eq!(id.len(), 36);
    assert_eq!(bytes, format!("bgapi status\nJob-UUID: {}\n\n", id).into_bytes());
    assert_eq!(c.pending_requests(), 1);
    assert_eq!(c.pending_jobs(), 1);
    let (id2, _) = c.begin_bgapi("status", 3, 4);
    assert_ne!(id, id2);
    let done = event_json(&format!(r#"{{"Job-UUID":"{}"}}"#, id));
    assert_eq!(delivered(c.dispatch(&done)), Some(2));
}

#[test]
fn disconnect_stops_and_drains_pending_callers() {
    let mut c: Correlator<u32> = Correlator::new();
    c.register_request(1);
    c.register_job("J".to_string(), 2);
    c.register_request(3);
    let bye = frame(b"Content-Type: text/disconnect-notice\n\n");
    assert!(matches!(c.dispatch(&bye), Dispatch::Stop));
    assert_eq!(c.drain(), vec![1, 3, 2]);
    assert_eq!(c.pending_requests(), 0);
    assert_eq!(c.pending_jobs(), 0);
}

#[test]
fn route_with_given_fields() {
    let mut c: Correlator<u32> = Correlator::new();
    c.register_job("A".to_string(), 5);
    let ev = event_json("not json");
    assert!(matches!(c.route(&ev, None, None, None), Dispatch::Dropped));
    assert_eq!(delivered(c.route(&ev, Some("A".to_string()), None, None)), Some(5));
}

#[test]
fn pending_call_sees_closed_channel_after_disconnect() {
    let mut c: Correlator<tokio::sync::oneshot::Sender<Event>> = Correlator::new();
    let (tx, mut rx) = tokio::sync::oneshot::channel();
    let _ = c.begin_api("status", tx);
    let bye = frame(b"Content-Type: text/disconnect-notice\nContent-Length: 0\n\n");
    assert!(matches!(c.dispatch(&bye), Dispatch::Stop));
    drop(c.drain());
    assert_eq!(rx.try_recv(), Err(tokio::sync::oneshot::error::TryRecvError::Closed));
}
