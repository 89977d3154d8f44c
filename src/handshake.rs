use vstd::prelude::*;
use vstd::string::StringSliceAdditionalSpecFns;
use vstd::utf8::encode_utf8;
use crate::bytes::{bytes_eq, slice_to_vec};
use crate::code::{code_of, first_ws_from, parse_api_response, Code};
use crate::command::{auth_command, event_command, join_spaced, terminator, word_command};
use crate::correlator::event_json_type;
use crate::error::{EslError, ProtocolFault};
use crate::event::{lookup, lookup_pairs, pairs_view, Event, HeadersView};
use crate::io::content_type_key;
use crate::text::{lossy_of, lossy_string};

verus! {

/// Which side opened the connection.
#[derive(Clone, Copy, Debug, PartialEq, Eq, Structural)]
pub enum ConnectionMode {
    /// The client dialled the server and logs in with a password.
    Inbound,
    /// The server dialled the client for one call.
    Outbound,
}

/// Where a handshake stands.
#[derive(Clone, Copy, Debug, PartialEq, Eq, Structural)]
pub enum HandshakeState {
    /// Inbound: waiting for the server to ask for the password.
    AwaitAuthRequest,
    /// Inbound: the password is sent; waiting for its reply.
    AwaitAuthReply,
    /// Outbound: `connect` is sent; waiting for the session snapshot.
    AwaitConnectReply,
    /// The event subscription is sent; waiting for its reply.
    AwaitSubscribeReply,
    /// Outbound: `myevents` is sent; waiting for its reply.
    AwaitMyEventsReply,
    /// The connection is ready for use.
    Ready,
    /// The handshake failed for good.
    Failed,
}

/// What the driver of a handshake does next.
#[derive(Debug)]
pub enum Step {
    /// Write these bytes, then wait for the next frame.
    Send(Vec<u8>),
    /// Nothing to write: wait for the next frame.
    Wait,
    /// The handshake is done.
    Ready,
    /// The handshake failed with this error.
    Fail(EslError),
}

/// `auth/request`
pub open spec fn auth_request_type() -> Seq<u8> {
    "auth/request".spec_bytes()
}

/// `text/rude-rejection`
pub open spec fn rude_rejection_type() -> Seq<u8> {
    "text/rude-rejection".spec_bytes()
}

/// `Reply-Text`
pub open spec fn reply_text_key() -> Seq<u8> {
    "Reply-Text".spec_bytes()
}

/// `Channel-Unique-ID`
pub open spec fn call_uuid_key() -> Seq<u8> {
    "Channel-Unique-ID".spec_bytes()
}

/// The request for the job-completion and execute-completion events.
pub open spec fn subscription() -> Seq<u8> {
    "event json ".spec_bytes() + join_spaced(
        seq!["BACKGROUND_JOB".spec_bytes(), "CHANNEL_EXECUTE_COMPLETE".spec_bytes()],
    ) + terminator()
}

/// Whether the handshake waits for the reply to a command it sent.
pub open spec fn awaits_reply(s: HandshakeState) -> bool {
    s == HandshakeState::AwaitAuthReply || s == HandshakeState::AwaitConnectReply || s
        == HandshakeState::AwaitSubscribeReply || s == HandshakeState::AwaitMyEventsReply
}

/// The mode-specific handshake of a connection, driven one frame at a time.
pub struct Handshake {
    mode: ConnectionMode,
    state: HandshakeState,
    password: String,
    connected: bool,
    info: Option<Vec<(Vec<u8>, Vec<u8>)>>,
    call_uuid: Option<String>,
}

impl Handshake {
    /// The side that opened the connection.
    pub closed spec fn mode_view(&self) -> ConnectionMode {
        self.mode
    }

    /// The current step.
    pub closed spec fn state_view(&self) -> HandshakeState {
        self.state
    }

    /// The password of an inbound connection.
    pub closed spec fn password_view(&self) -> Seq<char> {
        self.password@
    }

    /// Whether the server accepted the password.
    pub closed spec fn connected_view(&self) -> bool {
        self.connected
    }

    /// The session snapshot of an outbound connection.
    pub closed spec fn info_view(&self) -> Option<HeadersView> {
        match self.info {
            Some(h) => Some(pairs_view(h@)),
            None => None,
        }
    }

    /// The call identifier of an outbound connection.
    pub closed spec fn call_uuid_view(&self) -> Option<Seq<char>> {
        match self.call_uuid {
            Some(u) => Some(u@),
            None => None,
        }
    }

    /// Starts the handshake of an inbound connection, which waits for the
    /// server to ask for `password`.
    pub fn inbound(password: &str) -> (r: Self)
        ensures
            r.mode_view() == ConnectionMode::Inbound,
            r.state_view() == HandshakeState::AwaitAuthRequest,
            r.password_view() == password@,
            !r.connected_view(),
            r.info_view() is None,
            r.call_uuid_view() is None,
    {
        Handshake {
            mode: ConnectionMode::Inbound,
            state: HandshakeState::AwaitAuthRequest,
            password: password.to_owned(),
            connected: false,
            info: None,
            call_uuid: None,
        }
    }

    /// Starts the handshake of an outbound connection, giving the
    /// `connect` command that opens it.
    pub fn outbound() -> (r: (Self, Vec<u8>))
        ensures
            r.0.mode_view() == ConnectionMode::Outbound,
            r.0.state_view() == HandshakeState::AwaitConnectReply,
            !r.0.connected_view(),
            r.0.info_view() is None,
            r.0.call_uuid_view() is None,
            r.1@ == "connect".spec_bytes() + terminator(),
    {
        let h = Handshake {
            mode: ConnectionMode::Outbound,
            state: HandshakeState::AwaitConnectReply,
            password: String::new(),
            connected: false,
            info: None,
            call_uuid: None,
        };
        (h, word_command("connect"))
    }

    /// The current step.
    pub fn state(&self) -> (r: HandshakeState)
        ensures
            r == self.state_view(),
    {
        self.state
    }

    /// Whether the connection is logged in and not yet closed.
    pub fn connected(&self) -> (r: bool)
        ensures
            r == self.connected_view(),
    {
        self.connected
    }

    /// Marks the connection as closed.
    pub fn mark_disconnected(&mut self)
        ensures
            !final(self).connected_view(),
            final(self).state_view() == old(self).state_view(),
            final(self).info_view() == old(self).info_view(),
            final(self).call_uuid_view() == old(self).call_uuid_view(),
    {
        self.connected = false;
    }

    /// The call identifier of an outbound connection.
    pub fn call_uuid(&self) -> (r: Option<String>)
        ensures
            match r {
                Some(u) => self.call_uuid_view() == Some(u@),
                None => self.call_uuid_view() is None,
            },
    {
        match &self.call_uuid {
            Some(u) => Some(u.clone()),
            None => None,
        }
    }

    /// A session variable of the outbound snapshot, as text.
    pub fn get_info_string(&self, key: &str) -> (r: Option<String>)
        ensures
            match self.info_view() {
                None => r is None,
                Some(h) => match lookup(h, key.spec_bytes()) {
                    None => r is None,
                    Some(v) => r is Some && r->Some_0@ == lossy_of(v),
                },
            },
    {
        match &self.info {
            None => None,
            Some(h) => match lookup_pairs(h, key.as_bytes()) {
                None => None,
                Some(v) => Some(lossy_string(v.as_slice())),
            },
        }
    }

    /// Copies a header list.
    fn copy_headers(h: &Vec<(Vec<u8>, Vec<u8>)>) -> (r: Vec<(Vec<u8>, Vec<u8>)>)
        ensures
            pairs_view(r@) == pairs_view(h@),
    {
        let mut out: Vec<(Vec<u8>, Vec<u8>)> = Vec::new();
        let mut i: usize = 0;
        while i < h.len()
            invariant
                0 <= i <= h@.len(),
                pairs_view(out@) == pairs_view(h@).subrange(0, i as int),
            decreases h@.len() - i,
        {
            let k = slice_to_vec(h[i].0.as_slice(), 0, h[i].0.len());
            let v = slice_to_vec(h[i].1.as_slice(), 0, h[i].1.len());
            assert(h[i as int].0@.subrange(0, h[i as int].0@.len() as int) =~= h[i as int].0@);
            assert(h[i as int].1@.subrange(0, h[i as int].1@.len() as int) =~= h[i as int].1@);
            let ghost before = out@;
            let ghost kv = (k@, v@);
            out.push((k, v));
            assert(pairs_view(out@) =~= pairs_view(before).push(kv));
            assert(pairs_view(out@) =~= pairs_view(h@).subrange(0, i + 1));
            i = i + 1;
        }
        assert(pairs_view(h@).subrange(0, i as int) =~= pairs_view(h@));
        out
    }

    /// The event subscription that every handshake sends.
    fn subscription_command() -> (r: Vec<u8>)
        ensures
            r@ == subscription(),
    {
        let names: [&str; 2] = ["BACKGROUND_JOB", "CHANNEL_EXECUTE_COMPLETE"];
        let r = event_command(&names);
        assert(Seq::new(names@.len(), |i: int| names@[i].spec_bytes()) =~= seq![
            "BACKGROUND_JOB".spec_bytes(),
            "CHANNEL_EXECUTE_COMPLETE".spec_bytes(),
        ]);
        r
    }

    /// Feeds the next frame that the server sent.
    ///
    /// Inbound, the first frame must ask for the password (a rejection
    /// fails with `RejectedError`, anything else with a protocol error);
    /// the reply to the password decides by its status: `+OK` logs in,
    /// `-ERR` fails with `AuthFailed`, any other token with a protocol
    /// error. Outbound, the reply to `connect` is kept as the session
    /// snapshot, and the call identifier is read from it once `myevents`
    /// is answered. Both send the event subscription. While a reply is
    /// awaited, events are passed over.
    pub fn on_frame(&mut self, frame: &Event) -> (r: Step)
        ensures
            final(self).mode_view() == old(self).mode_view(),
            final(self).password_view() == old(self).password_view(),
            ({
                let ct = lookup(frame.headers_view(), content_type_key());
                let st = old(self).state_view();
                let kept = final(self).info_view() == old(self).info_view()
                    && final(self).call_uuid_view() == old(self).call_uuid_view();
                let failed = final(self).state_view() == HandshakeState::Failed && kept
                    && final(self).connected_view() == old(self).connected_view();
                if st == HandshakeState::AwaitAuthRequest {
                    if ct == Some(auth_request_type()) {
                        r is Send && r->Send_0@ == "auth ".spec_bytes() + encode_utf8(
                            old(self).password_view(),
                        ) + terminator() && final(self).state_view()
                            == HandshakeState::AwaitAuthReply && kept && final(self).connected_view()
                            == old(self).connected_view()
                    } else if ct == Some(rude_rejection_type()) {
                        r == Step::Fail(EslError::RejectedError) && failed
                    } else {
                        r == Step::Fail(EslError::ProtocolError(ProtocolFault::UnexpectedFrame))
                            && failed
                    }
                } else if !awaits_reply(st) {
                    r is Wait && *final(self) == *old(self)
                } else if ct == Some(event_json_type()) {
                    r is Wait && *final(self) == *old(self)
                } else if st == HandshakeState::AwaitAuthReply {
                    match lookup(frame.headers_view(), reply_text_key()) {
                        None => r == Step::Fail(
                            EslError::ProtocolError(ProtocolFault::MissingReplyText),
                        ) && failed,
                        Some(t) => {
                            let k = first_ws_from(t, 0);
                            if k == t.len() {
                                r == Step::Fail(
                                    EslError::ProtocolError(ProtocolFault::MissingStatus),
                                ) && failed
                            } else {
                                match code_of(t.subrange(0, k)) {
                                    Code::Okay => r is Send && r->Send_0@ == subscription()
                                        && final(self).state_view()
                                        == HandshakeState::AwaitSubscribeReply && kept
                                        && final(self).connected_view(),
                                    Code::Error => r == Step::Fail(EslError::AuthFailed)
                                        && failed,
                                    Code::Unknown => r == Step::Fail(
                                        EslError::ProtocolError(ProtocolFault::UnknownStatus),
                                    ) && failed,
                                }
                            }
                        },
                    }
                } else if st == HandshakeState::AwaitConnectReply {
                    r is Send && r->Send_0@ == subscription() && final(self).state_view()
                        == HandshakeState::AwaitSubscribeReply && final(self).info_view() == Some(
                        frame.headers_view(),
                    ) && final(self).call_uuid_view() == old(self).call_uuid_view()
                        && final(self).connected_view() == old(self).connected_view()
                } else if st == HandshakeState::AwaitSubscribeReply {
                    if old(self).mode_view() == ConnectionMode::Inbound {
                        r is Ready && final(self).state_view() == HandshakeState::Ready && kept
                            && final(self).connected_view() == old(self).connected_view()
                    } else {
                        r is Send && r->Send_0@ == "myevents".spec_bytes() + terminator()
                            && final(self).state_view() == HandshakeState::AwaitMyEventsReply
                            && kept && final(self).connected_view() == old(self).connected_view()
                    }
                } else {
                    match old(self).info_view() {
                        Some(h) if lookup(h, call_uuid_key()) is Some => r is Ready
                            && final(self).state_view() == HandshakeState::Ready
                            && final(self).info_view() == old(self).info_view()
                            && final(self).call_uuid_view() == Some(
                            lossy_of(lookup(h, call_uuid_key())->Some_0),
                        ) && final(self).connected_view() == old(self).connected_view(),
                        _ => r == Step::Fail(EslError::ProtocolError(ProtocolFault::MissingCallUuid))
                            && failed,
                    }
                }
            }),
    {
        let ct = frame.header("Content-Type".as_bytes());
        if self.state == HandshakeState::AwaitAuthRequest {
            return match ct {
                Some(c) if bytes_eq(c.as_slice(), "auth/request".as_bytes()) => {
                    self.state = HandshakeState::AwaitAuthReply;
                    Step::Send(auth_command(self.password.as_str()))
                },
                Some(c) if bytes_eq(c.as_slice(), "text/rude-rejection".as_bytes()) => {
                    self.state = HandshakeState::Failed;
                    Step::Fail(EslError::RejectedError)
                },
                _ => {
                    self.state = HandshakeState::Failed;
                    Step::Fail(EslError::ProtocolError(ProtocolFault::UnexpectedFrame))
                },
            };
        }
        if self.state == HandshakeState::Ready || self.state == HandshakeState::Failed {
            return Step::Wait;
        }
        if let Some(c) = ct {
            if bytes_eq(c.as_slice(), "text/event-json".as_bytes()) {
                return Step::Wait;
            }
        }
        match self.state {
            HandshakeState::AwaitAuthReply => {
                let t = match frame.header("Reply-Text".as_bytes()) {
                    None => {
                        self.state = HandshakeState::Failed;
                        return Step::Fail(EslError::ProtocolError(ProtocolFault::MissingReplyText));
                    },
                    Some(t) => t,
                };
                match parse_api_response(t.as_slice()) {
                    Err(e) => {
                        self.state = HandshakeState::Failed;
                        Step::Fail(e)
                    },
                    Ok((Code::Okay, _)) => {
                        self.connected = true;
                        self.state = HandshakeState::AwaitSubscribeReply;
                        Step::Send(Self::subscription_command())
                    },
                    Ok((Code::Error, _)) => {
                        self.state = HandshakeState::Failed;
                        Step::Fail(EslError::AuthFailed)
                    },
                    Ok((Code::Unknown, _)) => {
                        self.state = HandshakeState::Failed;
                        Step::Fail(EslError::ProtocolError(ProtocolFault::UnknownStatus))
                    },
                }
            },
            HandshakeState::AwaitConnectReply => {
                self.info = Some(Self::copy_headers(&frame.headers));
                self.state = HandshakeState::AwaitSubscribeReply;
                Step::Send(Self::subscription_command())
            },
            HandshakeState::AwaitSubscribeReply => {
                if self.mode == ConnectionMode::Inbound {
                    self.state = HandshakeState::Ready;
                    Step::Ready
                } else {
                    self.state = HandshakeState::AwaitMyEventsReply;
                    Step::Send(word_command("myevents"))
                }
            },
            _ => {
                let id = match &self.info {
                    None => None,
                    Some(h) => match lookup_pairs(h, "Channel-Unique-ID".as_bytes()) {
                        None => None,
                        Some(v) => Some(lossy_string(v.as_slice())),
                    },
                };
                match id {
                    None => {
                        self.state = HandshakeState::Failed;
                        Step::Fail(EslError::ProtocolError(ProtocolFault::MissingCallUuid))
                    },
                    Some(u) => {
                        self.call_uuid = Some(u);
                        self.state = HandshakeState::Ready;
                        Step::Ready
                    },
                }
            },
        }
    }
}

} // verus!
