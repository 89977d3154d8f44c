use vstd::prelude::*;
use vstd::string::StringSliceAdditionalSpecFns;
use vstd::utf8::encode_utf8;
use crate::bytes::bytes_eq;
use crate::command::{api_command, bgapi_command, execute_command, terminator};
use crate::event::{lookup, Event};
use crate::io::{content_type_key, disconnect_type};
use crate::json::{json_field, json_field_of, opt_chars};

verus! {

/// What the reader does with one incoming frame.
#[derive(Debug)]
pub enum Dispatch<T> {
    /// The server said goodbye: stop reading.
    Stop,
    /// Hand the frame to this waiting caller.
    Deliver(T),
    /// Nobody waits for this frame.
    Dropped,
}

/// `text/event-json`
pub open spec fn event_json_type() -> Seq<u8> {
    "text/event-json".spec_bytes()
}

/// The name of the event that completes an `execute`.
pub open spec fn execute_complete_name() -> Seq<char> {
    "CHANNEL_EXECUTE_COMPLETE"@
}

/// The first index of `jobs` registered under `id`, or the length.
pub open spec fn job_index<T>(jobs: Seq<(Seq<char>, T)>, id: Seq<char>, i: int) -> int
    decreases jobs.len() - i,
{
    if i < 0 || i >= jobs.len() {
        jobs.len() as int
    } else if jobs[i].0 == id {
        i
    } else {
        job_index(jobs, id, i + 1)
    }
}

/// The correlation id that routes an event to the job table, if any: its
/// `Job-UUID`, or else the `Application-UUID` of an execute-completion.
pub open spec fn event_key(
    job: Option<Seq<char>>,
    app: Option<Seq<char>>,
    name: Option<Seq<char>>,
) -> Option<Seq<char>> {
    if job is Some {
        job
    } else if app is Some && name == Some(execute_complete_name()) {
        app
    } else {
        None
    }
}

/// The pending callers of one connection: those awaiting a reply in the
/// order their commands were sent, and those awaiting an event under a
/// correlation id.
pub struct Correlator<T> {
    commands: Vec<T>,
    jobs: Vec<(String, T)>,
}

impl<T> Correlator<T> {
    /// The callers awaiting a reply, oldest first.
    pub closed spec fn requests(&self) -> Seq<T> {
        self.commands@
    }

    /// The callers awaiting an event, with their correlation ids, in the
    /// order they were registered.
    pub closed spec fn job_table(&self) -> Seq<(Seq<char>, T)> {
        Seq::new(self.jobs@.len(), |i: int| (self.jobs@[i].0@, self.jobs@[i].1))
    }

    /// A correlator with nobody waiting.
    pub fn new() -> (r: Self)
        ensures
            r.requests() == Seq::<T>::empty(),
            r.job_table() == Seq::<(Seq<char>, T)>::empty(),
    {
        let r = Correlator { commands: Vec::new(), jobs: Vec::new() };
        assert(r.job_table() =~= Seq::<(Seq<char>, T)>::empty());
        r
    }

    /// Queues a caller that awaits the reply to the command sent next.
    pub fn register_request(&mut self, t: T)
        ensures
            final(self).requests() == old(self).requests().push(t),
            final(self).job_table() == old(self).job_table(),
    {
        self.commands.push(t);
    }

    /// Registers a caller that awaits the event carrying `id`.
    pub fn register_job(&mut self, id: String, t: T)
        ensures
            final(self).requests() == old(self).requests(),
            final(self).job_table() == old(self).job_table().push((id@, t)),
    {
        let ghost k = id@;
        self.jobs.push((id, t));
        assert(self.job_table() =~= old(self).job_table().push((k, t)));
    }

    /// How many callers await a reply.
    pub fn pending_requests(&self) -> (r: usize)
        ensures
            r == self.requests().len(),
    {
        self.commands.len()
    }

    /// How many callers await an event.
    pub fn pending_jobs(&self) -> (r: usize)
        ensures
            r == self.job_table().len(),
    {
        self.jobs.len()
    }

    /// Takes the oldest caller awaiting a reply.
    pub fn take_request(&mut self) -> (r: Option<T>)
        ensures
            final(self).job_table() == old(self).job_table(),
            old(self).requests().len() == 0 ==> r is None && final(self).requests() == old(
                self,
            ).requests(),
            old(self).requests().len() > 0 ==> r == Some(old(self).requests()[0])
                && final(self).requests() == old(self).requests().drop_first(),
    {
        if self.commands.len() == 0 {
            None
        } else {
            let t = self.commands.remove(0);
            assert(self.commands@ =~= old(self).commands@.drop_first());
            Some(t)
        }
    }

    /// Takes the first caller registered under `id`.
    pub fn take_job(&mut self, id: &String) -> (r: Option<T>)
        ensures
            final(self).requests() == old(self).requests(),
            ({
                let i = job_index(old(self).job_table(), id@, 0);
                if i < old(self).job_table().len() {
                    r == Some(old(self).job_table()[i].1) && final(self).job_table() == old(
                        self,
                    ).job_table().remove(i)
                } else {
                    r is None && final(self).job_table() == old(self).job_table()
                }
            }),
    {
        let ghost tbl = self.job_table();
        let mut i: usize = 0;
        while i < self.jobs.len()
            invariant
                0 <= i <= self.jobs@.len(),
                tbl == self.job_table(),
                tbl == old(self).job_table(),
                self.commands@ == old(self).commands@,
                tbl.len() == self.jobs@.len(),
                job_index(tbl, id@, 0) == job_index(tbl, id@, i as int),
            decreases self.jobs@.len() - i,
        {
            if self.jobs[i].0 == *id {
                let (_, t) = self.jobs.remove(i);
                assert(self.job_table() =~= tbl.remove(i as int));
                return Some(t);
            }
            i = i + 1;
        }
        None
    }

    /// Routes a frame, given the correlation fields read from its body.
    ///
    /// A disconnect notice stops the reader. An event goes to the job
    /// registered under its key (see `event_key`), and is dropped where
    /// there is none. Any other frame goes to the oldest caller awaiting a
    /// reply, and is dropped where nobody waits.
    pub fn route(
        &mut self,
        frame: &Event,
        job: Option<String>,
        app: Option<String>,
        name: Option<String>,
    ) -> (r: Dispatch<T>)
        ensures
            ({
                let ct = lookup(frame.headers_view(), content_type_key());
                let key = event_key(opt_chars(job), opt_chars(app), opt_chars(name));
                if ct == Some(disconnect_type()) {
                    r is Stop && *final(self) == *old(self)
                } else if ct == Some(event_json_type()) {
                    final(self).requests() == old(self).requests() && match key {
                        None => r is Dropped && final(self).job_table() == old(self).job_table(),
                        Some(k) => {
                            let i = job_index(old(self).job_table(), k, 0);
                            if i < old(self).job_table().len() {
                                r == Dispatch::Deliver(old(self).job_table()[i].1)
                                    && final(self).job_table() == old(self).job_table().remove(i)
                            } else {
                                r is Dropped && final(self).job_table() == old(self).job_table()
                            }
                        },
                    }
                } else {
                    final(self).job_table() == old(self).job_table() && if old(
                        self,
                    ).requests().len() > 0 {
                        r == Dispatch::Deliver(old(self).requests()[0]) && final(self).requests()
                            == old(self).requests().drop_first()
                    } else {
                        r is Dropped && final(self).requests() == old(self).requests()
                    }
                }
            }),
    {
        let ct = frame.header("Content-Type".as_bytes());
        if let Some(c) = ct {
            if bytes_eq(c.as_slice(), "text/disconnect-notice".as_bytes()) {
                return Dispatch::Stop;
            }
            if bytes_eq(c.as_slice(), "text/event-json".as_bytes()) {
                let key = match job {
                    Some(j) => Some(j),
                    None => match (app, name) {
                        (Some(a), Some(n)) => {
                            if n == "CHANNEL_EXECUTE_COMPLETE".to_owned() {
                                Some(a)
                            } else {
                                None
                            }
                        },
                        _ => None,
                    },
                };
                return match key {
                    None => Dispatch::Dropped,
                    Some(k) => match self.take_job(&k) {
                        Some(t) => Dispatch::Deliver(t),
                        None => Dispatch::Dropped,
                    },
                };
            }
        }
        match self.take_request() {
            Some(t) => Dispatch::Deliver(t),
            None => Dispatch::Dropped,
        }
    }

    /// Routes a frame as `route` does, reading the correlation fields
    /// `Job-UUID`, `Application-UUID` and `Event-Name` from the JSON body of
    /// an event.
    pub fn dispatch(&mut self, frame: &Event) -> (r: Dispatch<T>)
        ensures
            ({
                let ct = lookup(frame.headers_view(), content_type_key());
                let body = match frame.body_view() {
                    Some(b) => b,
                    None => Seq::empty(),
                };
                let key = event_key(
                    json_field_of(body, "Job-UUID"@),
                    json_field_of(body, "Application-UUID"@),
                    json_field_of(body, "Event-Name"@),
                );
                if ct == Some(disconnect_type()) {
                    r is Stop && *final(self) == *old(self)
                } else if ct == Some(event_json_type()) {
                    final(self).requests() == old(self).requests() && match key {
                        None => r is Dropped && final(self).job_table() == old(self).job_table(),
                        Some(k) => {
                            let i = job_index(old(self).job_table(), k, 0);
                            if i < old(self).job_table().len() {
                                r == Dispatch::Deliver(old(self).job_table()[i].1)
                                    && final(self).job_table() == old(self).job_table().remove(i)
                            } else {
                                r is Dropped && final(self).job_table() == old(self).job_table()
                            }
                        },
                    }
                } else {
                    final(self).job_table() == old(self).job_table() && if old(
                        self,
                    ).requests().len() > 0 {
                        r == Dispatch::Deliver(old(self).requests()[0]) && final(self).requests()
                            == old(self).requests().drop_first()
                    } else {
                        r is Dropped && final(self).requests() == old(self).requests()
                    }
                }
            }),
    {
        let empty: Vec<u8> = Vec::new();
        let body = match frame.body() {
            Some(b) => b,
            None => &empty,
        };
        let job = json_field(body.as_slice(), "Job-UUID");
        let app = json_field(body.as_slice(), "Application-UUID");
        let name = json_field(body.as_slice(), "Event-Name");
        self.route(frame, job, app, name)
    }

    /// Empties the correlator once the reader has stopped, handing back
    /// every caller still waiting: those awaiting a reply, oldest first,
    /// then those awaiting an event.
    pub fn drain(&mut self) -> (r: Vec<T>)
        ensures
            r@ == old(self).requests() + Seq::new(
                old(self).job_table().len(),
                |i: int| old(self).job_table()[i].1,
            ),
            final(self).requests() == Seq::<T>::empty(),
            final(self).job_table() == Seq::<(Seq<char>, T)>::empty(),
    {
        let mut out: Vec<T> = Vec::new();
        std::mem::swap(&mut out, &mut self.commands);
        let mut jobs: Vec<(String, T)> = Vec::new();
        std::mem::swap(&mut jobs, &mut self.jobs);
        let ghost first = out@;
        let ghost all = jobs@;
        let mut rest = jobs;
        let ghost mut n: int = 0;
        while rest.len() > 0
            invariant
                0 <= n <= all.len(),
                rest@ == all.subrange(n, all.len() as int),
                out@ == first + Seq::new(n as nat, |k: int| all[k].1),
            decreases rest@.len(),
        {
            let (_, t) = rest.remove(0);
            out.push(t);
            proof {
                n = n + 1;
            }
            assert(out@ =~= first + Seq::new(n as nat, |k: int| all[k].1));
            assert(rest@ =~= all.subrange(n, all.len() as int));
        }
        assert(Seq::new(n as nat, |k: int| all[k].1) =~= Seq::new(
            old(self).job_table().len(),
            |i: int| old(self).job_table()[i].1,
        ));
        assert(self.job_table() =~= Seq::<(Seq<char>, T)>::empty());
        out
    }
}

/// Relies on `uuid::Uuid::new_v4` and its `Display`: a fresh random
/// correlation id. Nothing is promised of its value.
#[verifier::external_body]
fn fresh_uuid() -> (r: String) {
    uuid::Uuid::new_v4().to_string()
}

impl<T> Correlator<T> {
    /// Registers `t` for the reply to `api <command>` and gives the bytes
    /// to send.
    pub fn begin_api(&mut self, command: &str, t: T) -> (r: Vec<u8>)
        ensures
            r@ == "api ".spec_bytes() + command.spec_bytes() + terminator(),
            final(self).requests() == old(self).requests().push(t),
            final(self).job_table() == old(self).job_table(),
    {
        self.register_request(t);
        api_command(command)
    }

    /// Registers `done` for the event that completes a `bgapi` job under a
    /// fresh id, and `ack` for the command's own reply, and gives the id
    /// and the bytes to send.
    pub fn begin_bgapi(&mut self, command: &str, ack: T, done: T) -> (r: (String, Vec<u8>))
        ensures
            r.1@ == "bgapi ".spec_bytes() + command.spec_bytes() + "\nJob-UUID: ".spec_bytes()
                + encode_utf8(r.0@) + terminator(),
            final(self).requests() == old(self).requests().push(ack),
            final(self).job_table() == old(self).job_table().push((r.0@, done)),
    {
        let id = fresh_uuid();
        let bytes = bgapi_command(command, id.as_str());
        let copy = id.clone();
        self.register_job(copy, done);
        self.register_request(ack);
        (id, bytes)
    }

    /// Registers `done` for the event that completes application `app`
    /// on call `call_uuid` under a fresh id, and `ack` for the command's
    /// own reply, and gives the id and the bytes to send.
    pub fn begin_execute(&mut self, call_uuid: &str, app: &str, args: &str, ack: T, done: T) -> (r: (
        String,
        Vec<u8>,
    ))
        ensures
            r.1@ == "sendmsg ".spec_bytes() + call_uuid.spec_bytes()
                + "\nexecute-app-name: ".spec_bytes() + app.spec_bytes()
                + "\nexecute-app-arg: ".spec_bytes() + args.spec_bytes()
                + "\ncall-command: execute\nEvent-UUID: ".spec_bytes() + encode_utf8(r.0@)
                + terminator(),
            final(self).requests() == old(self).requests().push(ack),
            final(self).job_table() == old(self).job_table().push((r.0@, done)),
    {
        let id = fresh_uuid();
        let bytes = execute_command(call_uuid, app, args, id.as_str());
        let copy = id.clone();
        self.register_job(copy, done);
        self.register_request(ack);
        (id, bytes)
    }
}

/// The queue of callers after `ts` register, in that order, on `q`.
pub open spec fn registered<T>(q: Seq<T>, ts: Seq<T>) -> Seq<T>
    decreases ts.len(),
{
    if ts.len() == 0 {
        q
    } else {
        registered(q, ts.drop_last()).push(ts.last())
    }
}

/// The callers that `n` replies reach, one after the other, when each
/// reply goes to the head of the queue `q` and leaves the rest.
pub open spec fn served<T>(q: Seq<T>, n: nat) -> Seq<T>
    decreases n,
{
    if n == 0 || q.len() == 0 {
        Seq::empty()
    } else {
        seq![q[0]] + served(q.drop_first(), (n - 1) as nat)
    }
}

/// Callers who register one after the other on a connection with nobody
/// waiting receive the replies that follow in the order they registered.
pub proof fn lemma_fifo_order<T>(ts: Seq<T>)
    ensures
        served(registered(Seq::<T>::empty(), ts), ts.len()) == ts,
{
    lemma_registered(Seq::<T>::empty(), ts);
    assert(Seq::<T>::empty() + ts =~= ts);
    lemma_served_all(ts);
}

proof fn lemma_registered<T>(q: Seq<T>, ts: Seq<T>)
    ensures
        registered(q, ts) == q + ts,
    decreases ts.len(),
{
    if ts.len() > 0 {
        lemma_registered(q, ts.drop_last());
        assert((q + ts.drop_last()).push(ts.last()) =~= q + ts);
    }
}

proof fn lemma_served_all<T>(q: Seq<T>)
    ensures
        served(q, q.len()) == q,
    decreases q.len(),
{
    if q.len() > 0 {
        lemma_served_all(q.drop_first());
        assert(seq![q[0]] + q.drop_first() =~= q);
    }
}

/// The entry that `job_index` finds carries the id looked for.
proof fn lemma_job_index<T>(tbl: Seq<(Seq<char>, T)>, id: Seq<char>, i: int)
    requires
        0 <= i <= tbl.len(),
    ensures
        i <= job_index(tbl, id, i) <= tbl.len(),
        job_index(tbl, id, i) < tbl.len() ==> tbl[job_index(tbl, id, i)].0 == id,
    decreases tbl.len() - i,
{
    if i < tbl.len() && tbl[i].0 != id {
        lemma_job_index(tbl, id, i + 1);
    }
}

/// An event keyed by `y` resolves only a job registered under `y`: a job
/// registered under another id `x` stays in the table, untouched.
pub proof fn lemma_job_isolation<T>(tbl: Seq<(Seq<char>, T)>, x: Seq<char>, t: T, y: Seq<char>)
    requires
        tbl.contains((x, t)),
        x != y,
    ensures
        ({
            let i = job_index(tbl, y, 0);
            i < tbl.len() ==> tbl[i].0 == y && tbl.remove(i).contains((x, t))
        }),
{
    lemma_job_index(tbl, y, 0);
    let i = job_index(tbl, y, 0);
    if i < tbl.len() {
        let j = choose|j: int| 0 <= j < tbl.len() && tbl[j] == (x, t);
        let r = tbl.remove(i);
        if j < i {
            assert(r[j] == (x, t));
        } else {
            assert(j != i);
            assert(r[j - 1] == (x, t));
        }
    }
}

} // verus!
