use vstd::prelude::*;
use vstd::string::StringSliceAdditionalSpecFns;
use crate::bytes::append_bytes;

verus! {

/// Event names joined by single spaces.
pub open spec fn join_spaced(names: Seq<Seq<u8>>) -> Seq<u8>
    decreases names.len(),
{
    if names.len() == 0 {
        Seq::empty()
    } else if names.len() == 1 {
        names[0]
    } else {
        join_spaced(names.drop_last()) + seq![32u8] + names.last()
    }
}

/// The blank line that ends every command.
pub open spec fn terminator() -> Seq<u8> {
    "\n\n".spec_bytes()
}

/// Builds `auth <password>` and its blank line.
pub fn auth_command(password: &str) -> (r: Vec<u8>)
    ensures
        r@ == "auth ".spec_bytes() + password.spec_bytes() + terminator(),
{
    let mut v: Vec<u8> = Vec::new();
    append_bytes(&mut v, "auth ".as_bytes());
    append_bytes(&mut v, password.as_bytes());
    append_bytes(&mut v, "\n\n".as_bytes());
    v
}

/// Builds `api <command>` and its blank line.
pub fn api_command(command: &str) -> (r: Vec<u8>)
    ensures
        r@ == "api ".spec_bytes() + command.spec_bytes() + terminator(),
{
    let mut v: Vec<u8> = Vec::new();
    append_bytes(&mut v, "api ".as_bytes());
    append_bytes(&mut v, command.as_bytes());
    append_bytes(&mut v, "\n\n".as_bytes());
    v
}

/// Builds `bgapi <command>` with its `Job-UUID` line and blank line.
pub fn bgapi_command(command: &str, job_uuid: &str) -> (r: Vec<u8>)
    ensures
        r@ == "bgapi ".spec_bytes() + command.spec_bytes() + "\nJob-UUID: ".spec_bytes()
            + job_uuid.spec_bytes() + terminator(),
{
    let mut v: Vec<u8> = Vec::new();
    append_bytes(&mut v, "bgapi ".as_bytes());
    append_bytes(&mut v, command.as_bytes());
    append_bytes(&mut v, "\nJob-UUID: ".as_bytes());
    append_bytes(&mut v, job_uuid.as_bytes());
    append_bytes(&mut v, "\n\n".as_bytes());
    v
}

/// Builds the `sendmsg` that runs application `app` with `args` on call
/// `call_uuid`, correlated by `event_uuid`.
pub fn execute_command(call_uuid: &str, app: &str, args: &str, event_uuid: &str) -> (r: Vec<u8>)
    ensures
        r@ == "sendmsg ".spec_bytes() + call_uuid.spec_bytes() + "\nexecute-app-name: ".spec_bytes()
            + app.spec_bytes() + "\nexecute-app-arg: ".spec_bytes() + args.spec_bytes()
            + "\ncall-command: execute\nEvent-UUID: ".spec_bytes() + event_uuid.spec_bytes()
            + terminator(),
{
    let mut v: Vec<u8> = Vec::new();
    append_bytes(&mut v, "sendmsg ".as_bytes());
    append_bytes(&mut v, call_uuid.as_bytes());
    append_bytes(&mut v, "\nexecute-app-name: ".as_bytes());
    append_bytes(&mut v, app.as_bytes());
    append_bytes(&mut v, "\nexecute-app-arg: ".as_bytes());
    append_bytes(&mut v, args.as_bytes());
    append_bytes(&mut v, "\ncall-command: execute\nEvent-UUID: ".as_bytes());
    append_bytes(&mut v, event_uuid.as_bytes());
    append_bytes(&mut v, "\n\n".as_bytes());
    v
}

/// Builds `event json <names>` and its blank line.
pub fn event_command(names: &[&str]) -> (r: Vec<u8>)
    ensures
        r@ == "event json ".spec_bytes() + join_spaced(
            Seq::new(names@.len(), |i: int| names@[i].spec_bytes()),
        ) + terminator(),
{
    let ghost all = Seq::new(names@.len(), |i: int| names@[i].spec_bytes());
    let mut v: Vec<u8> = Vec::new();
    append_bytes(&mut v, "event json ".as_bytes());
    let ghost head = v@;
    let mut i: usize = 0;
    while i < names.len()
        invariant
            0 <= i <= names@.len(),
            all == Seq::new(names@.len(), |k: int| names@[k].spec_bytes()),
            v@ == head + join_spaced(all.subrange(0, i as int)),
        decreases names@.len() - i,
    {
        assert(all.subrange(0, i + 1).drop_last() =~= all.subrange(0, i as int));
        if i > 0 {
            v.push(32u8);
        }
        append_bytes(&mut v, names[i].as_bytes());
        assert(v@ =~= head + join_spaced(all.subrange(0, i + 1)));
        i = i + 1;
    }
    assert(all.subrange(0, i as int) =~= all);
    append_bytes(&mut v, "\n\n".as_bytes());
    v
}

/// Builds a command that is one word and its blank line (`connect`,
/// `myevents`, `exit`).
pub fn word_command(word: &str) -> (r: Vec<u8>)
    ensures
        r@ == word.spec_bytes() + terminator(),
{
    let mut v: Vec<u8> = Vec::new();
    append_bytes(&mut v, word.as_bytes());
    append_bytes(&mut v, "\n\n".as_bytes());
    v
}

} // verus!
