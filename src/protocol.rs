use vstd::prelude::*;

verus! {

/// A message that a worker sends to its supervisor.
#[derive(Debug, Clone)]
pub enum WorkerMessage {
    Forked,
    Loaded,
    Hb,
    Reload,
    Restart,
    CfgError(String),
}

/// A command that a supervisor sends to its worker.
#[derive(Debug, Clone, Copy, PartialEq, Eq, Structural)]
pub enum WorkerCommand {
    Prepare,
    Start,
    Pause,
    Resume,
    Stop,
    Hb,
}

/// The JSON text of a string, as `serde_json` writes it.
pub uninterp spec fn json_text_of(s: Seq<char>) -> Seq<u8>;

/// The members of a JSON object whose values are all `null` or strings, in
/// key order, as `serde_json` reads the text; `None` where it reads no such
/// object.
pub uninterp spec fn json_members_of(b: Seq<u8>) -> Option<Seq<(Seq<char>, Option<Seq<char>>)>>;

/// Relies on `serde_json::to_vec` for a `str`: the JSON string literal of `s`.
#[verifier::external_body]
fn json_text(s: &str) -> (r: Vec<u8>)
    ensures
        r@ == json_text_of(s@),
{
    match serde_json::to_vec(s) {
        Ok(v) => v,
        Err(_) => Vec::new(),
    }
}

/// The views of decoded object members.
pub open spec fn member_views(v: Seq<(String, Option<String>)>) -> Seq<(Seq<char>, Option<Seq<char>>)> {
    v.map_values(
        |p: (String, Option<String>)|
            (
                p.0@,
                match p.1 {
                    Some(s) => Some(s@),
                    None => None,
                },
            ),
    )
}

/// Relies on `serde_json::from_slice::<BTreeMap<String, Option<String>>>`:
/// the members of the JSON object that `b` holds, in key order, where every
/// value is `null` or a string.
#[verifier::external_body]
fn json_members(b: &[u8]) -> (r: Option<Vec<(String, Option<String>)>>)
    ensures
        r matches Some(v) ==> json_members_of(b@) == Some(member_views(v@)),
        r is None ==> json_members_of(b@) is None,
{
    match serde_json::from_slice::<std::collections::BTreeMap<String, Option<String>>>(b) {
        Ok(m) => Some(m.into_iter().collect()),
        Err(_) => None,
    }
}

/// The lower-case tag of a command on the wire.
pub open spec fn command_tag(c: WorkerCommand) -> Seq<u8> {
    match c {
        WorkerCommand::Prepare => seq![112u8, 114u8, 101u8, 112u8, 97u8, 114u8, 101u8],  // "prepare"
        WorkerCommand::Start => seq![115u8, 116u8, 97u8, 114u8, 116u8],  // "start"
        WorkerCommand::Pause => seq![112u8, 97u8, 117u8, 115u8, 101u8],  // "pause"
        WorkerCommand::Resume => seq![114u8, 101u8, 115u8, 117u8, 109u8, 101u8],  // "resume"
        WorkerCommand::Stop => seq![115u8, 116u8, 111u8, 112u8],  // "stop"
        WorkerCommand::Hb => seq![104u8, 98u8],  // "hb"
    }
}

/// The lower-case tag of a message on the wire.
pub open spec fn message_tag(m: WorkerMessage) -> Seq<u8> {
    match m {
        WorkerMessage::Forked => seq![102u8, 111u8, 114u8, 107u8, 101u8, 100u8],  // "forked"
        WorkerMessage::Loaded => seq![108u8, 111u8, 97u8, 100u8, 101u8, 100u8],  // "loaded"
        WorkerMessage::Hb => seq![104u8, 98u8],  // "hb"
        WorkerMessage::Reload => seq![114u8, 101u8, 108u8, 111u8, 97u8, 100u8],  // "reload"
        WorkerMessage::Restart => seq![114u8, 101u8, 115u8, 116u8, 97u8, 114u8, 116u8],  // "restart"
        WorkerMessage::CfgError(_) => seq![99u8, 102u8, 103u8, 101u8, 114u8, 114u8, 111u8, 114u8],  // "cfgerror"
    }
}

/// `{"` tag `":` value `}`: a JSON object with a single member.
pub open spec fn tagged(tag: Seq<u8>, value: Seq<u8>) -> Seq<u8> {
    seq![123u8, 34u8] + tag + seq![34u8, 58u8] + value + seq![125u8]
}

pub open spec fn json_null() -> Seq<u8> {
    seq![110u8, 117u8, 108u8, 108u8]  // "null"
}

/// The payload of a command: `{"<tag>":null}`.
pub open spec fn command_json(c: WorkerCommand) -> Seq<u8> {
    tagged(command_tag(c), json_null())
}

/// The payload of a message: `{"<tag>":null}`, or `{"cfgerror":"<msg>"}`.
pub open spec fn message_json(m: WorkerMessage) -> Seq<u8> {
    match m {
        WorkerMessage::CfgError(s) => tagged(message_tag(m), json_text_of(s@)),
        _ => tagged(message_tag(m), json_null()),
    }
}

/// The key of a message's JSON object.
pub open spec fn message_key(m: WorkerMessage) -> Seq<char> {
    match m {
        WorkerMessage::Forked => seq!['f', 'o', 'r', 'k', 'e', 'd'],
        WorkerMessage::Loaded => seq!['l', 'o', 'a', 'd', 'e', 'd'],
        WorkerMessage::Hb => seq!['h', 'b'],
        WorkerMessage::Reload => seq!['r', 'e', 'l', 'o', 'a', 'd'],
        WorkerMessage::Restart => seq!['r', 'e', 's', 't', 'a', 'r', 't'],
        WorkerMessage::CfgError(_) => seq!['c', 'f', 'g', 'e', 'r', 'r', 'o', 'r'],
    }
}

/// The value of a message's JSON object: `null`, or the error text.
pub open spec fn message_value(m: WorkerMessage) -> Option<Seq<char>> {
    match m {
        WorkerMessage::CfgError(s) => Some(s@),
        _ => None,
    }
}

/// Whether the payload `b` stands for the message `m`: it is JSON text of
/// an object with the single member that names `m` (any JSON spelling that
/// `serde_json` reads, whitespace included).
pub open spec fn message_parses(b: Seq<u8>, m: WorkerMessage) -> bool {
    json_members_of(b) == Some(seq![(message_key(m), message_value(m))])
}

/// Whether the payload `b` stands for the command `c`.
pub open spec fn command_parses(b: Seq<u8>, c: WorkerCommand) -> bool {
    b == command_json(c)
}

fn command_tag_bytes(c: WorkerCommand) -> (r: Vec<u8>)
    ensures
        r@ == command_tag(c),
{
    let r = match c {
        WorkerCommand::Prepare => vec![112u8, 114u8, 101u8, 112u8, 97u8, 114u8, 101u8],
        WorkerCommand::Start => vec![115u8, 116u8, 97u8, 114u8, 116u8],
        WorkerCommand::Pause => vec![112u8, 97u8, 117u8, 115u8, 101u8],
        WorkerCommand::Resume => vec![114u8, 101u8, 115u8, 117u8, 109u8, 101u8],
        WorkerCommand::Stop => vec![115u8, 116u8, 111u8, 112u8],
        WorkerCommand::Hb => vec![104u8, 98u8],
    };
    assert(r@ =~= command_tag(c));
    r
}

fn message_tag_bytes(m: &WorkerMessage) -> (r: Vec<u8>)
    ensures
        r@ == message_tag(*m),
{
    let r = match m {
        WorkerMessage::Forked => vec![102u8, 111u8, 114u8, 107u8, 101u8, 100u8],
        WorkerMessage::Loaded => vec![108u8, 111u8, 97u8, 100u8, 101u8, 100u8],
        WorkerMessage::Hb => vec![104u8, 98u8],
        WorkerMessage::Reload => vec![114u8, 101u8, 108u8, 111u8, 97u8, 100u8],
        WorkerMessage::Restart => vec![114u8, 101u8, 115u8, 116u8, 97u8, 114u8, 116u8],
        WorkerMessage::CfgError(_) => vec![99u8, 102u8, 103u8, 101u8, 114u8, 114u8, 111u8, 114u8],
    };
    assert(r@ =~= message_tag(*m));
    r
}

/// Builds `{"` tag `":` value `}`.
fn write_tagged(tag: &[u8], value: &[u8]) -> (r: Vec<u8>)
    ensures
        r@ == tagged(tag@, value@),
{
    let mut r: Vec<u8> = Vec::new();
    r.push(123u8);
    r.push(34u8);
    r.extend_from_slice(tag);
    r.push(34u8);
    r.push(58u8);
    r.extend_from_slice(value);
    r.push(125u8);
    assert(r@ =~= tagged(tag@, value@));
    r
}

fn null_bytes() -> (r: Vec<u8>)
    ensures
        r@ == json_null(),
{
    let r = vec![110u8, 117u8, 108u8, 108u8];
    assert(r@ =~= json_null());
    r
}

/// The JSON payload of a command, as the supervisor writes it.
pub fn encode_command(c: WorkerCommand) -> (r: Vec<u8>)
    ensures
        r@ == command_json(c),
{
    let tag = command_tag_bytes(c);
    let null = null_bytes();
    write_tagged(tag.as_slice(), null.as_slice())
}

/// The JSON payload of a message, as a worker writes it.
pub fn encode_message(m: &WorkerMessage) -> (r: Vec<u8>)
    ensures
        r@ == message_json(*m),
{
    let tag = message_tag_bytes(m);
    match m {
        WorkerMessage::CfgError(s) => {
            let text = json_text(s.as_str());
            write_tagged(tag.as_slice(), text.as_slice())
        },
        _ => {
            let null = null_bytes();
            write_tagged(tag.as_slice(), null.as_slice())
        },
    }
}

fn bytes_eq(a: &[u8], b: &[u8]) -> (r: bool)
    ensures
        r == (a@ == b@),
{
    if a.len() != b.len() {
        return false;
    }
    let mut i: usize = 0;
    while i < a.len()
        invariant
            a@.len() == b@.len(),
            i <= a@.len(),
            forall|j: int| 0 <= j < i ==> a@[j] == b@[j],
        decreases a@.len() - i,
    {
        if a[i] != b[i] {
            return false;
        }
        i = i + 1;
    }
    assert(a@ =~= b@);
    true
}

/// Reads a command payload, as a worker does: only the exact payload of a
/// command is accepted.
pub fn parse_command(b: &[u8]) -> (r: Option<WorkerCommand>)
    ensures
        r matches Some(c) ==> command_parses(b@, c),
        r is None ==> forall|c: WorkerCommand| !command_parses(b@, c),
{
    let all = [
        WorkerCommand::Prepare,
        WorkerCommand::Start,
        WorkerCommand::Pause,
        WorkerCommand::Resume,
        WorkerCommand::Stop,
        WorkerCommand::Hb,
    ];
    let mut i: usize = 0;
    while i < 6
        invariant
            i <= 6,
            all@ == seq![
                WorkerCommand::Prepare,
                WorkerCommand::Start,
                WorkerCommand::Pause,
                WorkerCommand::Resume,
                WorkerCommand::Stop,
                WorkerCommand::Hb,
            ],
            forall|j: int| 0 <= j < i ==> !command_parses(b@, #[trigger] all@[j]),
        decreases 6 - i,
    {
        let c = all[i];
        let enc = encode_command(c);
        if bytes_eq(b, enc.as_slice()) {
            return Some(c);
        }
        i = i + 1;
    }
    assert forall|c: WorkerCommand| !command_parses(b@, c) by {
        match c {
            WorkerCommand::Prepare => assert(!command_parses(b@, all@[0])),
            WorkerCommand::Start => assert(!command_parses(b@, all@[1])),
            WorkerCommand::Pause => assert(!command_parses(b@, all@[2])),
            WorkerCommand::Resume => assert(!command_parses(b@, all@[3])),
            WorkerCommand::Stop => assert(!command_parses(b@, all@[4])),
            WorkerCommand::Hb => assert(!command_parses(b@, all@[5])),
        }
    }
    None
}

/// The messages that carry no data.
pub open spec fn unit_messages() -> Seq<WorkerMessage> {
    seq![
        WorkerMessage::Forked,
        WorkerMessage::Loaded,
        WorkerMessage::Hb,
        WorkerMessage::Reload,
        WorkerMessage::Restart,
    ]
}

fn unit_message(i: usize) -> (r: WorkerMessage)
    requires
        i < 5,
    ensures
        r == unit_messages()[i as int],
{
    if i == 0 {
        WorkerMessage::Forked
    } else if i == 1 {
        WorkerMessage::Loaded
    } else if i == 2 {
        WorkerMessage::Hb
    } else if i == 3 {
        WorkerMessage::Reload
    } else {
        WorkerMessage::Restart
    }
}

fn key_is(k: &String, m: &WorkerMessage) -> (r: bool)
    ensures
        r == (k@ == message_key(*m)),
{
    let t = match m {
        WorkerMessage::Forked => "forked",
        WorkerMessage::Loaded => "loaded",
        WorkerMessage::Hb => "hb",
        WorkerMessage::Reload => "reload",
        WorkerMessage::Restart => "restart",
        WorkerMessage::CfgError(_) => "cfgerror",
    }.to_owned();
    proof {
        reveal_strlit("forked");
        reveal_strlit("loaded");
        reveal_strlit("hb");
        reveal_strlit("reload");
        reveal_strlit("restart");
        reveal_strlit("cfgerror");
        assert(t@ =~= message_key(*m));
    }
    *k == t
}

/// Reads a message payload from a worker: a JSON object with one member,
/// whose key names the message and whose value is `null`, or the error text
/// for `cfgerror`.
pub fn parse_message(b: &[u8]) -> (r: Option<WorkerMessage>)
    ensures
        r matches Some(m) ==> message_parses(b@, m),
        r is None ==> forall|m: WorkerMessage| !message_parses(b@, m),
{
    let members = match json_members(b) {
        Some(v) => v,
        None => {
            return None;
        },
    };
    if members.len() != 1 {
        proof {
            assert forall|m: WorkerMessage| !message_parses(b@, m) by {
                if message_parses(b@, m) {
                    assert(member_views(members@).len() == 1);
                }
            }
        }
        return None;
    }
    let ghost view = member_views(members@);
    assert(view[0] == (members@[0].0@, match members@[0].1 {
        Some(s) => Some(s@),
        None => None::<Seq<char>>,
    }));
    let key = &members[0].0;
    let candidate = match &members[0].1 {
        None => {
            let mut found: Option<WorkerMessage> = None;
            let mut i: usize = 0;
            while i < 5
                invariant
                    i <= 5,
                    found matches Some(m) ==> key@ == message_key(m) && message_value(m) is None,
                    found is None ==> forall|j: int| 0 <= j < i ==> key@ != message_key(#[trigger] unit_messages()[j]),
                decreases 5 - i,
            {
                let m = unit_message(i);
                if found.is_none() && key_is(key, &m) {
                    found = Some(m);
                }
                i = i + 1;
            }
            proof {
                if found is None {
                    assert forall|m: WorkerMessage| !(key@ == message_key(m) && message_value(m) is None) by {
                        match m {
                            WorkerMessage::Forked => assert(key@ != message_key(unit_messages()[0])),
                            WorkerMessage::Loaded => assert(key@ != message_key(unit_messages()[1])),
                            WorkerMessage::Hb => assert(key@ != message_key(unit_messages()[2])),
                            WorkerMessage::Reload => assert(key@ != message_key(unit_messages()[3])),
                            WorkerMessage::Restart => assert(key@ != message_key(unit_messages()[4])),
                            _ => {},
                        }
                    }
                }
            }
            found
        },
        Some(text) => {
            let probe = WorkerMessage::CfgError(String::new());
            if key_is(key, &probe) {
                Some(WorkerMessage::CfgError(text.clone()))
            } else {
                proof {
                    assert forall|m: WorkerMessage| !(key@ == message_key(m) && message_value(m) is Some) by {
                        if m is CfgError {
                            assert(message_key(m) == message_key(probe));
                        }
                    }
                }
                None
            }
        },
    };
    proof {
        assert(view =~= seq![view[0]]);
        assert forall|m: WorkerMessage| #[trigger] message_parses(b@, m) <==> view[0] == (
        message_key(m), message_value(m)) by {
            if message_parses(b@, m) {
                assert(view =~= seq![(message_key(m), message_value(m))]);
                assert(seq![(message_key(m), message_value(m))][0] == (message_key(m), message_value(m)));
            }
            if view[0] == (message_key(m), message_value(m)) {
                assert(view =~= seq![(message_key(m), message_value(m))]);
            }
        }
    }
    candidate
}

/// Distinct commands have distinct payloads.
proof fn lemma_command_json_injective(c1: WorkerCommand, c2: WorkerCommand)
    ensures
        command_json(c1) == command_json(c2) ==> c1 == c2,
{
    if command_json(c1) == command_json(c2) {
        assert(command_json(c1).len() == command_json(c2).len());
        assert(command_json(c1)[2] == command_json(c2)[2]);
        assert(command_json(c1)[3] == command_json(c2)[3]);
    }
}

/// A worker reads back exactly the command that its supervisor wrote:
/// whatever `parse_command` may return on the payload of `c` is `Some(c)`.
pub proof fn lemma_command_round_trip(c: WorkerCommand, r: Option<WorkerCommand>)
    requires
        r matches Some(d) ==> command_parses(command_json(c), d),
        r is None ==> forall|d: WorkerCommand| !command_parses(command_json(c), d),
    ensures
        r == Some(c),
{
    assert(command_parses(command_json(c), c));
    if let Some(d) = r {
        lemma_command_json_injective(c, d);
    }
}

} // verus!
