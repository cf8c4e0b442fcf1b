use crate::decode::utf8_text;
use crate::messages::CompileTask;
use crate::text::is_white;
use crate::text::lemma_scan_keeps_done;
use crate::text::lemma_scan_white;
use crate::text::lemma_scan_word;
use crate::text::lemma_words_keep_done;
use crate::text::join;
use crate::text::join_strings;
use crate::text::no_white;
use crate::text::owned;
use crate::text::scan_words;
use crate::text::split_words;
use crate::text::views_of;
use crate::text::words;
use std::collections::HashMap;
use vstd::prelude::*;
use vstd::string::*;
use vstd::utf8::*;

verus! {

broadcast use vstd::utf8::group_utf8_lib;

// ---------------------------------------------------------------------------
// The local command channel between the command line tool and the daemon
// ---------------------------------------------------------------------------

/// A request read from the command channel: compile `source_file` with
/// `compiler`.
pub struct IpcRequest {
    pub compiler: String,
    pub source_file: String,
}

/// The text of a message received on the channel: its bytes as UTF-8, or
/// nothing when they are not valid UTF-8.
pub open spec fn received_text(bytes: Seq<u8>) -> Seq<char> {
    if valid_utf8(bytes) {
        decode_utf8(bytes)
    } else {
        Seq::empty()
    }
}

/// The compiler and the source file that a command names: its first two
/// words, when it has at least two.
pub open spec fn command_request(cmd: Seq<char>) -> Option<(Seq<char>, Seq<char>)> {
    let w = words(cmd);
    if w.len() >= 2 {
        Some((w[0], w[1]))
    } else {
        None
    }
}

/// What the command line tool sends for its arguments: "ping" for none,
/// else the arguments with single spaces between them.
pub open spec fn cli_text(args: Seq<Seq<char>>) -> Seq<char> {
    if args.len() == 0 {
        "ping"@
    } else {
        join(args, " "@)
    }
}

/// The reply the daemon writes for every message it has read.
pub open spec fn ack_text() -> Seq<char> {
    "ACK: Task queued!"@
}

/// The request that a command names, if it names one.
pub fn parse_command(cmd: &str) -> (req: Option<IpcRequest>)
    ensures
        match command_request(cmd@) {
            Some((compiler, source)) => req matches Some(r) && r.compiler@ == compiler
                && r.source_file@ == source,
            None => req is None,
        },
{
    let mut parts = split_words(cmd);
    if parts.len() >= 2 {
        let ghost w = views_of(parts@);
        let source_file = parts.remove(1);
        let compiler = parts.remove(0);
        assert(compiler@ == w[0] && source_file@ == w[1]);
        Some(IpcRequest { compiler, source_file })
    } else {
        None
    }
}

/// The request that a message read from the channel names, if any.
pub fn read_command(message: &[u8]) -> (req: Option<IpcRequest>)
    ensures
        match command_request(received_text(message@)) {
            Some((compiler, source)) => req matches Some(r) && r.compiler@ == compiler
                && r.source_file@ == source,
            None => req is None,
        },
{
    match utf8_text(message) {
        Some(cmd) => parse_command(cmd),
        None => {
            let empty = String::new();
            parse_command(empty.as_str())
        },
    }
}

/// The reply to a message read from the channel.
pub fn ack_reply() -> (reply: String)
    ensures
        reply@ == ack_text(),
        reply@ == "ACK: Task queued!"@,
{
    owned("ACK: Task queued!")
}

/// What the command line tool sends for its arguments.
pub fn cli_payload(args: &Vec<String>) -> (payload: String)
    ensures
        payload@ == cli_text(views_of(args@)),
        args@.len() == 0 ==> payload@ == "ping"@,
        args@.len() == 1 ==> payload@ == args@[0]@,
{
    if args.len() == 0 {
        owned("ping")
    } else {
        join_strings(args, " ")
    }
}

/// The text of a message read from the channel, as the daemon logs it and
/// the command line tool shows it.
pub fn message_text(message: &[u8]) -> (reply: String)
    ensures
        reply@ == received_text(message@),
        valid_utf8(message@) ==> reply@ == decode_utf8(message@),
        !valid_utf8(message@) ==> reply@.len() == 0,
{
    match utf8_text(message) {
        Some(text) => owned(text),
        None => String::new(),
    }
}

/// What the command line tool sends reaches the daemon as the same request:
/// for arguments whose first two are words (non-empty, no whitespace), the
/// daemon reads from the UTF-8 bytes of `cli_text(args)` the request to
/// compile the second with the first.
pub proof fn law_cli_request_round_trip(args: Seq<Seq<char>>)
    requires
        args.len() >= 2,
        args[0].len() > 0,
        args[1].len() > 0,
        no_white(args[0]),
        no_white(args[1]),
    ensures
        command_request(received_text(encode_utf8(cli_text(args)))) == Some((args[0], args[1])),
{
    reveal_strlit(" ");
    let sp: Seq<char> = " "@;
    assert(sp =~= seq![' ']);
    let a = args[0];
    let b = args[1];
    let text = cli_text(args);
    encode_utf8_valid_utf8(text);
    encode_utf8_decode_utf8(text);
    assert(received_text(encode_utf8(text)) == text);
    let rest = args.drop_first();
    assert(rest[0] == b);
    // the text is a, a space, b, then either nothing or a space and more
    let tail: Seq<char> = if rest.len() == 1 {
        Seq::empty()
    } else {
        sp + join(rest.drop_first(), sp)
    };
    assert(join(rest, sp) =~= b + tail);
    assert(text =~= a.push(' ') + b + tail);
    let e: Seq<char> = Seq::empty();
    lemma_scan_word(e, a);
    assert(e + a =~= a);
    lemma_scan_white(a, ' ');
    assert(scan_words(a.push(' ')) == (seq![a], e));
    lemma_scan_word(a.push(' '), b);
    let head = a.push(' ') + b;
    assert(scan_words(head) == (seq![a], b));
    if rest.len() == 1 {
        assert(text =~= head);
        assert(words(text) =~= seq![a, b]);
    } else {
        lemma_scan_white(head, ' ');
        assert(scan_words(head.push(' ')).0 =~= seq![a, b]);
        let more = join(rest.drop_first(), sp);
        assert(text =~= head.push(' ') + more);
        lemma_scan_keeps_done(head.push(' '), more);
        lemma_words_keep_done(text);
        let w = words(text);
        assert(w.take(2) =~= seq![a, b]);
        assert(w[0] == w.take(2)[0]);
        assert(w[1] == w.take(2)[1]);
    }
}

// ---------------------------------------------------------------------------
// Turning a request into a compile task
// ---------------------------------------------------------------------------

/// A lower case hexadecimal digit.
pub open spec fn is_lower_hex(c: char) -> bool {
    ('0' <= c <= '9') || ('a' <= c <= 'f')
}

/// The hyphenated text of a random (version 4) UUID, such as
/// "67e55044-10b1-426f-9247-bb680e5fe0c8": 32 lower case hex digits in
/// groups of 8, 4, 4, 4 and 12, the version digit '4', the variant digit
/// one of '8', '9', 'a', 'b'.
pub open spec fn is_uuid_v4_text(s: Seq<char>) -> bool {
    &&& s.len() == 36
    &&& forall|i: int|
        0 <= i < 36 ==> if i == 8 || i == 13 || i == 18 || i == 23 {
            s[i] == '-'
        } else {
            is_lower_hex(#[trigger] s[i])
        }
    &&& s[14] == '4'
    &&& (s[19] == '8' || s[19] == '9' || s[19] == 'a' || s[19] == 'b')
}

/// `uuid::Uuid::new_v4().to_string()`: a fresh random UUID in its
/// hyphenated lower case form. Which UUID comes out is left open; only its
/// shape is stated.
#[verifier::external_body]
fn new_task_id() -> (id: String)
    ensures
        is_uuid_v4_text(id@),
{
    uuid::Uuid::new_v4().to_string()
}

/// The task that compiles a request's source file, with its content and the
/// given identifier: no flags, no target triple, no environment.
pub fn task_for(request: IpcRequest, source_content: Vec<u8>, task_id: String) -> (task:
    CompileTask)
    ensures
        task.task_id == task_id,
        task.source_filename == request.source_file,
        task.source_content == source_content,
        task.compiler_flags@ == Seq::<String>::empty(),
        task.compiler_version == request.compiler,
        task.target_triple@ == Seq::<char>::empty(),
        task.env_vars@ == Map::<String, String>::empty(),
{
    CompileTask {
        task_id,
        source_filename: request.source_file,
        source_content,
        compiler_flags: Vec::new(),
        compiler_version: request.compiler,
        target_triple: String::new(),
        env_vars: HashMap::new(),
    }
}

/// The task for a request, under a fresh random identifier.
pub fn new_task(request: IpcRequest, source_content: Vec<u8>) -> (task: CompileTask)
    ensures
        is_uuid_v4_text(task.task_id@),
        task.source_filename == request.source_file,
        task.source_content == source_content,
        task.compiler_flags@ == Seq::<String>::empty(),
        task.compiler_version == request.compiler,
        task.target_triple@ == Seq::<char>::empty(),
        task.env_vars@ == Map::<String, String>::empty(),
{
    let id = new_task_id();
    task_for(request, source_content, id)
}

} // verus!
