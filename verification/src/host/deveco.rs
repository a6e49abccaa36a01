//! The commands of a development environment, which speaks to the server in a way of
//! its own.

use crate::host::auth;
use crate::host::connect_map;
use crate::host::connect_map::{ConnectMap, DeviceView, ide_device_list};
use crate::host::dispatch;
use crate::host::dispatch::{jdwp_option, text_bytes};
use crate::host::parser;
use crate::host::parser::split_opt_and_cmd;
use crate::host::tcp_map;
use crate::host::tcp_map::frame;
use crate::host::transfer::{Reply, ReplyView};
use crate::protocol::bytes;
use crate::protocol::bytes::read_be32;
use crate::protocol::command::HdcCommand;
use crate::protocol::config::{TaskMessage, TaskMessageView};
use crate::text;
use crate::text::{concat3, copy_text, copy_texts, decimal_text, join, lossy_text, same_text, split, text_of_utf8, trim, trim_end_of};
use vstd::prelude::*;
use vstd::utf8::*;

verus! {

/// The largest command.
pub const MAX_IDE_COMMAND: usize = 1048576;

/// The largest message that is collected.
pub const MAX_COLLECTED: usize = 16777216;

/// What is said of a command whose length cannot be right.
pub const BAD_IDE_LENGTH: &'static str = "invalid command length";

/// What is said of a message that is too large to be collected.
pub const COLLECTED_TOO_LARGE: &'static str = "loopback message too large";

/// The length of a command that its first four bytes announce, if it can be right.
pub open spec fn ide_length(head: Seq<u8>) -> Option<usize> {
    let n = bytes::be32_value(head, 0);
    if n == 0 || n > MAX_IDE_COMMAND {
        None
    } else {
        Some(n as usize)
    }
}

/// The length of a command that its first four bytes announce, if it can be right.
pub fn read_ide_length(head: &[u8]) -> (r: Option<usize>)
    requires
        head.len() == 4,
    ensures
        r == ide_length(head@),
{
    let n: u32 = read_be32(head, 0);
    if n == 0 || n as u64 > MAX_IDE_COMMAND as u64 {
        None
    } else {
        Some(n as usize)
    }
}

/// The length of a message that its first four bytes announce, if it can be collected.
pub open spec fn collected_length(head: Seq<u8>) -> Option<usize> {
    let n = bytes::be32_value(head, 0);
    if n > MAX_COLLECTED {
        None
    } else {
        Some(n as usize)
    }
}

/// The length of a message that its first four bytes announce, if it can be collected.
pub fn read_collected_length(head: &[u8]) -> (r: Option<usize>)
    requires
        head.len() == 4,
    ensures
        r == collected_length(head@),
{
    let n: u32 = read_be32(head, 0);
    if n as u64 > MAX_COLLECTED as u64 {
        None
    } else {
        Some(n as usize)
    }
}

/// The text of a command.
pub open spec fn ide_text(bytes: Seq<u8>) -> Seq<char> {
    text::trimmed(text::trimmed_end_of(text::utf8_lossy(bytes), '\0'))
}

/// The text of a command.
pub fn read_ide_text(bytes: &[u8]) -> (r: String)
    ensures
        r@ == ide_text(bytes@),
{
    trim(trim_end_of(lossy_text(bytes).as_str(), '\0').as_str())
}

/// What a command asks for.
#[derive(Debug, PartialEq, Eq)]
pub enum IdeRequest {
    /// An answer that is at hand.
    Answer(String),
    /// A command for a device, with its words, and how many seconds it may take.
    Run(HdcCommand, Vec<String>, u64),
    /// The processes of a device, as they come and go.
    Track(Vec<String>),
}

/// What a command asks for.
pub enum IdeRequestView {
    Answer(Seq<char>),
    Run(HdcCommand, Seq<Seq<char>>, u64),
    Track(Seq<Seq<char>>),
}

impl View for IdeRequest {
    type V = IdeRequestView;

    open spec fn view(&self) -> IdeRequestView {
        match *self {
            IdeRequest::Answer(s) => IdeRequestView::Answer(s@),
            IdeRequest::Run(c, p, t) => IdeRequestView::Run(c, text::texts(p@), t),
            IdeRequest::Track(p) => IdeRequestView::Track(text::texts(p@)),
        }
    }
}

/// The commands that go to a device as they are.
pub open spec fn goes_as_it_is(c: HdcCommand) -> bool {
    c == HdcCommand::AppInit || c == HdcCommand::AppUninstall || c == HdcCommand::ForwardInit || c
        == HdcCommand::ForwardRportInit || c == HdcCommand::ForwardList || c
        == HdcCommand::ForwardRportList || c == HdcCommand::ForwardRemove || c
        == HdcCommand::ForwardRportRemove || c == HdcCommand::JdwpList || c
        == HdcCommand::JdwpTrack || c == HdcCommand::UnityRunmode || c == HdcCommand::UnityReboot
        || c == HdcCommand::UnityRemount || c == HdcCommand::UnityRootrun || c
        == HdcCommand::UnityHilog || c == HdcCommand::UnityBugreportInit
}

/// The words of a file command: the directory of this process stands before the files
/// that are sent.
pub open spec fn with_directory(params: Seq<Seq<char>>, cwd: Seq<char>) -> Seq<Seq<char>> {
    if params.len() >= 2 && params[1] == "send"@ {
        params.take(2) + seq!["-cwd"@, cwd] + params.skip(2)
    } else {
        params
    }
}

/// What a known command asks for.
pub open spec fn ide_command(
    cmd: Seq<char>,
    c: HdcCommand,
    params: Seq<Seq<char>>,
    parameters: Seq<Seq<char>>,
    cwd: Seq<char>,
) -> IdeRequestView {
    if c == HdcCommand::JdwpTrack {
        IdeRequestView::Track(parameters)
    } else if c == HdcCommand::UnityExecute || c == HdcCommand::UnityExecuteEx {
        if parameters.len() == 1 {
            IdeRequestView::Answer(
                "[Fail]Interactive shell is not supported over IDE socket\r\n"@,
            )
        } else {
            IdeRequestView::Run(c, params, 30)
        }
    } else if c == HdcCommand::FileInit || c == HdcCommand::FileRecvInit {
        IdeRequestView::Run(c, with_directory(params, cwd), 300)
    } else if goes_as_it_is(c) {
        IdeRequestView::Run(c, params, 60)
    } else {
        IdeRequestView::Answer("[Fail]Unknown command: "@ + cmd + "\r\n"@)
    }
}

/// What a command asks for.
pub open spec fn ide_request(cmd: Seq<char>, devs: Seq<DeviceView>, cwd: Seq<char>) -> IdeRequestView {
    let params = text::split_parts(cmd, ' ');
    if cmd == "alive"@ {
        IdeRequestView::Answer(Seq::empty())
    } else if cmd == "list targets"@ {
        IdeRequestView::Answer(text::joined(connect_map::device_list(devs, false), "\n"@))
    } else if cmd == "list targets -v"@ {
        IdeRequestView::Answer(connect_map::ide_lines(connect_map::device_list(devs, true)))
    } else {
        match parser::command_in(params) {
            None => IdeRequestView::Answer("[Fail]Unknown command: "@ + cmd + "\r\n"@),
            Some((c, i)) => ide_command(cmd, c, params, params.skip(i), cwd),
        }
    }
}

fn runs_as_it_is(c: HdcCommand) -> (r: bool)
    ensures
        r == goes_as_it_is(c),
{
    match c {
        HdcCommand::AppInit
        | HdcCommand::AppUninstall
        | HdcCommand::ForwardInit
        | HdcCommand::ForwardRportInit
        | HdcCommand::ForwardList
        | HdcCommand::ForwardRportList
        | HdcCommand::ForwardRemove
        | HdcCommand::ForwardRportRemove
        | HdcCommand::JdwpList
        | HdcCommand::JdwpTrack
        | HdcCommand::UnityRunmode
        | HdcCommand::UnityReboot
        | HdcCommand::UnityRemount
        | HdcCommand::UnityRootrun
        | HdcCommand::UnityHilog
        | HdcCommand::UnityBugreportInit => true,
        _ => false,
    }
}

fn add_directory(params: Vec<String>, cwd: &str) -> (r: Vec<String>)
    ensures
        text::texts(r@) == with_directory(text::texts(params@), cwd@),
{
    let ghost before = text::texts(params@);
    if params.len() >= 2 {
        assert(before[1] == params@[1]@);
        if same_text(params[1].as_str(), "send") {
            let mut out = params;
            out.insert(2, "-cwd".to_owned());
            out.insert(3, copy_text(cwd));
            assert(text::texts(out@) =~= before.take(2) + seq!["-cwd"@, cwd@] + before.skip(2));
            return out;
        }
    }
    params
}

/// What a command asks for. `cwd` is the directory of this process.
pub fn read_ide_request(cmd: &str, connect_map: &ConnectMap, cwd: &str) -> (r: IdeRequest)
    ensures
        r@ == ide_request(cmd@, connect_map@, cwd@),
{
    proof {
        reveal_strlit("alive");
        reveal_strlit("list targets");
        reveal_strlit("list targets -v");
    }
    if same_text(cmd, "alive") {
        return IdeRequest::Answer(String::new());
    }
    if same_text(cmd, "list targets") {
        return IdeRequest::Answer(join(connect_map.get_list(false).as_slice(), "\n"));
    }
    if same_text(cmd, "list targets -v") {
        return IdeRequest::Answer(ide_device_list(connect_map));
    }
    let params = split(cmd, ' ');
    let parsed = split_opt_and_cmd(copy_texts(params.as_slice()));
    proof {
        parser::command_is_named(text::split_parts(cmd@, ' '));
    }
    match parsed.command {
        None => IdeRequest::Answer(concat3("[Fail]Unknown command: ", cmd, "\r\n")),
        Some(c) => match c {
            HdcCommand::JdwpTrack => IdeRequest::Track(parsed.parameters),
            HdcCommand::UnityExecute | HdcCommand::UnityExecuteEx => {
                assert(text::texts(parsed.parameters@).len() == parsed.parameters@.len());
                if parsed.parameters.len() == 1 {
                    IdeRequest::Answer(
                        "[Fail]Interactive shell is not supported over IDE socket\r\n".to_owned(),
                    )
                } else {
                    IdeRequest::Run(c, params, 30)
                }
            },
            HdcCommand::FileInit | HdcCommand::FileRecvInit => IdeRequest::Run(
                c,
                add_directory(params, cwd),
                300,
            ),
            _ => {
                if runs_as_it_is(c) {
                    IdeRequest::Run(c, params, 60)
                } else {
                    IdeRequest::Answer(concat3("[Fail]Unknown command: ", cmd, "\r\n"))
                }
            },
        },
    }
}

/// An answer as it goes out: a line feed ends it unless it is empty, and its length
/// stands before it.
pub open spec fn ide_answer(response: Seq<char>) -> Seq<u8> {
    let bytes = encode_utf8(response);
    tcp_map::framed(
        if bytes.len() > 0 && bytes.last() != 10 {
            bytes.push(10)
        } else {
            bytes
        },
    )
}

/// An answer as it goes out.
pub fn make_ide_answer(response: &str) -> (r: Vec<u8>)
    ensures
        r@ == ide_answer(response@),
{
    let mut bytes = text_bytes(response);
    let n: usize = bytes.len();
    if n > 0 && bytes[n - 1] != 10 {
        bytes.push(10);
    }
    frame(bytes.as_slice())
}

/// The request for the processes of a device, as they come and go.
pub fn track_request(channel_id: u32, params: &[String]) -> (r: TaskMessage)
    ensures
        r@ == track_message(channel_id, text::texts(params@)),
{
    TaskMessage { channel_id, command: HdcCommand::JdwpTrack, payload: jdwp_option(params) }
}

/// What an environment is told where a device could not be asked.
pub open spec fn unsent_text(reason: Seq<char>) -> Seq<char> {
    "[Fail]Failed to send command to device: "@ + reason + "\r\n"@
}

/// The request that a device tell which processes can be debugged.
pub open spec fn track_message(channel_id: u32, params: Seq<Seq<char>>) -> TaskMessageView {
    TaskMessageView {
        channel_id,
        command: HdcCommand::JdwpTrack,
        payload: dispatch::track_option(params),
    }
}

/// The answer where a command could not be sent to the device.
pub fn make_send_failure(reason: &str) -> (r: String)
    ensures
        r@ == unsent_text(reason@),
{
    concat3("[Fail]Failed to send command to device: ", reason, "\r\n")
}

/// What was collected for a command; where nothing was, that it could not be sent, or that
/// it took too long.
pub open spec fn collected_text(
    output: Seq<u8>,
    timed_out: bool,
    failure: Option<Seq<char>>,
) -> Seq<char> {
    if output.len() > 0 {
        text::utf8_lossy(output)
    } else if failure is Some {
        "[Fail]Failed to send command to device: "@ + failure->Some_0 + "\r\n"@
    } else if timed_out {
        "[Fail]Command timed out\r\n"@
    } else {
        text::utf8_lossy(output)
    }
}

/// What was collected for a command. `failure` is the reason why it could not be sent.
pub fn make_collected(output: &[u8], timed_out: bool, failure: &Option<String>) -> (r: String)
    ensures
        r@ == collected_text(output@, timed_out, auth::opt_text(*failure)),
{
    if output.len() > 0 {
        return lossy_text(output);
    }
    match failure {
        Some(reason) => make_send_failure(reason.as_str()),
        None => {
            if timed_out {
                "[Fail]Command timed out\r\n".to_owned()
            } else {
                lossy_text(output)
            }
        },
    }
}

/// What is collected of the text of a message; of other bytes, how many they are.
pub open spec fn message_text(payload: Seq<u8>) -> Seq<char> {
    if valid_utf8(payload) {
        decode_utf8(payload)
    } else {
        "[binary "@ + text::decimal(payload.len()) + " bytes]"@
    }
}

/// What has been collected after one more reply, and whether that was the last.
pub open spec fn after_reply(output: Seq<char>, reply: ReplyView) -> (Seq<char>, bool) {
    match reply {
        ReplyView::Closed => (output, true),
        ReplyView::TimedOut => (
            if output.len() == 0 {
                "[Fail]Command timed out\r\n"@
            } else {
                output
            },
            true,
        ),
        ReplyView::Message(m) => if m.command == HdcCommand::KernelChannelClose {
            (output, true)
        } else {
            (output + message_text(m.payload), false)
        },
    }
}

/// Collects one more reply. Says whether that was the last.
pub fn collect_reply(output: &mut String, reply: Reply) -> (r: bool)
    ensures
        (final(output)@, r) == after_reply(old(output)@, reply@),
{
    match reply {
        Reply::Closed => true,
        Reply::TimedOut => {
            if output.as_str().is_empty() {
                *output = "[Fail]Command timed out\r\n".to_owned();
            }
            true
        },
        Reply::Message(m) => {
            if m.command == HdcCommand::KernelChannelClose {
                return true;
            }
            let n: usize = m.payload.len();
            match text_of_utf8(m.payload) {
                Some(t) => output.append(t.as_str()),
                None => {
                    let note = concat3("[binary ", decimal_text(n as u64).as_str(), " bytes]");
                    output.append(note.as_str());
                },
            }
            false
        },
    }
}

// ---------------------------------------------------------------------------
// What the commands of a development environment do
// ---------------------------------------------------------------------------

/// The three requests that are answered at once name no command for a device.
proof fn answered_at_once(cmd: Seq<char>)
    ensures
        cmd == "alive"@ ==> parser::command_in(text::split_parts(cmd, ' ')) == Some(
            (HdcCommand::KernelEnableKeepalive, 0int),
        ),
        cmd == "list targets"@ || cmd == "list targets -v"@ ==> parser::command_in(
            text::split_parts(cmd, ' '),
        ) == Some((HdcCommand::KernelTargetList, 0int)),
{
    parser::names_lead_to_their_commands();
    reveal_strlit("alive");
    reveal_strlit("list");
    reveal_strlit("targets");
    reveal_strlit("-v");
    reveal_strlit("list targets");
    reveal_strlit("list targets -v");
    reveal_with_fuel(text::joined, 4);
    let none = Seq::<Seq<char>>::empty();
    if cmd == "alive"@ {
        text::undivided(cmd, ' ');
        let name = seq!["alive"@];
        assert(parser::led_by(name, HdcCommand::KernelEnableKeepalive));
        assert(name + none =~= name);
        assert(parser::command_in(name + none) == Some((HdcCommand::KernelEnableKeepalive, 0int)));
    }
    let name = seq!["list"@, "targets"@];
    assert(parser::led_by(name, HdcCommand::KernelTargetList));
    assert(forall|i: int| 0 <= i < name.len() ==> !(#[trigger] name[i]).contains(' '));
    assert(name.drop_last() =~= seq!["list"@]);
    if cmd == "list targets"@ {
        text::split_undoes_join(name, ' ');
        assert(text::joined(name, seq![' ']) =~= cmd);
        assert(name + none =~= name);
        assert(parser::command_in(name + none) == Some((HdcCommand::KernelTargetList, 0int)));
    }
    if cmd == "list targets -v"@ {
        let all = seq!["list"@, "targets"@, "-v"@];
        let more = seq!["-v"@];
        assert(forall|i: int| 0 <= i < all.len() ==> !(#[trigger] all[i]).contains(' '));
        text::split_undoes_join(all, ' ');
        assert(all.drop_last() =~= name);
        assert(text::joined(name, seq![' ']) =~= "list targets"@);
        assert(text::joined(all, seq![' ']) =~= cmd);
        assert(name + more =~= all);
        assert(parser::command_in(name + more) == Some((HdcCommand::KernelTargetList, 0int)));
    }
}

/// A request that names an installation, an uninstallation, a forwarding, or one of the plain
/// commands for a device is run with its words as they are, for up to a minute; it is never
/// answered as unknown.
#[verifier::rlimit(40)]
pub proof fn plain_requests_are_run(
    cmd: Seq<char>,
    devs: Seq<DeviceView>,
    cwd: Seq<char>,
    c: HdcCommand,
    i: int,
)
    requires
        parser::command_in(text::split_parts(cmd, ' ')) == Some((c, i)),
        c == HdcCommand::AppInit || c == HdcCommand::AppUninstall || c == HdcCommand::ForwardInit
            || c == HdcCommand::ForwardRportInit || c == HdcCommand::ForwardList || c
            == HdcCommand::ForwardRportList || c == HdcCommand::ForwardRemove || c
            == HdcCommand::ForwardRportRemove || c == HdcCommand::JdwpList || c
            == HdcCommand::UnityRunmode || c == HdcCommand::UnityReboot || c
            == HdcCommand::UnityRemount || c == HdcCommand::UnityRootrun || c
            == HdcCommand::UnityHilog || c == HdcCommand::UnityBugreportInit,
    ensures
        ide_request(cmd, devs, cwd) == IdeRequestView::Run(c, text::split_parts(cmd, ' '), 60),
{
    answered_at_once(cmd);
}

/// A request for a package is run: the words `install` or `uninstall` and those that follow them.
#[verifier::rlimit(40)]
pub proof fn package_requests_are_run(
    rest: Seq<Seq<char>>,
    devs: Seq<DeviceView>,
    cwd: Seq<char>,
)
    requires
        forall|i: int| 0 <= i < rest.len() ==> !(#[trigger] rest[i]).contains(' '),
    ensures
        ide_request(text::joined(seq!["install"@] + rest, seq![' ']), devs, cwd)
            == IdeRequestView::Run(HdcCommand::AppInit, seq!["install"@] + rest, 60),
        ide_request(text::joined(seq!["uninstall"@] + rest, seq![' ']), devs, cwd)
            == IdeRequestView::Run(HdcCommand::AppUninstall, seq!["uninstall"@] + rest, 60),
{
    parser::names_lead_to_their_commands();
    reveal_strlit("install");
    reveal_strlit("uninstall");
    let one = seq!["install"@];
    let other = seq!["uninstall"@];
    assert(parser::led_by(one, HdcCommand::AppInit));
    assert(parser::led_by(other, HdcCommand::AppUninstall));
    assert(!"install"@.contains(' '));
    assert(!"uninstall"@.contains(' '));
    let a = one + rest;
    let b = other + rest;
    assert forall|i: int| 0 <= i < a.len() implies !(#[trigger] a[i]).contains(' ') by {
        if i > 0 {
            assert(a[i] == rest[i - 1]);
        }
    }
    assert forall|i: int| 0 <= i < b.len() implies !(#[trigger] b[i]).contains(' ') by {
        if i > 0 {
            assert(b[i] == rest[i - 1]);
        }
    }
    text::split_undoes_join(a, ' ');
    text::split_undoes_join(b, ' ');
    assert(parser::command_in(a) == Some((HdcCommand::AppInit, 0int)));
    assert(parser::command_in(b) == Some((HdcCommand::AppUninstall, 0int)));
    plain_requests_are_run(text::joined(a, seq![' ']), devs, cwd, HdcCommand::AppInit, 0);
    plain_requests_are_run(text::joined(b, seq![' ']), devs, cwd, HdcCommand::AppUninstall, 0);
}

/// A shell command is run for up to half a minute, a shell without one is refused. Files may
/// take five minutes; those that are sent are looked for in the directory of this process.
/// Processes are followed. Any other command is not known.
#[verifier::rlimit(40)]
pub proof fn other_requests_are_told_apart(
    cmd: Seq<char>,
    devs: Seq<DeviceView>,
    cwd: Seq<char>,
    c: HdcCommand,
    i: int,
)
    requires
        parser::command_in(text::split_parts(cmd, ' ')) == Some((c, i)),
    ensures
        ({
            let words = text::split_parts(cmd, ' ');
            let asked = ide_request(cmd, devs, cwd);
            &&& c == HdcCommand::JdwpTrack ==> asked == IdeRequestView::Track(
                words.subrange(i, words.len() as int),
            )
            &&& c == HdcCommand::UnityExecute && i + 1 < words.len() ==> asked
                == IdeRequestView::Run(HdcCommand::UnityExecute, words, 30)
            &&& c == HdcCommand::UnityExecute && i + 1 == words.len() ==> asked
                == IdeRequestView::Answer(
                "[Fail]Interactive shell is not supported over IDE socket\r\n"@,
            )
            &&& c == HdcCommand::FileRecvInit && !(words.len() >= 2 && words[1] == "send"@)
                ==> asked == IdeRequestView::Run(HdcCommand::FileRecvInit, words, 300)
            &&& c == HdcCommand::FileInit && words.len() >= 2 && words[1] == "send"@ ==> asked
                == IdeRequestView::Run(
                HdcCommand::FileInit,
                words.subrange(0, 2) + seq!["-cwd"@, cwd] + words.subrange(2, words.len() as int),
                300,
            )
            &&& c == HdcCommand::KernelTargetConnect || c == HdcCommand::KernelHelp || c
                == HdcCommand::KernelServerKill || c == HdcCommand::KernelServerStart || c
                == HdcCommand::KernelWaitFor || c == HdcCommand::KernelCheckDevice || c
                == HdcCommand::FlashdErase || c == HdcCommand::FlashdFormat || c
                == HdcCommand::FlashdUpdateInit || c == HdcCommand::FlashdFlashInit || c
                == HdcCommand::AppSideload || c == HdcCommand::ClientKeyGenerate ==> asked
                == IdeRequestView::Answer("[Fail]Unknown command: "@ + cmd + "\r\n"@)
        }),
{
    let words = text::split_parts(cmd, ' ');
    answered_at_once(cmd);
    parser::command_is_named(words);
    assert(words.skip(i) =~= words.subrange(i, words.len() as int));
    if words.len() >= 2 {
        assert(words.take(2) =~= words.subrange(0, 2));
        assert(words.skip(2) =~= words.subrange(2, words.len() as int));
    }
}

/// What is answered at once: nothing to a sign of life, the keys of the connected devices one
/// on a line, or every device with its way and its status.
pub proof fn lists_are_answered(devs: Seq<DeviceView>, cwd: Seq<char>)
    ensures
        ide_request("alive"@, devs, cwd) == IdeRequestView::Answer(Seq::empty()),
        ide_request("list targets"@, devs, cwd) == IdeRequestView::Answer(
            text::joined(connect_map::device_list(devs, false), "\n"@),
        ),
        ide_request("list targets -v"@, devs, cwd) == IdeRequestView::Answer(
            connect_map::ide_lines(connect_map::device_list(devs, true)),
        ),
{
    reveal_strlit("alive");
    reveal_strlit("list targets");
    reveal_strlit("list targets -v");
    assert("alive"@.len() == 5 && "list targets"@.len() == 12 && "list targets -v"@.len() == 15);
}

/// A request that names no command is told to be unknown.
pub proof fn unknown_request_is_told(cmd: Seq<char>, devs: Seq<DeviceView>, cwd: Seq<char>)
    requires
        parser::command_in(text::split_parts(cmd, ' ')) is None,
    ensures
        ide_request(cmd, devs, cwd) == IdeRequestView::Answer(
            "[Fail]Unknown command: "@ + cmd + "\r\n"@,
        ),
{
    answered_at_once(cmd);
}

/// A development environment reads an answer behind its length, which the first four bytes
/// tell: the text, with a line feed at its end unless it is empty.
pub proof fn answer_is_read_back(response: Seq<char>)
    requires
        encode_utf8(response).len() < 0xffff_ffff,
    ensures
        ({
            let text = encode_utf8(response);
            let sent = ide_answer(response);
            &&& sent.len() == 4 + bytes::be32_value(sent, 0)
            &&& text.len() == 0 ==> sent.len() == 4
            &&& text.len() > 0 ==> sent.last() == 10
            &&& sent.skip(4) == text || sent.skip(4) == text.push(10)
        }),
{
    let text = encode_utf8(response);
    let body = if text.len() > 0 && text.last() != 10 {
        text.push(10)
    } else {
        text
    };
    tcp_map::framed_length(body);
    assert(tcp_map::framed(body).skip(4) =~= body);
}

/// A command of one byte to a mebibyte is read, in the length that is told before it; no other
/// length can be right. Messages of up to sixteen mebibytes are collected.
pub proof fn lengths_are_read(n: u32)
    ensures
        ide_length(bytes::be32(n)) == if 1 <= n <= 1048576 {
            Some(n as usize)
        } else {
            None
        },
        collected_length(bytes::be32(n)) == if n <= 16777216 {
            Some(n as usize)
        } else {
            None
        },
{
    bytes::be32_read_back(bytes::be32(n), 0, n);
}

/// What a device says is collected, one text after the other, until the channel is closed or
/// nothing more comes; where nothing was said in time, that is told.
pub proof fn replies_are_collected(
    output: Seq<char>,
    said: Seq<char>,
    c: HdcCommand,
    channel_id: u32,
    payload: Seq<u8>,
)
    requires
        c != HdcCommand::KernelChannelClose,
    ensures
        after_reply(
            output,
            ReplyView::Message(
                TaskMessageView { channel_id, command: c, payload: encode_utf8(said) },
            ),
        ) == (output + said, false),
        after_reply(
            output,
            ReplyView::Message(
                TaskMessageView { channel_id, command: HdcCommand::KernelChannelClose, payload },
            ),
        ) == (output, true),
        after_reply(output, ReplyView::Closed) == (output, true),
        after_reply(output, ReplyView::TimedOut) == (
            if output == Seq::<char>::empty() {
                "[Fail]Command timed out\r\n"@
            } else {
                output
            },
            true,
        ),
{
    encode_utf8_valid_utf8(said);
    encode_utf8_decode_utf8(said);
    assert(output.len() == 0 <==> output =~= Seq::<char>::empty());
}

/// What a command printed is its answer. Where it printed nothing, the answer is why it could
/// not be sent, or else that it took too long.
pub proof fn output_is_the_answer(said: Seq<char>, timed_out: bool, failure: Option<Seq<char>>)
    ensures
        encode_utf8(said).len() > 0 ==> collected_text(encode_utf8(said), timed_out, failure)
            == said,
        failure is Some ==> collected_text(Seq::empty(), timed_out, failure)
            == "[Fail]Failed to send command to device: "@ + failure->Some_0 + "\r\n"@,
        failure is None && timed_out ==> collected_text(Seq::empty(), timed_out, failure)
            == "[Fail]Command timed out\r\n"@,
        failure is None && !timed_out ==> collected_text(Seq::empty(), timed_out, failure)
            == Seq::<char>::empty(),
{
    text::text_of_its_bytes(said);
    text::text_of_its_bytes(Seq::empty());
    assert(encode_utf8(Seq::<char>::empty()) =~= Seq::<u8>::empty());
}

/// An environment asks a device for its processes under the same options as a user: the letter
/// of the option is what the device is told. It reads the same of a device that cannot be asked
/// at once and later.
pub proof fn processes_are_asked_for(
    channel_id: u32,
    params: Seq<Seq<char>>,
    timed_out: bool,
    reason: Seq<char>,
)
    ensures
        track_message(channel_id, params).channel_id == channel_id,
        track_message(channel_id, params).command == HdcCommand::JdwpTrack,
        params.contains("-a"@) ==> track_message(channel_id, params).payload == seq![97u8],
        !params.contains("-a"@) && params.contains("-p"@) ==> track_message(
            channel_id,
            params,
        ).payload == seq![112u8],
        !params.contains("-a"@) && !params.contains("-p"@) ==> track_message(
            channel_id,
            params,
        ).payload == Seq::<u8>::empty(),
        collected_text(Seq::empty(), timed_out, Some(reason)) == unsent_text(reason),
        unsent_text(reason) == "[Fail]Failed to send command to device: "@ + reason + "\r\n"@,
{
}

} // verus!
