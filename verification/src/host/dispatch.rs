//! What the server does for a command of a client.
//!
//! [`dispatch_task`] decides. Where something outside has to happen first, the
//! functions behind it say what follows from how it came out.

use crate::host::auth;
use crate::host::client;
use crate::host::client::ServerAnswerError;
use crate::host::connect_map;
use crate::host::connect_map::{ConnectMap, DeviceView, ResolveErrorView, resolve_connect_key, resolve_session_id};
use crate::host::forward_map;
use crate::host::forward_map::{ForwardMap, Rule, RuleView, build_forward_list, remove_forward_entry};
use crate::host::parser;
use crate::host::parser::split_opt_and_cmd;
use crate::host::session;
use crate::host::session::{device_found, strip_level};
use crate::host::tcp_map::TcpMap;
use crate::host::transfer::Reply;
use crate::protocol::bytes;
use crate::protocol::bytes::{copy_bytes, push_bytes, push_le16};
use crate::protocol::command::HdcCommand;
use crate::protocol::config;
use crate::protocol::config::{ConnStatus, ConnectType, ConnectTypeView, HDC_VERSION_NUMBER, TaskMessage, TaskMessageView, get_version};
use crate::text;
use crate::text::{concat2, concat3, copy_text, decimal_text, join, lossy_text, same_text, split, trim, trim_end_of};
use vstd::prelude::*;
use vstd::slice::slice_subrange;
use vstd::utf8::*;

verus! {

/// The tasks that talk with a daemon until they are done.
#[derive(Debug, Clone, Copy, PartialEq, Eq, Structural)]
pub enum Handler {
    FileSend,
    FileRecv,
    AppInstall,
    Forward,
    ReverseForward,
    Flash,
}

/// What the server does for a command.
#[derive(Debug, PartialEq, Eq)]
pub enum Task {
    /// Tell the client, then close the channel unless it is kept alive. If `strict`,
    /// a failure to tell is reported and the channel is not closed.
    Reply { text: Vec<u8>, strict: bool },
    /// Keep the channel alive.
    KeepAlive,
    /// Look for devices on the network, then [`discovered`].
    Discover,
    /// Connect to a daemon, then [`connected`].
    Connect(String),
    /// Tell the client which device is connected, as [`wait_step`] says.
    Wait,
    /// Drop the session of a device, as [`reconnect`] says.
    Reconnect { key: String, session_id: u32 },
    /// Run a task for a device; if it fails, [`task_failed`].
    Run { handler: Handler, key: String, session_id: u32 },
    /// Remove forwardings, as [`remove_forwardings`] says.
    RemoveForwardings(String),
    /// Send a message to a daemon and hand the client everything it answers.
    Track { session_id: u32, message: TaskMessage },
    /// Send a message to a daemon, which answers the client itself. If the daemon does
    /// not close the channel, the answers are collected and the server does.
    Ask { session_id: u32, message: TaskMessage, close_on_failure: bool, collect: bool },
}

/// What the server does for a command.
pub enum TaskView {
    Reply { text: Seq<u8>, strict: bool },
    KeepAlive,
    Discover,
    Connect(Seq<char>),
    Wait,
    Reconnect { key: Seq<char>, session_id: u32 },
    Run { handler: Handler, key: Seq<char>, session_id: u32 },
    RemoveForwardings(Seq<char>),
    Track { session_id: u32, message: TaskMessageView },
    Ask { session_id: u32, message: TaskMessageView, close_on_failure: bool, collect: bool },
}

impl View for Task {
    type V = TaskView;

    open spec fn view(&self) -> TaskView {
        match *self {
            Task::Reply { text, strict } => TaskView::Reply { text: text@, strict },
            Task::KeepAlive => TaskView::KeepAlive,
            Task::Discover => TaskView::Discover,
            Task::Connect(addr) => TaskView::Connect(addr@),
            Task::Wait => TaskView::Wait,
            Task::Reconnect { key, session_id } => TaskView::Reconnect { key: key@, session_id },
            Task::Run { handler, key, session_id } => TaskView::Run {
                handler,
                key: key@,
                session_id,
            },
            Task::RemoveForwardings(words) => TaskView::RemoveForwardings(words@),
            Task::Track { session_id, message } => TaskView::Track {
                session_id,
                message: message@,
            },
            Task::Ask { session_id, message, close_on_failure, collect } => TaskView::Ask {
                session_id,
                message: message@,
                close_on_failure,
                collect,
            },
        }
    }
}

/// A text for the client.
pub open spec fn reply(text: Seq<char>, strict: bool) -> TaskView {
    TaskView::Reply { text: encode_utf8(text), strict }
}

/// What the client is told of a failure.
pub open spec fn failure_text(reason: Seq<char>) -> Seq<char> {
    "[Fail]"@ + reason + "\r\n"@
}

/// One of the words is `word`.
pub open spec fn has_word(params: Seq<Seq<char>>, word: Seq<char>) -> bool {
    exists|i: int| 0 <= i < params.len() && #[trigger] params[i] == word
}

/// The list of the devices, or a word for none.
pub open spec fn target_list(devs: Seq<DeviceView>, params: Seq<Seq<char>>) -> Seq<char> {
    let list = connect_map::device_list(devs, has_word(params, "v"@) || has_word(params, "-v"@));
    (if list.len() == 0 {
        "[Empty]"@
    } else {
        text::joined(list, "\n"@)
    }) + "\r\n"@
}

/// The device that a command is about: the one that it names, or that of the client.
pub open spec fn named_device(params: Seq<Seq<char>>, connect_key: Seq<char>) -> Seq<char> {
    if params.len() > 1 {
        params[1]
    } else {
        connect_key
    }
}

/// Whether a device is connected, in words.
pub open spec fn check_device(
    devs: Seq<DeviceView>,
    params: Seq<Seq<char>>,
    connect_key: Seq<char>,
) -> TaskView {
    match connect_map::resolved_key(devs, named_device(params, connect_key)) {
        Err(e) => reply(failure_text(e.text()), true),
        Ok(key) => if connect_map::session_of(devs, key) is Some {
            reply("Device "@ + key + " is connected\r\n"@, true)
        } else {
            reply("[Fail]Device "@ + key + " is not connected\r\n"@, true)
        },
    }
}

/// The session of a device is dropped, if it has one.
pub open spec fn reconnect_device(
    devs: Seq<DeviceView>,
    params: Seq<Seq<char>>,
    connect_key: Seq<char>,
) -> TaskView {
    match connect_map::resolved_key(devs, named_device(params, connect_key)) {
        Err(e) => reply(failure_text(e.text()), true),
        Ok(key) => match connect_map::session_of(devs, key) {
            Some(session_id) => TaskView::Reconnect { key, session_id },
            None => reply("[Fail]Device "@ + key + " is not connected\r\n"@, true),
        },
    }
}

/// A task for the device of the client.
pub open spec fn run_for(devs: Seq<DeviceView>, connect_key: Seq<char>, handler: Handler) -> TaskView {
    match connect_map::resolved_key(devs, connect_key) {
        Err(e) => reply(failure_text(e.text()), false),
        Ok(key) => match connect_map::session_of(devs, key) {
            Some(session_id) => TaskView::Run { handler, key, session_id },
            None => reply("[Fail]Session not found\r\n"@, false),
        },
    }
}

/// What a daemon is told of which processes to track.
pub open spec fn track_option(params: Seq<Seq<char>>) -> Seq<u8> {
    if has_word(params, "-a"@) {
        seq![0x61u8]
    } else if has_word(params, "-p"@) {
        seq![0x70u8]
    } else {
        Seq::empty()
    }
}

/// The commands that are sent to a daemon without their name.
pub open spec fn sent_without_name(cmd: HdcCommand) -> bool {
    cmd == HdcCommand::UnityExecute || cmd == HdcCommand::UnityReboot || cmd
        == HdcCommand::UnityRemount || cmd == HdcCommand::UnityRunmode || cmd
        == HdcCommand::UnityRootrun || cmd == HdcCommand::UnityHilog || cmd
        == HdcCommand::UnityBugreportInit || cmd == HdcCommand::AppUninstall
}

/// What a daemon is told of a command.
pub open spec fn command_payload(cmd: HdcCommand, params: Seq<Seq<char>>) -> Seq<u8> {
    if sent_without_name(cmd) {
        if params.len() > 1 {
            encode_utf8(text::joined(params.skip(1), " "@))
        } else {
            Seq::empty()
        }
    } else {
        encode_utf8(text::joined(params, " "@))
    }
}

/// A message is sent to the daemon of the client.
pub open spec fn ask(
    devs: Seq<DeviceView>,
    connect_key: Seq<char>,
    message: TaskMessageView,
    close_on_failure: bool,
    collect: bool,
) -> TaskView {
    match connect_map::resolved_session(devs, connect_key) {
        Err(e) => reply(failure_text(e.text()), true),
        Ok(session_id) => TaskView::Ask { session_id, message, close_on_failure, collect },
    }
}

/// The forwardings, or a word for none.
pub open spec fn forward_list(rules: Seq<RuleView>, connect_key: Seq<char>) -> Seq<char> {
    let list = text::joined(forward_map::rule_lines(rules, connect_key), "\r\n"@);
    if list.len() == 0 {
        "[Empty]\r\n"@
    } else {
        list + "\r\n"@
    }
}

/// The words after the second.
pub open spec fn rule_words(params: Seq<Seq<char>>) -> Seq<char> {
    if params.len() >= 3 {
        text::joined(params.skip(2), " "@)
    } else {
        Seq::empty()
    }
}

/// What the server does for a command.
pub open spec fn task_for(
    devs: Seq<DeviceView>,
    rules: Seq<RuleView>,
    cmd: HdcCommand,
    connect_key: Seq<char>,
    channel_id: u32,
    params: Seq<Seq<char>>,
) -> TaskView {
    match cmd {
        HdcCommand::KernelTargetList => reply(target_list(devs, params), true),
        HdcCommand::KernelTargetDiscover => TaskView::Discover,
        HdcCommand::KernelCheckDevice => check_device(devs, params, connect_key),
        HdcCommand::KernelTargetConnect => if params.len() < 2 {
            reply("[Fail]Missing connect address\r\n"@, true)
        } else {
            TaskView::Connect(params[1])
        },
        HdcCommand::KernelCheckServer => TaskView::Reply {
            text: bytes::le16(HdcCommand::KernelCheckServer.code() as u16) + encode_utf8(
                config::version_text(HDC_VERSION_NUMBER),
            ),
            strict: true,
        },
        HdcCommand::ClientVersion => reply(config::version_text(HDC_VERSION_NUMBER), true),
        HdcCommand::KernelEnableKeepalive => TaskView::KeepAlive,
        HdcCommand::KernelWaitFor => TaskView::Wait,
        HdcCommand::KernelTargetReconnect => reconnect_device(devs, params, connect_key),
        HdcCommand::SpawnSub => if params.len() > 0 && params[0] == "killall-sub"@ {
            reply("Kill all subserver processes (not fully implemented)\r\n"@, true)
        } else {
            reply("Spawn subserver (not fully implemented)\r\n"@, true)
        },
        HdcCommand::FileInit => run_for(devs, connect_key, Handler::FileSend),
        HdcCommand::FileRecvInit => run_for(devs, connect_key, Handler::FileRecv),
        HdcCommand::AppInit => run_for(devs, connect_key, Handler::AppInstall),
        HdcCommand::ForwardInit => run_for(devs, connect_key, Handler::Forward),
        HdcCommand::ForwardRportInit => run_for(devs, connect_key, Handler::ReverseForward),
        HdcCommand::ForwardList | HdcCommand::ForwardRportList => reply(
            forward_list(rules, connect_key),
            false,
        ),
        HdcCommand::ForwardRemove | HdcCommand::ForwardRportRemove => TaskView::RemoveForwardings(
            rule_words(params),
        ),
        HdcCommand::JdwpTrack => match connect_map::resolved_session(devs, connect_key) {
            Err(e) => reply(failure_text(e.text()), true),
            Ok(session_id) => TaskView::Track {
                session_id,
                message: TaskMessageView {
                    channel_id,
                    command: cmd,
                    payload: track_option(params),
                },
            },
        },
        HdcCommand::JdwpList => ask(
            devs,
            connect_key,
            TaskMessageView { channel_id, command: cmd, payload: Seq::empty() },
            true,
            false,
        ),
        HdcCommand::FlashdUpdateInit
        | HdcCommand::FlashdFlashInit
        | HdcCommand::FlashdErase
        | HdcCommand::FlashdFormat => run_for(devs, connect_key, Handler::Flash),
        _ => ask(
            devs,
            connect_key,
            TaskMessageView { channel_id, command: cmd, payload: command_payload(cmd, params) },
            false,
            cmd == HdcCommand::AppUninstall,
        ),
    }
}

// ---------------------------------------------------------------------------
// Deciding
// ---------------------------------------------------------------------------

/// The bytes of a text.
pub fn text_bytes(s: &str) -> (r: Vec<u8>)
    ensures
        r@ == encode_utf8(s@),
{
    copy_bytes(s.as_bytes())
}

fn say(text: &str, strict: bool) -> (r: Task)
    ensures
        r@ == reply(text@, strict),
{
    Task::Reply { text: text_bytes(text), strict }
}

/// What the client is told of a failure.
pub fn make_failure(reason: &str) -> (r: String)
    ensures
        r@ == failure_text(reason@),
{
    concat3("[Fail]", reason, "\r\n")
}

/// Whether one of the words is `word`.
pub fn contains_word(params: &[String], word: &str) -> (r: bool)
    ensures
        r == has_word(text::texts(params@), word@),
{
    let mut i: usize = 0;
    while i < params.len()
        invariant
            i <= params.len(),
            forall|j: int| 0 <= j < i ==> #[trigger] text::texts(params@)[j] != word@,
        decreases params.len() - i,
    {
        assert(text::texts(params@)[i as int] == params@[i as int]@);
        if same_text(params[i].as_str(), word) {
            return true;
        }
        i += 1;
    }
    false
}

/// The words from `from` on, with blanks between them.
pub fn join_from(params: &[String], from: usize) -> (r: String)
    requires
        from <= params.len(),
    ensures
        r@ == text::joined(text::texts(params@).skip(from as int), " "@),
{
    assert(text::texts(params@.subrange(from as int, params@.len() as int)) =~= text::texts(params@).skip(
        from as int,
    ));
    join(slice_subrange(params, from, params.len()), " ")
}

fn list_targets(connect_map: &ConnectMap, params: &[String]) -> (r: Task)
    ensures
        r@ == reply(target_list(connect_map@, text::texts(params@)), true),
{
    let is_full = contains_word(params, "v") || contains_word(params, "-v");
    let list = connect_map.get_list(is_full);
    let mut msg: String = if list.len() == 0 {
        "[Empty]".to_owned()
    } else {
        join(&list, "\n")
    };
    msg.append("\r\n");
    say(msg.as_str(), true)
}

fn choose_device(params: &[String], connect_key: &str) -> (r: String)
    ensures
        r@ == named_device(text::texts(params@), connect_key@),
{
    if params.len() > 1 {
        assert(text::texts(params@)[1] == params@[1]@);
        copy_text(params[1].as_str())
    } else {
        copy_text(connect_key)
    }
}

fn look_up_device(connect_map: &ConnectMap, params: &[String], connect_key: &str, drop_it: bool) -> (r: Task)
    ensures
        r@ == (if drop_it {
            reconnect_device(connect_map@, text::texts(params@), connect_key@)
        } else {
            check_device(connect_map@, text::texts(params@), connect_key@)
        }),
{
    let key = choose_device(params, connect_key);
    match resolve_connect_key(connect_map, key.as_str()) {
        Err(e) => say(make_failure(e.message().as_str()).as_str(), true),
        Ok(actual) => match connect_map.get_session_id(actual.as_str()) {
            Some(session_id) => {
                if drop_it {
                    Task::Reconnect { key: actual, session_id }
                } else {
                    say(concat3("Device ", actual.as_str(), " is connected\r\n").as_str(), true)
                }
            },
            None => say(
                concat3("[Fail]Device ", actual.as_str(), " is not connected\r\n").as_str(),
                true,
            ),
        },
    }
}

fn run_task(connect_map: &ConnectMap, connect_key: &str, handler: Handler) -> (r: Task)
    ensures
        r@ == run_for(connect_map@, connect_key@, handler),
{
    match resolve_connect_key(connect_map, connect_key) {
        Err(e) => say(make_failure(e.message().as_str()).as_str(), false),
        Ok(key) => match connect_map.get_session_id(key.as_str()) {
            Some(session_id) => Task::Run { handler, key, session_id },
            None => say("[Fail]Session not found\r\n", false),
        },
    }
}

/// What a daemon is told of which processes to track.
pub fn jdwp_option(params: &[String]) -> (r: Vec<u8>)
    ensures
        r@ == track_option(text::texts(params@)),
{
    let mut out: Vec<u8> = Vec::new();
    if contains_word(params, "-a") {
        out.push(0x61);
    } else if contains_word(params, "-p") {
        out.push(0x70);
    }
    assert(out@ =~= track_option(text::texts(params@)));
    out
}

fn make_payload(cmd: HdcCommand, params: &[String]) -> (r: Vec<u8>)
    ensures
        r@ == command_payload(cmd, text::texts(params@)),
{
    match cmd {
        HdcCommand::UnityExecute
        | HdcCommand::UnityReboot
        | HdcCommand::UnityRemount
        | HdcCommand::UnityRunmode
        | HdcCommand::UnityRootrun
        | HdcCommand::UnityHilog
        | HdcCommand::UnityBugreportInit
        | HdcCommand::AppUninstall => {
            if params.len() > 1 {
                text_bytes(join_from(params, 1).as_str())
            } else {
                Vec::new()
            }
        },
        _ => text_bytes(join(params, " ").as_str()),
    }
}

fn ask_daemon(
    connect_map: &ConnectMap,
    connect_key: &str,
    message: TaskMessage,
    close_on_failure: bool,
    collect: bool,
) -> (r: Task)
    ensures
        r@ == ask(connect_map@, connect_key@, message@, close_on_failure, collect),
{
    match resolve_session_id(connect_map, connect_key) {
        Err(e) => say(make_failure(e.message().as_str()).as_str(), true),
        Ok(session_id) => Task::Ask { session_id, message, close_on_failure, collect },
    }
}

fn version_answer() -> (r: Task)
    ensures
        r@ == (TaskView::Reply {
            text: bytes::le16(HdcCommand::KernelCheckServer.code() as u16) + encode_utf8(
                config::version_text(HDC_VERSION_NUMBER),
            ),
            strict: true,
        }),
{
    let mut text: Vec<u8> = Vec::new();
    push_le16(&mut text, 13);
    push_bytes(&mut text, get_version().as_str().as_bytes());
    assert(text@ =~= bytes::le16(13) + encode_utf8(config::version_text(HDC_VERSION_NUMBER)));
    Task::Reply { text, strict: true }
}

/// Decides what the server does for a command of a client.
#[verifier::rlimit(40)]
pub fn dispatch_task(
    connect_map: &ConnectMap,
    forward_map: &ForwardMap,
    cmd: HdcCommand,
    connect_key: &str,
    channel_id: u32,
    params: &[String],
) -> (r: Task)
    ensures
        r@ == task_for(
            connect_map@,
            forward_map@,
            cmd,
            connect_key@,
            channel_id,
            text::texts(params@),
        ),
{
    match cmd {
        HdcCommand::KernelTargetList => list_targets(connect_map, params),
        HdcCommand::KernelTargetDiscover => Task::Discover,
        HdcCommand::KernelCheckDevice => look_up_device(connect_map, params, connect_key, false),
        HdcCommand::KernelTargetConnect => {
            if params.len() < 2 {
                say("[Fail]Missing connect address\r\n", true)
            } else {
                assert(text::texts(params@)[1] == params@[1]@);
                Task::Connect(copy_text(params[1].as_str()))
            }
        },
        HdcCommand::KernelCheckServer => version_answer(),
        HdcCommand::ClientVersion => say(get_version().as_str(), true),
        HdcCommand::KernelEnableKeepalive => Task::KeepAlive,
        HdcCommand::KernelWaitFor => Task::Wait,
        HdcCommand::KernelTargetReconnect => look_up_device(
            connect_map,
            params,
            connect_key,
            true,
        ),
        HdcCommand::SpawnSub => {
            if params.len() > 0 {
                assert(text::texts(params@)[0] == params@[0]@);
            }
            if params.len() > 0 && same_text(params[0].as_str(), "killall-sub") {
                say("Kill all subserver processes (not fully implemented)\r\n", true)
            } else {
                say("Spawn subserver (not fully implemented)\r\n", true)
            }
        },
        HdcCommand::FileInit => run_task(connect_map, connect_key, Handler::FileSend),
        HdcCommand::FileRecvInit => run_task(connect_map, connect_key, Handler::FileRecv),
        HdcCommand::AppInit => run_task(connect_map, connect_key, Handler::AppInstall),
        HdcCommand::ForwardInit => run_task(connect_map, connect_key, Handler::Forward),
        HdcCommand::ForwardRportInit => run_task(
            connect_map,
            connect_key,
            Handler::ReverseForward,
        ),
        HdcCommand::ForwardList | HdcCommand::ForwardRportList => {
            let list = build_forward_list(forward_map, connect_key);
            if list.as_str().is_empty() {
                say("[Empty]\r\n", false)
            } else {
                say(concat2(list.as_str(), "\r\n").as_str(), false)
            }
        },
        HdcCommand::ForwardRemove | HdcCommand::ForwardRportRemove => {
            let words: String = if params.len() >= 3 {
                join_from(params, 2)
            } else {
                String::new()
            };
            Task::RemoveForwardings(words)
        },
        HdcCommand::JdwpTrack => match resolve_session_id(connect_map, connect_key) {
            Err(e) => say(make_failure(e.message().as_str()).as_str(), true),
            Ok(session_id) => Task::Track {
                session_id,
                message: TaskMessage { channel_id, command: cmd, payload: jdwp_option(params) },
            },
        },
        HdcCommand::JdwpList => {
            let payload: Vec<u8> = Vec::new();
            ask_daemon(
                connect_map,
                connect_key,
                TaskMessage { channel_id, command: cmd, payload },
                true,
                false,
            )
        },
        HdcCommand::FlashdUpdateInit
        | HdcCommand::FlashdFlashInit
        | HdcCommand::FlashdErase
        | HdcCommand::FlashdFormat => run_task(connect_map, connect_key, Handler::Flash),
        _ => {
            let payload = make_payload(cmd, params);
            ask_daemon(
                connect_map,
                connect_key,
                TaskMessage { channel_id, command: cmd, payload },
                false,
                cmd == HdcCommand::AppUninstall,
            )
        },
    }
}

// ---------------------------------------------------------------------------
// What follows
// ---------------------------------------------------------------------------

/// The devices with those that were found on the network and are not known yet, of
/// the first `n`, and how many they are.
pub open spec fn with_discovered(devs: Seq<DeviceView>, addrs: Seq<Seq<char>>, n: nat) -> (
    Seq<DeviceView>,
    nat,
)
    decreases n,
{
    if n == 0 {
        (devs, 0)
    } else {
        let (before, count) = with_discovered(devs, addrs, (n - 1) as nat);
        let addr = addrs[n - 1];
        if connect_map::lookup(before, addr) is Some {
            (before, count)
        } else {
            (connect_map::with_device(before, addr, session::found_device(ConnectTypeView::Tcp)), count + 1)
        }
    }
}

/// The devices once a search is over.
pub open spec fn after_search(devs: Seq<DeviceView>, found: Option<Seq<Seq<char>>>) -> (
    Seq<DeviceView>,
    TaskView,
) {
    let (now, count) = match found {
        Some(addrs) => with_discovered(devs, addrs, addrs.len()),
        None => (devs, 0nat),
    };
    (now, reply("Broadcast find daemon, total:"@ + text::decimal(count) + "\r\n"@, true))
}

/// Devices were found on the network, or the search failed.
pub fn discovered(connect_map: &mut ConnectMap, found: Option<Vec<String>>) -> (r: Task)
    requires
        old(connect_map).wf(),
    ensures
        final(connect_map).wf(),
        (final(connect_map)@, r@) == after_search(
            old(connect_map)@,
            match found {
                Some(addrs) => Some(text::texts(addrs@)),
                None => None,
            },
        ),
{
    let mut count: u64 = 0;
    match found {
        Some(addrs) => {
            let mut i: usize = 0;
            while i < addrs.len()
                invariant
                    connect_map.wf(),
                    i <= addrs.len(),
                    count <= i,
                    with_discovered(old(connect_map)@, text::texts(addrs@), i as nat) == (
                        connect_map@,
                        count as nat,
                    ),
                decreases addrs.len() - i,
            {
                assert(text::texts(addrs@)[i as int] == addrs@[i as int]@);
                if !connect_map.contains_key(addrs[i].as_str()) {
                    device_found(connect_map, addrs[i].as_str(), ConnectType::Tcp);
                    count += 1;
                }
                i += 1;
            }
        },
        None => {},
    }
    say(
        concat3(
            "Broadcast find daemon, total:",
            decimal_text(count).as_str(),
            "\r\n",
        ).as_str(),
        true,
    )
}

/// What the client is told of an attempt to connect to a daemon.
pub open spec fn connect_outcome(failure: Option<Seq<char>>) -> TaskView {
    match failure {
        None => reply("Connect OK\r\n"@, true),
        Some(e) => reply("[Fail]Connect to daemon failed: "@ + e + "\r\n"@, true),
    }
}

/// A daemon was connected to, or could not be; the reason is told.
pub fn connected(failure: Option<String>) -> (r: Task)
    ensures
        r@ == connect_outcome(auth::opt_text(failure)),
{
    match failure {
        None => say("Connect OK\r\n", true),
        Some(e) => say(
            concat3("[Fail]Connect to daemon failed: ", e.as_str(), "\r\n").as_str(),
            true,
        ),
    }
}

/// What the user is told of a task that failed.
pub open spec fn failure_told(reason: Seq<char>) -> TaskView {
    reply(failure_text(reason), false)
}

/// What the user is told where a daemon could not be asked.
pub open spec fn unasked_told(reason: Seq<char>) -> Seq<u8> {
    encode_utf8("[Fail]Send to daemon failed: "@ + reason + "\r\n"@)
}

/// What the user is told of a device that is connected to anew.
pub open spec fn reconnect_told(key: Seq<char>) -> TaskView {
    reply("Reconnecting "@ + key + " ...\r\n"@, true)
}

/// A task failed; the reason is told.
pub fn task_failed(reason: &str) -> (r: Task)
    ensures
        r@ == failure_told(reason@),
{
    say(make_failure(reason).as_str(), false)
}

/// A message could not be sent to a daemon; the reason is told.
pub fn ask_failed(reason: &str) -> (r: Vec<u8>)
    ensures
        r@ == unasked_told(reason@),
{
    text_bytes(concat3("[Fail]Send to daemon failed: ", reason, "\r\n").as_str())
}

/// One look for a connected device.
#[derive(Debug, PartialEq, Eq)]
pub struct WaitStep {
    /// What the client is told.
    pub text: Vec<u8>,
    /// Whether the server looks again, a second later.
    pub again: bool,
}

/// What the client is told of one look for a connected device, and whether the server looks
/// again.
pub open spec fn waited(devs: Seq<DeviceView>) -> (Seq<u8>, bool) {
    let list = connect_map::device_list(devs, false);
    if list.len() == 0 {
        (encode_utf8("[Fail]No any connected target\r\n"@), true)
    } else {
        (encode_utf8("Wait for connected target "@ + list[0] + "\r\n"@), false)
    }
}

/// Looks for a connected device.
pub fn wait_step(connect_map: &ConnectMap) -> (r: WaitStep)
    ensures
        (r.text@, r.again) == waited(connect_map@),
{
    let list = connect_map.get_list(false);
    if list.len() == 0 {
        WaitStep { text: text_bytes("[Fail]No any connected target\r\n"), again: true }
    } else {
        assert(text::texts(list@)[0] == list@[0]@);
        let text = concat3("Wait for connected target ", list[0].as_str(), "\r\n");
        WaitStep { text: text_bytes(text.as_str()), again: false }
    }
}

/// Drops the session of a device; says whether there is a writer to shut down.
pub fn reconnect(
    connect_map: &mut ConnectMap,
    tcp_map: &mut TcpMap,
    key: &str,
    session_id: u32,
) -> (r: (Task, bool))
    requires
        old(connect_map).wf(),
        old(tcp_map).wf(),
    ensures
        final(connect_map).wf(),
        final(tcp_map).wf(),
        (final(connect_map)@, final(tcp_map)@) == session::after_tcp_loss(
            old(connect_map)@,
            old(tcp_map)@,
            key@,
            session_id,
        ),
        r.0@ == reconnect_told(key@),
        r.1 == old(tcp_map)@.sessions.contains(session_id),
{
    let shut = tcp_map.end_session(session_id);
    connect_map.remove(key);
    (say(concat3("Reconnecting ", key, " ...\r\n").as_str(), true), shut)
}

/// What is left of the forwardings where a user removes some, and what is removed.
pub open spec fn after_removal(rules: Seq<RuleView>, key: Seq<char>, words: Seq<char>) -> (
    Seq<RuleView>,
    Seq<RuleView>,
) {
    let i = forward_map::rule_to_remove(rules, key, words);
    if words.len() == 0 {
        (
            forward_map::rules_concerned(rules, key, false),
            forward_map::rules_concerned(rules, key, true),
        )
    } else if i < rules.len() {
        (rules.remove(i), seq![rules[i]])
    } else {
        (rules, Seq::empty())
    }
}

/// What a user who removes forwardings is told.
pub open spec fn removal_told(rules: Seq<RuleView>, key: Seq<char>, words: Seq<char>) -> TaskView {
    match forward_map::removal_text(rules, key, words) {
        Ok(t) => reply(t + "\r\n"@, false),
        Err(t) => reply(failure_text(t), false),
    }
}

/// Removes forwardings and tells the client.
pub fn remove_forwardings(
    forward_map: &mut ForwardMap,
    connect_key: &str,
    words: &str,
) -> (r: (Task, Vec<Rule>))
    ensures
        r.0@ == removal_told(old(forward_map)@, connect_key@, words@),
        (final(forward_map)@, forward_map::rule_views(r.1@)) == after_removal(
            old(forward_map)@,
            connect_key@,
            words@,
        ),
{
    let removal = remove_forward_entry(forward_map, connect_key, words);
    let task = match removal.text {
        Ok(t) => say(concat2(t.as_str(), "\r\n").as_str(), false),
        Err(t) => say(make_failure(t.as_str()).as_str(), false),
    };
    (task, removal.removed)
}

/// The bytes that stand there, if some do.
pub open spec fn opt_bytes(b: Option<Vec<u8>>) -> Option<Seq<u8>> {
    match b {
        Some(v) => Some(v@),
        None => None,
    }
}

/// What a client that tracks processes gets of a message of the daemon; nothing, if
/// the message closes the channel.
pub open spec fn seen_by_tracker(m: TaskMessageView) -> Option<Seq<u8>> {
    if m.command == HdcCommand::KernelChannelClose {
        None
    } else if m.command == HdcCommand::KernelEcho {
        Some(session::without_level(m.payload))
    } else {
        Some(m.payload)
    }
}

/// What a client that tracks processes gets of a message of the daemon; nothing, if
/// the message closes the channel.
pub fn track_step(msg: &TaskMessage) -> (r: Option<Vec<u8>>)
    ensures
        opt_bytes(r) == seen_by_tracker(msg@),
{
    if msg.command == HdcCommand::KernelChannelClose {
        None
    } else if msg.command == HdcCommand::KernelEcho {
        Some(strip_level(&msg.payload))
    } else {
        Some(copy_bytes(&msg.payload))
    }
}

/// What a client gets of a message whose answers are collected: its text; nothing, if
/// the message closes the channel.
pub open spec fn collected(m: TaskMessageView) -> Option<Seq<u8>> {
    if m.command == HdcCommand::KernelChannelClose {
        None
    } else {
        Some(encode_utf8(text::utf8_lossy(m.payload)))
    }
}

/// What a client gets of a message whose answers are collected.
pub fn collect_step(msg: &TaskMessage) -> (r: Option<Vec<u8>>)
    ensures
        opt_bytes(r) == collected(msg@),
{
    if msg.command == HdcCommand::KernelChannelClose {
        None
    } else {
        Some(text_bytes(lossy_text(&msg.payload).as_str()))
    }
}

// ---------------------------------------------------------------------------
// The commands of a client
// ---------------------------------------------------------------------------

/// The words of a message of a client: what stands between blanks, without zero
/// characters at their ends.
pub open spec fn message_words(text: Seq<char>) -> Seq<Seq<char>> {
    text::split_parts(text, ' ').map_values(|w: Seq<char>| text::trimmed_end_of(w, '\0'))
}

/// What a message of a client asks for.
#[derive(Debug, PartialEq, Eq)]
pub enum Request {
    /// An interactive shell.
    Shell,
    /// A command with its words.
    Command(HdcCommand, Vec<String>),
    /// Nothing that is known.
    Unknown,
    /// Nothing.
    Nothing,
}

/// What a message of a client asks for. A shell without a command is interactive. An
/// empty message and the word `alive` ask for nothing.
pub open spec fn asks_for(text: Seq<char>, r: Request) -> bool {
    let words = message_words(text);
    match parser::command_in(words) {
        Some((c, i)) => if c == HdcCommand::UnityExecute && words.skip(i).len() == 1 {
            r is Shell
        } else {
            r matches Request::Command(d, params) && d == c && text::texts(params@) == words.skip(i)
        },
        None => {
            let rest = text::trimmed(text::trimmed_end_of(text, '\0'));
            if rest.len() == 0 || rest == "alive"@ {
                r is Nothing
            } else {
                r is Unknown
            }
        },
    }
}

/// What a client is told of a message that asks for nothing that is known.
pub const UNKNOWN_COMMAND: &'static str = "[Fail][E001001]Unknown command\r\n";

/// The words of a message of a client.
pub fn words_of(text: &str) -> (r: Vec<String>)
    ensures
        text::texts(r@) == message_words(text@),
{
    let parts = split(text, ' ');
    let mut out: Vec<String> = Vec::new();
    let mut i: usize = 0;
    let ghost views = text::texts(parts@);
    while i < parts.len()
        invariant
            i <= parts.len(),
            views == text::texts(parts@),
            views == text::split_parts(text@, ' '),
            out@.len() == i,
            forall|j: int|
                0 <= j < i ==> #[trigger] text::texts(out@)[j] == text::trimmed_end_of(views[j], '\0'),
        decreases parts.len() - i,
    {
        let ghost before = text::texts(out@);
        assert(views[i as int] == parts@[i as int]@);
        out.push(trim_end_of(parts[i].as_str(), '\0'));
        assert forall|j: int| 0 <= j < i + 1 implies #[trigger] text::texts(out@)[j] == text::trimmed_end_of(
            views[j],
            '\0',
        ) by {
            if j < i {
                assert(text::texts(out@)[j] == before[j]);
            }
        }
        i += 1;
    }
    assert(text::texts(out@) =~= message_words(text@));
    out
}

/// What a message of a client asks for, by its text.
pub fn request_of(text: &str) -> (r: Request)
    ensures
        asks_for(text@, r),
{
    let words = words_of(text);
    let parsed = split_opt_and_cmd(words);
    proof {
        parser::command_is_named(message_words(text@));
    }
    match parsed.command {
        Some(c) => {
            if c == HdcCommand::UnityExecute && parsed.parameters.len() == 1 {
                Request::Shell
            } else {
                Request::Command(c, parsed.parameters)
            }
        },
        None => {
            let rest = trim(trim_end_of(text, '\0').as_str());
            if rest.as_str().is_empty() || same_text(rest.as_str(), "alive") {
                Request::Nothing
            } else {
                Request::Unknown
            }
        },
    }
}

/// What a message of a client asks for.
pub fn read_request(recv: &[u8]) -> (r: Request)
    ensures
        asks_for(text::utf8_lossy(recv@), r),
{
    request_of(lossy_text(recv).as_str())
}

/// The server finds the command of the user in what the client sends of it, with the same
/// words. The words hold no blank, which would divide them, and do not end in a zero
/// character, which would be taken off.
pub proof fn request_is_understood(input: Seq<Seq<char>>, r: Request)
    requires
        parser::command_in(input) is Some,
        forall|i: int|
            0 <= i < input.len() ==> !(#[trigger] input[i]).contains(' ') && (input[i].len() > 0
                ==> input[i].last() != '\0'),
        asks_for(
            text::utf8_lossy(client::as_sent(input.skip(parser::options_end(input)))),
            r,
        ),
    ensures
        ({
            let (c, i) = parser::command_in(input)->Some_0;
            if c == HdcCommand::UnityExecute && input.skip(i).len() == 1 {
                r is Shell
            } else {
                r matches Request::Command(d, params) && d == c && text::texts(params@)
                    == input.skip(i)
            }
        }),
{
    let (c, i) = parser::command_in(input)->Some_0;
    let words = input.skip(i);
    parser::command_is_named(input);
    parser::command_found_again(input);
    assert forall|j: int| 0 <= j < words.len() implies !(#[trigger] words[j]).contains(' ') by {
        assert(words[j] == input[i + j]);
    }
    text::split_undoes_join(words, ' ');
    assert(" "@ =~= seq![' ']) by {
        reveal_strlit(" ");
    }
    let sent = text::joined(words, " "@);
    text::text_of_its_bytes(sent);
    assert forall|j: int| 0 <= j < words.len() implies message_words(sent)[j]
        == #[trigger] words[j] by {
        assert(words[j] == input[i + j]);
    }
    assert(message_words(sent) =~= words);
    assert(words.skip(0) =~= words);
}

/// A client of the same version reads the version out of the answer of the server.
pub proof fn version_is_understood(
    devs: Seq<DeviceView>,
    rules: Seq<RuleView>,
    connect_key: Seq<char>,
    channel_id: u32,
    params: Seq<Seq<char>>,
)
    ensures
        ({
            let version = config::version_text(HDC_VERSION_NUMBER);
            let answer = task_for(
                devs,
                rules,
                HdcCommand::KernelCheckServer,
                connect_key,
                channel_id,
                params,
            );
            answer is Reply && client::server_version(answer->text) == Ok::<_, ServerAnswerError>(
                "client "@ + version + ", server "@ + version,
            )
        }),
{
    let version = config::version_text(HDC_VERSION_NUMBER);
    let code = HdcCommand::KernelCheckServer.code() as u16;
    let answer = bytes::le16(code) + encode_utf8(version);
    bytes::le16_read_back(answer, 0, code);
    assert(answer.skip(2) =~= encode_utf8(version));
    encode_utf8_valid_utf8(version);
    encode_utf8_decode_utf8(version);
}

// ---------------------------------------------------------------------------
// What the commands do
// ---------------------------------------------------------------------------

/// The device at `i` is the one that a target stands for: it is named by its key, or it is the
/// one connected device and the target is `any`.
pub open spec fn aims_at(devs: Seq<DeviceView>, i: int, target: Seq<char>) -> bool {
    &&& connect_map::distinct(devs)
    &&& 0 <= i < devs.len()
    &&& (target != "any"@ && target == devs[i].key) || (target == "any"@
        && devs[i].info.conn_status == ConnStatus::Connected && forall|j: int|
        0 <= j < devs.len() && j != i ==> (#[trigger] devs[j]).info.conn_status
            != ConnStatus::Connected)
}

proof fn aim_is_found(devs: Seq<DeviceView>, i: int, target: Seq<char>)
    requires
        aims_at(devs, i, target),
    ensures
        connect_map::resolved_key(devs, target) == Ok::<Seq<char>, ResolveErrorView>(devs[i].key),
        connect_map::session_of(devs, devs[i].key) == Some(devs[i].info.session_id),
        connect_map::resolved_session(devs, target) == Ok::<u32, ResolveErrorView>(
            devs[i].info.session_id,
        ),
{
    connect_map::keys_stand_for_sessions(devs, i);
    if target == "any"@ {
        connect_map::only_device_is_chosen(devs, i);
    }
}

/// Each command that moves files, packages, bytes or images runs its own task, on the device
/// that the client aims at and in its session.
pub proof fn tasks_of_commands(
    devs: Seq<DeviceView>,
    i: int,
    target: Seq<char>,
    rules: Seq<RuleView>,
    channel_id: u32,
    params: Seq<Seq<char>>,
)
    requires
        aims_at(devs, i, target),
    ensures
        task_for(devs, rules, HdcCommand::FileInit, target, channel_id, params) == (TaskView::Run {
            handler: Handler::FileSend,
            key: devs[i].key,
            session_id: devs[i].info.session_id,
        }),
        task_for(devs, rules, HdcCommand::FileRecvInit, target, channel_id, params) == (
        TaskView::Run {
            handler: Handler::FileRecv,
            key: devs[i].key,
            session_id: devs[i].info.session_id,
        }),
        task_for(devs, rules, HdcCommand::AppInit, target, channel_id, params) == (TaskView::Run {
            handler: Handler::AppInstall,
            key: devs[i].key,
            session_id: devs[i].info.session_id,
        }),
        task_for(devs, rules, HdcCommand::ForwardInit, target, channel_id, params) == (
        TaskView::Run {
            handler: Handler::Forward,
            key: devs[i].key,
            session_id: devs[i].info.session_id,
        }),
        task_for(devs, rules, HdcCommand::ForwardRportInit, target, channel_id, params) == (
        TaskView::Run {
            handler: Handler::ReverseForward,
            key: devs[i].key,
            session_id: devs[i].info.session_id,
        }),
        forall|c: HdcCommand|
            c == HdcCommand::FlashdUpdateInit || c == HdcCommand::FlashdFlashInit || c
                == HdcCommand::FlashdErase || c == HdcCommand::FlashdFormat
                ==> #[trigger] task_for(devs, rules, c, target, channel_id, params) == (
            TaskView::Run {
                handler: Handler::Flash,
                key: devs[i].key,
                session_id: devs[i].info.session_id,
            }),
{
    aim_is_found(devs, i, target);
}

/// A command that the device carries out by itself is sent to it with what follows its name,
/// the words with a blank between them; the client is told what the device says. The server
/// closes the channel itself only after the removal of a package.
pub proof fn device_is_asked(
    devs: Seq<DeviceView>,
    i: int,
    target: Seq<char>,
    rules: Seq<RuleView>,
    c: HdcCommand,
    channel_id: u32,
    name: Seq<char>,
    rest: Seq<Seq<char>>,
)
    requires
        aims_at(devs, i, target),
        c == HdcCommand::UnityExecute || c == HdcCommand::UnityReboot || c
            == HdcCommand::UnityRemount || c == HdcCommand::UnityRunmode || c
            == HdcCommand::UnityRootrun || c == HdcCommand::UnityHilog || c
            == HdcCommand::UnityBugreportInit || c == HdcCommand::AppUninstall,
    ensures
        task_for(devs, rules, c, target, channel_id, seq![name] + rest) == (TaskView::Ask {
            session_id: devs[i].info.session_id,
            message: TaskMessageView {
                channel_id,
                command: c,
                payload: encode_utf8(text::joined(rest, " "@)),
            },
            close_on_failure: false,
            collect: c == HdcCommand::AppUninstall,
        }),
{
    aim_is_found(devs, i, target);
    let params = seq![name] + rest;
    assert(params.skip(1) =~= rest);
    if rest.len() == 0 {
        assert(rest =~= Seq::<Seq<char>>::empty());
        assert(encode_utf8(Seq::<char>::empty()) =~= Seq::<u8>::empty());
    }
}

/// A shell with bundle options and a sideload are sent to the device with all their words. The
/// processes that can be debugged are asked for with an empty message; of those that come and
/// go, all are asked for with `a` and their names with `p`.
pub proof fn device_is_asked_otherwise(
    devs: Seq<DeviceView>,
    i: int,
    target: Seq<char>,
    rules: Seq<RuleView>,
    channel_id: u32,
    params: Seq<Seq<char>>,
)
    requires
        aims_at(devs, i, target),
    ensures
        forall|c: HdcCommand|
            c == HdcCommand::UnityExecuteEx || c == HdcCommand::AppSideload
                ==> #[trigger] task_for(devs, rules, c, target, channel_id, params) == (
            TaskView::Ask {
                session_id: devs[i].info.session_id,
                message: TaskMessageView {
                    channel_id,
                    command: c,
                    payload: encode_utf8(text::joined(params, " "@)),
                },
                close_on_failure: false,
                collect: false,
            }),
        task_for(devs, rules, HdcCommand::JdwpList, target, channel_id, params) == (TaskView::Ask {
            session_id: devs[i].info.session_id,
            message: TaskMessageView {
                channel_id,
                command: HdcCommand::JdwpList,
                payload: Seq::empty(),
            },
            close_on_failure: true,
            collect: false,
        }),
        task_for(devs, rules, HdcCommand::JdwpTrack, target, channel_id, params) == (
        TaskView::Track {
            session_id: devs[i].info.session_id,
            message: TaskMessageView {
                channel_id,
                command: HdcCommand::JdwpTrack,
                payload: if params.contains("-a"@) {
                    seq![97u8]
                } else if params.contains("-p"@) {
                    seq![112u8]
                } else {
                    Seq::empty()
                },
            },
        }),
{
    aim_is_found(devs, i, target);
    word_is_contained(params, "-a"@);
    word_is_contained(params, "-p"@);
}

proof fn word_is_contained(params: Seq<Seq<char>>, word: Seq<char>)
    ensures
        has_word(params, word) == params.contains(word),
{
}

/// Where no device is connected and none was named, no task is run and nothing is sent: the
/// client is told so.
#[verifier::rlimit(40)]
pub proof fn nothing_runs_without_device(
    devs: Seq<DeviceView>,
    rules: Seq<RuleView>,
    channel_id: u32,
    params: Seq<Seq<char>>,
)
    requires
        forall|j: int|
            0 <= j < devs.len() ==> (#[trigger] devs[j]).info.conn_status != ConnStatus::Connected,
    ensures
        forall|c: HdcCommand|
            c == HdcCommand::FileInit || c == HdcCommand::FileRecvInit || c == HdcCommand::AppInit
                || c == HdcCommand::ForwardInit || c == HdcCommand::ForwardRportInit || c
                == HdcCommand::FlashdUpdateInit || c == HdcCommand::FlashdFlashInit || c
                == HdcCommand::FlashdErase || c == HdcCommand::FlashdFormat
                ==> #[trigger] task_for(devs, rules, c, "any"@, channel_id, params) == (
            TaskView::Reply {
                text: encode_utf8("[Fail]"@ + "No device connected"@ + "\r\n"@),
                strict: false,
            }),
        forall|c: HdcCommand|
            c == HdcCommand::UnityExecute || c == HdcCommand::UnityReboot || c
                == HdcCommand::UnityRemount || c == HdcCommand::UnityRunmode || c
                == HdcCommand::UnityRootrun || c == HdcCommand::UnityHilog || c
                == HdcCommand::UnityBugreportInit || c == HdcCommand::AppUninstall || c
                == HdcCommand::JdwpList || c == HdcCommand::JdwpTrack
                ==> #[trigger] task_for(devs, rules, c, "any"@, channel_id, params) == (
            TaskView::Reply {
                text: encode_utf8("[Fail]"@ + "No device connected"@ + "\r\n"@),
                strict: true,
            }),
{
    connect_map::no_device_is_told(devs);
}

/// The server answers these commands itself: the connected devices, or all of them in full;
/// the address that the user wants to connect to; the search for devices; the version; whether
/// a device is there; and what drops its session.
#[verifier::rlimit(40)]
pub proof fn server_answers(
    devs: Seq<DeviceView>,
    rules: Seq<RuleView>,
    target: Seq<char>,
    channel_id: u32,
    params: Seq<Seq<char>>,
)
    ensures
        ({
            let list = connect_map::device_list(
                devs,
                params.contains("v"@) || params.contains("-v"@),
            );
            task_for(devs, rules, HdcCommand::KernelTargetList, target, channel_id, params) == (
            TaskView::Reply {
                text: encode_utf8(
                    if list.len() == 0 {
                        "[Empty]"@ + "\r\n"@
                    } else {
                        text::joined(list, "\n"@) + "\r\n"@
                    },
                ),
                strict: true,
            })
        }),
        task_for(devs, rules, HdcCommand::KernelTargetConnect, target, channel_id, params)
            == if params.len() >= 2 {
            TaskView::Connect(params[1])
        } else {
            TaskView::Reply {
                text: encode_utf8("[Fail]Missing connect address\r\n"@),
                strict: true,
            }
        },
        task_for(devs, rules, HdcCommand::KernelTargetDiscover, target, channel_id, params)
            == TaskView::Discover,
        task_for(devs, rules, HdcCommand::KernelEnableKeepalive, target, channel_id, params)
            == TaskView::KeepAlive,
        task_for(devs, rules, HdcCommand::KernelWaitFor, target, channel_id, params)
            == TaskView::Wait,
        task_for(devs, rules, HdcCommand::ClientVersion, target, channel_id, params) == (
        TaskView::Reply { text: encode_utf8("Ver: 3.2.0e"@), strict: true }),
        task_for(devs, rules, HdcCommand::ForwardList, target, channel_id, params) == task_for(
            devs,
            rules,
            HdcCommand::ForwardRportList,
            target,
            channel_id,
            params,
        ),
        forall|c: HdcCommand|
            c == HdcCommand::ForwardRemove || c == HdcCommand::ForwardRportRemove
                ==> #[trigger] task_for(devs, rules, c, target, channel_id, params)
                == TaskView::RemoveForwardings(
                if params.len() >= 3 {
                    text::joined(params.subrange(2, params.len() as int), " "@)
                } else {
                    Seq::empty()
                },
            ),
{
    config::version_is_told();
    word_is_contained(params, "v"@);
    word_is_contained(params, "-v"@);
    if params.len() >= 3 {
        assert(params.skip(2) =~= params.subrange(2, params.len() as int));
    }
}

/// A device is looked for under the key that follows the name of the command, or where none
/// does under that of the client: whether it is connected is told, and to reconnect drops its
/// session.
pub proof fn device_is_looked_for(
    devs: Seq<DeviceView>,
    i: int,
    rules: Seq<RuleView>,
    target: Seq<char>,
    channel_id: u32,
    params: Seq<Seq<char>>,
)
    requires
        params.len() >= 2 ==> aims_at(devs, i, params[1]),
        params.len() < 2 ==> aims_at(devs, i, target),
    ensures
        task_for(devs, rules, HdcCommand::KernelCheckDevice, target, channel_id, params) == (
        TaskView::Reply {
            text: encode_utf8("Device "@ + devs[i].key + " is connected\r\n"@),
            strict: true,
        }),
        task_for(devs, rules, HdcCommand::KernelTargetReconnect, target, channel_id, params) == (
        TaskView::Reconnect { key: devs[i].key, session_id: devs[i].info.session_id }),
{
    aim_is_found(
        devs,
        i,
        if params.len() >= 2 {
            params[1]
        } else {
            target
        },
    );
}

/// A device that is not known is told not to be connected, and no task is run for it.
pub proof fn unknown_device_is_told(
    devs: Seq<DeviceView>,
    key: Seq<char>,
    rules: Seq<RuleView>,
    channel_id: u32,
    asked: Seq<Seq<char>>,
)
    requires
        key != "any"@,
        asked.len() >= 2 && asked[1] == key,
        forall|j: int| 0 <= j < devs.len() ==> (#[trigger] devs[j]).key != key,
    ensures
        forall|c: HdcCommand, target: Seq<char>|
            c == HdcCommand::KernelCheckDevice || c == HdcCommand::KernelTargetReconnect
                ==> #[trigger] task_for(devs, rules, c, target, channel_id, asked) == (
            TaskView::Reply {
                text: encode_utf8("[Fail]Device "@ + key + " is not connected\r\n"@),
                strict: true,
            }),
        forall|c: HdcCommand, params: Seq<Seq<char>>|
            c == HdcCommand::FileInit || c == HdcCommand::FileRecvInit || c == HdcCommand::AppInit
                || c == HdcCommand::ForwardInit || c == HdcCommand::ForwardRportInit || c
                == HdcCommand::FlashdUpdateInit || c == HdcCommand::FlashdFlashInit || c
                == HdcCommand::FlashdErase || c == HdcCommand::FlashdFormat
                ==> #[trigger] task_for(devs, rules, c, key, channel_id, params) == (
            TaskView::Reply { text: encode_utf8("[Fail]Session not found\r\n"@), strict: false }),
{
    connect_map::place_is_first(devs, key);
}

/// A client that waits is told of a connected device as soon as there is one, and the server
/// looks no further; until then it looks again.
pub proof fn waiting_ends_with_a_device(devs: Seq<DeviceView>)
    ensures
        waited(devs).1 <==> forall|j: int|
            0 <= j < devs.len() ==> (#[trigger] devs[j]).info.conn_status != ConnStatus::Connected,
        waited(devs).1 ==> waited(devs).0 == encode_utf8("[Fail]No any connected target\r\n"@),
        !waited(devs).1 ==> exists|j: int|
            0 <= j < devs.len() && (#[trigger] devs[j]).info.conn_status == ConnStatus::Connected
                && waited(devs).0 == encode_utf8(
                "Wait for connected target "@ + devs[j].key + "\r\n"@,
            ),
{
    let list = connect_map::device_list(devs, false);
    if list.len() > 0 {
        assert(list.contains(list[0]));
        connect_map::connected_are_listed(devs, list[0]);
    } else {
        assert forall|j: int| 0 <= j < devs.len() implies (#[trigger] devs[j]).info.conn_status
            != ConnStatus::Connected by {
            connect_map::connected_are_listed(devs, devs[j].key);
        }
    }
}

/// The client is told that the server has connected, or why it has not.
pub proof fn connecting_is_told(reason: Seq<char>)
    ensures
        connect_outcome(None) == (TaskView::Reply {
            text: encode_utf8("Connect OK\r\n"@),
            strict: true,
        }),
        connect_outcome(Some(reason)) == (TaskView::Reply {
            text: encode_utf8("[Fail]Connect to daemon failed: "@ + reason + "\r\n"@),
            strict: true,
        }),
{
}

/// A client that tracks processes, or for which answers are collected, gets what the daemon
/// says until the daemon closes the channel.
pub proof fn daemon_is_heard(channel_id: u32, level: u8, payload: Seq<u8>, said: Seq<char>)
    ensures
        seen_by_tracker(
            TaskMessageView { channel_id, command: HdcCommand::KernelChannelClose, payload },
        ) is None,
        collected(
            TaskMessageView { channel_id, command: HdcCommand::KernelChannelClose, payload },
        ) is None,
        seen_by_tracker(
            TaskMessageView {
                channel_id,
                command: HdcCommand::KernelEcho,
                payload: seq![level] + payload,
            },
        ) == Some(payload),
        forall|c: HdcCommand|
            c != HdcCommand::KernelChannelClose && c != HdcCommand::KernelEcho
                ==> #[trigger] seen_by_tracker(TaskMessageView { channel_id, command: c, payload })
                == Some(payload),
        forall|c: HdcCommand|
            c != HdcCommand::KernelChannelClose ==> #[trigger] collected(
                TaskMessageView { channel_id, command: c, payload: encode_utf8(said) },
            ) == Some(encode_utf8(said)),
{
    assert((seq![level] + payload).skip(1) =~= payload);
    text::text_of_its_bytes(said);
}

proof fn discovered_are_known(devs: Seq<DeviceView>, addrs: Seq<Seq<char>>, n: nat, key: Seq<char>)
    requires
        connect_map::distinct(devs),
        n <= addrs.len(),
    ensures
        ({
            let (now, count) = with_discovered(devs, addrs, n);
            &&& connect_map::distinct(now)
            &&& now.len() == devs.len() + count
            &&& connect_map::lookup(devs, key) is Some ==> connect_map::lookup(now, key)
                == connect_map::lookup(devs, key)
            &&& connect_map::lookup(devs, key) is None && addrs.take(n as int).contains(key)
                ==> connect_map::lookup(now, key) == Some(
                session::found_device(ConnectTypeView::Tcp),
            )
            &&& connect_map::lookup(devs, key) is None && !addrs.take(n as int).contains(key)
                ==> connect_map::lookup(now, key) is None
        }),
    decreases n,
{
    if n > 0 {
        discovered_are_known(devs, addrs, (n - 1) as nat, key);
        let before = with_discovered(devs, addrs, (n - 1) as nat).0;
        let addr = addrs[n - 1];
        let info = session::found_device(ConnectTypeView::Tcp);
        let t = addrs.take(n as int);
        let u = addrs.take(n - 1);
        assert(t =~= u.push(addr));
        assert(t[n - 1] == addr);
        assert(t.contains(key) <==> u.contains(key) || key == addr) by {
            if u.contains(key) {
                let j = choose|j: int| 0 <= j < u.len() && u[j] == key;
                assert(t[j] == key);
            }
            if t.contains(key) && key != addr {
                let j = choose|j: int| 0 <= j < t.len() && t[j] == key;
                assert(u[j] == key);
            }
        }
        if connect_map::lookup(before, addr) is None {
            connect_map::put_is_found(before, addr, info, key);
            connect_map::place_is_first(before, addr);
        }
    } else {
        assert(addrs.take(0) =~= Seq::<Seq<char>>::empty());
    }
}

/// Every daemon that a search has found is known afterwards: one that was known stays as it
/// was, any other is ready to be connected to. The user is told how many were not known.
/// Without an answer nothing changes.
pub proof fn found_daemons_are_known(
    devs: Seq<DeviceView>,
    addrs: Seq<Seq<char>>,
    key: Seq<char>,
)
    requires
        connect_map::distinct(devs),
    ensures
        ({
            let (now, told) = after_search(devs, Some(addrs));
            let info = connect_map::lookup(now, key);
            &&& connect_map::lookup(devs, key) is Some ==> info == connect_map::lookup(devs, key)
            &&& connect_map::lookup(devs, key) is None && addrs.contains(key) ==> info is Some
                && info->Some_0.conn_status == ConnStatus::Ready && info->Some_0.conn_type
                == ConnectTypeView::Tcp
            &&& connect_map::lookup(devs, key) is None && !addrs.contains(key) ==> info is None
            &&& now.len() >= devs.len()
            &&& told == (TaskView::Reply {
                text: encode_utf8(
                    "Broadcast find daemon, total:"@ + text::decimal(
                        (now.len() - devs.len()) as nat,
                    ) + "\r\n"@,
                ),
                strict: true,
            })
            &&& after_search(devs, None).0 == devs
        }),
{
    discovered_are_known(devs, addrs, addrs.len(), key);
    assert(addrs.take(addrs.len() as int) =~= addrs);
}

/// Whoever removes forwardings without naming one removes all of the device; whoever names one
/// removes one that bears the name, or is told that there is none.
/// What is removed and what is left make up what there was.
pub proof fn forwardings_are_removed(rules: Seq<RuleView>, key: Seq<char>, words: Seq<char>)
    requires
        words.len() > 0,
    ensures
        ({
            let (left, gone) = after_removal(rules, key, words);
            let (others, all) = after_removal(rules, key, Seq::empty());
            &&& left.len() + gone.len() == rules.len()
            &&& gone.len() <= 1
            &&& gone.len() == 1 ==> {
                &&& rules.contains(gone[0])
                &&& forward_map::names_rule(words, gone[0].rule)
                &&& removal_told(rules, key, words) == (TaskView::Reply {
                    text: encode_utf8(
                        "Remove forward ruler success, ruler:"@ + gone[0].rule + "\r\n"@,
                    ),
                    strict: false,
                })
            }
            &&& gone.len() == 0 ==> {
                &&& left == rules
                &&& removal_told(rules, key, words) == (TaskView::Reply {
                    text: encode_utf8(
                        "[Fail]"@ + ("Remove forward ruler failed, ruler is not exist "@ + words)
                            + "\r\n"@,
                    ),
                    strict: false,
                })
            }
            &&& forall|i: int|
                0 <= i < others.len() ==> (#[trigger] others[i]).entry.connect_key != key
            &&& key != "any"@ && key.len() > 0 ==> forall|i: int|
                0 <= i < all.len() ==> (#[trigger] all[i]).entry.connect_key == key
            &&& removal_told(rules, key, Seq::empty()) == (TaskView::Reply {
                text: encode_utf8(
                    "Remove forward ruler success, removed "@ + text::decimal(all.len())
                        + " rulers"@ + "\r\n"@,
                ),
                strict: false,
            })
        }),
{
    forward_map::named_is_removed(rules, key, words);
    let (others, all) = after_removal(rules, key, Seq::empty());
    assert forall|i: int| 0 <= i < others.len() implies (
    #[trigger] others[i]).entry.connect_key != key by {
        forward_map::all_of_a_device_are_removed(rules, key, others[i]);
        assert(others.contains(others[i]));
    }
    if key != "any"@ && key.len() > 0 {
        assert forall|i: int| 0 <= i < all.len() implies (
        #[trigger] all[i]).entry.connect_key == key by {
            forward_map::all_of_a_device_are_removed(rules, key, all[i]);
            assert(all.contains(all[i]));
        }
    }
    forward_map::all_of_a_device_are_removed(rules, key, others[0]);
}

/// A text that holds no command is no request: one that only says that the client is alive, or
/// nothing, is passed over, and any other is not known.
pub proof fn other_texts_are_no_requests(text: Seq<char>, r: Request)
    requires
        parser::command_in(message_words(text)) is None,
        text.len() > 0 ==> text.last() != '\0',
        asks_for(text, r),
    ensures
        text::trimmed(text) == "alive"@ || text::trimmed(text).len() == 0 ==> r is Nothing,
        text::trimmed(text) != "alive"@ && text::trimmed(text).len() > 0 ==> r is Unknown,
{
}

/// A failure is told with a mark in front of its reason and the end of a line behind it.
pub proof fn failures_are_marked(reason: Seq<char>)
    ensures
        failure_told(reason) == (TaskView::Reply {
            text: encode_utf8("[Fail]"@ + reason + "\r\n"@),
            strict: false,
        }),
        unasked_told(reason) == encode_utf8("[Fail]Send to daemon failed: "@ + reason + "\r\n"@),
        reconnect_told(reason) == (TaskView::Reply {
            text: encode_utf8("Reconnecting "@ + reason + " ...\r\n"@),
            strict: true,
        }),
{
}

} // verus!
