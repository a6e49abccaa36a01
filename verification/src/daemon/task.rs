//! What the daemon does for a message of a host.

use crate::daemon::message;
use crate::daemon::message::{just, make_close, make_echo, make_echo_and_close, make_raw_echo, push_message};
use crate::host::dispatch::text_bytes;
use crate::host::flash;
use crate::host::session;
use crate::host::session::{RouteView, Transport};
use crate::host::shell;
use crate::host::shell::ShellStepView;
use crate::host::tcp_map;
use crate::host::transfer;
use crate::host::transfer::{ReplyView, make_bare};
use crate::protocol::bytes::push_bytes;
use crate::protocol::command::HdcCommand;
use crate::protocol::config::{MessageLevel, TaskMessage, TaskMessageView};
use crate::text;
use crate::text::{Utf8Fault, chars_of, concat2, lossy_text, read_utf8, same_text, slice_text, trim, trim_end_of};
use vstd::prelude::*;
use vstd::utf8::*;

verus! {

/// What is done for a message.
#[derive(Debug, PartialEq, Eq)]
pub enum DaemonTask {
    /// Messages go to the host.
    Reply(Vec<TaskMessage>),
    /// A shell command is run.
    Shell(String),
    /// The device is restarted.
    Reboot,
    /// The file systems of the device are made writable.
    Remount,
    /// It concerns a file.
    File(TaskMessage),
    /// It concerns a package.
    App(TaskMessage),
    /// It concerns a forwarding.
    Forward(TaskMessage),
    /// A channel ends.
    Close,
    /// Nothing.
    Pass,
    /// The command of a shell is no text.
    BadShell(Utf8Fault),
}

/// What is done for a message.
pub enum DaemonTaskView {
    Reply(Seq<TaskMessageView>),
    Shell(Seq<char>),
    Reboot,
    Remount,
    File(TaskMessageView),
    App(TaskMessageView),
    Forward(TaskMessageView),
    Close,
    Pass,
    BadShell(Utf8Fault),
}

impl View for DaemonTask {
    type V = DaemonTaskView;

    open spec fn view(&self) -> DaemonTaskView {
        match *self {
            DaemonTask::Reply(v) => DaemonTaskView::Reply(message::message_views(v@)),
            DaemonTask::Shell(s) => DaemonTaskView::Shell(s@),
            DaemonTask::Reboot => DaemonTaskView::Reboot,
            DaemonTask::Remount => DaemonTaskView::Remount,
            DaemonTask::File(m) => DaemonTaskView::File(m@),
            DaemonTask::App(m) => DaemonTaskView::App(m@),
            DaemonTask::Forward(m) => DaemonTaskView::Forward(m@),
            DaemonTask::Close => DaemonTaskView::Close,
            DaemonTask::Pass => DaemonTaskView::Pass,
            DaemonTask::BadShell(e) => DaemonTaskView::BadShell(e),
        }
    }
}

/// A shell command without the white space around it and without a pair of quotes.
pub open spec fn bare_command(s: Seq<char>) -> Seq<char> {
    let t = text::trimmed(s);
    if t.len() > 0 && t[0] == '"' && t.last() == '"' {
        if t.len() == 1 {
            Seq::empty()
        } else {
            t.subrange(1, t.len() - 1)
        }
    } else {
        t
    }
}

/// A shell command without the white space around it and without a pair of quotes.
pub fn trim_quotation_for_cmd(cmd: &str) -> (r: String)
    ensures
        r@ == bare_command(cmd@),
{
    let t = trim(cmd);
    let v = chars_of(t.as_str());
    let n: usize = v.len();
    if n > 0 && v[0] == '"' && v[n - 1] == '"' {
        if n == 1 {
            String::new()
        } else {
            slice_text(&v, 1, n - 1)
        }
    } else {
        t
    }
}

/// The commands that concern a file.
pub open spec fn is_file_command(c: HdcCommand) -> bool {
    c == HdcCommand::FileInit || c == HdcCommand::FileCheck || c == HdcCommand::FileBegin || c
        == HdcCommand::FileData || c == HdcCommand::FileFinish || c == HdcCommand::FileRecvInit
}

/// The commands that concern a package.
pub open spec fn is_app_command(c: HdcCommand) -> bool {
    c == HdcCommand::AppInit || c == HdcCommand::AppCheck || c == HdcCommand::AppBegin || c
        == HdcCommand::AppData || c == HdcCommand::AppFinish || c == HdcCommand::AppUninstall
}

/// The commands that concern an image or a partition.
pub open spec fn is_flash_command(c: HdcCommand) -> bool {
    c == HdcCommand::FlashdCheck || c == HdcCommand::FlashdBegin || c == HdcCommand::FlashdData || c
        == HdcCommand::FlashdFinish || c == HdcCommand::FlashdErase || c == HdcCommand::FlashdFormat
        || c == HdcCommand::FlashdProgress
}

/// The commands that concern a forwarding.
pub open spec fn is_forward_command(c: HdcCommand) -> bool {
    c == HdcCommand::ForwardInit || c == HdcCommand::ForwardCheck || c
        == HdcCommand::ForwardCheckResult || c == HdcCommand::ForwardActiveSlave || c
        == HdcCommand::ForwardActiveMaster || c == HdcCommand::ForwardData || c
        == HdcCommand::ForwardFreeContext || c == HdcCommand::ForwardList || c
        == HdcCommand::ForwardRemove || c == HdcCommand::ForwardSuccess || c
        == HdcCommand::ForwardRportInit || c == HdcCommand::ForwardRportList || c
        == HdcCommand::ForwardRportRemove
}

/// The answer to a command for an image or a partition. Nothing is written: the end of
/// an image, and each command for a partition, is answered with success.
pub open spec fn flash_answer(m: TaskMessageView) -> Seq<TaskMessageView> {
    let done = TaskMessageView {
        channel_id: m.channel_id,
        command: HdcCommand::FlashdFinish,
        payload: seq![0u8, MessageLevel::Success.code()] + encode_utf8("flashd stub completed"@),
    };
    match m.command {
        HdcCommand::FlashdCheck => seq![transfer::bare_message(m.channel_id, HdcCommand::FlashdBegin)],
        HdcCommand::FlashdFinish => if m.payload.len() > 0 && m.payload[0] == 1 {
            seq![done]
        } else {
            Seq::empty()
        },
        HdcCommand::FlashdErase => seq![done],
        HdcCommand::FlashdFormat => seq![done],
        _ => Seq::empty(),
    }
}

fn none() -> (r: Vec<TaskMessage>)
    ensures
        message::message_views(r@) == Seq::<TaskMessageView>::empty(),
{
    let v: Vec<TaskMessage> = Vec::new();
    assert(message::message_views(v@) =~= Seq::<TaskMessageView>::empty());
    v
}

fn flash_done(channel_id: u32) -> (r: TaskMessage)
    ensures
        r@ == (TaskMessageView {
            channel_id,
            command: HdcCommand::FlashdFinish,
            payload: seq![0u8, MessageLevel::Success.code()] + encode_utf8(
                "flashd stub completed"@,
            ),
        }),
{
    let mut payload: Vec<u8> = Vec::new();
    payload.push(0);
    payload.push(MessageLevel::Success.as_u8());
    push_bytes(&mut payload, text_bytes("flashd stub completed").as_slice());
    assert(payload@ =~= seq![0u8, MessageLevel::Success.code()] + encode_utf8(
        "flashd stub completed"@,
    ));
    TaskMessage { channel_id, command: HdcCommand::FlashdFinish, payload }
}

/// The answer to a command for an image or a partition.
pub fn handle_flashd_task(msg: &TaskMessage) -> (r: Vec<TaskMessage>)
    ensures
        message::message_views(r@) == flash_answer(msg@),
{
    match msg.command {
        HdcCommand::FlashdCheck => just(make_bare(msg.channel_id, HdcCommand::FlashdBegin)),
        HdcCommand::FlashdFinish => {
            if msg.payload.len() > 0 && msg.payload[0] == 1 {
                just(flash_done(msg.channel_id))
            } else {
                none()
            }
        },
        HdcCommand::FlashdErase | HdcCommand::FlashdFormat => just(flash_done(msg.channel_id)),
        _ => none(),
    }
}

/// The host takes the end of the work on an image as a success.
pub proof fn flash_answer_is_success(m: TaskMessageView)
    requires
        m.command == HdcCommand::FlashdErase || m.command == HdcCommand::FlashdFormat || (m.command
            == HdcCommand::FlashdFinish && m.payload == seq![1u8]),
    ensures
        flash_answer(m).len() == 1,
        flash::on_flash_reply(m.channel_id, ReplyView::Message(flash_answer(m)[0])) is Done,
{
}

/// What the log of the device is, as far as it is shown.
pub open spec fn hilog_text(payload: Seq<u8>) -> Seq<char> {
    if payload.len() == 1 && payload[0] == 104 {
        "hilog help output..."@
    } else {
        "hilog output..."@
    }
}

/// What is done for a message.
pub open spec fn daemon_task(m: TaskMessageView) -> DaemonTaskView {
    let id = m.channel_id;
    if is_file_command(m.command) {
        DaemonTaskView::File(m)
    } else if is_app_command(m.command) {
        DaemonTaskView::App(m)
    } else if is_flash_command(m.command) {
        DaemonTaskView::Reply(flash_answer(m))
    } else if is_forward_command(m.command) {
        DaemonTaskView::Forward(m)
    } else {
        match m.command {
            HdcCommand::KernelHandshake => DaemonTaskView::Reply(
                seq![
                    TaskMessageView {
                        channel_id: id,
                        command: HdcCommand::KernelHandshake,
                        payload: encode_utf8("OK"@),
                    },
                ],
            ),
            HdcCommand::UnityExecute => shell_task(m.payload),
            HdcCommand::UnityExecuteEx => shell_task(m.payload),
            HdcCommand::ShellInit => DaemonTaskView::Reply(
                seq![message::raw_echo(id, encode_utf8("$ "@))],
            ),
            HdcCommand::ShellData => DaemonTaskView::Pass,
            HdcCommand::UnityReboot => DaemonTaskView::Reboot,
            HdcCommand::UnityRemount => DaemonTaskView::Remount,
            HdcCommand::UnityRunmode => DaemonTaskView::Reply(
                message::echo_and_close(id, "Runmode: "@ + text::utf8_lossy(m.payload), MessageLevel::Info),
            ),
            HdcCommand::UnityHilog => DaemonTaskView::Reply(
                seq![message::raw_echo(id, encode_utf8(hilog_text(m.payload))), message::channel_close(id)],
            ),
            HdcCommand::HeartbeatMsg => DaemonTaskView::Reply(
                seq![
                    TaskMessageView {
                        channel_id: id,
                        command: HdcCommand::HeartbeatMsg,
                        payload: m.payload,
                    },
                ],
            ),
            HdcCommand::KernelChannelClose => DaemonTaskView::Close,
            _ => DaemonTaskView::Reply(
                seq![message::echo(id, "Command not implemented"@, MessageLevel::Fail)],
            ),
        }
    }
}

/// What is done for a shell command.
pub open spec fn shell_task(payload: Seq<u8>) -> DaemonTaskView {
    if valid_utf8(payload) {
        DaemonTaskView::Shell(bare_command(decode_utf8(payload)))
    } else {
        DaemonTaskView::BadShell(text::utf8_fault(payload))
    }
}

/// The sentence that reports a shell command that is no text.
pub fn shell_fault(fault: Utf8Fault) -> (r: String)
    ensures
        r@ == "invalid utf8: "@ + fault.text(),
{
    concat2("invalid utf8: ", fault.message().as_str())
}

/// What is done for a message.
pub fn dispatch_message(msg: TaskMessage) -> (r: DaemonTask)
    ensures
        r@ == daemon_task(msg@),
{
    let id: u32 = msg.channel_id;
    match msg.command {
        HdcCommand::FileInit
        | HdcCommand::FileCheck
        | HdcCommand::FileBegin
        | HdcCommand::FileData
        | HdcCommand::FileFinish
        | HdcCommand::FileRecvInit => DaemonTask::File(msg),
        HdcCommand::AppInit
        | HdcCommand::AppCheck
        | HdcCommand::AppBegin
        | HdcCommand::AppData
        | HdcCommand::AppFinish
        | HdcCommand::AppUninstall => DaemonTask::App(msg),
        HdcCommand::FlashdCheck
        | HdcCommand::FlashdBegin
        | HdcCommand::FlashdData
        | HdcCommand::FlashdFinish
        | HdcCommand::FlashdErase
        | HdcCommand::FlashdFormat
        | HdcCommand::FlashdProgress => DaemonTask::Reply(handle_flashd_task(&msg)),
        HdcCommand::ForwardInit
        | HdcCommand::ForwardCheck
        | HdcCommand::ForwardCheckResult
        | HdcCommand::ForwardActiveSlave
        | HdcCommand::ForwardActiveMaster
        | HdcCommand::ForwardData
        | HdcCommand::ForwardFreeContext
        | HdcCommand::ForwardList
        | HdcCommand::ForwardRemove
        | HdcCommand::ForwardSuccess
        | HdcCommand::ForwardRportInit
        | HdcCommand::ForwardRportList
        | HdcCommand::ForwardRportRemove => DaemonTask::Forward(msg),
        HdcCommand::KernelHandshake => DaemonTask::Reply(
            just(
                TaskMessage {
                    channel_id: id,
                    command: HdcCommand::KernelHandshake,
                    payload: text_bytes("OK"),
                },
            ),
        ),
        HdcCommand::UnityExecute | HdcCommand::UnityExecuteEx => match read_utf8(msg.payload) {
            Ok(cmd) => DaemonTask::Shell(trim_quotation_for_cmd(cmd.as_str())),
            Err(e) => DaemonTask::BadShell(e),
        },
        HdcCommand::ShellInit => DaemonTask::Reply(just(make_raw_echo(id, text_bytes("$ ")))),
        HdcCommand::ShellData => DaemonTask::Pass,
        HdcCommand::UnityReboot => DaemonTask::Reboot,
        HdcCommand::UnityRemount => DaemonTask::Remount,
        HdcCommand::UnityRunmode => {
            let text = concat2("Runmode: ", lossy_text(msg.payload.as_slice()).as_str());
            DaemonTask::Reply(make_echo_and_close(id, text.as_str(), MessageLevel::Info))
        },
        HdcCommand::UnityHilog => {
            let text = if msg.payload.len() == 1 && msg.payload[0] == 104 {
                "hilog help output..."
            } else {
                "hilog output..."
            };
            let mut v = just(make_raw_echo(id, text_bytes(text)));
            push_message(&mut v, make_close(id));
            assert(message::message_views(v@) =~= seq![
                message::raw_echo(id, encode_utf8(hilog_text(msg@.payload))),
                message::channel_close(id),
            ]);
            DaemonTask::Reply(v)
        },
        HdcCommand::HeartbeatMsg => DaemonTask::Reply(just(msg)),
        HdcCommand::KernelChannelClose => DaemonTask::Close,
        _ => DaemonTask::Reply(
            just(make_echo(id, "Command not implemented", MessageLevel::Fail)),
        ),
    }
}

/// A heartbeat comes back as it was sent.
pub proof fn heartbeat_comes_back(m: TaskMessageView)
    requires
        m.command == HdcCommand::HeartbeatMsg,
    ensures
        daemon_task(m) == DaemonTaskView::Reply(seq![m]),
{
}

// ---------------------------------------------------------------------------
// What the host is told
// ---------------------------------------------------------------------------

/// What a command printed, unless it is empty.
pub open spec fn printed(channel_id: u32, bytes: Seq<u8>) -> Seq<TaskMessageView> {
    if text::utf8_lossy(bytes).len() == 0 {
        Seq::empty()
    } else {
        seq![message::raw_echo(channel_id, encode_utf8(text::utf8_lossy(bytes)))]
    }
}

/// What the host is told of a shell command that ran.
pub open spec fn shell_answer(channel_id: u32, stdout: Seq<u8>, stderr: Seq<u8>) -> Seq<
    TaskMessageView,
> {
    (printed(channel_id, stdout) + printed(channel_id, stderr)).push(
        message::channel_close(channel_id),
    )
}

/// A shell command ran.
pub fn shell_report(channel_id: u32, stdout: &[u8], stderr: &[u8]) -> (r: Vec<TaskMessage>)
    ensures
        message::message_views(r@) == shell_answer(channel_id, stdout@, stderr@),
{
    let mut v = none();
    let out = lossy_text(stdout);
    if !out.as_str().is_empty() {
        push_message(&mut v, make_raw_echo(channel_id, text_bytes(out.as_str())));
    }
    assert(message::message_views(v@) =~= printed(channel_id, stdout@));
    let err = lossy_text(stderr);
    if !err.as_str().is_empty() {
        push_message(&mut v, make_raw_echo(channel_id, text_bytes(err.as_str())));
    }
    assert(message::message_views(v@) =~= printed(channel_id, stdout@) + printed(channel_id, stderr@));
    push_message(&mut v, make_close(channel_id));
    v
}

/// What the host is told of a command that could not be run.
pub open spec fn unrun_told(channel_id: u32, reason: Seq<char>) -> Seq<TaskMessageView> {
    message::echo_and_close(channel_id, "Execute failed: "@ + reason, MessageLevel::Fail)
}

/// A shell command could not be run.
pub fn shell_failed(channel_id: u32, reason: &str) -> (r: Vec<TaskMessage>)
    ensures
        message::message_views(r@) == unrun_told(channel_id, reason@),
{
    make_echo_and_close(
        channel_id,
        concat2("Execute failed: ", reason).as_str(),
        MessageLevel::Fail,
    )
}

/// What came of an attempt that the system may not support.
#[derive(Debug, PartialEq, Eq)]
pub enum Attempt {
    /// It succeeded.
    Done,
    /// It failed, for a reason.
    Failed(String),
    /// The system does not support it.
    Unsupported,
}

/// The device is to be restarted, or could not be.
pub open spec fn reboot_texts(channel_id: u32, attempt: Attempt) -> Seq<TaskMessageView> {
    match attempt {
        Attempt::Done => seq![message::channel_close(channel_id)],
        Attempt::Failed(e) => message::echo_and_close(
            channel_id,
            "Reboot failed: "@ + e@,
            MessageLevel::Fail,
        ),
        Attempt::Unsupported => message::echo_and_close(
            channel_id,
            "Reboot not supported on this platform"@,
            MessageLevel::Fail,
        ),
    }
}

/// The device is to be restarted, or could not be.
pub fn reboot_report(channel_id: u32, attempt: &Attempt) -> (r: Vec<TaskMessage>)
    ensures
        message::message_views(r@) == reboot_texts(channel_id, *attempt),
{
    match attempt {
        Attempt::Done => just(make_close(channel_id)),
        Attempt::Failed(e) => make_echo_and_close(
            channel_id,
            concat2("Reboot failed: ", e.as_str()).as_str(),
            MessageLevel::Fail,
        ),
        Attempt::Unsupported => make_echo_and_close(
            channel_id,
            "Reboot not supported on this platform",
            MessageLevel::Fail,
        ),
    }
}

/// The file systems are writable, or could not be made so.
pub open spec fn remount_texts(channel_id: u32, attempt: Attempt) -> Seq<TaskMessageView> {
    match attempt {
        Attempt::Done => message::echo_and_close(channel_id, "Mount finish"@, MessageLevel::Success),
        Attempt::Failed(_) => message::echo_and_close(channel_id, "Mount failed"@, MessageLevel::Fail),
        Attempt::Unsupported => message::echo_and_close(
            channel_id,
            "Remount not supported on this platform"@,
            MessageLevel::Fail,
        ),
    }
}

/// The file systems are writable, or could not be made so.
pub fn remount_report(channel_id: u32, attempt: &Attempt) -> (r: Vec<TaskMessage>)
    ensures
        message::message_views(r@) == remount_texts(channel_id, *attempt),
{
    match attempt {
        Attempt::Done => make_echo_and_close(channel_id, "Mount finish", MessageLevel::Success),
        Attempt::Failed(_) => make_echo_and_close(
            channel_id,
            "Mount failed",
            MessageLevel::Fail,
        ),
        Attempt::Unsupported => make_echo_and_close(
            channel_id,
            "Remount not supported on this platform",
            MessageLevel::Fail,
        ),
    }
}

/// A shell of a process under this label runs under the label of shells.
pub open spec fn is_left_for_shells(current: Seq<u8>) -> bool {
    let label = text::trimmed_end_of(text::utf8_lossy(current), '\n');
    label == "u:r:hdcd:s0"@ || label == "u:r:updater:s0"@
}

/// Tells whether a process with this security label takes that of a shell before it
/// becomes one.
pub fn takes_shell_label(current: &[u8]) -> (r: bool)
    ensures
        r == is_left_for_shells(current@),
{
    let label = trim_end_of(lossy_text(current).as_str(), '\n');
    same_text(label.as_str(), "u:r:hdcd:s0") || same_text(label.as_str(), "u:r:updater:s0")
}

// ---------------------------------------------------------------------------
// The interactive shell
// ---------------------------------------------------------------------------

/// What comes of a message of the host while a shell is open.
#[derive(Debug, PartialEq, Eq)]
pub enum PtyStep {
    /// Bytes go to the shell.
    Input(Vec<u8>),
    /// A message goes to the host.
    Reply(TaskMessage),
    /// The shell ends.
    End,
    /// Nothing.
    Pass,
}

/// What comes of a message of the host while a shell is open.
pub enum PtyStepView {
    Input(Seq<u8>),
    Reply(TaskMessageView),
    End,
    Pass,
}

impl View for PtyStep {
    type V = PtyStepView;

    open spec fn view(&self) -> PtyStepView {
        match *self {
            PtyStep::Input(b) => PtyStepView::Input(b@),
            PtyStep::Reply(m) => PtyStepView::Reply(m@),
            PtyStep::End => PtyStepView::End,
            PtyStep::Pass => PtyStepView::Pass,
        }
    }
}

/// What comes of a message of the host while a shell is open on a channel.
pub open spec fn on_pty_message(channel_id: u32, m: TaskMessageView) -> PtyStepView {
    match m.command {
        HdcCommand::ShellData => PtyStepView::Input(m.payload),
        HdcCommand::HeartbeatMsg => PtyStepView::Reply(
            TaskMessageView { channel_id, command: HdcCommand::HeartbeatMsg, payload: m.payload },
        ),
        HdcCommand::KernelChannelClose => PtyStepView::End,
        _ => PtyStepView::Pass,
    }
}

/// What comes of a message of the host while a shell is open on a channel.
pub fn pty_step(channel_id: u32, msg: TaskMessage) -> (r: PtyStep)
    ensures
        r@ == on_pty_message(channel_id, msg@),
{
    match msg.command {
        HdcCommand::ShellData => PtyStep::Input(msg.payload),
        HdcCommand::HeartbeatMsg => PtyStep::Reply(
            TaskMessage { channel_id, command: HdcCommand::HeartbeatMsg, payload: msg.payload },
        ),
        HdcCommand::KernelChannelClose => PtyStep::End,
        _ => PtyStep::Pass,
    }
}

/// What the host is told where no terminal can be had.
pub open spec fn no_terminal(channel_id: u32) -> TaskMessageView {
    TaskMessageView {
        channel_id,
        command: HdcCommand::KernelEcho,
        payload: seq![2u8] + encode_utf8("Shell initialize failed\r\n"@),
    }
}

/// What the host is told when no shell can be opened.
pub fn pty_failed(channel_id: u32) -> (r: TaskMessage)
    ensures
        r@ == no_terminal(channel_id),
{
    let mut payload: Vec<u8> = Vec::new();
    payload.push(2);
    push_bytes(&mut payload, text_bytes("Shell initialize failed\r\n").as_slice());
    assert(payload@ =~= seq![2u8] + encode_utf8("Shell initialize failed\r\n"@));
    TaskMessage { channel_id, command: HdcCommand::KernelEcho, payload }
}

/// What the user types reaches the shell, and what the shell prints reaches the user.
pub proof fn shell_bytes_arrive(channel_id: u32, data: Seq<u8>)
    ensures
        on_pty_message(channel_id, shell::input_message(channel_id, data)) == PtyStepView::Input(
            data,
        ),
        shell::on_shell_message(Some(shell::input_message(channel_id, data)))
            == ShellStepView::Write(tcp_map::framed(data)),
{
}

/// A message of the host goes to what it is about: files, packages and forwardings each to
/// their own part, a restart and a remount to the device, the end of a channel to its end.
pub proof fn messages_go_to_their_part(channel_id: u32, payload: Seq<u8>)
    ensures
        forall|c: HdcCommand|
            c == HdcCommand::FileInit || c == HdcCommand::FileCheck || c == HdcCommand::FileBegin
                || c == HdcCommand::FileData || c == HdcCommand::FileFinish || c
                == HdcCommand::FileRecvInit ==> #[trigger] daemon_task(
                TaskMessageView { channel_id, command: c, payload },
            ) == DaemonTaskView::File(TaskMessageView { channel_id, command: c, payload }),
        forall|c: HdcCommand|
            c == HdcCommand::AppInit || c == HdcCommand::AppCheck || c == HdcCommand::AppBegin || c
                == HdcCommand::AppData || c == HdcCommand::AppFinish || c
                == HdcCommand::AppUninstall ==> #[trigger] daemon_task(
                TaskMessageView { channel_id, command: c, payload },
            ) == DaemonTaskView::App(TaskMessageView { channel_id, command: c, payload }),
        forall|c: HdcCommand|
            c == HdcCommand::ForwardInit || c == HdcCommand::ForwardCheck || c
                == HdcCommand::ForwardCheckResult || c == HdcCommand::ForwardActiveSlave || c
                == HdcCommand::ForwardActiveMaster || c == HdcCommand::ForwardData || c
                == HdcCommand::ForwardFreeContext || c == HdcCommand::ForwardList || c
                == HdcCommand::ForwardRemove || c == HdcCommand::ForwardSuccess || c
                == HdcCommand::ForwardRportInit || c == HdcCommand::ForwardRportList || c
                == HdcCommand::ForwardRportRemove ==> #[trigger] daemon_task(
                TaskMessageView { channel_id, command: c, payload },
            ) == DaemonTaskView::Forward(TaskMessageView { channel_id, command: c, payload }),
        daemon_task(TaskMessageView { channel_id, command: HdcCommand::UnityReboot, payload })
            == DaemonTaskView::Reboot,
        daemon_task(TaskMessageView { channel_id, command: HdcCommand::UnityRemount, payload })
            == DaemonTaskView::Remount,
        daemon_task(
            TaskMessageView { channel_id, command: HdcCommand::KernelChannelClose, payload },
        ) == DaemonTaskView::Close,
        daemon_task(TaskMessageView { channel_id, command: HdcCommand::ShellData, payload })
            == DaemonTaskView::Pass,
        daemon_task(TaskMessageView { channel_id, command: HdcCommand::KernelHandshake, payload })
            == DaemonTaskView::Reply(
            seq![
                TaskMessageView {
                    channel_id,
                    command: HdcCommand::KernelHandshake,
                    payload: encode_utf8("OK"@),
                },
            ],
        ),
        daemon_task(TaskMessageView { channel_id, command: HdcCommand::ShellInit, payload })
            == DaemonTaskView::Reply(
            seq![
                TaskMessageView {
                    channel_id,
                    command: HdcCommand::KernelEchoRaw,
                    payload: encode_utf8("$ "@),
                },
            ],
        ),
        forall|c: HdcCommand|
            c == HdcCommand::UnityRootrun || c == HdcCommand::UnityBugreportInit || c
                == HdcCommand::JdwpList || c == HdcCommand::JdwpTrack || c
                == HdcCommand::AppSideload ==> #[trigger] daemon_task(
                TaskMessageView { channel_id, command: c, payload },
            ) == DaemonTaskView::Reply(
                seq![
                    message::echo(channel_id, "Command not implemented"@, MessageLevel::Fail),
                ],
            ),
{
}

/// A shell command that begins and ends with something else than white space and quotation marks
/// is run as it was typed; one in quotation marks is run without them.
#[verifier::rlimit(60)]
#[verifier::spinoff_prover]
pub proof fn shell_runs_what_was_typed(channel_id: u32, c: HdcCommand, cmd: Seq<char>)
    requires
        c == HdcCommand::UnityExecute || c == HdcCommand::UnityExecuteEx,
        cmd.len() > 0,
        !text::is_white(cmd[0]) && !text::is_white(cmd.last()),
        cmd[0] != '"',
    ensures
        daemon_task(TaskMessageView { channel_id, command: c, payload: encode_utf8(cmd) })
            == DaemonTaskView::Shell(cmd),
        daemon_task(
            TaskMessageView {
                channel_id,
                command: c,
                payload: encode_utf8(seq!['"'] + cmd + seq!['"']),
            },
        ) == DaemonTaskView::Shell(cmd),
{
    let quoted = seq!['"'] + cmd + seq!['"'];
    assert(bare_command(cmd) == cmd) by {
        text::trimmed_is_inside(cmd);
    }
    assert(bare_command(quoted) == cmd) by {
        assert(quoted[0] == '"' && quoted.last() == '"');
        text::trimmed_is_inside(quoted);
        assert(quoted.subrange(1, quoted.len() - 1) =~= cmd);
    }
    assert(shell_task(encode_utf8(cmd)) == DaemonTaskView::Shell(bare_command(cmd))) by {
        encode_utf8_valid_utf8(cmd);
        encode_utf8_decode_utf8(cmd);
    }
    assert(shell_task(encode_utf8(quoted)) == DaemonTaskView::Shell(bare_command(quoted))) by {
        encode_utf8_valid_utf8(quoted);
        encode_utf8_decode_utf8(quoted);
    }
}

/// What a shell command printed reaches the host, first what it printed and then what it
/// complained of, and the channel ends.
pub proof fn output_is_reported(channel_id: u32, out: Seq<char>, err: Seq<char>)
    ensures
        out.len() > 0 && err.len() == 0 ==> shell_answer(
            channel_id,
            encode_utf8(out),
            encode_utf8(err),
        ) == seq![
            message::raw_echo(channel_id, encode_utf8(out)),
            message::channel_close(channel_id),
        ],
        out.len() > 0 && err.len() > 0 ==> shell_answer(
            channel_id,
            encode_utf8(out),
            encode_utf8(err),
        ) == seq![
            message::raw_echo(channel_id, encode_utf8(out)),
            message::raw_echo(channel_id, encode_utf8(err)),
            message::channel_close(channel_id),
        ],
        out.len() == 0 && err.len() > 0 ==> shell_answer(
            channel_id,
            encode_utf8(out),
            encode_utf8(err),
        ) == seq![
            message::raw_echo(channel_id, encode_utf8(err)),
            message::channel_close(channel_id),
        ],
        out.len() == 0 && err.len() == 0 ==> shell_answer(
            channel_id,
            encode_utf8(out),
            encode_utf8(err),
        ) == seq![message::channel_close(channel_id)],
{
    text::text_of_its_bytes(out);
    text::text_of_its_bytes(err);
    assert(shell_answer(channel_id, encode_utf8(out), encode_utf8(err)) =~= printed(
        channel_id,
        encode_utf8(out),
    ) + printed(channel_id, encode_utf8(err)) + seq![message::channel_close(channel_id)]);
    assert(printed(channel_id, encode_utf8(out)) + printed(channel_id, encode_utf8(err)) =~= (
    if out.len() > 0 {
        seq![message::raw_echo(channel_id, encode_utf8(out))]
    } else {
        Seq::empty()
    }) + (if err.len() > 0 {
        seq![message::raw_echo(channel_id, encode_utf8(err))]
    } else {
        Seq::empty()
    }));
    assert(out.len() > 0 && err.len() == 0 ==> shell_answer(
        channel_id,
        encode_utf8(out),
        encode_utf8(err),
    ) =~= seq![
        message::raw_echo(channel_id, encode_utf8(out)),
        message::channel_close(channel_id),
    ]);
    assert(out.len() > 0 && err.len() > 0 ==> shell_answer(
        channel_id,
        encode_utf8(out),
        encode_utf8(err),
    ) =~= seq![
        message::raw_echo(channel_id, encode_utf8(out)),
        message::raw_echo(channel_id, encode_utf8(err)),
        message::channel_close(channel_id),
    ]);
}

/// A mode is told back to the user, a log is printed, with its help where `h` is asked for.
pub proof fn modes_and_logs(channel_id: u32, mode: Seq<char>)
    ensures
        daemon_task(
            TaskMessageView {
                channel_id,
                command: HdcCommand::UnityRunmode,
                payload: encode_utf8(mode),
            },
        ) == DaemonTaskView::Reply(
            seq![
                message::echo(channel_id, "Runmode: "@ + mode, MessageLevel::Info),
                message::channel_close(channel_id),
            ],
        ),
        daemon_task(
            TaskMessageView { channel_id, command: HdcCommand::UnityHilog, payload: seq![104u8] },
        ) == DaemonTaskView::Reply(
            seq![
                message::raw_echo(channel_id, encode_utf8("hilog help output..."@)),
                message::channel_close(channel_id),
            ],
        ),
        encode_utf8(mode) != seq![104u8] ==> daemon_task(
            TaskMessageView {
                channel_id,
                command: HdcCommand::UnityHilog,
                payload: encode_utf8(mode),
            },
        ) == DaemonTaskView::Reply(
            seq![
                message::raw_echo(channel_id, encode_utf8("hilog output..."@)),
                message::channel_close(channel_id),
            ],
        ),
{
    text::text_of_its_bytes(mode);
    let p = encode_utf8(mode);
    assert(p.len() == 1 && p[0] == 104 ==> p =~= seq![104u8]);
}

/// The user is told how a restart or a remount ended, and the channel ends. Of a restart that
/// succeeds nothing is told.
pub proof fn attempts_are_reported(channel_id: u32, failed: Attempt)
    requires
        failed is Failed,
    ensures
        reboot_texts(channel_id, Attempt::Done) == seq![message::channel_close(channel_id)],
        reboot_texts(channel_id, failed) == seq![
            message::echo(channel_id, "Reboot failed: "@ + failed->Failed_0@, MessageLevel::Fail),
            message::channel_close(channel_id),
        ],
        reboot_texts(channel_id, Attempt::Unsupported) == seq![
            message::echo(
                channel_id,
                "Reboot not supported on this platform"@,
                MessageLevel::Fail,
            ),
            message::channel_close(channel_id),
        ],
        remount_texts(channel_id, Attempt::Done) == seq![
            message::echo(channel_id, "Mount finish"@, MessageLevel::Success),
            message::channel_close(channel_id),
        ],
        remount_texts(channel_id, failed) == seq![
            message::echo(channel_id, "Mount failed"@, MessageLevel::Fail),
            message::channel_close(channel_id),
        ],
        remount_texts(channel_id, Attempt::Unsupported) == seq![
            message::echo(
                channel_id,
                "Remount not supported on this platform"@,
                MessageLevel::Fail,
            ),
            message::channel_close(channel_id),
        ],
{
}

/// A terminal gets what the host sends for it; it answers heartbeats, ends with the channel,
/// and passes over everything else.
pub proof fn terminal_listens(channel_id: u32, other: u32, data: Seq<u8>)
    ensures
        on_pty_message(
            channel_id,
            TaskMessageView { channel_id: other, command: HdcCommand::ShellData, payload: data },
        ) == PtyStepView::Input(data),
        on_pty_message(
            channel_id,
            TaskMessageView { channel_id: other, command: HdcCommand::HeartbeatMsg, payload: data },
        ) == PtyStepView::Reply(
            TaskMessageView { channel_id, command: HdcCommand::HeartbeatMsg, payload: data },
        ),
        on_pty_message(
            channel_id,
            TaskMessageView {
                channel_id: other,
                command: HdcCommand::KernelChannelClose,
                payload: data,
            },
        ) == PtyStepView::End,
        forall|c: HdcCommand|
            c != HdcCommand::ShellData && c != HdcCommand::HeartbeatMsg && c
                != HdcCommand::KernelChannelClose ==> #[trigger] on_pty_message(
                channel_id,
                TaskMessageView { channel_id: other, command: c, payload: data },
            ) == PtyStepView::Pass,
{
}

/// An image is accepted as it comes: the device begins after the check, and says at the end that
/// it is done; to erase and to format end at once.
pub proof fn images_are_taken(channel_id: u32, payload: Seq<u8>)
    ensures
        ({
            let done = TaskMessageView {
                channel_id,
                command: HdcCommand::FlashdFinish,
                payload: seq![0u8, 2u8] + encode_utf8("flashd stub completed"@),
            };
            &&& daemon_task(
                TaskMessageView { channel_id, command: HdcCommand::FlashdCheck, payload },
            ) == DaemonTaskView::Reply(
                seq![
                    TaskMessageView {
                        channel_id,
                        command: HdcCommand::FlashdBegin,
                        payload: Seq::empty(),
                    },
                ],
            )
            &&& daemon_task(
                TaskMessageView { channel_id, command: HdcCommand::FlashdErase, payload },
            ) == DaemonTaskView::Reply(seq![done])
            &&& daemon_task(
                TaskMessageView { channel_id, command: HdcCommand::FlashdFormat, payload },
            ) == DaemonTaskView::Reply(seq![done])
            &&& daemon_task(
                TaskMessageView {
                    channel_id,
                    command: HdcCommand::FlashdFinish,
                    payload: seq![1u8],
                },
            ) == DaemonTaskView::Reply(seq![done])
            &&& forall|c: HdcCommand|
                c == HdcCommand::FlashdBegin || c == HdcCommand::FlashdData || c
                    == HdcCommand::FlashdProgress ==> #[trigger] daemon_task(
                    TaskMessageView { channel_id, command: c, payload },
                ) == DaemonTaskView::Reply(Seq::empty())
        }),
{
}

/// Only the labels of the daemon and of the updater are left for that of shells, with or
/// without the end of a line behind them.
pub proof fn labels_are_left(label: Seq<char>)
    requires
        label.len() > 0 ==> label.last() != '\n',
    ensures
        is_left_for_shells(encode_utf8(label)) <==> label == "u:r:hdcd:s0"@ || label
            == "u:r:updater:s0"@,
        is_left_for_shells(encode_utf8(label + seq!['\n'])) <==> label == "u:r:hdcd:s0"@ || label
            == "u:r:updater:s0"@,
{
    text::text_of_its_bytes(label);
    text::text_of_its_bytes(label + seq!['\n']);
    reveal_with_fuel(text::trimmed_end_of, 2);
    assert((label + seq!['\n']).drop_last() =~= label);
}

/// A host that opens a terminal which cannot be had is told so as a text of success, which its
/// user reads without a mark.
pub proof fn missing_terminal_is_told(
    transport: Transport,
    waiting: Set<(u32, u32)>,
    session_id: u32,
    channel_id: u32,
)
    requires
        !waiting.contains((session_id, channel_id)),
    ensures
        session::route(transport, waiting, session_id, no_terminal(channel_id))
            == RouteView::Client(channel_id, encode_utf8("Shell initialize failed\r\n"@)),
        no_terminal(channel_id) == message::echo(
            channel_id,
            "Shell initialize failed"@,
            MessageLevel::Success,
        ),
{
    message::user_is_told(
        transport,
        waiting,
        session_id,
        channel_id,
        "Shell initialize failed"@,
        Seq::empty(),
    );
    reveal_strlit("Shell initialize failed");
    reveal_strlit("\r\n");
    reveal_strlit("Shell initialize failed\r\n");
    assert("Shell initialize failed"@ + "\r\n"@ =~= "Shell initialize failed\r\n"@);
    let e = message::level_prefix(MessageLevel::Success);
    assert(e + "Shell initialize failed"@ + "\r\n"@ =~= "Shell initialize failed\r\n"@);
}

/// A command that could not be run is told as a failure with its reason, and the channel is
/// closed.
pub proof fn unrun_commands_are_told(channel_id: u32, reason: Seq<char>)
    ensures
        unrun_told(channel_id, reason) == seq![
            message::echo(channel_id, "Execute failed: "@ + reason, MessageLevel::Fail),
            message::channel_close(channel_id),
        ],
{
}

} // verus!
