//! The bridge between the terminal of a user and a shell on a device.

use crate::host::tcp_map;
use crate::host::tcp_map::frame;
use crate::host::transfer;
use crate::host::transfer::make_bare;
use crate::protocol::command::HdcCommand;
use crate::protocol::config::{TaskMessage, TaskMessageView};
use vstd::prelude::*;

verus! {

/// What the user is told when no session serves the device.
pub const NO_DEVICE: &'static str = "[Fail]No device connected\r\n";

/// What comes of a message of the daemon for a shell.
#[derive(Debug, PartialEq, Eq)]
pub enum ShellStep {
    /// Bytes go to the user.
    Write(Vec<u8>),
    /// The message does not count.
    Pass,
    /// The shell has ended.
    Close,
}

/// What comes of a message of the daemon for a shell.
pub enum ShellStepView {
    Write(Seq<u8>),
    Pass,
    Close,
}

impl View for ShellStep {
    type V = ShellStepView;

    open spec fn view(&self) -> ShellStepView {
        match *self {
            ShellStep::Write(b) => ShellStepView::Write(b@),
            ShellStep::Pass => ShellStepView::Pass,
            ShellStep::Close => ShellStepView::Close,
        }
    }
}

/// What comes of a message of the daemon for a shell; nothing comes once the session
/// has ended.
pub open spec fn on_shell_message(msg: Option<TaskMessageView>) -> ShellStepView {
    match msg {
        None => ShellStepView::Close,
        Some(m) => if m.command == HdcCommand::ShellData || m.command == HdcCommand::KernelEcho
            || m.command == HdcCommand::KernelEchoRaw {
            ShellStepView::Write(tcp_map::framed(m.payload))
        } else if m.command == HdcCommand::KernelChannelClose {
            ShellStepView::Close
        } else {
            ShellStepView::Pass
        },
    }
}

/// What comes of a message of the daemon for a shell.
pub fn shell_step(msg: &Option<TaskMessage>) -> (r: ShellStep)
    ensures
        r@ == on_shell_message(
            match *msg {
                Some(m) => Some(m@),
                None => None,
            },
        ),
{
    match msg {
        None => ShellStep::Close,
        Some(m) => match m.command {
            HdcCommand::ShellData | HdcCommand::KernelEcho | HdcCommand::KernelEchoRaw => {
                ShellStep::Write(frame(m.payload.as_slice()))
            },
            HdcCommand::KernelChannelClose => ShellStep::Close,
            _ => ShellStep::Pass,
        },
    }
}

/// The message that opens a shell on the device.
pub fn shell_init(channel_id: u32) -> (r: TaskMessage)
    ensures
        r@ == shell_opening(channel_id),
{
    make_bare(channel_id, HdcCommand::ShellInit)
}

/// The message that carries what was typed, or what was printed.
pub open spec fn input_message(channel_id: u32, data: Seq<u8>) -> TaskMessageView {
    TaskMessageView { channel_id, command: HdcCommand::ShellData, payload: data }
}

/// The message that carries what was typed, or what was printed.
pub fn shell_input(channel_id: u32, data: Vec<u8>) -> (r: TaskMessage)
    ensures
        r@ == input_message(channel_id, data@),
{
    TaskMessage { channel_id, command: HdcCommand::ShellData, payload: data }
}

/// The terminal of the user shows what the device prints, behind its length, until the channel
/// ends. Other messages are passed over.
pub proof fn terminal_shows(channel_id: u32, data: Seq<u8>)
    ensures
        forall|c: HdcCommand|
            c == HdcCommand::ShellData || c == HdcCommand::KernelEcho || c
                == HdcCommand::KernelEchoRaw ==> #[trigger] on_shell_message(
                Some(TaskMessageView { channel_id, command: c, payload: data }),
            ) == ShellStepView::Write(tcp_map::framed(data)),
        on_shell_message(
            Some(
                TaskMessageView {
                    channel_id,
                    command: HdcCommand::KernelChannelClose,
                    payload: data,
                },
            ),
        ) == ShellStepView::Close,
        on_shell_message(None) == ShellStepView::Close,
        on_shell_message(
            Some(
                TaskMessageView { channel_id, command: HdcCommand::HeartbeatMsg, payload: data },
            ),
        ) == ShellStepView::Pass,
        input_message(channel_id, data) == (TaskMessageView {
            channel_id,
            command: HdcCommand::ShellData,
            payload: data,
        }),
{
}

/// The message that opens a shell.
pub open spec fn shell_opening(channel_id: u32) -> TaskMessageView {
    transfer::bare_message(channel_id, HdcCommand::ShellInit)
}

/// A shell is opened on its channel with nothing more to say.
pub proof fn shell_is_opened(channel_id: u32)
    ensures
        shell_opening(channel_id) == (TaskMessageView {
            channel_id,
            command: HdcCommand::ShellInit,
            payload: Seq::empty(),
        }),
{
}

} // verus!
