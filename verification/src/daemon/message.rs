//! The messages that the daemon sends.

use crate::host::dispatch::text_bytes;
use crate::host::session;
use crate::host::session::{RouteView, Transport};
use crate::host::transfer;
use crate::host::transfer::make_byte;
use crate::protocol::bytes::push_bytes;
use crate::protocol::command::HdcCommand;
use crate::protocol::config::{MessageLevel, TaskMessage, TaskMessageView};
use vstd::prelude::*;
use vstd::utf8::*;

verus! {

/// What a list of messages holds.
pub open spec fn message_views(v: Seq<TaskMessage>) -> Seq<TaskMessageView> {
    v.map_values(|m: TaskMessage| m@)
}

/// One message.
pub fn just(m: TaskMessage) -> (r: Vec<TaskMessage>)
    ensures
        message_views(r@) == seq![m@],
{
    let mut v: Vec<TaskMessage> = Vec::new();
    v.push(m);
    assert(message_views(v@) =~= seq![m@]);
    v
}

/// One more message.
pub fn push_message(v: &mut Vec<TaskMessage>, m: TaskMessage)
    ensures
        message_views(final(v)@) == message_views(old(v)@).push(m@),
{
    let ghost before = message_views(v@);
    v.push(m);
    assert(message_views(v@) =~= before.push(m@));
}

/// What stands before a text of a level.
pub open spec fn level_prefix(level: MessageLevel) -> Seq<char> {
    match level {
        MessageLevel::Fail => "[Fail]"@,
        MessageLevel::Info => "[Info]"@,
        MessageLevel::Success => Seq::empty(),
    }
}

/// A text for the user: its level, then a line.
pub open spec fn echo(channel_id: u32, text: Seq<char>, level: MessageLevel) -> TaskMessageView {
    TaskMessageView {
        channel_id,
        command: HdcCommand::KernelEcho,
        payload: seq![level.code()] + encode_utf8(level_prefix(level) + text + "\r\n"@),
    }
}

/// A text for the user.
pub fn make_echo(channel_id: u32, text: &str, level: MessageLevel) -> (r: TaskMessage)
    ensures
        r@ == echo(channel_id, text@, level),
{
    let mut line: String = match level {
        MessageLevel::Fail => "[Fail]".to_owned(),
        MessageLevel::Info => "[Info]".to_owned(),
        MessageLevel::Success => String::new(),
    };
    line.append(text);
    line.append("\r\n");
    let mut payload: Vec<u8> = Vec::new();
    payload.push(level.as_u8());
    push_bytes(&mut payload, text_bytes(line.as_str()).as_slice());
    assert(payload@ =~= seq![level.code()] + encode_utf8(line@));
    TaskMessage { channel_id, command: HdcCommand::KernelEcho, payload }
}

/// What a command printed.
pub open spec fn raw_echo(channel_id: u32, bytes: Seq<u8>) -> TaskMessageView {
    TaskMessageView { channel_id, command: HdcCommand::KernelEchoRaw, payload: bytes }
}

/// What a command printed.
pub fn make_raw_echo(channel_id: u32, bytes: Vec<u8>) -> (r: TaskMessage)
    ensures
        r@ == raw_echo(channel_id, bytes@),
{
    TaskMessage { channel_id, command: HdcCommand::KernelEchoRaw, payload: bytes }
}

/// The end of a channel.
pub open spec fn channel_close(channel_id: u32) -> TaskMessageView {
    transfer::byte_message(channel_id, HdcCommand::KernelChannelClose, 0)
}

/// The end of a channel.
pub fn make_close(channel_id: u32) -> (r: TaskMessage)
    ensures
        r@ == channel_close(channel_id),
{
    make_byte(channel_id, HdcCommand::KernelChannelClose, 0)
}

/// A text for the user, then the end of the channel.
pub open spec fn echo_and_close(channel_id: u32, text: Seq<char>, level: MessageLevel) -> Seq<
    TaskMessageView,
> {
    seq![echo(channel_id, text, level), channel_close(channel_id)]
}

/// A text for the user, then the end of the channel.
pub fn make_echo_and_close(channel_id: u32, text: &str, level: MessageLevel) -> (r: Vec<
    TaskMessage,
>)
    ensures
        message_views(r@) == echo_and_close(channel_id, text@, level),
{
    let mut v = just(make_echo(channel_id, text, level));
    push_message(&mut v, make_close(channel_id));
    assert(message_views(v@) =~= echo_and_close(channel_id, text@, level));
    v
}

/// The user reads the text of an echo once the level before it is taken off.
pub proof fn echo_shows_its_text(channel_id: u32, text: Seq<char>, level: MessageLevel)
    ensures
        session::without_level(echo(channel_id, text, level).payload) == encode_utf8(
            level_prefix(level) + text + "\r\n"@,
        ),
{
    let p = echo(channel_id, text, level).payload;
    assert(p.skip(1) =~= encode_utf8(level_prefix(level) + text + "\r\n"@));
}

/// A text for the user is told with the number of its level before it, 0 for a failure, 1 for
/// a remark and 2 for a success, and with the word for it; the host shows it without the number.
/// What a command printed is shown as it is. The end of a channel ends it.
pub proof fn user_is_told(
    transport: Transport,
    waiting: Set<(u32, u32)>,
    session_id: u32,
    channel_id: u32,
    text: Seq<char>,
    bytes: Seq<u8>,
)
    requires
        !waiting.contains((session_id, channel_id)),
    ensures
        session::route(
            transport,
            waiting,
            session_id,
            echo(channel_id, text, MessageLevel::Fail),
        ) == RouteView::Client(channel_id, encode_utf8("[Fail]"@ + text + "\r\n"@)),
        session::route(
            transport,
            waiting,
            session_id,
            echo(channel_id, text, MessageLevel::Info),
        ) == RouteView::Client(channel_id, encode_utf8("[Info]"@ + text + "\r\n"@)),
        session::route(
            transport,
            waiting,
            session_id,
            echo(channel_id, text, MessageLevel::Success),
        ) == RouteView::Client(channel_id, encode_utf8(text + "\r\n"@)),
        echo(channel_id, text, MessageLevel::Fail).payload[0] == 0,
        echo(channel_id, text, MessageLevel::Info).payload[0] == 1,
        echo(channel_id, text, MessageLevel::Success).payload[0] == 2,
        session::route(transport, waiting, session_id, raw_echo(channel_id, bytes))
            == RouteView::Client(channel_id, bytes),
        session::route(transport, waiting, session_id, channel_close(channel_id))
            == RouteView::Close(channel_id),
        channel_close(channel_id).payload == seq![0u8],
        echo_and_close(channel_id, text, MessageLevel::Fail) == seq![
            echo(channel_id, text, MessageLevel::Fail),
            channel_close(channel_id),
        ],
{
    echo_shows_its_text(channel_id, text, MessageLevel::Fail);
    echo_shows_its_text(channel_id, text, MessageLevel::Info);
    echo_shows_its_text(channel_id, text, MessageLevel::Success);
    assert(Seq::<char>::empty() + text =~= text);
}

} // verus!
