//! What the tasks that carry files have in common.

use crate::protocol::bytes;
use crate::protocol::bytes::{push_bytes, push_zeros};
use crate::protocol::command::HdcCommand;
use crate::protocol::config::{TaskMessage, TaskMessageView};
use crate::protocol::error::{ByteField, CodecError};
use crate::protocol::serializer;
use crate::protocol::serializer::{HdcSerialize, TransferConfig, TransferConfigView, TransferPayload, TransferPayloadView};
use crate::protocol::tlv;
use crate::protocol::tlv::{FieldKind, SlotView};
use crate::text;
use crate::text::{chars_of, concat2, concat3, copy_text, same_text, slice_text, trim, trim_end_of};
use vstd::prelude::*;
use vstd::utf8::*;

verus! {

// ---------------------------------------------------------------------------
// The words of a command
// ---------------------------------------------------------------------------

/// A text without the white space around it and without a pair of quotes.
pub open spec fn unquoted(s: Seq<char>) -> Seq<char> {
    let t = text::trimmed(s);
    if t.len() >= 2 && t[0] == '"' && t.last() == '"' {
        t.subrange(1, t.len() - 1)
    } else {
        t
    }
}

/// A text without the white space around it and without a pair of quotes.
pub fn strip_quotes(s: &str) -> (r: String)
    ensures
        r@ == unquoted(s@),
{
    let t = trim(s);
    let v = chars_of(t.as_str());
    let n: usize = v.len();
    if n >= 2 && v[0] == '"' && v[n - 1] == '"' {
        slice_text(&v, 1, n - 1)
    } else {
        t
    }
}

/// Why the words of a command do not name two files.
#[derive(Debug, Clone, Copy, PartialEq, Eq, Structural)]
pub enum PathError {
    /// There are fewer than four words.
    MissingArguments,
    /// There are no two words after the directory.
    MissingPath,
}

impl PathError {
    /// The sentence that reports the error.
    pub open spec fn text(self) -> Seq<char> {
        match self {
            PathError::MissingArguments => "Missing file path arguments"@,
            PathError::MissingPath => "Missing local or remote path"@,
        }
    }

    /// The sentence that reports the error.
    pub fn message(&self) -> (r: String)
        ensures
            r@ == self.text(),
    {
        match *self {
            PathError::MissingArguments => "Missing file path arguments".to_owned(),
            PathError::MissingPath => "Missing local or remote path".to_owned(),
        }
    }
}

/// The two files that the words of a command name. The words may give a directory
/// for the first of them.
pub open spec fn file_paths(params: Seq<Seq<char>>, separator: char) -> Result<
    (Seq<char>, Seq<char>),
    PathError,
> {
    if params.len() < 4 {
        Err(PathError::MissingArguments)
    } else if params[2] == "-cwd"@ {
        if params.len() < 6 {
            Err(PathError::MissingPath)
        } else {
            let first = unquoted(params[4]);
            let cwd = params[3];
            Ok(
                (
                    if cwd.len() == 0 {
                        first
                    } else {
                        text::trimmed_end_of(cwd, separator).push(separator) + first
                    },
                    unquoted(params[5]),
                ),
            )
        }
    } else {
        Ok((unquoted(params[2]), unquoted(params[3])))
    }
}

/// The two files that the words of a command name.
pub fn resolve_file_paths(params: &[String], separator: char) -> (r: Result<
    (String, String),
    PathError,
>)
    ensures
        match r {
            Ok((a, b)) => file_paths(text::texts(params@), separator) == Ok::<_, PathError>((a@, b@)),
            Err(e) => file_paths(text::texts(params@), separator) == Err::<(Seq<char>, Seq<char>), _>(e),
        },
{
    if params.len() < 4 {
        return Err(PathError::MissingArguments);
    }
    proof {
        assert(text::texts(params@)[2] == params@[2]@);
        assert(text::texts(params@)[3] == params@[3]@);
    }
    if same_text(params[2].as_str(), "-cwd") {
        if params.len() < 6 {
            return Err(PathError::MissingPath);
        }
        proof {
            assert(text::texts(params@)[4] == params@[4]@);
            assert(text::texts(params@)[5] == params@[5]@);
        }
        let first = strip_quotes(params[4].as_str());
        let second = strip_quotes(params[5].as_str());
        let cwd = params[3].as_str();
        if cwd.is_empty() {
            Ok((first, second))
        } else {
            let mut path = trim_end_of(cwd, separator);
            path.push(separator);
            path.append(first.as_str());
            Ok((path, second))
        }
    } else {
        Ok((strip_quotes(params[2].as_str()), strip_quotes(params[3].as_str())))
    }
}

// ---------------------------------------------------------------------------
// Messages
// ---------------------------------------------------------------------------

/// What a daemon is told of a file before it comes.
pub open spec fn file_config(
    file_size: u64,
    options: Seq<char>,
    path: Seq<char>,
    optional_name: Seq<char>,
    function_name: Seq<char>,
) -> TransferConfigView {
    TransferConfigView {
        file_size,
        atime: 0,
        mtime: 0,
        options,
        path,
        optional_name,
        update_if_new: false,
        compress_type: 0,
        hold_timestamp: false,
        function_name,
        client_cwd: Seq::empty(),
        reserve1: Seq::empty(),
        reserve2: Seq::empty(),
    }
}

/// What a daemon is told of a file before it comes, on the wire.
pub fn config_bytes(
    file_size: u64,
    options: &str,
    path: &str,
    optional_name: &str,
    function_name: &str,
) -> (r: Vec<u8>)
    ensures
        r@ == tlv::slots_bytes(
            file_config(file_size, options@, path@, optional_name@, function_name@).slots(),
        ),
{
    let config = TransferConfig {
        file_size,
        atime: 0,
        mtime: 0,
        options: copy_text(options),
        path: copy_text(path),
        optional_name: copy_text(optional_name),
        update_if_new: false,
        compress_type: 0,
        hold_timestamp: false,
        function_name: copy_text(function_name),
        client_cwd: String::new(),
        reserve1: String::new(),
        reserve2: String::new(),
    };
    assert(config@ == file_config(
        file_size,
        options@,
        path@,
        optional_name@,
        function_name@,
    ));
    config.serialize()
}

/// The largest piece of a file that is sent at once.
pub const CHUNK_SIZE: usize = 523200;

/// What precedes a piece of a file: where it belongs, and its size.
pub open spec fn piece_head(index: u64, n: nat) -> TransferPayloadView {
    TransferPayloadView {
        index,
        compress_type: 0,
        compress_size: n as u32,
        uncompress_size: n as u32,
    }
}

/// A piece of a file behind its head, which is padded with zeros to 64 bytes.
pub open spec fn piece(index: u64, data: Seq<u8>) -> Seq<u8> {
    let head = tlv::slots_bytes(piece_head(index, data.len()).slots());
    head + bytes::zeros((64 - head.len()) as nat) + data
}

/// The head of a piece has at most 23 bytes.
pub proof fn piece_head_size(index: u64, n: nat)
    requires
        n < 0x1_0000_0000,
    ensures
        tlv::slots_bytes(piece_head(index, n).slots()).len() <= 23,
        tlv::slots_bytes(piece_head(index, n).slots()).len() == (if index == 0 {
            0
        } else {
            1 + tlv::varint(index as nat).len()
        }) + (if n == 0 {
            0
        } else {
            2 + 2 * tlv::varint(n).len()
        }),
{
    let slots = piece_head(index, n).slots();
    let rest1 = slots.drop_first();
    let rest2 = rest1.drop_first();
    let rest3 = rest2.drop_first();
    assert(rest3.drop_first() =~= Seq::<SlotView>::empty());
    tlv::varint_lengths(index as nat);
    tlv::varint_lengths(n);
    assert(tlv::varint(8).len() == 1 && tlv::varint(24).len() == 1 && tlv::varint(32).len() == 1);
    assert(slots[0] == tlv::number_slot(1, FieldKind::U64, index));
    assert(rest1[0] == tlv::number_slot(2, FieldKind::Byte(ByteField::CompressType), 0));
    assert(rest2[0] == tlv::number_slot(3, FieldKind::U32, n as u64));
    assert(rest3[0] == tlv::number_slot(4, FieldKind::U32, n as u64));
    assert(tlv::slot_bytes(slots[0]).len() == (if index == 0 {
        0
    } else {
        1 + tlv::varint(index as nat).len()
    }));
    assert(tlv::slot_bytes(rest1[0]).len() == 0);
    assert(tlv::slot_bytes(rest2[0]).len() == (if n == 0 {
        0
    } else {
        1 + tlv::varint(n).len()
    }));
    assert(tlv::slot_bytes(rest3[0]).len() == tlv::slot_bytes(rest2[0]).len());
    assert(tlv::slots_bytes(rest3.drop_first()).len() == 0);
    assert(tlv::slots_bytes(rest3).len() == tlv::slot_bytes(rest3[0]).len());
    assert(tlv::slots_bytes(rest2).len() == 2 * tlv::slot_bytes(rest3[0]).len());
    assert(tlv::slots_bytes(rest1).len() == 2 * tlv::slot_bytes(rest3[0]).len());
}

/// A piece of a file behind its head.
pub fn make_piece(index: u64, data: &[u8]) -> (r: Vec<u8>)
    requires
        data.len() < 0x1_0000_0000,
    ensures
        r@ == piece(index, data@),
        r@.len() == 64 + data@.len(),
{
    let head = TransferPayload {
        index,
        compress_type: 0,
        compress_size: data.len() as u32,
        uncompress_size: data.len() as u32,
    };
    assert(head@ == piece_head(index, data@.len()));
    let mut out = head.serialize();
    proof {
        piece_head_size(index, data@.len());
    }
    let n: usize = out.len();
    push_zeros(&mut out, 64 - n);
    push_bytes(&mut out, data);
    out
}

/// A message with an empty payload.
pub open spec fn bare_message(channel_id: u32, command: HdcCommand) -> TaskMessageView {
    TaskMessageView { channel_id, command, payload: Seq::empty() }
}

/// A message with an empty payload.
pub fn make_bare(channel_id: u32, command: HdcCommand) -> (r: TaskMessage)
    ensures
        r@ == bare_message(channel_id, command),
{
    let payload: Vec<u8> = Vec::new();
    TaskMessage { channel_id, command, payload }
}

/// A message with a payload of one byte.
pub open spec fn byte_message(channel_id: u32, command: HdcCommand, b: u8) -> TaskMessageView {
    TaskMessageView { channel_id, command, payload: seq![b] }
}

/// A message with a payload of one byte.
pub fn make_byte(channel_id: u32, command: HdcCommand, b: u8) -> (r: TaskMessage)
    ensures
        r@ == byte_message(channel_id, command, b),
{
    let mut payload: Vec<u8> = Vec::new();
    payload.push(b);
    assert(payload@ =~= seq![b]);
    TaskMessage { channel_id, command, payload }
}

/// What is said when another message came than the one that was waited for.
pub open spec fn unexpected_text(expected: HdcCommand, got: HdcCommand) -> Seq<char> {
    "Expected "@ + expected.name() + ", got "@ + got.name()
}

/// What is said when another message came than the one that was waited for.
pub fn make_unexpected(expected: HdcCommand, got: HdcCommand) -> (r: String)
    ensures
        r@ == unexpected_text(expected, got),
{
    let mut s = concat3("Expected ", expected.name_text().as_str(), ", got ");
    s.append(got.name_text().as_str());
    s
}

// ---------------------------------------------------------------------------
// What a task waits for
// ---------------------------------------------------------------------------

/// What comes to a task that waits for a message of the daemon.
#[derive(Debug, PartialEq, Eq)]
pub enum Reply {
    /// A message.
    Message(TaskMessage),
    /// The session ended.
    Closed,
    /// Nothing came in time.
    TimedOut,
}

/// What comes to a task that waits for a message of the daemon.
pub enum ReplyView {
    Message(TaskMessageView),
    Closed,
    TimedOut,
}

impl View for Reply {
    type V = ReplyView;

    open spec fn view(&self) -> ReplyView {
        match *self {
            Reply::Message(m) => ReplyView::Message(m@),
            Reply::Closed => ReplyView::Closed,
            Reply::TimedOut => ReplyView::TimedOut,
        }
    }
}

/// Why a task that carries a file failed.
#[derive(Debug, Clone, Copy, PartialEq, Eq, Structural)]
pub enum TransferError {
    /// Another message came than the one that was waited for.
    Unexpected { expected: HdcCommand, got: HdcCommand },
    /// The session ended.
    ResponseClosed,
    /// The daemon closed the channel.
    ChannelClosed,
    /// A message did not come in time.
    NoAnswer(HdcCommand),
    /// No piece of the file came in time.
    NoData,
    /// The daemon did not say in time what came of an installation.
    NoResult,
    /// The last message is too short.
    BadFinish(HdcCommand),
}

impl TransferError {
    /// The sentence that reports the error.
    pub open spec fn text(self) -> Seq<char> {
        match self {
            TransferError::Unexpected { expected, got } => unexpected_text(expected, got),
            TransferError::ResponseClosed => "Response channel closed"@,
            TransferError::ChannelClosed => "Channel closed"@,
            TransferError::NoAnswer(c) => "Timeout waiting for "@ + c.name(),
            TransferError::NoData => "Timeout waiting for file data"@,
            TransferError::NoResult => "Timeout waiting for app install result"@,
            TransferError::BadFinish(c) => "Invalid "@ + c.name() + " payload"@,
        }
    }

    /// The sentence that reports the error.
    pub fn message(&self) -> (r: String)
        ensures
            r@ == self.text(),
    {
        match *self {
            TransferError::Unexpected { expected, got } => make_unexpected(expected, got),
            TransferError::ResponseClosed => "Response channel closed".to_owned(),
            TransferError::ChannelClosed => "Channel closed".to_owned(),
            TransferError::NoAnswer(c) => concat2("Timeout waiting for ", c.name_text().as_str()),
            TransferError::NoData => "Timeout waiting for file data".to_owned(),
            TransferError::NoResult => "Timeout waiting for app install result".to_owned(),
            TransferError::BadFinish(c) => concat3(
                "Invalid ",
                c.name_text().as_str(),
                " payload",
            ),
        }
    }
}

/// What comes of a reply while one message is waited for.
#[derive(Debug, PartialEq, Eq)]
pub enum Waited {
    /// It is the message.
    Come(TaskMessage),
    /// It does not count: the message is still waited for.
    Pass,
    /// The task failed.
    Fail(TransferError),
}

/// What comes of a reply while one message is waited for.
pub enum WaitedView {
    Come(TaskMessageView),
    Pass,
    Fail(TransferError),
}

impl View for Waited {
    type V = WaitedView;

    open spec fn view(&self) -> WaitedView {
        match *self {
            Waited::Come(m) => WaitedView::Come(m@),
            Waited::Pass => WaitedView::Pass,
            Waited::Fail(e) => WaitedView::Fail(e),
        }
    }
}

/// What comes of a reply while the message `expected` is waited for. A message of the
/// daemon that announces its own task does not count, nor one of another channel where
/// `channel` names one.
pub open spec fn waited(expected: HdcCommand, channel: Option<u32>, reply: ReplyView) -> WaitedView {
    match reply {
        ReplyView::Closed => WaitedView::Fail(TransferError::ResponseClosed),
        ReplyView::TimedOut => WaitedView::Fail(TransferError::NoAnswer(expected)),
        ReplyView::Message(m) => if channel is Some && channel->Some_0 != m.channel_id {
            WaitedView::Pass
        } else if m.command == HdcCommand::KernelWakeupSlavetask {
            WaitedView::Pass
        } else if m.command == expected {
            WaitedView::Come(m)
        } else {
            WaitedView::Fail(TransferError::Unexpected { expected, got: m.command })
        },
    }
}

/// What comes of a reply while the message `expected` is waited for.
pub fn wait_for(expected: HdcCommand, channel: Option<u32>, reply: Reply) -> (r: Waited)
    ensures
        r@ == waited(expected, channel, reply@),
{
    match reply {
        Reply::Closed => Waited::Fail(TransferError::ResponseClosed),
        Reply::TimedOut => Waited::Fail(TransferError::NoAnswer(expected)),
        Reply::Message(m) => {
            let elsewhere: bool = match channel {
                Some(id) => id != m.channel_id,
                None => false,
            };
            if elsewhere || m.command == HdcCommand::KernelWakeupSlavetask {
                Waited::Pass
            } else if m.command == expected {
                Waited::Come(m)
            } else {
                Waited::Fail(TransferError::Unexpected { expected, got: m.command })
            }
        },
    }
}

// ---------------------------------------------------------------------------
// Sending a file piece by piece
// ---------------------------------------------------------------------------

/// A file that is being sent: what has been read of it goes to the daemon piece by
/// piece.
pub struct Sender {
    pub channel_id: u32,
    /// The command that carries a piece.
    pub command: HdcCommand,
    /// How many bytes have been sent.
    pub offset: u64,
}

/// The message that carries a piece of a file.
pub open spec fn piece_message(sender: Sender, data: Seq<u8>) -> TaskMessageView {
    TaskMessageView {
        channel_id: sender.channel_id,
        command: sender.command,
        payload: piece(sender.offset, data),
    }
}

impl Sender {
    /// Begins at the start of a file.
    pub fn new(channel_id: u32, command: HdcCommand) -> (r: Self)
        ensures
            r == (Sender { channel_id, command, offset: 0 }),
    {
        Sender { channel_id, command, offset: 0 }
    }

    /// The message that carries what was read next of the file.
    pub fn next_piece(&mut self, data: &[u8]) -> (r: TaskMessage)
        requires
            data.len() < 0x1_0000_0000,
            old(self).offset + data.len() <= u64::MAX,
        ensures
            r@ == piece_message(*old(self), data@),
            *final(self) == (Sender {
                offset: (old(self).offset + data@.len()) as u64,
                ..*old(self)
            }),
    {
        let payload = make_piece(self.offset, data);
        self.offset = self.offset + data.len() as u64;
        TaskMessage { channel_id: self.channel_id, command: self.command, payload }
    }
}

/// The payloads that go out for what was read of a file, one read after another.
pub open spec fn payloads(reads: Seq<Seq<u8>>) -> Seq<Seq<u8>>
    decreases reads.len(),
{
    if reads.len() == 0 {
        Seq::empty()
    } else {
        payloads(reads.drop_last()).push(
            piece(content(reads.drop_last()).len() as u64, reads.last()),
        )
    }
}

/// What was read of a file.
pub open spec fn content(reads: Seq<Seq<u8>>) -> Seq<u8>
    decreases reads.len(),
{
    if reads.len() == 0 {
        Seq::empty()
    } else {
        content(reads.drop_last()) + reads.last()
    }
}

/// What stands behind the heads of payloads.
pub open spec fn behind_heads(payloads: Seq<Seq<u8>>) -> Seq<u8>
    decreases payloads.len(),
{
    if payloads.len() == 0 {
        Seq::empty()
    } else {
        behind_heads(payloads.drop_last()) + payloads.last().skip(64)
    }
}

/// However a file is read, what stands behind the heads of the pieces is the file.
pub proof fn pieces_carry_the_file(reads: Seq<Seq<u8>>)
    requires
        forall|i: int| 0 <= i < reads.len() ==> (#[trigger] reads[i]).len() < 0x1_0000_0000,
    ensures
        behind_heads(payloads(reads)) == content(reads),
        payloads(reads).len() == reads.len(),
    decreases reads.len(),
{
    if reads.len() > 0 {
        let rest = reads.drop_last();
        assert forall|i: int| 0 <= i < rest.len() implies (#[trigger] rest[i]).len()
            < 0x1_0000_0000 by {
            assert(rest[i] == reads[i]);
        }
        pieces_carry_the_file(rest);
        let index = content(rest).len() as u64;
        let last = reads.last();
        assert(last == reads[reads.len() - 1]);
        piece_head_size(index, last.len());
        assert(piece(index, last).skip(64) =~= last);
        assert(payloads(reads).drop_last() =~= payloads(rest));
        assert(payloads(reads).last() == piece(index, last));
    }
}

// ---------------------------------------------------------------------------
// Pieces are read back
// ---------------------------------------------------------------------------

/// The head of a piece is read back out of its 64 bytes, and what stands behind them is
/// the piece.
pub proof fn piece_head_read_back(index: u64, data: Seq<u8>)
    requires
        data.len() < 0x1_0000_0000,
    ensures
        TransferPayloadView::parsed(piece(index, data).take(64)) == Ok::<_, CodecError>(
            piece_head(index, data.len()),
        ),
        piece(index, data).skip(64) == data,
{
    let v = piece_head(index, data.len());
    let head = tlv::slots_bytes(v.slots());
    piece_head_size(index, data.len());
    let n = (64 - head.len()) as nat;
    assert(piece(index, data).take(64) =~= head + bytes::zeros(n));
    assert(piece(index, data).skip(64) =~= data);
    serializer::padded_payload_read_back(v, n);
}

/// A text that begins and ends with neither white space nor a quotation mark is taken as it is,
/// and one in quotation marks without them.
pub proof fn paths_are_taken_as_typed(s: Seq<char>)
    requires
        s.len() > 0,
        !text::is_white(s[0]) && !text::is_white(s.last()),
        s[0] != '"',
    ensures
        unquoted(s) == s,
        unquoted(seq!['"'] + s + seq!['"']) == s,
{
    let quoted = seq!['"'] + s + seq!['"'];
    assert(quoted[0] == '"' && quoted.last() == '"');
    text::trimmed_is_inside(s);
    text::trimmed_is_inside(quoted);
    assert(quoted.subrange(1, quoted.len() - 1) =~= s);
}

/// The two paths of a file command are the words behind its name, in their order. Where the
/// client tells its directory, the first path is looked for there.
pub proof fn paths_are_found(
    name: Seq<char>,
    way: Seq<char>,
    cwd: Seq<char>,
    a: Seq<char>,
    b: Seq<char>,
    separator: char,
)
    requires
        a != "-cwd"@,
    ensures
        file_paths(seq![name, way, a, b], separator) == Ok::<_, PathError>(
            (unquoted(a), unquoted(b)),
        ),
        cwd.len() > 0 && cwd.last() != separator ==> file_paths(
            seq![name, way, "-cwd"@, cwd, a, b],
            separator,
        ) == Ok::<_, PathError>((cwd + seq![separator] + unquoted(a), unquoted(b))),
        cwd.len() > 0 && cwd.last() != separator ==> file_paths(
            seq![name, way, "-cwd"@, cwd + seq![separator], a, b],
            separator,
        ) == Ok::<_, PathError>((cwd + seq![separator] + unquoted(a), unquoted(b))),
        file_paths(seq![name, way, a], separator) == Err::<(Seq<char>, Seq<char>), _>(
            PathError::MissingArguments,
        ),
        file_paths(seq![name, way, "-cwd"@, cwd, a], separator) == Err::<(Seq<char>, Seq<char>), _>(
            PathError::MissingPath,
        ),
{
    let ended = cwd + seq![separator];
    assert(ended.drop_last() =~= cwd);
    reveal_with_fuel(text::trimmed_end_of, 3);
    assert(cwd.push(separator) =~= ended);
}

/// The other end reads in the description of a file its size, its path, its name, and what it is
/// for; nothing is compressed and no times are kept.
pub proof fn description_is_understood(
    file_size: u64,
    options: Seq<char>,
    path: Seq<char>,
    name: Seq<char>,
    purpose: Seq<char>,
)
    requires
        encode_utf8(options).len() < 0x1_0000_0000,
        encode_utf8(path).len() < 0x1_0000_0000,
        encode_utf8(name).len() < 0x1_0000_0000,
        encode_utf8(purpose).len() < 0x1_0000_0000,
    ensures
        ({
            let read = TransferConfigView::parsed(
                tlv::slots_bytes(file_config(file_size, options, path, name, purpose).slots()),
            );
            &&& read is Ok
            &&& read->Ok_0.file_size == file_size
            &&& read->Ok_0.options == options
            &&& read->Ok_0.path == path
            &&& read->Ok_0.optional_name == name
            &&& read->Ok_0.function_name == purpose
            &&& read->Ok_0.compress_type == 0
            &&& !read->Ok_0.hold_timestamp && !read->Ok_0.update_if_new
            &&& read->Ok_0.client_cwd == Seq::<char>::empty()
        }),
{
    assert(encode_utf8(Seq::<char>::empty()).len() == 0);
    serializer::transfer_config_round_trip(
        file_config(file_size, options, path, name, purpose),
    );
}

/// A piece tells where it belongs and how many bytes it has, which are not compressed, in 64
/// bytes before them.
pub proof fn piece_tells_its_place(index: u64, data: Seq<u8>)
    requires
        data.len() < 0x1_0000_0000,
    ensures
        ({
            let read = TransferPayloadView::parsed(piece(index, data).take(64));
            &&& read is Ok
            &&& read->Ok_0.index == index
            &&& read->Ok_0.compress_type == 0
            &&& read->Ok_0.compress_size == data.len()
            &&& read->Ok_0.uncompress_size == data.len()
            &&& piece(index, data).len() == 64 + data.len()
            &&& piece(index, data).skip(64) == data
        }),
        CHUNK_SIZE == 523200,
{
    piece_head_read_back(index, data);
    piece_head_size(index, data.len());
}

/// A message that is waited for comes; a message of another channel, and one that only wakes the
/// other end, is passed over; anything else ends the waiting.
pub proof fn awaited_comes(expected: HdcCommand, channel_id: u32, m: TaskMessageView)
    requires
        expected != HdcCommand::KernelWakeupSlavetask,
    ensures
        m.command == expected && m.channel_id == channel_id ==> waited(
            expected,
            Some(channel_id),
            ReplyView::Message(m),
        ) == WaitedView::Come(m),
        m.command == expected ==> waited(expected, None, ReplyView::Message(m))
            == WaitedView::Come(m),
        m.channel_id != channel_id ==> waited(expected, Some(channel_id), ReplyView::Message(m))
            == WaitedView::Pass,
        m.command == HdcCommand::KernelWakeupSlavetask ==> waited(
            expected,
            None,
            ReplyView::Message(m),
        ) == WaitedView::Pass,
        m.command != expected && m.command != HdcCommand::KernelWakeupSlavetask ==> waited(
            expected,
            None,
            ReplyView::Message(m),
        ) == WaitedView::Fail(TransferError::Unexpected { expected, got: m.command }),
        waited(expected, None, ReplyView::Closed) == WaitedView::Fail(
            TransferError::ResponseClosed,
        ),
        waited(expected, None, ReplyView::TimedOut) == WaitedView::Fail(
            TransferError::NoAnswer(expected),
        ),
{
}

} // verus!
