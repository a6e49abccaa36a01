//! Files that go to a device and files that come from one.

use crate::host::dispatch::text_bytes;
use crate::host::transfer;
use crate::host::transfer::{Reply, ReplyView, TransferError, config_bytes, make_bare, make_byte};
use crate::path;
use crate::path::file_name;
use crate::protocol::bytes::copy_range;
use crate::protocol::command::HdcCommand;
use crate::protocol::config::{TaskMessage, TaskMessageView};
use crate::protocol::labeled;
use crate::protocol::serializer::{HdcDeserialize, TransferConfig, TransferConfigView, TransferPayload, TransferPayloadView};
use crate::protocol::tlv;
use crate::text;
use crate::text::{chars_of, concat3, contains_text, copy_text, decimal_text, lossy_text, slice_text};
use vstd::prelude::*;
use vstd::utf8::*;

verus! {

/// What a daemon says of a path that names a directory.
pub const DIRECTORY_COMPLAINT: &'static str = "illegal operation on a directory";

/// A text without the slashes at its end, of either kind.
pub open spec fn without_slashes(s: Seq<char>) -> Seq<char>
    decreases s.len(),
{
    if s.len() > 0 && (s.last() == '/' || s.last() == '\\') {
        without_slashes(s.drop_last())
    } else {
        s
    }
}

/// A text without the slashes at its end, of either kind.
pub fn trim_slashes(s: &str) -> (r: String)
    ensures
        r@ == without_slashes(s@),
{
    let v = chars_of(s);
    let mut n: usize = v.len();
    assert(v@.take(n as int) =~= s@);
    while n > 0 && (v[n - 1] == '/' || v[n - 1] == '\\')
        invariant
            n <= v.len(),
            without_slashes(s@) == without_slashes(v@.take(n as int)),
        decreases n,
    {
        assert(v@.take(n as int).drop_last() =~= v@.take(n - 1));
        n = n - 1;
    }
    assert(v@.subrange(0, n as int) =~= v@.take(n as int));
    slice_text(&v, 0, n)
}

// ---------------------------------------------------------------------------
// To a device
// ---------------------------------------------------------------------------

/// A file that the daemon is asked to take.
pub struct FileSend {
    channel_id: u32,
    file_size: u64,
    local_name: String,
    path: String,
    optional_name: String,
    retried: bool,
}

/// A file that the daemon is asked to take.
pub struct FileSendView {
    pub channel_id: u32,
    pub file_size: u64,
    /// The name of the file here.
    pub local_name: Seq<char>,
    /// The path that the daemon is to write to.
    pub path: Seq<char>,
    /// The name below the path, where the path is a directory.
    pub optional_name: Seq<char>,
    /// The daemon has been asked a second time.
    pub retried: bool,
}

impl View for FileSend {
    type V = FileSendView;

    closed spec fn view(&self) -> FileSendView {
        FileSendView {
            channel_id: self.channel_id,
            file_size: self.file_size,
            local_name: self.local_name@,
            path: self.path@,
            optional_name: self.optional_name@,
            retried: self.retried,
        }
    }
}

/// The request to take a file.
pub open spec fn send_request(v: FileSendView) -> TaskMessageView {
    TaskMessageView {
        channel_id: v.channel_id,
        command: HdcCommand::FileCheck,
        payload: tlv::slots_bytes(
            transfer::file_config(
                v.file_size,
                Seq::empty(),
                v.path,
                v.optional_name,
                Seq::empty(),
            ).slots(),
        ),
    }
}

/// What comes of a reply to the request to take a file.
#[derive(Debug, PartialEq, Eq)]
pub enum SendStep {
    /// The daemon takes the file: its pieces may go out.
    Begin,
    /// The request goes out again, and is waited for anew.
    Again(TaskMessage),
    /// The reply does not count.
    Pass,
    /// The task failed.
    Fail(TransferError),
}

/// What comes of a reply to the request to take a file.
pub enum SendStepView {
    Begin,
    Again(TaskMessageView),
    Pass,
    Fail(TransferError),
}

impl View for SendStep {
    type V = SendStepView;

    open spec fn view(&self) -> SendStepView {
        match *self {
            SendStep::Begin => SendStepView::Begin,
            SendStep::Again(m) => SendStepView::Again(m@),
            SendStep::Pass => SendStepView::Pass,
            SendStep::Fail(e) => SendStepView::Fail(e),
        }
    }
}

/// The daemon complains that the path is a directory, and that can be mended: the file
/// gets its own name below it.
pub open spec fn can_retry(v: FileSendView, payload: Seq<u8>) -> bool {
    &&& text::has_part(text::utf8_lossy(payload), DIRECTORY_COMPLAINT@)
    &&& v.local_name.len() > 0
    &&& !v.retried
}

/// The request with the path as a directory and the name of the file below it.
pub open spec fn below_directory(v: FileSendView) -> FileSendView {
    FileSendView {
        path: without_slashes(v.path),
        optional_name: v.local_name,
        retried: true,
        ..v
    }
}

/// What comes of a reply to the request to take a file.
pub open spec fn on_send_reply(v: FileSendView, reply: ReplyView) -> (FileSendView, SendStepView) {
    match reply {
        ReplyView::Closed => (v, SendStepView::Fail(TransferError::ResponseClosed)),
        ReplyView::TimedOut => (
            v,
            SendStepView::Fail(TransferError::NoAnswer(HdcCommand::FileBegin)),
        ),
        ReplyView::Message(m) => if m.command == HdcCommand::FileBegin {
            (v, SendStepView::Begin)
        } else if can_retry(v, m.payload) {
            (below_directory(v), SendStepView::Again(send_request(below_directory(v))))
        } else if v.retried && (m.command == HdcCommand::KernelChannelClose || m.command
            == HdcCommand::KernelWakeupSlavetask) {
            (v, SendStepView::Pass)
        } else {
            (
                v,
                SendStepView::Fail(
                    TransferError::Unexpected { expected: HdcCommand::FileBegin, got: m.command },
                ),
            )
        },
    }
}

/// The task for a file of the given size.
pub open spec fn new_send(
    channel_id: u32,
    file_size: u64,
    local_path: Seq<char>,
    remote_path: Seq<char>,
    separator: char,
) -> FileSendView {
    FileSendView {
        channel_id,
        file_size,
        local_name: match path::last_name(local_path, separator) {
            Some(name) => name,
            None => Seq::empty(),
        },
        path: remote_path,
        optional_name: Seq::empty(),
        retried: false,
    }
}

impl FileSend {
    /// The task for a file of the given size. `separator` divides local paths.
    pub fn new(
        channel_id: u32,
        file_size: u64,
        local_path: &str,
        remote_path: &str,
        separator: char,
    ) -> (r: Self)
        ensures
            r@ == new_send(channel_id, file_size, local_path@, remote_path@, separator),
    {
        let local_name: String = match file_name(local_path, separator) {
            Some(name) => name,
            None => String::new(),
        };
        FileSend {
            channel_id,
            file_size,
            local_name,
            path: copy_text(remote_path),
            optional_name: String::new(),
            retried: false,
        }
    }

    /// The message that goes out first: the daemon prepares its task.
    pub fn wakeup(&self) -> (r: TaskMessage)
        ensures
            r@ == wakeup_message(self@.channel_id),
    {
        make_bare(self.channel_id, HdcCommand::KernelWakeupSlavetask)
    }

    /// The request to take the file.
    pub fn request(&self) -> (r: TaskMessage)
        ensures
            r@ == send_request(self@),
    {
        let payload = config_bytes(
            self.file_size,
            String::new().as_str(),
            self.path.as_str(),
            self.optional_name.as_str(),
            String::new().as_str(),
        );
        TaskMessage { channel_id: self.channel_id, command: HdcCommand::FileCheck, payload }
    }

    /// What comes of a reply to the request.
    pub fn on_reply(&mut self, reply: Reply) -> (r: SendStep)
        ensures
            (final(self)@, r@) == on_send_reply(old(self)@, reply@),
    {
        match reply {
            Reply::Closed => SendStep::Fail(TransferError::ResponseClosed),
            Reply::TimedOut => SendStep::Fail(TransferError::NoAnswer(HdcCommand::FileBegin)),
            Reply::Message(m) => {
                if m.command == HdcCommand::FileBegin {
                    return SendStep::Begin;
                }
                let said = lossy_text(m.payload.as_slice());
                if contains_text(said.as_str(), DIRECTORY_COMPLAINT) && !self.local_name.as_str()
                    .is_empty() && !self.retried {
                    self.optional_name = copy_text(self.local_name.as_str());
                    self.path = trim_slashes(self.path.as_str());
                    self.retried = true;
                    return SendStep::Again(self.request());
                }
                if self.retried && (m.command == HdcCommand::KernelChannelClose || m.command
                    == HdcCommand::KernelWakeupSlavetask) {
                    return SendStep::Pass;
                }
                SendStep::Fail(
                    TransferError::Unexpected { expected: HdcCommand::FileBegin, got: m.command },
                )
            },
        }
    }

    /// The message after the last piece.
    pub fn finish(&self) -> (r: TaskMessage)
        ensures
            r@ == finish_message(self@.channel_id),
    {
        make_byte(self.channel_id, HdcCommand::FileFinish, 1)
    }
}

/// The request is repeated at most once: after it was, no reply repeats it.
pub proof fn retried_at_most_once(v: FileSendView, first: ReplyView, second: ReplyView)
    requires
        on_send_reply(v, first).1 is Again,
    ensures
        !v.retried,
        on_send_reply(v, first).0.retried,
        !(on_send_reply(on_send_reply(v, first).0, second).1 is Again),
{
}

/// What the user is told at the end of a file that was sent, if the reply ends it.
pub open spec fn sent_text(reply: ReplyView) -> Option<Seq<char>> {
    match reply {
        ReplyView::Closed => Some(
            "[Fail]FileTransfer failed: "@ + TransferError::ResponseClosed.text() + "\r\n"@,
        ),
        ReplyView::TimedOut => Some("[Fail]FileTransfer timeout\r\n"@),
        ReplyView::Message(m) => if m.command == HdcCommand::KernelChannelClose || (m.command
            == HdcCommand::FileFinish && (m.payload.len() == 0 || m.payload[0] == 0)) {
            Some("FileTransfer finish\r\n"@)
        } else {
            None
        },
    }
}

/// What the user is told at the end of a file that was sent, if the reply ends it.
pub fn on_finish_reply(reply: &Reply) -> (r: Option<String>)
    ensures
        match r {
            Some(t) => sent_text(reply@) == Some(t@),
            None => sent_text(reply@) is None,
        },
{
    match reply {
        Reply::Closed => Some(
            concat3(
                "[Fail]FileTransfer failed: ",
                TransferError::ResponseClosed.message().as_str(),
                "\r\n",
            ),
        ),
        Reply::TimedOut => Some("[Fail]FileTransfer timeout\r\n".to_owned()),
        Reply::Message(m) => {
            if m.command == HdcCommand::KernelChannelClose || (m.command == HdcCommand::FileFinish
                && (m.payload.len() == 0 || m.payload[0] == 0)) {
                Some("FileTransfer finish\r\n".to_owned())
            } else {
                None
            }
        },
    }
}

// ---------------------------------------------------------------------------
// From a device
// ---------------------------------------------------------------------------

/// The request for a file: its path there, and the path here.
pub open spec fn recv_request(
    channel_id: u32,
    remote_path: Seq<char>,
    local_path: Seq<char>,
) -> TaskMessageView {
    TaskMessageView {
        channel_id,
        command: HdcCommand::FileInit,
        payload: encode_utf8("recv "@ + remote_path + " "@ + local_path),
    }
}

/// The request for a file.
pub fn make_recv_request(channel_id: u32, remote_path: &str, local_path: &str) -> (r: TaskMessage)
    ensures
        r@ == recv_request(channel_id, remote_path@, local_path@),
{
    let mut s = concat3("recv ", remote_path, " ");
    s.append(local_path);
    TaskMessage {
        channel_id,
        command: HdcCommand::FileInit,
        payload: text_bytes(s.as_str()),
    }
}

/// A file that comes from a device.
pub struct FileRecv {
    channel_id: u32,
    file_size: u64,
    total: u64,
    finish_sent: bool,
}

/// A file that comes from a device.
pub struct FileRecvView {
    pub channel_id: u32,
    /// The size that the daemon announced.
    pub file_size: u64,
    /// How many bytes have been written.
    pub total: u64,
    /// The daemon has been told that all of it came.
    pub finish_sent: bool,
}

impl View for FileRecv {
    type V = FileRecvView;

    closed spec fn view(&self) -> FileRecvView {
        FileRecvView {
            channel_id: self.channel_id,
            file_size: self.file_size,
            total: self.total,
            finish_sent: self.finish_sent,
        }
    }
}

/// What comes of a reply while the pieces of a file come in.
#[derive(Debug, PartialEq, Eq)]
pub enum RecvStep {
    /// The reply does not count.
    Pass,
    /// Bytes are written to the file.
    Write(Vec<u8>),
    /// Bytes are written to the file, then a message goes out.
    WriteAndSend(Vec<u8>, TaskMessage),
    /// The user is told something.
    Tell(String),
    /// A message goes out, and the task is done.
    SendAndEnd(TaskMessage),
    /// The task is done.
    End,
    /// The task failed.
    Fail(TransferError),
}

/// What comes of a reply while the pieces of a file come in.
pub enum RecvStepView {
    Pass,
    Write(Seq<u8>),
    WriteAndSend(Seq<u8>, TaskMessageView),
    Tell(Seq<char>),
    SendAndEnd(TaskMessageView),
    End,
    Fail(TransferError),
}

impl View for RecvStep {
    type V = RecvStepView;

    open spec fn view(&self) -> RecvStepView {
        match *self {
            RecvStep::Pass => RecvStepView::Pass,
            RecvStep::Write(b) => RecvStepView::Write(b@),
            RecvStep::WriteAndSend(b, m) => RecvStepView::WriteAndSend(b@, m@),
            RecvStep::Tell(t) => RecvStepView::Tell(t@),
            RecvStep::SendAndEnd(m) => RecvStepView::SendAndEnd(m@),
            RecvStep::End => RecvStepView::End,
            RecvStep::Fail(e) => RecvStepView::Fail(e),
        }
    }
}

/// More bytes have been written.
pub open spec fn grown(v: FileRecvView, n: nat) -> FileRecvView {
    FileRecvView { total: (v.total + n) as u64, ..v }
}

/// What comes of a piece. A piece whose head cannot be read is written as it came.
pub open spec fn on_piece(v: FileRecvView, payload: Seq<u8>) -> (FileRecvView, RecvStepView) {
    if payload.len() < 64 {
        (v, RecvStepView::Pass)
    } else if TransferPayloadView::parsed(payload.take(64)) is Err {
        (grown(v, payload.len()), RecvStepView::Write(payload))
    } else {
        let data = payload.skip(64);
        let w = grown(v, data.len());
        if !v.finish_sent && w.total >= v.file_size {
            (
                FileRecvView { finish_sent: true, ..w },
                RecvStepView::WriteAndSend(
                    data,
                    transfer::byte_message(v.channel_id, HdcCommand::FileFinish, 1),
                ),
            )
        } else {
            (w, RecvStepView::Write(data))
        }
    }
}

/// What comes of a reply while the pieces of a file come in.
pub open spec fn on_recv_reply(v: FileRecvView, reply: ReplyView) -> (FileRecvView, RecvStepView) {
    match reply {
        ReplyView::Closed => (v, RecvStepView::Fail(TransferError::ResponseClosed)),
        ReplyView::TimedOut => (v, RecvStepView::Fail(TransferError::NoData)),
        ReplyView::Message(m) => if m.command == HdcCommand::FileData {
            on_piece(v, m.payload)
        } else if m.command == HdcCommand::FileFinish {
            if m.payload.len() > 0 && m.payload[0] == 1 {
                (
                    v,
                    RecvStepView::SendAndEnd(
                        transfer::byte_message(v.channel_id, HdcCommand::FileFinish, 0),
                    ),
                )
            } else {
                (v, RecvStepView::End)
            }
        } else if m.command == HdcCommand::KernelEcho || m.command == HdcCommand::KernelEchoRaw {
            (v, RecvStepView::Tell(text::utf8_lossy(m.payload)))
        } else if m.command == HdcCommand::KernelChannelClose {
            (v, RecvStepView::End)
        } else {
            (v, RecvStepView::Pass)
        },
    }
}

/// The size that the announcement of a file gives; nothing where it cannot be read.
pub open spec fn announced_size(payload: Seq<u8>) -> u64 {
    match TransferConfigView::parsed(payload) {
        Ok(config) => config.file_size,
        Err(_) => 0,
    }
}

/// What the user is told at the end.
pub open spec fn summary_text(v: FileRecvView) -> Seq<char> {
    "FileTransfer finish, Size:"@ + text::decimal(v.total as nat) + " bytes\r\n"@
}

impl FileRecv {
    /// The task for a file that the daemon announced.
    pub fn new(channel_id: u32, announcement: &TaskMessage) -> (r: Self)
        ensures
            r@ == new_recv(channel_id, announced_size(announcement@.payload)),
    {
        let file_size: u64 = match TransferConfig::deserialize(announcement.payload.as_slice()) {
            Ok(config) => config.file_size,
            Err(_) => 0,
        };
        FileRecv { channel_id, file_size, total: 0, finish_sent: false }
    }

    /// The message that lets the pieces come.
    pub fn begin(&self) -> (r: TaskMessage)
        ensures
            r@ == begin_message(self@.channel_id),
    {
        make_bare(self.channel_id, HdcCommand::FileBegin)
    }

    /// How many bytes have been written.
    pub fn total(&self) -> (r: u64)
        ensures
            r == self@.total,
    {
        self.total
    }

    /// What comes of a reply.
    pub fn on_reply(&mut self, reply: Reply) -> (r: RecvStep)
        requires
            reply is Message ==> old(self)@.total + reply->Message_0.payload@.len() <= u64::MAX,
        ensures
            (final(self)@, r@) == on_recv_reply(old(self)@, reply@),
    {
        match reply {
            Reply::Closed => RecvStep::Fail(TransferError::ResponseClosed),
            Reply::TimedOut => RecvStep::Fail(TransferError::NoData),
            Reply::Message(m) => match m.command {
                HdcCommand::FileData => self.on_data(m.payload),
                HdcCommand::FileFinish => {
                    if m.payload.len() > 0 && m.payload[0] == 1 {
                        RecvStep::SendAndEnd(make_byte(self.channel_id, HdcCommand::FileFinish, 0))
                    } else {
                        RecvStep::End
                    }
                },
                HdcCommand::KernelEcho | HdcCommand::KernelEchoRaw => RecvStep::Tell(
                    lossy_text(m.payload.as_slice()),
                ),
                HdcCommand::KernelChannelClose => RecvStep::End,
                _ => RecvStep::Pass,
            },
        }
    }

    /// What comes of a piece.
    fn on_data(&mut self, payload: Vec<u8>) -> (r: RecvStep)
        requires
            old(self)@.total + payload@.len() <= u64::MAX,
        ensures
            (final(self)@, r@) == on_piece(old(self)@, payload@),
    {
        let n: usize = payload.len();
        if n < 64 {
            return RecvStep::Pass;
        }
        let head = copy_range(payload.as_slice(), 0, 64);
        assert(head@ =~= payload@.take(64));
        match TransferPayload::deserialize(head.as_slice()) {
            Err(_) => {
                self.total = self.total + n as u64;
                RecvStep::Write(payload)
            },
            Ok(_) => {
                let data = copy_range(payload.as_slice(), 64, n);
                assert(data@ =~= payload@.skip(64));
                self.total = self.total + data.len() as u64;
                if !self.finish_sent && self.total >= self.file_size {
                    self.finish_sent = true;
                    RecvStep::WriteAndSend(
                        data,
                        make_byte(self.channel_id, HdcCommand::FileFinish, 1),
                    )
                } else {
                    RecvStep::Write(data)
                }
            },
        }
    }

    /// What the user is told at the end.
    pub fn summary(&self) -> (r: String)
        ensures
            r@ == summary_text(self@),
    {
        concat3(
            "FileTransfer finish, Size:",
            decimal_text(self.total).as_str(),
            " bytes\r\n",
        )
    }
}

/// What is written of a piece that one end sends and the other receives: the bytes that
/// were read.
pub proof fn piece_is_written(v: FileRecvView, index: u64, data: Seq<u8>)
    requires
        data.len() < 0x1_0000_0000,
    ensures
        on_piece(v, transfer::piece(index, data)).1 is Write || on_piece(v, transfer::piece(index, data)).1
            is WriteAndSend,
        on_piece(v, transfer::piece(index, data)).1 is Write ==> on_piece(v, transfer::piece(index, data)).1->Write_0
            == data,
        on_piece(v, transfer::piece(index, data)).1 is WriteAndSend ==> on_piece(
            v,
            transfer::piece(index, data),
        ).1->WriteAndSend_0 == data,
{
    transfer::piece_head_read_back(index, data);
    transfer::piece_head_size(index, data.len());
}

/// What a step writes.
pub open spec fn written_by(step: RecvStepView) -> Seq<u8> {
    match step {
        RecvStepView::Write(b) => b,
        RecvStepView::WriteAndSend(b, _) => b,
        _ => Seq::empty(),
    }
}

/// What becomes of a file that is received, and what has been written of it, once pieces
/// have come one after another.
pub open spec fn received(v: FileRecvView, payloads: Seq<Seq<u8>>) -> (FileRecvView, Seq<u8>)
    decreases payloads.len(),
{
    if payloads.len() == 0 {
        (v, Seq::empty())
    } else {
        let (before, written) = received(v, payloads.drop_last());
        let (after, step) = on_piece(before, payloads.last());
        (after, written + written_by(step))
    }
}

/// However a file is read and sent, what is written of it at the other end is the file.
pub proof fn file_is_received(v: FileRecvView, reads: Seq<Seq<u8>>)
    requires
        forall|i: int| 0 <= i < reads.len() ==> (#[trigger] reads[i]).len() < 0x1_0000_0000,
    ensures
        received(v, transfer::payloads(reads)).1 == transfer::content(reads),
        v.total + transfer::content(reads).len() <= u64::MAX ==> received(
            v,
            transfer::payloads(reads),
        ).0.total == v.total + transfer::content(reads).len(),
    decreases reads.len(),
{
    if reads.len() > 0 {
        let rest = reads.drop_last();
        assert forall|i: int| 0 <= i < rest.len() implies (#[trigger] rest[i]).len()
            < 0x1_0000_0000 by {
            assert(rest[i] == reads[i]);
        }
        file_is_received(v, rest);
        let index = transfer::content(rest).len() as u64;
        let last = reads.last();
        assert(last == reads[reads.len() - 1]);
        let before = received(v, transfer::payloads(rest)).0;
        piece_is_written(before, index, last);
        transfer::piece_head_read_back(index, last);
        transfer::piece_head_size(index, last.len());
        assert(transfer::payloads(reads).drop_last() =~= transfer::payloads(rest));
        assert(transfer::payloads(reads).last() == transfer::piece(index, last));
    }
}

/// The daemon is told once that all of a file came: a piece that was not the first to
/// complete the file says nothing.
pub proof fn completion_is_told_once(v: FileRecvView, payload: Seq<u8>)
    ensures
        on_piece(v, payload).1 is WriteAndSend ==> !v.finish_sent && on_piece(
            v,
            payload,
        ).0.finish_sent,
        v.finish_sent ==> on_piece(v, payload).0.finish_sent && !(on_piece(v, payload).1
            is WriteAndSend),
{
}

/// A file that is sent is offered under the path that the user gave, with its size. The device
/// begins, or complains that the path is a directory: then the file is offered once more, below
/// that directory under its own name.
pub proof fn file_is_offered(
    channel_id: u32,
    file_size: u64,
    local_path: Seq<char>,
    remote_path: Seq<char>,
    separator: char,
    begin: TaskMessageView,
    complaint: TaskMessageView,
)
    requires
        encode_utf8(remote_path).len() < 0x1_0000_0000,
        begin.command == HdcCommand::FileBegin,
        complaint.command != HdcCommand::FileBegin,
        text::has_part(
            text::utf8_lossy(complaint.payload),
            "illegal operation on a directory"@,
        ),
        path::last_name(local_path, separator) is Some,
        path::last_name(local_path, separator)->Some_0.len() > 0,
    ensures
        ({
            let v = new_send(channel_id, file_size, local_path, remote_path, separator);
            let read = TransferConfigView::parsed(send_request(v).payload);
            let (w, step) = on_send_reply(v, ReplyView::Message(complaint));
            &&& send_request(v).channel_id == channel_id
            &&& send_request(v).command == HdcCommand::FileCheck
            &&& read is Ok
            &&& read->Ok_0.file_size == file_size
            &&& read->Ok_0.path == remote_path
            &&& read->Ok_0.optional_name == Seq::<char>::empty()
            &&& on_send_reply(v, ReplyView::Message(begin)) == (v, SendStepView::Begin)
            &&& step == SendStepView::Again(send_request(w))
            &&& w.path == without_slashes(remote_path)
            &&& w.optional_name == path::last_name(local_path, separator)->Some_0
            &&& w.file_size == file_size && w.channel_id == channel_id
            &&& on_send_reply(w, ReplyView::Message(begin)) == (w, SendStepView::Begin)
            &&& on_send_reply(v, ReplyView::Closed).1 == SendStepView::Fail(
                TransferError::ResponseClosed,
            )
            &&& on_send_reply(v, ReplyView::TimedOut).1 == SendStepView::Fail(
                TransferError::NoAnswer(HdcCommand::FileBegin),
            )
        }),
{
    assert(encode_utf8(Seq::<char>::empty()).len() == 0);
    transfer::description_is_understood(
        file_size,
        Seq::empty(),
        remote_path,
        Seq::empty(),
        Seq::empty(),
    );
}

/// The path of a directory loses the slashes at its end, and nothing else.
pub proof fn slashes_are_taken_off(s: Seq<char>)
    ensures
        s.len() == 0 || (s.last() != '/' && s.last() != '\\') ==> without_slashes(s) == s,
        without_slashes(s.push('/')) == without_slashes(s),
        without_slashes(s.push('\\')) == without_slashes(s),
{
    assert(s.push('/').drop_last() =~= s);
    assert(s.push('\\').drop_last() =~= s);
}

/// The user is told that a file was sent once the device says that it is done, or closes the
/// channel; that it failed, or took too long, where nothing more comes. Until then the host
/// waits on.
pub proof fn end_of_sending_is_told(channel_id: u32, payload: Seq<u8>)
    ensures
        sent_text(
            ReplyView::Message(
                TaskMessageView {
                    channel_id,
                    command: HdcCommand::FileFinish,
                    payload: seq![0u8],
                },
            ),
        ) == Some("FileTransfer finish\r\n"@),
        sent_text(
            ReplyView::Message(
                TaskMessageView { channel_id, command: HdcCommand::KernelChannelClose, payload },
            ),
        ) == Some("FileTransfer finish\r\n"@),
        sent_text(
            ReplyView::Message(
                TaskMessageView {
                    channel_id,
                    command: HdcCommand::FileFinish,
                    payload: seq![1u8],
                },
            ),
        ) is None,
        sent_text(
            ReplyView::Message(
                TaskMessageView { channel_id, command: HdcCommand::FileBegin, payload },
            ),
        ) is None,
        sent_text(ReplyView::TimedOut) == Some("[Fail]FileTransfer timeout\r\n"@),
        sent_text(ReplyView::Closed) == Some(
            "[Fail]FileTransfer failed: "@ + "Response channel closed"@ + "\r\n"@,
        ),
{
}

/// A file that is received is asked for with its path on the device and then that on the host.
pub proof fn file_is_asked_for(channel_id: u32, remote_path: Seq<char>, local_path: Seq<char>)
    ensures
        ({
            let m = recv_request(channel_id, remote_path, local_path);
            &&& m.channel_id == channel_id
            &&& m.command == HdcCommand::FileInit
            &&& m.payload == encode_utf8("recv "@) + encode_utf8(remote_path) + seq![32u8]
                + encode_utf8(local_path)
        }),
{
    reveal_strlit(" ");
    assert(is_ascii_chars(" "@));
    is_ascii_chars_encode_utf8(" "@);
    assert(encode_utf8(" "@) =~= seq![32u8]);
    labeled::encode_of_concat("recv "@, remote_path);
    labeled::encode_of_concat("recv "@ + remote_path, " "@);
    labeled::encode_of_concat("recv "@ + remote_path + " "@, local_path);
}

/// While a file is received, what the device says is told to the user; its word that all is
/// sent is answered and ends the task, and so does the end of the channel. What cannot be
/// received fails the task.
pub proof fn receiving_ends(v: FileRecvView, channel_id: u32, said: Seq<char>)
    ensures
        on_recv_reply(
            v,
            ReplyView::Message(
                TaskMessageView {
                    channel_id,
                    command: HdcCommand::FileFinish,
                    payload: seq![1u8],
                },
            ),
        ) == (
            v,
            RecvStepView::SendAndEnd(
                TaskMessageView {
                    channel_id: v.channel_id,
                    command: HdcCommand::FileFinish,
                    payload: seq![0u8],
                },
            ),
        ),
        on_recv_reply(
            v,
            ReplyView::Message(
                TaskMessageView {
                    channel_id,
                    command: HdcCommand::FileFinish,
                    payload: seq![0u8],
                },
            ),
        ) == (v, RecvStepView::End),
        on_recv_reply(
            v,
            ReplyView::Message(
                TaskMessageView {
                    channel_id,
                    command: HdcCommand::KernelChannelClose,
                    payload: seq![0u8],
                },
            ),
        ) == (v, RecvStepView::End),
        forall|c: HdcCommand|
            c == HdcCommand::KernelEcho || c == HdcCommand::KernelEchoRaw
                ==> #[trigger] on_recv_reply(
                v,
                ReplyView::Message(
                    TaskMessageView { channel_id, command: c, payload: encode_utf8(said) },
                ),
            ) == (v, RecvStepView::Tell(said)),
        on_recv_reply(v, ReplyView::Closed) == (
            v,
            RecvStepView::Fail(TransferError::ResponseClosed),
        ),
        on_recv_reply(v, ReplyView::TimedOut) == (v, RecvStepView::Fail(TransferError::NoData)),
{
    text::text_of_its_bytes(said);
}

/// The device is told that a file has been received as soon as the announced size is reached,
/// and not before.
pub proof fn completion_is_told_in_time(v: FileRecvView, index: u64, data: Seq<u8>)
    requires
        data.len() < 0x1_0000_0000,
        v.total + data.len() <= u64::MAX,
        !v.finish_sent,
    ensures
        ({
            let (w, step) = on_recv_reply(
                v,
                ReplyView::Message(
                    TaskMessageView {
                        channel_id: v.channel_id,
                        command: HdcCommand::FileData,
                        payload: transfer::piece(index, data),
                    },
                ),
            );
            &&& w.total == v.total + data.len()
            &&& w.finish_sent == (w.total >= v.file_size)
            &&& w.finish_sent ==> step == RecvStepView::WriteAndSend(
                data,
                TaskMessageView {
                    channel_id: v.channel_id,
                    command: HdcCommand::FileFinish,
                    payload: seq![1u8],
                },
            )
            &&& !w.finish_sent ==> step == RecvStepView::Write(data)
        }),
{
    transfer::piece_head_read_back(index, data);
    transfer::piece_head_size(index, data.len());
}

/// The user is told at the end how many bytes have come.
pub proof fn size_is_told(v: FileRecvView)
    ensures
        summary_text(v) == "FileTransfer finish, Size:"@ + text::decimal(v.total as nat)
            + " bytes\r\n"@,
{
}

/// The message that wakes the daemon for a file.
pub open spec fn wakeup_message(channel_id: u32) -> TaskMessageView {
    transfer::bare_message(channel_id, HdcCommand::KernelWakeupSlavetask)
}

/// The message behind the last piece of a file that was sent.
pub open spec fn finish_message(channel_id: u32) -> TaskMessageView {
    transfer::byte_message(channel_id, HdcCommand::FileFinish, 1)
}

/// The message that a file may come.
pub open spec fn begin_message(channel_id: u32) -> TaskMessageView {
    transfer::bare_message(channel_id, HdcCommand::FileBegin)
}

/// A file of which nothing has come yet.
pub open spec fn new_recv(channel_id: u32, file_size: u64) -> FileRecvView {
    FileRecvView { channel_id, file_size, total: 0, finish_sent: false }
}

/// The words of a transfer go on its channel: the daemon is woken, the file may come, the file
/// has gone, which a one tells. A file that begins to come has no bytes yet, and its end was
/// not told.
pub proof fn words_of_a_transfer(channel_id: u32, file_size: u64)
    ensures
        wakeup_message(channel_id) == (TaskMessageView {
            channel_id,
            command: HdcCommand::KernelWakeupSlavetask,
            payload: Seq::empty(),
        }),
        begin_message(channel_id) == (TaskMessageView {
            channel_id,
            command: HdcCommand::FileBegin,
            payload: Seq::empty(),
        }),
        finish_message(channel_id) == (TaskMessageView {
            channel_id,
            command: HdcCommand::FileFinish,
            payload: seq![1u8],
        }),
        new_recv(channel_id, file_size).channel_id == channel_id,
        new_recv(channel_id, file_size).file_size == file_size,
        new_recv(channel_id, file_size).total == 0,
        !new_recv(channel_id, file_size).finish_sent,
{
}

} // verus!
