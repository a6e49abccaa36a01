//! Files that a host sends to the device, and files that it takes from it.

use crate::daemon::message;
use crate::daemon::message::{just, make_close, make_echo, make_echo_and_close, push_message};
use crate::host::auth;
use crate::host::file_transfer;
use crate::host::transfer;
use crate::host::transfer::{config_bytes, make_bare};
use crate::protocol::command::HdcCommand;
use crate::protocol::config::{MessageLevel, TaskMessage, TaskMessageView};
use crate::protocol::serializer;
use crate::protocol::serializer::{HdcDeserialize, TransferConfig, TransferConfigView};
use crate::protocol::tlv;
use crate::tables::Table;
use crate::text;
use crate::text::{concat2, concat3, copy_text, lossy_text, same_text, split};
use vstd::prelude::*;
use vstd::utf8::*;

verus! {

/// Which way a file goes.
#[derive(Debug, Clone, Copy, PartialEq, Eq, Structural)]
pub enum TransferDirection {
    /// From the host to the device.
    Send,
    /// From the device to the host.
    Recv,
}

/// A file on its way.
#[derive(Debug, PartialEq, Eq)]
pub struct FileTransferState {
    pub session_id: u32,
    pub channel_id: u32,
    pub local_path: String,
    pub remote_path: String,
    /// The file on the device is open.
    pub open: bool,
    pub total_size: u64,
    pub received_size: u64,
    pub direction: TransferDirection,
}

/// A file on its way.
pub struct FileTransferView {
    pub session_id: u32,
    pub channel_id: u32,
    pub local_path: Seq<char>,
    pub remote_path: Seq<char>,
    pub open: bool,
    pub total_size: u64,
    pub received_size: u64,
    pub direction: TransferDirection,
}

impl View for FileTransferState {
    type V = FileTransferView;

    open spec fn view(&self) -> FileTransferView {
        FileTransferView {
            session_id: self.session_id,
            channel_id: self.channel_id,
            local_path: self.local_path@,
            remote_path: self.remote_path@,
            open: self.open,
            total_size: self.total_size,
            received_size: self.received_size,
            direction: self.direction,
        }
    }
}

/// The files on their way, each under its session and its channel.
pub struct FileTaskMap {
    tasks: Table<Table<FileTransferState>>,
}

impl View for FileTaskMap {
    type V = Map<(u32, u32), FileTransferView>;

    closed spec fn view(&self) -> Map<(u32, u32), FileTransferView> {
        Map::new(
            |k: (u32, u32)|
                self.tasks@.dom().contains(k.0) && self.tasks@[k.0]@.dom().contains(k.1),
            |k: (u32, u32)| self.tasks@[k.0]@[k.1]@,
        )
    }
}

impl FileTaskMap {
    /// No file is held twice.
    pub closed spec fn wf(self) -> bool {
        &&& self.tasks.wf()
        &&& forall|s: u32| self.tasks@.dom().contains(s) ==> (#[trigger] self.tasks@[s]).wf()
    }

    /// No file is on its way.
    pub fn new() -> (r: Self)
        ensures
            r.wf(),
            r@ == Map::<(u32, u32), FileTransferView>::empty(),
    {
        let r = FileTaskMap { tasks: Table::new() };
        assert(r@ =~= Map::<(u32, u32), FileTransferView>::empty());
        r
    }

    /// Notes a file, in place of the one that was under its channel.
    pub fn put(&mut self, session_id: u32, channel_id: u32, state: FileTransferState)
        requires
            old(self).wf(),
        ensures
            final(self).wf(),
            final(self)@ == old(self)@.insert((session_id, channel_id), state@),
    {
        let ghost before = *self;
        let mut inner: Table<FileTransferState> = match self.tasks.remove(session_id) {
            Some(t) => t,
            None => Table::new(),
        };
        let ghost was = inner@;
        inner.insert(channel_id, state);
        self.tasks.insert(session_id, inner);
        proof {
            let after = before@.insert((session_id, channel_id), state@);
            assert forall|k: (u32, u32)|
                self@.dom().contains(k) <==> #[trigger] after.dom().contains(k) by {}
            assert forall|k: (u32, u32)| self@.dom().contains(k) implies #[trigger] self@[k]
                == after[k] by {
                if k.0 == session_id {
                    assert(self.tasks@[k.0]@ == was.insert(channel_id, state));
                }
            }
            assert(self@ =~= after);
        }
    }

    /// The file under a channel.
    pub fn get(&self, session_id: u32, channel_id: u32) -> (r: Option<&FileTransferState>)
        requires
            self.wf(),
        ensures
            match r {
                Some(s) => self@.dom().contains((session_id, channel_id)) && s@ == self@[(
                    session_id,
                    channel_id,
                )],
                None => !self@.dom().contains((session_id, channel_id)),
            },
    {
        match self.tasks.get(session_id) {
            None => None,
            Some(inner) => inner.get(channel_id),
        }
    }

    /// Takes the file under a channel out.
    pub fn remove(&mut self, session_id: u32, channel_id: u32) -> (r: Option<FileTransferState>)
        requires
            old(self).wf(),
        ensures
            final(self).wf(),
            final(self)@ == old(self)@.remove((session_id, channel_id)),
            match r {
                Some(s) => old(self)@.dom().contains((session_id, channel_id)) && s@ == old(self)@[(
                    session_id,
                    channel_id,
                )],
                None => !old(self)@.dom().contains((session_id, channel_id)),
            },
    {
        let ghost before = *self;
        match self.tasks.remove(session_id) {
            None => {
                assert(self@ =~= before@.remove((session_id, channel_id)));
                None
            },
            Some(mut inner) => {
                let ghost was = inner@;
                let r = inner.remove(channel_id);
                self.tasks.insert(session_id, inner);
                proof {
                    let after = before@.remove((session_id, channel_id));
                    assert forall|k: (u32, u32)|
                        self@.dom().contains(k) <==> #[trigger] after.dom().contains(k) by {
                        if k.0 == session_id {
                            assert(self.tasks@[k.0]@ == was.remove(channel_id));
                        }
                    }
                    assert forall|k: (u32, u32)| self@.dom().contains(k) implies #[trigger] self@[k]
                        == after[k] by {
                        if k.0 == session_id {
                            assert(self.tasks@[k.0]@ == was.remove(channel_id));
                        }
                    }
                    assert(self@ =~= after);
                }
                r
            },
        }
    }
}

// ---------------------------------------------------------------------------
// Commands
// ---------------------------------------------------------------------------

/// The two paths that a file command names.
pub open spec fn command_paths(payload: Seq<u8>) -> Option<(Seq<char>, Seq<char>)> {
    let parts = text::split_parts(text::utf8_lossy(payload), ' ');
    let at = if parts.len() > 2 && parts[2] == "-cwd"@ {
        4int
    } else {
        2int
    };
    if parts.len() >= 4 && parts.len() >= at + 2 {
        Some((parts[at], parts[at + 1]))
    } else {
        None
    }
}

/// The two paths that a file command names.
pub fn parse_file_paths(payload: &[u8]) -> (r: Option<(String, String)>)
    ensures
        match r {
            Some((a, b)) => command_paths(payload@) == Some((a@, b@)),
            None => command_paths(payload@) is None,
        },
{
    let parts = split(lossy_text(payload).as_str(), ' ');
    let ghost views = text::texts(parts@);
    if parts.len() < 4 {
        return None;
    }
    assert(views[2] == parts@[2]@);
    let at: usize = if same_text(parts[2].as_str(), "-cwd") {
        4
    } else {
        2
    };
    if parts.len() >= at + 2 {
        assert(views[at as int] == parts@[at as int]@);
        assert(views[at + 1] == parts@[at + 1]@);
        Some((copy_text(parts[at].as_str()), copy_text(parts[at + 1].as_str())))
    } else {
        None
    }
}

/// What is done for a file command.
#[derive(Debug, PartialEq, Eq)]
pub enum FileStep {
    /// Messages go to the host.
    Send(Vec<TaskMessage>),
    /// A file is made, and what came of it is told.
    Create(String),
    /// A file is read and sent.
    Stream(String),
    /// Bytes are written to the open file, and what came of it is told.
    Write(Vec<u8>),
    /// The size of a file is found out.
    Stat(String),
    /// The open file, if there is one, is closed; messages go to the host.
    CloseAndSend(Vec<TaskMessage>),
    /// Nothing.
    Pass,
}

/// What is done for a file command.
pub enum FileStepView {
    Send(Seq<TaskMessageView>),
    Create(Seq<char>),
    Stream(Seq<char>),
    Write(Seq<u8>),
    Stat(Seq<char>),
    CloseAndSend(Seq<TaskMessageView>),
    Pass,
}

impl View for FileStep {
    type V = FileStepView;

    open spec fn view(&self) -> FileStepView {
        match *self {
            FileStep::Send(v) => FileStepView::Send(message::message_views(v@)),
            FileStep::Create(p) => FileStepView::Create(p@),
            FileStep::Stream(p) => FileStepView::Stream(p@),
            FileStep::Write(b) => FileStepView::Write(b@),
            FileStep::Stat(p) => FileStepView::Stat(p@),
            FileStep::CloseAndSend(v) => FileStepView::CloseAndSend(message::message_views(v@)),
            FileStep::Pass => FileStepView::Pass,
        }
    }
}

/// A refusal.
pub open spec fn refuse(channel_id: u32, text: Seq<char>) -> FileStepView {
    FileStepView::Send(seq![message::echo(channel_id, text, MessageLevel::Fail)])
}

fn make_refusal(channel_id: u32, text: &str) -> (r: FileStep)
    ensures
        r@ == refuse(channel_id, text@),
{
    FileStep::Send(just(make_echo(channel_id, text, MessageLevel::Fail)))
}

/// What the host is told of a file.
pub open spec fn check_message(channel_id: u32, path: Seq<char>, file_size: u64) -> TaskMessageView {
    TaskMessageView {
        channel_id,
        command: HdcCommand::FileCheck,
        payload: tlv::slots_bytes(
            transfer::file_config(file_size, Seq::empty(), path, Seq::empty(), Seq::empty()).slots(),
        ),
    }
}

/// What the host is told of a file.
pub fn make_check(channel_id: u32, path: &str, file_size: u64) -> (r: TaskMessage)
    ensures
        r@ == check_message(channel_id, path@, file_size),
{
    let none = String::new();
    let payload = config_bytes(file_size, none.as_str(), path, none.as_str(), none.as_str());
    assert(none@ =~= Seq::<char>::empty());
    TaskMessage { channel_id, command: HdcCommand::FileCheck, payload }
}

/// A file that has not begun to come.
pub open spec fn new_transfer(
    session_id: u32,
    channel_id: u32,
    local_path: Seq<char>,
    remote_path: Seq<char>,
    total_size: u64,
    direction: TransferDirection,
) -> FileTransferView {
    FileTransferView {
        session_id,
        channel_id,
        local_path,
        remote_path,
        open: false,
        total_size,
        received_size: 0,
        direction,
    }
}

/// What comes of a file command, and the files on their way after it.
pub open spec fn on_file_message(
    tasks: Map<(u32, u32), FileTransferView>,
    session_id: u32,
    m: TaskMessageView,
) -> (Map<(u32, u32), FileTransferView>, FileStepView) {
    let key = (session_id, m.channel_id);
    match m.command {
        HdcCommand::FileInit => match command_paths(m.payload) {
            None => (tasks, refuse(m.channel_id, "Invalid file init parameters"@)),
            Some((local, remote)) => (
                tasks.insert(
                    key,
                    new_transfer(
                        session_id,
                        m.channel_id,
                        local,
                        remote,
                        0,
                        TransferDirection::Send,
                    ),
                ),
                FileStepView::Send(seq![check_message(m.channel_id, remote, 0)]),
            ),
        },
        HdcCommand::FileCheck => match TransferConfigView::parsed(m.payload) {
            Err(_) => (tasks, refuse(m.channel_id, "Invalid transfer config"@)),
            Ok(config) => (
                if tasks.dom().contains(key) {
                    tasks.insert(
                        key,
                        FileTransferView {
                            total_size: config.file_size,
                            remote_path: config.path,
                            ..tasks[key]
                        },
                    )
                } else {
                    tasks
                },
                FileStepView::Send(seq![transfer::bare_message(m.channel_id, HdcCommand::FileBegin)]),
            ),
        },
        HdcCommand::FileBegin => if !tasks.dom().contains(key) {
            (tasks, refuse(m.channel_id, "File transfer not initialized"@))
        } else {
            (
                tasks,
                match tasks[key].direction {
                    TransferDirection::Send => FileStepView::Create(tasks[key].remote_path),
                    TransferDirection::Recv => FileStepView::Stream(tasks[key].remote_path),
                },
            )
        },
        HdcCommand::FileData => if !tasks.dom().contains(key) {
            (tasks, refuse(m.channel_id, "File transfer not initialized"@))
        } else if tasks[key].direction == TransferDirection::Send && tasks[key].open {
            (tasks, FileStepView::Write(m.payload))
        } else {
            (tasks, FileStepView::Pass)
        },
        HdcCommand::FileFinish => if !tasks.dom().contains(key) {
            (tasks, refuse(m.channel_id, "File transfer not initialized"@))
        } else {
            (
                tasks.remove(key),
                FileStepView::CloseAndSend(seq![message::channel_close(m.channel_id)]),
            )
        },
        HdcCommand::FileRecvInit => match command_paths(m.payload) {
            None => (tasks, refuse(m.channel_id, "Invalid file recv parameters"@)),
            Some((remote, _)) => (tasks, FileStepView::Stat(remote)),
        },
        _ => (tasks, FileStepView::Pass),
    }
}

fn copy_state(s: &FileTransferState) -> (r: FileTransferState)
    ensures
        r@ == s@,
{
    FileTransferState {
        session_id: s.session_id,
        channel_id: s.channel_id,
        local_path: copy_text(s.local_path.as_str()),
        remote_path: copy_text(s.remote_path.as_str()),
        open: s.open,
        total_size: s.total_size,
        received_size: s.received_size,
        direction: s.direction,
    }
}

/// What comes of a file command.
pub fn handle_file_task(file_map: &mut FileTaskMap, session_id: u32, msg: TaskMessage) -> (r:
    FileStep)
    requires
        old(file_map).wf(),
    ensures
        final(file_map).wf(),
        (final(file_map)@, r@) == on_file_message(old(file_map)@, session_id, msg@),
{
    let id: u32 = msg.channel_id;
    let ghost tasks = file_map@;
    let ghost key = (session_id, id);
    match msg.command {
        HdcCommand::FileInit => match parse_file_paths(msg.payload.as_slice()) {
            None => make_refusal(id, "Invalid file init parameters"),
            Some((local_path, remote_path)) => {
                let check = make_check(id, remote_path.as_str(), 0);
                file_map.put(
                    session_id,
                    id,
                    FileTransferState {
                        session_id,
                        channel_id: id,
                        local_path,
                        remote_path,
                        open: false,
                        total_size: 0,
                        received_size: 0,
                        direction: TransferDirection::Send,
                    },
                );
                FileStep::Send(just(check))
            },
        },
        HdcCommand::FileCheck => match TransferConfig::deserialize(msg.payload.as_slice()) {
            Err(_) => make_refusal(id, "Invalid transfer config"),
            Ok(config) => {
                let changed: Option<FileTransferState> = match file_map.get(session_id, id) {
                    Some(s) => {
                        let mut t = copy_state(s);
                        t.total_size = config.file_size;
                        t.remote_path = copy_text(config.path.as_str());
                        Some(t)
                    },
                    None => None,
                };
                match changed {
                    Some(t) => {
                        file_map.put(session_id, id, t);
                    },
                    None => {},
                }
                FileStep::Send(just(make_bare(id, HdcCommand::FileBegin)))
            },
        },
        HdcCommand::FileBegin => match file_map.get(session_id, id) {
            None => make_refusal(id, "File transfer not initialized"),
            Some(s) => match s.direction {
                TransferDirection::Send => FileStep::Create(copy_text(s.remote_path.as_str())),
                TransferDirection::Recv => FileStep::Stream(copy_text(s.remote_path.as_str())),
            },
        },
        HdcCommand::FileData => match file_map.get(session_id, id) {
            None => make_refusal(id, "File transfer not initialized"),
            Some(s) => {
                if s.direction == TransferDirection::Send && s.open {
                    FileStep::Write(msg.payload)
                } else {
                    FileStep::Pass
                }
            },
        },
        HdcCommand::FileFinish => match file_map.remove(session_id, id) {
            None => {
                assert(tasks.remove(key) =~= tasks);
                make_refusal(id, "File transfer not initialized")
            },
            Some(_) => FileStep::CloseAndSend(just(make_close(id))),
        },
        HdcCommand::FileRecvInit => match parse_file_paths(msg.payload.as_slice()) {
            None => make_refusal(id, "Invalid file recv parameters"),
            Some((remote_path, _)) => FileStep::Stat(remote_path),
        },
        _ => FileStep::Pass,
    }
}

/// The files on their way once the file of one is open.
pub open spec fn with_open(tasks: Map<(u32, u32), FileTransferView>, key: (u32, u32)) -> Map<
    (u32, u32),
    FileTransferView,
> {
    if tasks.dom().contains(key) {
        tasks.insert(key, FileTransferView { open: true, ..tasks[key] })
    } else {
        tasks
    }
}

/// What the host is told where a file that it sends cannot be made.
pub const FILE_NOT_MADE: &'static str = "Failed to create file";

/// What the host is told where the file for a package that it sends cannot be made.
pub const PACKAGE_NOT_MADE: &'static str = "Failed to create temp file";

/// What follows once a file was made, or could not be.
pub open spec fn after_creating(
    tasks: Map<(u32, u32), FileTransferView>,
    key: (u32, u32),
    what: Seq<char>,
    failure: Option<Seq<char>>,
) -> (Map<(u32, u32), FileTransferView>, FileStepView) {
    match failure {
        None => (with_open(tasks, key), FileStepView::Pass),
        Some(e) => (tasks, refuse(key.1, what + ": "@ + e)),
    }
}

/// What follows once bytes were written to a file, or could not be.
pub open spec fn after_writing(
    tasks: Map<(u32, u32), FileTransferView>,
    key: (u32, u32),
    n: nat,
    failure: Option<Seq<char>>,
) -> (Map<(u32, u32), FileTransferView>, FileStepView) {
    match failure {
        None => (with_received(tasks, key, n), FileStepView::Pass),
        Some(e) => (tasks, refuse(key.1, "Write failed: "@ + e)),
    }
}

/// A file was made, or could not be: `failure` says why. `what` is what the host is
/// told of a failure.
pub fn file_created(
    file_map: &mut FileTaskMap,
    session_id: u32,
    channel_id: u32,
    what: &str,
    failure: &Option<String>,
) -> (r: FileStep)
    requires
        old(file_map).wf(),
    ensures
        final(file_map).wf(),
        (final(file_map)@, r@) == after_creating(
            old(file_map)@,
            (session_id, channel_id),
            what@,
            auth::opt_text(*failure),
        ),
{
    match failure {
        Some(e) => make_refusal(channel_id, concat3(what, ": ", e.as_str()).as_str()),
        None => {
            let changed: Option<FileTransferState> = match file_map.get(session_id, channel_id) {
                Some(s) => {
                    let mut t = copy_state(s);
                    t.open = true;
                    Some(t)
                },
                None => None,
            };
            match changed {
                Some(t) => {
                    file_map.put(session_id, channel_id, t);
                },
                None => {},
            }
            FileStep::Pass
        },
    }
}

/// The files on their way once bytes of one were written.
pub open spec fn with_received(
    tasks: Map<(u32, u32), FileTransferView>,
    key: (u32, u32),
    n: nat,
) -> Map<(u32, u32), FileTransferView> {
    if tasks.dom().contains(key) {
        tasks.insert(
            key,
            FileTransferView {
                received_size: (tasks[key].received_size + n) as u64,
                ..tasks[key]
            },
        )
    } else {
        tasks
    }
}

/// Bytes were written, or could not be: `failure` says why.
pub fn file_written(
    file_map: &mut FileTaskMap,
    session_id: u32,
    channel_id: u32,
    n: usize,
    failure: &Option<String>,
) -> (r: FileStep)
    requires
        old(file_map).wf(),
        old(file_map)@.dom().contains((session_id, channel_id)) ==> old(file_map)@[(
            session_id,
            channel_id,
        )].received_size + n <= u64::MAX,
    ensures
        final(file_map).wf(),
        (final(file_map)@, r@) == after_writing(
            old(file_map)@,
            (session_id, channel_id),
            n as nat,
            auth::opt_text(*failure),
        ),
{
    match failure {
        Some(e) => make_refusal(channel_id, concat2("Write failed: ", e.as_str()).as_str()),
        None => {
            let changed: Option<FileTransferState> = match file_map.get(session_id, channel_id) {
                Some(s) => {
                    let mut t = copy_state(s);
                    t.received_size = t.received_size + n as u64;
                    Some(t)
                },
                None => None,
            };
            match changed {
                Some(t) => {
                    file_map.put(session_id, channel_id, t);
                },
                None => {},
            }
            FileStep::Pass
        },
    }
}

/// What the host is told of a file that is not there.
pub open spec fn missing_told(channel_id: u32, reason: Seq<char>) -> Seq<TaskMessageView> {
    message::echo_and_close(channel_id, "File not found: "@ + reason, MessageLevel::Fail)
}

/// What the host is told of a file that cannot be opened.
pub open spec fn unopened_told(channel_id: u32, reason: Seq<char>) -> Seq<TaskMessageView> {
    message::echo_and_close(channel_id, "Failed to open file: "@ + reason, MessageLevel::Fail)
}

/// What the host is told of a file that cannot be read on.
pub open spec fn unread_told(channel_id: u32, reason: Seq<char>) -> TaskMessageView {
    message::echo(channel_id, "Read failed: "@ + reason, MessageLevel::Fail)
}

/// The host asks for a file that is not there: it is told, and the channel ends.
pub fn file_missing(channel_id: u32, reason: &str) -> (r: Vec<TaskMessage>)
    ensures
        message::message_views(r@) == missing_told(channel_id, reason@),
{
    make_echo_and_close(
        channel_id,
        concat2("File not found: ", reason).as_str(),
        MessageLevel::Fail,
    )
}

/// The files on their way with one that the host has asked for.
pub open spec fn offered(
    tasks: Map<(u32, u32), FileTransferView>,
    session_id: u32,
    channel_id: u32,
    path: Seq<char>,
    file_size: u64,
) -> Map<(u32, u32), FileTransferView> {
    tasks.insert(
        (session_id, channel_id),
        new_transfer(session_id, channel_id, path, path, file_size, TransferDirection::Recv),
    )
}

/// The host has been told of the file that it asks for: the file is on its way.
pub fn file_offered(
    file_map: &mut FileTaskMap,
    session_id: u32,
    channel_id: u32,
    path: &str,
    file_size: u64,
)
    requires
        old(file_map).wf(),
    ensures
        final(file_map).wf(),
        final(file_map)@ == offered(
            old(file_map)@,
            session_id,
            channel_id,
            path@,
            file_size,
        ),
{
    file_map.put(
        session_id,
        channel_id,
        FileTransferState {
            session_id,
            channel_id,
            local_path: copy_text(path),
            remote_path: copy_text(path),
            open: false,
            total_size: file_size,
            received_size: 0,
            direction: TransferDirection::Recv,
        },
    );
}

/// A file cannot be opened: the host is told, and the channel ends.
pub fn open_failed(channel_id: u32, reason: &str) -> (r: Vec<TaskMessage>)
    ensures
        message::message_views(r@) == unopened_told(channel_id, reason@),
{
    make_echo_and_close(
        channel_id,
        concat2("Failed to open file: ", reason).as_str(),
        MessageLevel::Fail,
    )
}

/// A file cannot be read any further: the host is told.
pub fn read_failed(channel_id: u32, reason: &str) -> (r: TaskMessage)
    ensures
        r@ == unread_told(channel_id, reason@),
{
    make_echo(channel_id, concat2("Read failed: ", reason).as_str(), MessageLevel::Fail)
}

/// The message that carries a piece of a file.
pub open spec fn piece_of_file(channel_id: u32, data: Seq<u8>) -> TaskMessageView {
    TaskMessageView { channel_id, command: HdcCommand::FileData, payload: data }
}

/// The messages behind the last piece of a file.
pub open spec fn end_of_file(channel_id: u32) -> Seq<TaskMessageView> {
    seq![
        transfer::bare_message(channel_id, HdcCommand::FileFinish),
        message::channel_close(channel_id),
    ]
}

/// A piece of a file that goes to the host.
pub fn file_piece(channel_id: u32, data: Vec<u8>) -> (r: TaskMessage)
    ensures
        r@ == piece_of_file(channel_id, data@),
{
    TaskMessage { channel_id, command: HdcCommand::FileData, payload: data }
}

/// What follows the last piece of a file that goes to the host. The file is no longer on
/// its way once these are sent.
pub fn file_end(channel_id: u32) -> (r: Vec<TaskMessage>)
    ensures
        message::message_views(r@) == end_of_file(channel_id),
{
    let mut v = just(make_bare(channel_id, HdcCommand::FileFinish));
    push_message(&mut v, make_close(channel_id));
    assert(message::message_views(v@) =~= seq![
        transfer::bare_message(channel_id, HdcCommand::FileFinish),
        message::channel_close(channel_id),
    ]);
    v
}

/// A file command concerns the file under its session and channel alone.
pub proof fn other_files_stay(
    tasks: Map<(u32, u32), FileTransferView>,
    session_id: u32,
    m: TaskMessageView,
    key: (u32, u32),
)
    requires
        key != (session_id, m.channel_id),
    ensures
        on_file_message(tasks, session_id, m).0.dom().contains(key) == tasks.dom().contains(key),
        tasks.dom().contains(key) ==> on_file_message(tasks, session_id, m).0[key] == tasks[key],
{
}

/// Nothing is written that the host did not send, and only where a file is open.
pub proof fn only_sent_bytes_are_written(
    tasks: Map<(u32, u32), FileTransferView>,
    session_id: u32,
    m: TaskMessageView,
)
    ensures
        on_file_message(tasks, session_id, m).1 is Write ==> {
            &&& m.command == HdcCommand::FileData
            &&& tasks.dom().contains((session_id, m.channel_id))
            &&& tasks[(session_id, m.channel_id)].open
            &&& on_file_message(tasks, session_id, m).1->Write_0 == m.payload
        },
{
}

/// The host learns the size of a file from what the daemon tells of it.
pub proof fn size_is_understood(channel_id: u32, path: Seq<char>, file_size: u64)
    requires
        encode_utf8(path).len() < 0x1_0000_0000,
    ensures
        file_transfer::announced_size(check_message(channel_id, path, file_size).payload)
            == file_size,
{
    serializer::transfer_config_round_trip(
        transfer::file_config(file_size, Seq::empty(), path, Seq::empty(), Seq::empty()),
    );
}

/// The words of a command, with blanks between them, are read back from its bytes.
pub proof fn words_are_read(words: Seq<Seq<char>>)
    requires
        words.len() > 0,
        forall|i: int| 0 <= i < words.len() ==> !(#[trigger] words[i]).contains(' '),
    ensures
        text::split_parts(text::utf8_lossy(encode_utf8(text::joined(words, seq![' ']))), ' ')
            == words,
{
    text::text_of_its_bytes(text::joined(words, seq![' ']));
    text::split_undoes_join(words, ' ');
}

/// A file that the host sends is taken under the path that comes second: the device asks for it
/// under that path, makes the file there, writes what comes once it is made, and ends with the
/// channel. Where no file was asked for, nothing is written.
pub proof fn sent_file_is_taken(
    tasks: Map<(u32, u32), FileTransferView>,
    session_id: u32,
    channel_id: u32,
    words: Seq<Seq<char>>,
    data: Seq<u8>,
)
    requires
        words.len() == 4,
        words[2] != "-cwd"@,
        forall|i: int| 0 <= i < words.len() ==> !(#[trigger] words[i]).contains(' '),
        encode_utf8(words[3]).len() < 0x1_0000_0000,
    ensures
        ({
            let key = (session_id, channel_id);
            let say = |c: HdcCommand, p: Seq<u8>| TaskMessageView { channel_id, command: c, payload: p };
            let (t1, s1) = on_file_message(
                tasks,
                session_id,
                say(HdcCommand::FileInit, encode_utf8(text::joined(words, seq![' ']))),
            );
            let (t2, s2) = on_file_message(t1, session_id, say(HdcCommand::FileBegin, Seq::empty()));
            let t3 = with_open(t2, key);
            let (t4, s4) = on_file_message(t3, session_id, say(HdcCommand::FileData, data));
            let (t5, s5) = on_file_message(t4, session_id, say(HdcCommand::FileFinish, data));
            &&& s1 is Send && s1->Send_0.len() == 1
            &&& s1->Send_0[0].command == HdcCommand::FileCheck
            &&& s1->Send_0[0].channel_id == channel_id
            &&& TransferConfigView::parsed(s1->Send_0[0].payload) is Ok
            &&& TransferConfigView::parsed(s1->Send_0[0].payload)->Ok_0.path == words[3]
            &&& s2 == FileStepView::Create(words[3])
            &&& s4 == FileStepView::Write(data)
            &&& s5 == FileStepView::CloseAndSend(seq![message::channel_close(channel_id)])
            &&& !t5.dom().contains(key)
            &&& on_file_message(t2, session_id, say(HdcCommand::FileData, data)).1
                == FileStepView::Pass
            &&& !tasks.dom().contains(key) ==> on_file_message(
                tasks,
                session_id,
                say(HdcCommand::FileData, data),
            ).1 == FileStepView::Send(
                seq![message::echo(channel_id, "File transfer not initialized"@, MessageLevel::Fail)],
            )
        }),
{
    words_are_read(words);
    assert(encode_utf8(Seq::<char>::empty()).len() == 0);
    transfer::description_is_understood(0, Seq::empty(), words[3], Seq::empty(), Seq::empty());
}

/// A file that the host offers is begun, and kept with the size and the path of the offer.
pub proof fn offered_file_is_begun(
    tasks: Map<(u32, u32), FileTransferView>,
    session_id: u32,
    channel_id: u32,
    file_size: u64,
    path: Seq<char>,
    name: Seq<char>,
)
    requires
        encode_utf8(path).len() < 0x1_0000_0000,
        encode_utf8(name).len() < 0x1_0000_0000,
    ensures
        ({
            let key = (session_id, channel_id);
            let offer = TaskMessageView {
                channel_id,
                command: HdcCommand::FileCheck,
                payload: tlv::slots_bytes(
                    transfer::file_config(
                        file_size,
                        Seq::empty(),
                        path,
                        name,
                        Seq::empty(),
                    ).slots(),
                ),
            };
            let (after, step) = on_file_message(tasks, session_id, offer);
            &&& step == FileStepView::Send(
                seq![
                    TaskMessageView {
                        channel_id,
                        command: HdcCommand::FileBegin,
                        payload: Seq::empty(),
                    },
                ],
            )
            &&& tasks.dom().contains(key) ==> after[key].total_size == file_size
                && after[key].remote_path == path
            &&& !tasks.dom().contains(key) ==> after == tasks
        }),
{
    assert(encode_utf8(Seq::<char>::empty()).len() == 0);
    transfer::description_is_understood(file_size, Seq::empty(), path, name, Seq::empty());
}

/// A file that the host asks for is looked for under the path that comes first; once it is
/// offered, it is sent from there when the host begins.
pub proof fn asked_file_is_sent(
    tasks: Map<(u32, u32), FileTransferView>,
    session_id: u32,
    channel_id: u32,
    words: Seq<Seq<char>>,
    file_size: u64,
)
    requires
        words.len() == 4,
        words[2] != "-cwd"@,
        forall|i: int| 0 <= i < words.len() ==> !(#[trigger] words[i]).contains(' '),
    ensures
        on_file_message(
            tasks,
            session_id,
            TaskMessageView {
                channel_id,
                command: HdcCommand::FileRecvInit,
                payload: encode_utf8(text::joined(words, seq![' '])),
            },
        ) == (tasks, FileStepView::Stat(words[2])),
        on_file_message(
            offered(tasks, session_id, channel_id, words[2], file_size),
            session_id,
            TaskMessageView {
                channel_id,
                command: HdcCommand::FileBegin,
                payload: Seq::empty(),
            },
        ).1 == FileStepView::Stream(words[2]),
        offered(tasks, session_id, channel_id, words[2], file_size)[(
            session_id,
            channel_id,
        )].total_size == file_size,
{
    words_are_read(words);
}

/// The bytes of a file are counted as they are written, and nothing else of it changes.
pub proof fn written_bytes_are_counted(
    tasks: Map<(u32, u32), FileTransferView>,
    key: (u32, u32),
    n: nat,
)
    requires
        tasks.dom().contains(key),
        tasks[key].received_size + n <= u64::MAX,
    ensures
        ({
            let now = with_received(tasks, key, n);
            &&& now[key].received_size == tasks[key].received_size + n
            &&& now[key].open == tasks[key].open
            &&& now[key].remote_path == tasks[key].remote_path
            &&& now.dom() =~= tasks.dom()
            &&& forall|other: (u32, u32)|
                other != key && tasks.dom().contains(other) ==> #[trigger] now[other]
                    == tasks[other]
            &&& with_open(tasks, key)[key].open
            &&& with_open(tasks, key)[key].remote_path == tasks[key].remote_path
        }),
{
}

/// A file that was made is open for what comes, and what was written is counted. Where either
/// fails, nothing changes and the host is told why.
pub proof fn failures_are_told(
    tasks: Map<(u32, u32), FileTransferView>,
    key: (u32, u32),
    what: Seq<char>,
    reason: Seq<char>,
    n: nat,
)
    requires
        tasks.dom().contains(key),
        tasks[key].received_size + n <= u64::MAX,
    ensures
        after_creating(tasks, key, what, None).0[key].open,
        after_creating(tasks, key, what, None).1 is Pass,
        after_writing(tasks, key, n, None).0[key].received_size == tasks[key].received_size + n,
        after_writing(tasks, key, n, None).1 is Pass,
        after_creating(tasks, key, what, Some(reason)) == (
            tasks,
            FileStepView::Send(
                seq![message::echo(key.1, what + ": "@ + reason, MessageLevel::Fail)],
            ),
        ),
        after_writing(tasks, key, n, Some(reason)) == (
            tasks,
            FileStepView::Send(
                seq![message::echo(key.1, "Write failed: "@ + reason, MessageLevel::Fail)],
            ),
        ),
{
}

/// A file that the host asked for goes to it piece by piece as it is; at its end the transfer
/// is finished and the channel is closed, in this order.
pub proof fn file_goes_piece_by_piece(channel_id: u32, data: Seq<u8>)
    ensures
        piece_of_file(channel_id, data).channel_id == channel_id,
        piece_of_file(channel_id, data).command == HdcCommand::FileData,
        piece_of_file(channel_id, data).payload == data,
        end_of_file(channel_id).len() == 2,
        end_of_file(channel_id)[0] == (TaskMessageView {
            channel_id,
            command: HdcCommand::FileFinish,
            payload: Seq::empty(),
        }),
        end_of_file(channel_id)[1] == (TaskMessageView {
            channel_id,
            command: HdcCommand::KernelChannelClose,
            payload: seq![0u8],
        }),
{
}

/// A file that cannot be sent is told as a failure with its reason, and the channel is closed.
/// One that cannot be read on is told, and its channel stays for the end of the file.
pub proof fn unsent_files_are_told(channel_id: u32, reason: Seq<char>)
    ensures
        missing_told(channel_id, reason) == seq![
            message::echo(channel_id, "File not found: "@ + reason, MessageLevel::Fail),
            message::channel_close(channel_id),
        ],
        unopened_told(channel_id, reason) == seq![
            message::echo(channel_id, "Failed to open file: "@ + reason, MessageLevel::Fail),
            message::channel_close(channel_id),
        ],
        unread_told(channel_id, reason) == message::echo(
            channel_id,
            "Read failed: "@ + reason,
            MessageLevel::Fail,
        ),
{
}

} // verus!
