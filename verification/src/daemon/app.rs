//! Packages that a host installs on the device or takes off it.

use crate::daemon::file;
use crate::daemon::file::{FileTaskMap, FileTransferState, FileTransferView, TransferDirection};
use crate::daemon::message;
use crate::daemon::message::{just, make_close, make_echo, push_message};
use crate::host::app_install;
use crate::host::app_install::find_app_path;
use crate::host::dispatch::text_bytes;
use crate::host::transfer;
use crate::host::transfer::make_bare;
use crate::path;
use crate::path::file_name;
use crate::protocol::command::HdcCommand;
use crate::protocol::config::{INSTALL_TMP_DIR, MessageLevel, TaskMessage, TaskMessageView};
use crate::text;
use crate::text::{concat2, copy_text, lossy_text, split, trim};
use vstd::prelude::*;
use vstd::utf8::*;

verus! {

/// What is done for a package command.
#[derive(Debug, PartialEq, Eq)]
pub enum AppStep {
    /// Messages go to the host.
    Send(Vec<TaskMessage>),
    /// A file is made, and what came of it is told.
    Create(String),
    /// Bytes are written to the open file, and what came of it is told.
    Write(Vec<u8>),
    /// The open file, if there is one, is closed; the package in it is installed.
    Install(String),
    /// A package is taken off.
    Uninstall(String),
    /// Nothing.
    Pass,
}

/// What is done for a package command.
pub enum AppStepView {
    Send(Seq<TaskMessageView>),
    Create(Seq<char>),
    Write(Seq<u8>),
    Install(Seq<char>),
    Uninstall(Seq<char>),
    Pass,
}

impl View for AppStep {
    type V = AppStepView;

    open spec fn view(&self) -> AppStepView {
        match *self {
            AppStep::Send(v) => AppStepView::Send(message::message_views(v@)),
            AppStep::Create(p) => AppStepView::Create(p@),
            AppStep::Write(b) => AppStepView::Write(b@),
            AppStep::Install(p) => AppStepView::Install(p@),
            AppStep::Uninstall(p) => AppStepView::Uninstall(p@),
            AppStep::Pass => AppStepView::Pass,
        }
    }
}

/// A refusal.
pub open spec fn app_refusal(channel_id: u32, text: Seq<char>) -> AppStepView {
    AppStepView::Send(seq![message::echo(channel_id, text, MessageLevel::Fail)])
}

fn refuse_app(channel_id: u32, text: &str) -> (r: AppStep)
    ensures
        r@ == app_refusal(channel_id, text@),
{
    AppStep::Send(just(make_echo(channel_id, text, MessageLevel::Fail)))
}

/// Where a package is kept until it is installed.
pub open spec fn package_path(path: Seq<char>) -> Seq<char> {
    INSTALL_TMP_DIR@ + (match path::last_name(path, '/') {
        Some(name) => name,
        None => "app.hap"@,
    })
}

/// What comes of a package command, and the files on their way after it.
pub open spec fn on_app_message(
    tasks: Map<(u32, u32), FileTransferView>,
    session_id: u32,
    m: TaskMessageView,
) -> (Map<(u32, u32), FileTransferView>, AppStepView) {
    let key = (session_id, m.channel_id);
    match m.command {
        HdcCommand::AppInit => match app_install::app_path(text::split_parts(text::utf8_lossy(m.payload), ' ')) {
            None => (tasks, app_refusal(m.channel_id, "Missing app path"@)),
            Some(path) => (
                tasks.insert(
                    key,
                    file::new_transfer(
                        session_id,
                        m.channel_id,
                        path,
                        package_path(path),
                        0,
                        TransferDirection::Send,
                    ),
                ),
                AppStepView::Send(
                    seq![
                        TaskMessageView {
                            channel_id: m.channel_id,
                            command: HdcCommand::AppCheck,
                            payload: encode_utf8(package_path(path)),
                        },
                    ],
                ),
            ),
        },
        HdcCommand::AppCheck => (
            tasks,
            AppStepView::Send(seq![transfer::bare_message(m.channel_id, HdcCommand::AppBegin)]),
        ),
        HdcCommand::AppBegin => if tasks.dom().contains(key) {
            (tasks, AppStepView::Create(tasks[key].remote_path))
        } else {
            (tasks, app_refusal(m.channel_id, "App install not initialized"@))
        },
        HdcCommand::AppData => if !tasks.dom().contains(key) {
            (tasks, app_refusal(m.channel_id, "App install not initialized"@))
        } else if tasks[key].open {
            (tasks, AppStepView::Write(m.payload))
        } else {
            (tasks, AppStepView::Pass)
        },
        HdcCommand::AppFinish => if tasks.dom().contains(key) {
            (tasks.remove(key), AppStepView::Install(tasks[key].remote_path))
        } else {
            (tasks, app_refusal(m.channel_id, "App install not initialized"@))
        },
        HdcCommand::AppUninstall => (
            tasks,
            AppStepView::Uninstall(text::trimmed(text::utf8_lossy(m.payload))),
        ),
        _ => (tasks, AppStepView::Pass),
    }
}

/// What comes of a package command.
pub fn handle_app_task(file_map: &mut FileTaskMap, session_id: u32, msg: TaskMessage) -> (r:
    AppStep)
    requires
        old(file_map).wf(),
    ensures
        final(file_map).wf(),
        (final(file_map)@, r@) == on_app_message(old(file_map)@, session_id, msg@),
{
    let id: u32 = msg.channel_id;
    let ghost tasks = file_map@;
    let ghost key = (session_id, id);
    match msg.command {
        HdcCommand::AppInit => {
            let parts = split(lossy_text(msg.payload.as_slice()).as_str(), ' ');
            match find_app_path(parts.as_slice()) {
                Err(_) => refuse_app(id, "Missing app path"),
                Ok(path) => {
                    let name: String = match file_name(path.as_str(), '/') {
                        Some(name) => name,
                        None => "app.hap".to_owned(),
                    };
                    let kept = concat2(INSTALL_TMP_DIR, name.as_str());
                    let payload = text_bytes(kept.as_str());
                    file_map.put(
                        session_id,
                        id,
                        FileTransferState {
                            session_id,
                            channel_id: id,
                            local_path: path,
                            remote_path: kept,
                            open: false,
                            total_size: 0,
                            received_size: 0,
                            direction: TransferDirection::Send,
                        },
                    );
                    AppStep::Send(
                        just(
                            TaskMessage { channel_id: id, command: HdcCommand::AppCheck, payload },
                        ),
                    )
                },
            }
        },
        HdcCommand::AppCheck => AppStep::Send(just(make_bare(id, HdcCommand::AppBegin))),
        HdcCommand::AppBegin => match file_map.get(session_id, id) {
            None => refuse_app(id, "App install not initialized"),
            Some(s) => AppStep::Create(copy_text(s.remote_path.as_str())),
        },
        HdcCommand::AppData => match file_map.get(session_id, id) {
            None => refuse_app(id, "App install not initialized"),
            Some(s) => {
                if s.open {
                    AppStep::Write(msg.payload)
                } else {
                    AppStep::Pass
                }
            },
        },
        HdcCommand::AppFinish => match file_map.remove(session_id, id) {
            None => {
                assert(tasks.remove(key) =~= tasks);
                refuse_app(id, "App install not initialized")
            },
            Some(s) => AppStep::Install(s.remote_path),
        },
        HdcCommand::AppUninstall => AppStep::Uninstall(
            trim(lossy_text(msg.payload.as_slice()).as_str()),
        ),
        _ => AppStep::Pass,
    }
}

/// What came of the command that manages packages.
#[derive(Debug, PartialEq, Eq)]
pub enum Outcome {
    /// It ran: what it printed, what it complained of, and whether it succeeded.
    Ran { stdout: Vec<u8>, stderr: Vec<u8>, success: bool },
    /// It could not be run, for a reason.
    NotRun(String),
    /// There is no such command on this system.
    Unsupported,
}

/// What the host is told of the end of an installation or a removal.
#[derive(Debug, PartialEq, Eq)]
pub struct Wording {
    pub failed: &'static str,
    pub not_run: &'static str,
    pub unsupported: &'static str,
}

/// What is said of an installation.
pub fn install_wording() -> (r: Wording)
    ensures
        r.failed@ == "Install failed"@,
        r.not_run@ == "Install command failed: "@,
        r.unsupported@ == "App install not supported on this platform"@,
{
    Wording {
        failed: "Install failed",
        not_run: "Install command failed: ",
        unsupported: "App install not supported on this platform",
    }
}

/// What is said of a removal.
pub fn uninstall_wording() -> (r: Wording)
    ensures
        r.failed@ == "Uninstall failed"@,
        r.not_run@ == "Uninstall command failed: "@,
        r.unsupported@ == "App uninstall not supported on this platform"@,
{
    Wording {
        failed: "Uninstall failed",
        not_run: "Uninstall command failed: ",
        unsupported: "App uninstall not supported on this platform",
    }
}

/// A text for the user, unless it is empty.
pub open spec fn echo_if_any(channel_id: u32, bytes: Seq<u8>, level: MessageLevel) -> Seq<
    TaskMessageView,
> {
    if text::utf8_lossy(bytes).len() == 0 {
        Seq::empty()
    } else {
        seq![message::echo(channel_id, text::utf8_lossy(bytes), level)]
    }
}

/// What the host is told of the end of an installation or a removal.
pub open spec fn package_report(channel_id: u32, w: Wording, outcome: Outcome) -> Seq<
    TaskMessageView,
> {
    (match outcome {
        Outcome::Ran { stdout, stderr, success } => echo_if_any(
            channel_id,
            stdout@,
            MessageLevel::Info,
        ) + echo_if_any(channel_id, stderr@, MessageLevel::Fail) + seq![
            if success {
                message::echo(channel_id, "AppMod finish"@, MessageLevel::Success)
            } else {
                message::echo(channel_id, w.failed@, MessageLevel::Fail)
            },
        ],
        Outcome::NotRun(e) => seq![message::echo(channel_id, w.not_run@ + e@, MessageLevel::Fail)],
        Outcome::Unsupported => seq![message::echo(channel_id, w.unsupported@, MessageLevel::Fail)],
    }).push(message::channel_close(channel_id))
}

/// What the host is told of the end of an installation or a removal.
pub fn make_package_report(channel_id: u32, w: &Wording, outcome: &Outcome) -> (r: Vec<TaskMessage>)
    ensures
        message::message_views(r@) == package_report(channel_id, *w, *outcome),
{
    let mut v: Vec<TaskMessage> = Vec::new();
    assert(message::message_views(v@) =~= Seq::<TaskMessageView>::empty());
    match outcome {
        Outcome::Ran { stdout, stderr, success } => {
            let out = lossy_text(stdout.as_slice());
            let err = lossy_text(stderr.as_slice());
            if !out.as_str().is_empty() {
                push_message(&mut v, make_echo(channel_id, out.as_str(), MessageLevel::Info));
            }
            assert(message::message_views(v@) =~= echo_if_any(channel_id, stdout@, MessageLevel::Info));
            if !err.as_str().is_empty() {
                push_message(&mut v, make_echo(channel_id, err.as_str(), MessageLevel::Fail));
            }
            assert(message::message_views(v@) =~= echo_if_any(channel_id, stdout@, MessageLevel::Info)
                + echo_if_any(channel_id, stderr@, MessageLevel::Fail));
            if *success {
                push_message(
                    &mut v,
                    make_echo(channel_id, "AppMod finish", MessageLevel::Success),
                );
            } else {
                push_message(&mut v, make_echo(channel_id, w.failed, MessageLevel::Fail));
            }
        },
        Outcome::NotRun(e) => {
            let text = concat2(w.not_run, e.as_str());
            push_message(&mut v, make_echo(channel_id, text.as_str(), MessageLevel::Fail));
        },
        Outcome::Unsupported => {
            push_message(&mut v, make_echo(channel_id, w.unsupported, MessageLevel::Fail));
        },
    }
    push_message(&mut v, make_close(channel_id));
    assert(message::message_views(v@) =~= package_report(channel_id, *w, *outcome));
    v
}

/// A package command concerns the package under its session and channel alone.
pub proof fn other_packages_stay(
    tasks: Map<(u32, u32), FileTransferView>,
    session_id: u32,
    m: TaskMessageView,
    key: (u32, u32),
)
    requires
        key != (session_id, m.channel_id),
    ensures
        on_app_message(tasks, session_id, m).0.dom().contains(key) == tasks.dom().contains(key),
        tasks.dom().contains(key) ==> on_app_message(tasks, session_id, m).0[key] == tasks[key],
{
}

/// A package that the host sends is kept in the directory for temporary files under its own
/// name: the device asks for it there, makes the file, writes what comes once it is made, and
/// then installs it from there.
pub proof fn sent_package_is_installed(
    tasks: Map<(u32, u32), FileTransferView>,
    session_id: u32,
    channel_id: u32,
    name: Seq<char>,
    path: Seq<char>,
    data: Seq<u8>,
)
    requires
        path != "-cwd"@,
        !name.contains(' ') && !path.contains(' '),
        path::last_name(path, '/') is Some,
    ensures
        ({
            let key = (session_id, channel_id);
            let say = |c: HdcCommand, p: Seq<u8>| TaskMessageView { channel_id, command: c, payload: p };
            let place = "/data/local/tmp/"@ + path::last_name(path, '/')->Some_0;
            let (t1, s1) = on_app_message(
                tasks,
                session_id,
                say(HdcCommand::AppInit, encode_utf8(text::joined(seq![name, path], seq![' ']))),
            );
            let (t2, s2) = on_app_message(t1, session_id, say(HdcCommand::AppBegin, Seq::empty()));
            let t3 = file::with_open(t2, key);
            let (t4, s4) = on_app_message(t3, session_id, say(HdcCommand::AppData, data));
            let (t5, s5) = on_app_message(t4, session_id, say(HdcCommand::AppFinish, data));
            &&& s1 == AppStepView::Send(
                seq![
                    TaskMessageView {
                        channel_id,
                        command: HdcCommand::AppCheck,
                        payload: encode_utf8(place),
                    },
                ],
            )
            &&& s2 == AppStepView::Create(place)
            &&& s4 == AppStepView::Write(data)
            &&& s5 == AppStepView::Install(place)
            &&& !t5.dom().contains(key)
            &&& on_app_message(t2, session_id, say(HdcCommand::AppData, data)).1
                == AppStepView::Pass
        }),
{
    let words = seq![name, path];
    assert(words[0] == name && words[1] == path);
    file::words_are_read(words);
}

/// A package that the host offers is begun; without a package on its way nothing is made,
/// written or installed.
pub proof fn packages_need_a_beginning(
    tasks: Map<(u32, u32), FileTransferView>,
    session_id: u32,
    channel_id: u32,
    payload: Seq<u8>,
)
    ensures
        on_app_message(
            tasks,
            session_id,
            TaskMessageView { channel_id, command: HdcCommand::AppCheck, payload },
        ) == (
            tasks,
            AppStepView::Send(
                seq![
                    TaskMessageView {
                        channel_id,
                        command: HdcCommand::AppBegin,
                        payload: Seq::empty(),
                    },
                ],
            ),
        ),
        !tasks.dom().contains((session_id, channel_id)) ==> forall|c: HdcCommand|
            c == HdcCommand::AppBegin || c == HdcCommand::AppData || c == HdcCommand::AppFinish
                ==> #[trigger] on_app_message(
                tasks,
                session_id,
                TaskMessageView { channel_id, command: c, payload },
            ) == (
                tasks,
                AppStepView::Send(
                    seq![
                        message::echo(
                            channel_id,
                            "App install not initialized"@,
                            MessageLevel::Fail,
                        ),
                    ],
                ),
            ),
{
}

/// The package that the host names is uninstalled.
pub proof fn named_package_is_uninstalled(
    tasks: Map<(u32, u32), FileTransferView>,
    session_id: u32,
    channel_id: u32,
    package: Seq<char>,
)
    requires
        package.len() > 0,
        !text::is_white(package[0]) && !text::is_white(package.last()),
    ensures
        on_app_message(
            tasks,
            session_id,
            TaskMessageView {
                channel_id,
                command: HdcCommand::AppUninstall,
                payload: encode_utf8(package),
            },
        ) == (tasks, AppStepView::Uninstall(package)),
{
    text::text_of_its_bytes(package);
    text::trimmed_is_inside(package);
}

/// The host is told what the package manager printed, what it complained of, and whether it
/// succeeded; then the channel ends.
pub proof fn outcome_is_reported(channel_id: u32, w: Wording, outcome: Outcome)
    ensures
        ({
            let told = package_report(channel_id, w, outcome);
            &&& told.len() >= 2
            &&& told.last() == message::channel_close(channel_id)
            &&& outcome is Ran ==> told[told.len() - 2] == (if outcome->success {
                message::echo(channel_id, "AppMod finish"@, MessageLevel::Success)
            } else {
                message::echo(channel_id, w.failed@, MessageLevel::Fail)
            })
            &&& outcome is Ran && text::utf8_lossy(outcome->stdout@).len() > 0 ==> told[0]
                == message::echo(
                channel_id,
                text::utf8_lossy(outcome->stdout@),
                MessageLevel::Info,
            )
            &&& outcome is Ran && text::utf8_lossy(outcome->stderr@).len() > 0 ==> told[told.len()
                - 3] == message::echo(
                channel_id,
                text::utf8_lossy(outcome->stderr@),
                MessageLevel::Fail,
            )
            &&& outcome is NotRun ==> told[0] == message::echo(
                channel_id,
                w.not_run@ + outcome->NotRun_0@,
                MessageLevel::Fail,
            )
            &&& outcome is Unsupported ==> told[0] == message::echo(
                channel_id,
                w.unsupported@,
                MessageLevel::Fail,
            )
        }),
{
}

} // verus!
