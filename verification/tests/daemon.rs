use hdc::daemon::app::{
    handle_app_task, install_wording, make_package_report, uninstall_wording, AppStep, Outcome,
};
use hdc::daemon::file::{
    file_created, file_end, file_missing, file_offered, file_piece, file_written,
    handle_file_task, make_check, open_failed, parse_file_paths, read_failed, FileStep,
    FileTaskMap, TransferDirection, FILE_NOT_MADE, PACKAGE_NOT_MADE,
};
use hdc::daemon::links::{
    listen_failed, make_daemon_check_result, parse_listener_node, parse_remote_node,
    ForwardState, ForwardStep, ListenerNote, Node,
};
use hdc::daemon::listener::{
    route_note, AskedStep, Link, LinkNote, LinkStep, Listener, NoteRoute,
};
use hdc::daemon::message::{make_close, make_echo, make_echo_and_close, make_raw_echo};
use hdc::daemon::task::{
    dispatch_message, handle_flashd_task, pty_failed, pty_step, reboot_report, remount_report,
    shell_failed, shell_fault, shell_report, takes_shell_label, trim_quotation_for_cmd, Attempt, DaemonTask,
    PtyStep,
};
use hdc::host::flash::{flash_step, FlashStep};
use hdc::host::forward::{make_check_result, make_link_message, make_node_message};
use hdc::host::forward_bridge::{
    make_connected, reverse_step, route_forward, route_reverse, Bridge, BridgeStep, ReverseRoute,
    ReverseStep, Route,
};
use hdc::host::forward_setup::{ForwardSetup, SetupAction, FORWARD_OK};
use hdc::host::session::strip_level;
use hdc::host::transfer::{config_bytes, make_bare, Reply};
use hdc::protocol::command::HdcCommand;
use hdc::protocol::config::{MessageLevel, TaskMessage};

fn message(command: HdcCommand, payload: &[u8]) -> TaskMessage {
    TaskMessage { channel_id: 4, command, payload: payload.to_vec() }
}

#[test]
fn echoes() {
    let m = make_echo(4, "no", MessageLevel::Fail);
    assert_eq!(m.payload, b"\x00[Fail]no\r\n".to_vec());
    assert_eq!(strip_level(&m.payload), b"[Fail]no\r\n".to_vec());
    assert_eq!(make_echo(4, "x", MessageLevel::Info).payload, b"\x01[Info]x\r\n".to_vec());
    assert_eq!(make_echo(4, "x", MessageLevel::Success).payload, b"\x02x\r\n".to_vec());
    assert_eq!(make_close(4), message(HdcCommand::KernelChannelClose, &[0]));
}

#[test]
fn what_messages_lead_to() {
    let shell = message(HdcCommand::UnityExecute, b" \"ls -l\" ");
    assert_eq!(dispatch_message(shell), DaemonTask::Shell("ls -l".to_string()));
    let bad = message(HdcCommand::UnityExecute, &[0xff]);
    match dispatch_message(bad.clone()) {
        DaemonTask::BadShell(fault) => assert_eq!(
            shell_fault(fault),
            format!("invalid utf8: {}", String::from_utf8(bad.payload).unwrap_err())
        ),
        _ => panic!("the command is no text"),
    }
    let file = message(HdcCommand::FileInit, b"x");
    assert_eq!(dispatch_message(file.clone()), DaemonTask::File(file));
    let app = message(HdcCommand::AppInit, b"x");
    assert_eq!(dispatch_message(app.clone()), DaemonTask::App(app));
    let forward = message(HdcCommand::ForwardCheck, b"x");
    assert_eq!(dispatch_message(forward.clone()), DaemonTask::Forward(forward));
    let beat = message(HdcCommand::HeartbeatMsg, b"x");
    assert_eq!(dispatch_message(beat.clone()), DaemonTask::Reply(vec![beat]));
    assert_eq!(dispatch_message(message(HdcCommand::UnityReboot, b"")), DaemonTask::Reboot);
    assert_eq!(dispatch_message(message(HdcCommand::UnityRemount, b"")), DaemonTask::Remount);
    assert_eq!(
        dispatch_message(message(HdcCommand::KernelChannelClose, b"")),
        DaemonTask::Close
    );
    assert_eq!(dispatch_message(message(HdcCommand::ShellData, b"")), DaemonTask::Pass);
    assert_eq!(
        dispatch_message(message(HdcCommand::UnityRunmode, b"usb")),
        DaemonTask::Reply(make_echo_and_close(4, "Runmode: usb", MessageLevel::Info))
    );
    assert_eq!(
        dispatch_message(message(HdcCommand::UnityHilog, b"h")),
        DaemonTask::Reply(vec![
            make_raw_echo(4, b"hilog help output...".to_vec()),
            make_close(4)
        ])
    );
    assert_eq!(
        dispatch_message(message(HdcCommand::JdwpList, b"")),
        DaemonTask::Reply(vec![make_echo(4, "Command not implemented", MessageLevel::Fail)])
    );
    assert_eq!(trim_quotation_for_cmd("\""), "");
}

#[test]
fn the_stub_for_images() {
    let begin = handle_flashd_task(&message(HdcCommand::FlashdCheck, b""));
    assert_eq!(begin, vec![message(HdcCommand::FlashdBegin, b"")]);
    let done = handle_flashd_task(&message(HdcCommand::FlashdErase, b"erase x"));
    assert_eq!(
        flash_step(4, &Reply::Message(done[0].clone())),
        FlashStep::Done("\r\nflashd stub completed\r\n".to_string())
    );
    assert_eq!(handle_flashd_task(&message(HdcCommand::FlashdFinish, &[1])), done);
    assert!(handle_flashd_task(&message(HdcCommand::FlashdFinish, &[0])).is_empty());
    assert!(handle_flashd_task(&message(HdcCommand::FlashdData, b"x")).is_empty());
}

#[test]
fn what_the_host_is_told() {
    assert_eq!(
        shell_report(4, b"out", &[]),
        vec![make_raw_echo(4, b"out".to_vec()), make_close(4)]
    );
    assert_eq!(shell_report(4, b"", b""), vec![make_close(4)]);
    assert_eq!(
        shell_failed(4, "x"),
        make_echo_and_close(4, "Execute failed: x", MessageLevel::Fail)
    );
    assert_eq!(reboot_report(4, &Attempt::Done), vec![make_close(4)]);
    assert_eq!(
        reboot_report(4, &Attempt::Failed("x".to_string())),
        make_echo_and_close(4, "Reboot failed: x", MessageLevel::Fail)
    );
    assert_eq!(
        remount_report(4, &Attempt::Done),
        make_echo_and_close(4, "Mount finish", MessageLevel::Success)
    );
    assert_eq!(
        remount_report(4, &Attempt::Unsupported),
        make_echo_and_close(4, "Remount not supported on this platform", MessageLevel::Fail)
    );
    assert!(takes_shell_label(b"u:r:hdcd:s0\n"));
    assert!(!takes_shell_label(b"u:r:sh:s0"));
}

#[test]
fn an_interactive_shell() {
    assert_eq!(
        pty_step(4, message(HdcCommand::ShellData, b"ls")),
        PtyStep::Input(b"ls".to_vec())
    );
    assert_eq!(
        pty_step(4, message(HdcCommand::HeartbeatMsg, b"x")),
        PtyStep::Reply(message(HdcCommand::HeartbeatMsg, b"x"))
    );
    assert_eq!(pty_step(4, message(HdcCommand::KernelChannelClose, b"")), PtyStep::End);
    assert_eq!(pty_step(4, message(HdcCommand::FileBegin, b"")), PtyStep::Pass);
    assert_eq!(pty_failed(4).payload, b"\x02Shell initialize failed\r\n".to_vec());
}

#[test]
fn a_file_comes_to_the_device() {
    let mut files = FileTaskMap::new();
    let init = message(HdcCommand::FileInit, b"file send a /data/b");
    assert_eq!(
        handle_file_task(&mut files, 1, init),
        FileStep::Send(vec![make_check(4, "/data/b", 0)])
    );
    let config = config_bytes(10, "", "/data/c", "", "");
    assert_eq!(
        handle_file_task(&mut files, 1, message(HdcCommand::FileCheck, &config)),
        FileStep::Send(vec![make_bare(4, HdcCommand::FileBegin)])
    );
    assert_eq!(files.get(1, 4).unwrap().total_size, 10);
    assert_eq!(
        handle_file_task(&mut files, 1, message(HdcCommand::FileBegin, b"")),
        FileStep::Create("/data/c".to_string())
    );
    assert_eq!(
        handle_file_task(&mut files, 1, message(HdcCommand::FileData, b"x")),
        FileStep::Pass
    );
    assert_eq!(file_created(&mut files, 1, 4, "Failed", &None), FileStep::Pass);
    assert_eq!(
        handle_file_task(&mut files, 1, message(HdcCommand::FileData, b"x")),
        FileStep::Write(b"x".to_vec())
    );
    assert_eq!(file_written(&mut files, 1, 4, 1, &None), FileStep::Pass);
    assert_eq!(files.get(1, 4).unwrap().received_size, 1);
    assert_eq!(
        handle_file_task(&mut files, 1, message(HdcCommand::FileFinish, b"")),
        FileStep::CloseAndSend(vec![make_close(4)])
    );
    assert!(files.get(1, 4).is_none());
}

#[test]
fn files_that_fail_on_the_device() {
    let mut files = FileTaskMap::new();
    let refusal =
        |text: &str| FileStep::Send(vec![make_echo(4, text, MessageLevel::Fail)]);
    assert_eq!(
        handle_file_task(&mut files, 1, message(HdcCommand::FileInit, b"file send a")),
        refusal("Invalid file init parameters")
    );
    assert_eq!(
        handle_file_task(&mut files, 1, message(HdcCommand::FileCheck, &[0x80])),
        refusal("Invalid transfer config")
    );
    assert_eq!(
        handle_file_task(&mut files, 1, message(HdcCommand::FileData, b"x")),
        refusal("File transfer not initialized")
    );
    assert_eq!(
        handle_file_task(&mut files, 1, message(HdcCommand::FileRecvInit, b"file recv")),
        refusal("Invalid file recv parameters")
    );
    assert_eq!(
        file_created(&mut files, 1, 4, FILE_NOT_MADE, &Some("x".to_string())),
        refusal("Failed to create file: x")
    );
    assert_eq!(
        file_written(&mut files, 1, 4, 1, &Some("full".to_string())),
        refusal("Write failed: full")
    );
    assert_eq!(
        file_missing(4, "x"),
        make_echo_and_close(4, "File not found: x", MessageLevel::Fail)
    );
    assert_eq!(
        open_failed(4, "x"),
        make_echo_and_close(4, "Failed to open file: x", MessageLevel::Fail)
    );
    assert_eq!(read_failed(4, "x"), make_echo(4, "Read failed: x", MessageLevel::Fail));
}

#[test]
fn a_file_goes_to_the_host() {
    let mut files = FileTaskMap::new();
    assert_eq!(
        handle_file_task(&mut files, 1, message(HdcCommand::FileRecvInit, b"file recv /a b")),
        FileStep::Stat("/a".to_string())
    );
    file_offered(&mut files, 1, 4, "/a", 3);
    file_offered(&mut files, 2, 4, "/z", 3);
    assert_eq!(files.get(1, 4).unwrap().direction, TransferDirection::Recv);
    assert_eq!(
        handle_file_task(&mut files, 1, message(HdcCommand::FileBegin, b"")),
        FileStep::Stream("/a".to_string())
    );
    assert_eq!(file_piece(4, b"abc".to_vec()), message(HdcCommand::FileData, b"abc"));
    assert_eq!(
        file_end(4),
        vec![message(HdcCommand::FileFinish, b""), make_close(4)]
    );
    assert!(files.remove(1, 4).is_some());
    assert_eq!(files.get(2, 4).unwrap().local_path, "/z");
    assert_eq!(
        parse_file_paths(b"file send -cwd /w a b"),
        Some(("a".to_string(), "b".to_string()))
    );
    assert_eq!(parse_file_paths(b"file send -cwd /w a"), None);
}

#[test]
fn a_package_comes_to_the_device() {
    let mut files = FileTaskMap::new();
    assert_eq!(
        handle_app_task(&mut files, 1, message(HdcCommand::AppInit, b"install /w/a.hap")),
        AppStep::Send(vec![message(HdcCommand::AppCheck, b"/data/local/tmp/a.hap")])
    );
    assert_eq!(
        handle_app_task(&mut files, 1, message(HdcCommand::AppCheck, b"")),
        AppStep::Send(vec![message(HdcCommand::AppBegin, b"")])
    );
    assert_eq!(
        handle_app_task(&mut files, 1, message(HdcCommand::AppBegin, b"")),
        AppStep::Create("/data/local/tmp/a.hap".to_string())
    );
    file_created(&mut files, 1, 4, "", &None);
    assert_eq!(
        handle_app_task(&mut files, 1, message(HdcCommand::AppData, b"x")),
        AppStep::Write(b"x".to_vec())
    );
    assert_eq!(
        handle_app_task(&mut files, 1, message(HdcCommand::AppFinish, b"")),
        AppStep::Install("/data/local/tmp/a.hap".to_string())
    );
    assert_eq!(
        handle_app_task(&mut files, 1, message(HdcCommand::AppFinish, b"")),
        AppStep::Send(vec![make_echo(4, "App install not initialized", MessageLevel::Fail)])
    );
    assert_eq!(
        handle_app_task(&mut files, 1, message(HdcCommand::AppInit, b"install")),
        AppStep::Send(vec![make_echo(4, "Missing app path", MessageLevel::Fail)])
    );
    assert_eq!(
        handle_app_task(&mut files, 1, message(HdcCommand::AppUninstall, b" com.x ")),
        AppStep::Uninstall("com.x".to_string())
    );
}

#[test]
fn the_end_of_an_installation() {
    let ran = |success: bool| Outcome::Ran {
        stdout: b"out".to_vec(),
        stderr: Vec::new(),
        success,
    };
    assert_eq!(
        make_package_report(4, &install_wording(), &ran(true)),
        vec![
            make_echo(4, "out", MessageLevel::Info),
            make_echo(4, "AppMod finish", MessageLevel::Success),
            make_close(4)
        ]
    );
    assert_eq!(
        make_package_report(4, &uninstall_wording(), &ran(false)),
        vec![
            make_echo(4, "out", MessageLevel::Info),
            make_echo(4, "Uninstall failed", MessageLevel::Fail),
            make_close(4)
        ]
    );
    assert_eq!(
        make_package_report(4, &install_wording(), &Outcome::NotRun("x".to_string())),
        make_echo_and_close(4, "Install command failed: x", MessageLevel::Fail)
    );
    assert_eq!(
        make_package_report(4, &uninstall_wording(), &Outcome::Unsupported),
        make_echo_and_close(
            4,
            "App uninstall not supported on this platform",
            MessageLevel::Fail
        )
    );
}

#[test]
fn nodes_of_the_device() {
    assert_eq!(parse_remote_node("tcp:80"), Ok(Node::Tcp(80)));
    assert_eq!(
        parse_remote_node("localabstract:x"),
        Ok(Node::Abstract("x".to_string()))
    );
    let said = |r: Result<Node, hdc::daemon::links::NodeError>| r.unwrap_err().message();
    assert_eq!(said(parse_remote_node("x")), "Invalid remote spec: x");
    assert_eq!(said(parse_remote_node("dev:x")), "Unsupported forward proto: dev");
    assert_eq!(
        said(parse_remote_node("tcp:")),
        "Invalid port: cannot parse integer from empty string"
    );
    assert_eq!(
        parse_listener_node("localreserved:x"),
        Ok(Node::Reserved("/dev/unix/socket/x".to_string()))
    );
    assert_eq!(
        parse_listener_node("localfilesystem:/x"),
        Ok(Node::Path("/x".to_string()))
    );
    assert_eq!(said(parse_listener_node("x")), "Invalid forward spec: x");
    assert_eq!(said(parse_listener_node("jdwp:1")), "Unsupported rport listener proto: jdwp");
}

#[test]
fn forwardings_of_the_device() {
    let mut state = ForwardState::new();
    let check = make_node_message(4, HdcCommand::ForwardCheck, 7, "tcp:80");
    assert_eq!(
        state.handle_forward_task(&check),
        ForwardStep::Probe(7, "tcp:80".to_string())
    );
    let active = make_node_message(4, HdcCommand::ForwardActiveSlave, 7, "tcp:80");
    assert_eq!(
        state.handle_forward_task(&active),
        ForwardStep::Connect(7, "tcp:80".to_string())
    );
    let data = make_link_message(4, HdcCommand::ForwardData, 7, b"abc");
    assert_eq!(state.handle_forward_task(&data), ForwardStep::Pass);
    assert_eq!(
        state.connected(4, 7, "tcp:80", true),
        make_node_message(4, HdcCommand::ForwardActiveMaster, 7, "tcp:80")
    );
    assert_eq!(
        state.handle_forward_task(&data),
        ForwardStep::Deliver(7, b"abc".to_vec())
    );
    let free = make_link_message(4, HdcCommand::ForwardFreeContext, 7, b"");
    assert_eq!(state.handle_forward_task(&free), ForwardStep::Free(7));
    assert_eq!(state.handle_forward_task(&data), ForwardStep::Pass);
    assert_eq!(state.connected(4, 8, "tcp:80", false).command, HdcCommand::ForwardFreeContext);
    assert_eq!(make_daemon_check_result(4, 7, true).payload, b"\0\0\0\x07\x01".to_vec());
    assert_eq!(make_daemon_check_result(4, 7, false).payload, b"\0\0\0\x07\0".to_vec());
    assert_eq!(
        state.handle_forward_task(&message(HdcCommand::ForwardRemove, b"")),
        ForwardStep::Send(make_echo(4, "Forward removed", MessageLevel::Success))
    );
}

#[test]
fn listeners_of_the_device() {
    let mut state = ForwardState::new();
    assert_eq!(
        state.handle_forward_task(&message(HdcCommand::ForwardInit, b"tcp:1 tcp:2")),
        ForwardStep::Listen("tcp:1".to_string(), "tcp:2".to_string())
    );
    assert!(matches!(
        state.handle_forward_task(&message(HdcCommand::ForwardInit, b"tcp:1")),
        ForwardStep::Send(_)
    ));
    state.listening(4);
    let listener = Listener::new(4, 9, "tcp:1", "tcp:2");
    assert_eq!(
        listener.question(),
        make_node_message(4, HdcCommand::ForwardCheck, 9, "tcp:2")
    );
    let note = match state.handle_forward_task(&make_check_result(4, 9, true)) {
        ForwardStep::Notify(n) => n,
        _ => panic!("the listener is told"),
    };
    assert_eq!(note, ListenerNote::CheckResult { id: 9, ok: true });
    assert_eq!(
        listener.asked(&Some(note)),
        AskedStep::Ready(message(HdcCommand::ForwardSuccess, b"0|tcp:1 tcp:2"))
    );
    assert_eq!(
        listener.asked(&Some(ListenerNote::CheckResult { id: 9, ok: false })),
        AskedStep::End
    );
    assert_eq!(
        listener.asked(&Some(ListenerNote::CheckResult { id: 8, ok: false })),
        AskedStep::Pass
    );
    assert_eq!(listener.asked(&None), AskedStep::End);
    state.connected(4, 20, "tcp:1", true);
    let end = state.handle_channel_close(4);
    assert!(end.had_listener && end.handled);
    assert_eq!(end.links, vec![20]);
    let again = state.handle_channel_close(4);
    assert!(!again.had_listener && again.links.is_empty());
    let other = Listener::open(4, "tcp:1", "tcp:2");
    assert_eq!(other.question().channel_id, 4);
}

#[test]
fn connections_of_a_listener() {
    assert_eq!(
        route_note(Some(ListenerNote::Data { id: 3, data: b"x".to_vec() })),
        NoteRoute::Tell(3, LinkNote::Data(b"x".to_vec()))
    );
    assert_eq!(
        route_note(Some(ListenerNote::Active { id: 3 })),
        NoteRoute::Tell(3, LinkNote::Active)
    );
    assert_eq!(route_note(Some(ListenerNote::Free { id: 3 })), NoteRoute::Free(3));
    assert_eq!(route_note(Some(ListenerNote::Shutdown)), NoteRoute::End);
    assert_eq!(
        route_note(Some(ListenerNote::CheckResult { id: 3, ok: true })),
        NoteRoute::Pass
    );
    assert_eq!(route_note(None), NoteRoute::End);
    let mut link = Link::new(4, 3);
    assert_eq!(link.id(), 3);
    assert_eq!(link.noted(Some(LinkNote::Data(b"x".to_vec()))), LinkStep::Pass);
    assert_eq!(link.noted(Some(LinkNote::Active)), LinkStep::Open);
    assert_eq!(
        link.noted(Some(LinkNote::Data(b"x".to_vec()))),
        LinkStep::Write(b"x".to_vec())
    );
    assert_eq!(link.noted(None), LinkStep::End);
    assert_eq!(
        link.request("tcp:2"),
        make_node_message(4, HdcCommand::ForwardActiveSlave, 3, "tcp:2")
    );
    assert_eq!(link.outgoing(b"y"), make_link_message(4, HdcCommand::ForwardData, 3, b"y"));
    assert_eq!(
        link.release(),
        make_link_message(4, HdcCommand::ForwardFreeContext, 3, b"")
    );
    assert_eq!(Link::open(4).request("t").channel_id, 4);
}

#[test]
fn what_cannot_be_made_is_told() {
    assert_eq!(
        listen_failed(4, "tcp:80", "in use"),
        make_echo(4, "Failed to bind tcp:80: in use", MessageLevel::Fail)
    );
    let mut files = FileTaskMap::new();
    assert_eq!(
        file_created(&mut files, 1, 4, PACKAGE_NOT_MADE, &Some("full".to_string())),
        FileStep::Send(vec![make_echo(4, "Failed to create temp file: full", MessageLevel::Fail)])
    );
}

#[test]
fn a_check_is_understood() {
    for reached in [true, false] {
        let params = ["fport", "tcp:1", "tcp:2"].map(|w| w.to_string());
        let (mut setup, _) = match ForwardSetup::begin(4, "127.0.0.1", &params, 9) {
            Ok(begun) => begun,
            Err(_) => panic!("the forwarding begins"),
        };
        setup.bound(None);
        setup.sent(None);
        let told = make_daemon_check_result(4, 9, reached);
        match setup.replied(&Reply::Message(told)) {
            SetupAction::Tell(s) => assert!(reached && s == FORWARD_OK),
            SetupAction::StartOver(_) => assert!(!reached),
            _ => panic!("the check is understood"),
        }
    }
}

#[test]
fn the_two_ends_of_a_forwarding() {
    let mut bridge = Bridge::new(4, 7);
    let mut state = ForwardState::new();
    assert_eq!(
        state.handle_forward_task(&bridge.request("tcp:80")),
        ForwardStep::Connect(7, "tcp:80".to_string())
    );
    let connected = state.connected(4, 7, "tcp:80", true);
    assert_eq!(route_forward(&connected), Route::Deliver(7, Vec::new()));
    assert_eq!(bridge.delivered(Vec::new()), BridgeStep::Open);
    assert_eq!(
        state.handle_forward_task(&bridge.outgoing(b"abc")),
        ForwardStep::Deliver(7, b"abc".to_vec())
    );
    assert_eq!(state.handle_forward_task(&bridge.release()), ForwardStep::Free(7));
}

#[test]
fn the_two_ends_of_a_reverse_forwarding() {
    let mut state = ForwardState::new();
    state.listening(4);
    let listener = Listener::new(4, 9, "tcp:1", "tcp:2");
    assert_eq!(
        reverse_step(4, &Reply::Message(listener.question())),
        ReverseStep::Probe(9, 2)
    );
    let told = match state.handle_forward_task(&make_check_result(4, 9, true)) {
        ForwardStep::Notify(n) => Some(n),
        _ => None,
    };
    match listener.asked(&told) {
        AskedStep::Ready(m) => assert_eq!(
            reverse_step(4, &Reply::Message(m)),
            ReverseStep::Ready(FORWARD_OK.to_string())
        ),
        _ => panic!("the listener is ready"),
    }
    let mut link = Link::new(4, 3);
    assert_eq!(route_reverse(4, &link.request("tcp:2")), ReverseRoute::Connect(3, 2));
    let told = match state.handle_forward_task(&make_connected(4, 3, true)) {
        ForwardStep::Notify(n) => Some(n),
        _ => None,
    };
    match route_note(told) {
        NoteRoute::Tell(3, n) => assert_eq!(link.noted(Some(n)), LinkStep::Open),
        _ => panic!("the connection is told"),
    }
    let sent = make_link_message(4, HdcCommand::ForwardData, 3, b"xyz");
    let told = match state.handle_forward_task(&sent) {
        ForwardStep::Notify(n) => Some(n),
        _ => None,
    };
    match route_note(told) {
        NoteRoute::Tell(3, n) => {
            assert_eq!(link.noted(Some(n)), LinkStep::Write(b"xyz".to_vec()))
        },
        _ => panic!("the connection is told"),
    }
    assert_eq!(
        route_reverse(4, &link.outgoing(b"ab")),
        ReverseRoute::Deliver(3, b"ab".to_vec())
    );
    assert_eq!(route_reverse(4, &link.release()), ReverseRoute::Free(3));
}
