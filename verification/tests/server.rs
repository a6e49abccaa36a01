use hdc::host::channel::{
    check_banner, check_ide_banner, client_answer, is_deveco, read_first_message, server_greeting,
    unpack_channel_handshake, FirstMessage, HandshakeError,
};
use hdc::host::client::check_server_answer;
use hdc::host::connect_map::{ConnectMap, DaemonInfo};
use hdc::host::deveco::{
    collect_reply, make_collected, make_ide_answer, make_send_failure, read_collected_length,
    read_ide_length,
    read_ide_request, read_ide_text, track_request, IdeRequest,
};
use hdc::host::dispatch::{
    ask_failed, collect_step, connected, discovered, dispatch_task, jdwp_option, make_failure,
    read_request, reconnect, remove_forwardings, request_of, task_failed, track_step, wait_step,
    words_of, Handler, Request, Task,
};
use hdc::host::forward_map::{ForwardDirection, ForwardEntry, ForwardMap};
use hdc::host::parser::split_opt_and_cmd;
use hdc::host::server::{find_pid, find_pids, make_fork_args};
use hdc::host::tcp_map::TcpMap;
use hdc::host::transfer::Reply;
use hdc::protocol::command::HdcCommand;
use hdc::protocol::config::{ConnStatus, ConnectType, TaskMessage};
use hdc::text::Utf8Fault;

fn words(line: &str) -> Vec<String> {
    line.split(' ').map(|w| w.to_string()).collect()
}

fn one_device() -> ConnectMap {
    let mut map = ConnectMap::new();
    map.put(
        "dev".to_string(),
        DaemonInfo {
            session_id: 7,
            conn_type: ConnectType::Tcp,
            conn_status: ConnStatus::Connected,
            dev_name: String::new(),
            version: String::new(),
        },
    );
    map
}

fn task(map: &ConnectMap, cmd: HdcCommand, key: &str, line: &str) -> Task {
    dispatch_task(map, &ForwardMap::new(), cmd, key, 3, &words(line))
}

fn reply(text: &str, strict: bool) -> Task {
    Task::Reply { text: text.as_bytes().to_vec(), strict }
}

#[test]
fn greetings_and_answers() {
    let g = server_greeting(0x01020304);
    assert_eq!(g.len(), 44);
    assert_eq!(g[..8], *b"OHOS HDC");
    assert_eq!(g[12..16], [4, 3, 2, 1]);
    let a = client_answer("any");
    assert_eq!(a.len(), 44);
    assert_eq!(unpack_channel_handshake(&a), Ok("any".to_string()));
    assert_eq!(check_banner(&g), Ok(()));
    assert_eq!(check_banner(b"OHOS HDD"), Err(HandshakeError::BadBanner));
    let fault = Utf8Fault { valid_up_to: 0, error_len: Some(1) };
    assert_eq!(check_banner(&[0xff; 8]), Err(HandshakeError::Greeting(fault)));
    assert_eq!(
        HandshakeError::Greeting(fault).message(),
        "handshake from_utf8 error: invalid utf-8 sequence of 1 bytes from index 0"
    );
    assert_eq!(unpack_channel_handshake(&[0xff; 12]), Err(HandshakeError::NotUtf8));
    let mut bad = a.clone();
    bad[12] = 0xff;
    assert_eq!(unpack_channel_handshake(&bad), Err(HandshakeError::BadKey));
    assert_eq!(HandshakeError::BadBanner.message(), "Recv server-hello failed");
    assert_eq!(HandshakeError::NotUtf8.message(), "not utf-8 chars");
    assert_eq!(HandshakeError::BadKey.message(), "unpack connect key failed");
}

#[test]
fn the_first_message_of_a_client() {
    assert_eq!(
        read_first_message(&client_answer("dev")),
        FirstMessage::Answer("dev".to_string())
    );
    assert_eq!(
        read_first_message(&client_answer("")),
        FirstMessage::Answer("any".to_string())
    );
    assert_eq!(read_first_message(b"list"), FirstMessage::Command);
    assert_eq!(read_first_message(b"list targets"), FirstMessage::Command);
}

#[test]
fn a_development_environment_is_known_by_its_head() {
    let mut head = vec![0u8; 48];
    head[3] = 0x2c;
    head[4..12].copy_from_slice(b"OHOS HDC");
    assert!(is_deveco(&head));
    assert!(check_ide_banner(&head));
    assert!(!is_deveco(&head[..47]));
    head[3] = 0;
    assert!(!is_deveco(&head));
    head[0] = 0x2c;
    assert!(is_deveco(&head));
    head[4] = 0;
    assert!(!is_deveco(&head));
}

#[test]
fn targets_are_listed() {
    let none = ConnectMap::new();
    assert_eq!(
        task(&none, HdcCommand::KernelTargetList, "", "list targets"),
        reply("[Empty]\r\n", true)
    );
    let one = one_device();
    assert_eq!(
        task(&one, HdcCommand::KernelTargetList, "", "list targets"),
        reply("dev\r\n", true)
    );
    assert_eq!(
        task(&one, HdcCommand::KernelTargetList, "", "list targets -v"),
        reply("dev\t\tTCP\tConnected\tunknown...\r\n", true)
    );
}

#[test]
fn commands_that_the_server_answers_itself() {
    let map = one_device();
    assert_eq!(
        task(&map, HdcCommand::KernelCheckServer, "", "checkserver"),
        Task::Reply { text: b"\x0d\x00Ver: 3.2.0e".to_vec(), strict: true }
    );
    assert_eq!(
        task(&map, HdcCommand::ClientVersion, "", "version"),
        reply("Ver: 3.2.0e", true)
    );
    assert_eq!(task(&map, HdcCommand::KernelEnableKeepalive, "", "alive"), Task::KeepAlive);
    assert_eq!(task(&map, HdcCommand::KernelWaitFor, "", "wait"), Task::Wait);
    assert_eq!(task(&map, HdcCommand::KernelTargetDiscover, "", "discover"), Task::Discover);
    assert_eq!(
        task(&map, HdcCommand::KernelTargetConnect, "", "tconn"),
        reply("[Fail]Missing connect address\r\n", true)
    );
    assert_eq!(
        task(&map, HdcCommand::KernelTargetConnect, "", "tconn 1.2.3.4:5555"),
        Task::Connect("1.2.3.4:5555".to_string())
    );
    assert_eq!(
        task(&map, HdcCommand::KernelCheckDevice, "any", "checkdevice"),
        reply("Device dev is connected\r\n", true)
    );
    assert_eq!(
        task(&map, HdcCommand::KernelCheckDevice, "any", "checkdevice x"),
        reply("[Fail]Device x is not connected\r\n", true)
    );
    assert_eq!(
        task(&map, HdcCommand::KernelTargetReconnect, "any", "reconnect dev"),
        Task::Reconnect { key: "dev".to_string(), session_id: 7 }
    );
    assert_eq!(
        task(&map, HdcCommand::SpawnSub, "", "killall-sub"),
        reply("Kill all subserver processes (not fully implemented)\r\n", true)
    );
}

#[test]
fn commands_for_a_device() {
    let map = one_device();
    let run = |handler: Handler| Task::Run { handler, key: "dev".to_string(), session_id: 7 };
    assert_eq!(task(&map, HdcCommand::FileInit, "any", "file send a b"), run(Handler::FileSend));
    assert_eq!(task(&map, HdcCommand::AppInit, "dev", "install a.hap"), run(Handler::AppInstall));
    assert_eq!(task(&map, HdcCommand::FlashdErase, "any", "erase x"), run(Handler::Flash));
    assert_eq!(
        task(&map, HdcCommand::FileInit, "x", "file send a b"),
        reply("[Fail]Session not found\r\n", false)
    );
    assert_eq!(
        task(&ConnectMap::new(), HdcCommand::FileInit, "any", "file send a b"),
        reply("[Fail]No device connected\r\n", false)
    );
    let ask = |command: HdcCommand, payload: &[u8], close_on_failure: bool, collect: bool| {
        Task::Ask {
            session_id: 7,
            message: TaskMessage { channel_id: 3, command, payload: payload.to_vec() },
            close_on_failure,
            collect,
        }
    };
    assert_eq!(
        task(&map, HdcCommand::UnityExecute, "any", "shell echo hello"),
        ask(HdcCommand::UnityExecute, b"echo hello", false, false)
    );
    assert_eq!(
        task(&map, HdcCommand::AppUninstall, "any", "uninstall com.x"),
        ask(HdcCommand::AppUninstall, b"com.x", false, true)
    );
    assert_eq!(
        task(&map, HdcCommand::JdwpList, "any", "jpid"),
        ask(HdcCommand::JdwpList, b"", true, false)
    );
    assert_eq!(
        task(&map, HdcCommand::UnityExecuteEx, "any", "shell - ls"),
        ask(HdcCommand::UnityExecuteEx, b"shell - ls", false, false)
    );
    assert_eq!(
        task(&map, HdcCommand::JdwpTrack, "any", "track-jpid -p"),
        Task::Track {
            session_id: 7,
            message: TaskMessage {
                channel_id: 3,
                command: HdcCommand::JdwpTrack,
                payload: vec![b'p']
            }
        }
    );
    assert_eq!(jdwp_option(&words("track-jpid -a -p")), vec![b'a']);
}

#[test]
fn forwardings_of_the_server() {
    let map = one_device();
    let mut rules = ForwardMap::new();
    let list = |rules: &ForwardMap| {
        dispatch_task(&map, rules, HdcCommand::ForwardList, "any", 3, &words("fport ls"))
    };
    assert_eq!(list(&rules), reply("[Empty]\r\n", false));
    rules.insert(
        "tcp:1 tcp:2".to_string(),
        ForwardEntry {
            channel_id: 1,
            session_id: 7,
            connect_key: "dev".to_string(),
            direction: ForwardDirection::Forward,
            task_string: "tcp:1 tcp:2".to_string(),
            has_listener: true,
        },
    );
    assert_eq!(list(&rules), reply("dev    tcp:1 tcp:2    [Forward]\r\n", false));
    assert_eq!(
        task(&map, HdcCommand::ForwardRemove, "any", "fport rm tcp:1 tcp:2"),
        Task::RemoveForwardings("tcp:1 tcp:2".to_string())
    );
    let (told, removed) = remove_forwardings(&mut rules, "any", "tcp:9");
    assert_eq!(
        told,
        reply("[Fail]Remove forward ruler failed, ruler is not exist tcp:9\r\n", false)
    );
    assert!(removed.is_empty());
    let (told, removed) = remove_forwardings(&mut rules, "any", "");
    assert_eq!(told, reply("Remove forward ruler success, removed 1 rulers\r\n", false));
    assert!(removed[0].entry.has_listener);
}

#[test]
fn what_follows_from_outside() {
    let mut map = one_device();
    assert_eq!(
        discovered(&mut map, Some(words("dev 1.1.1.1:1 1.1.1.1:1"))),
        reply("Broadcast find daemon, total:1\r\n", true)
    );
    assert!(map.contains_key("1.1.1.1:1"));
    assert_eq!(
        discovered(&mut map, None),
        reply("Broadcast find daemon, total:0\r\n", true)
    );
    assert_eq!(connected(None), reply("Connect OK\r\n", true));
    assert_eq!(
        connected(Some("refused".to_string())),
        reply("[Fail]Connect to daemon failed: refused\r\n", true)
    );
    assert_eq!(task_failed("x"), reply("[Fail]x\r\n", false));
    assert_eq!(ask_failed("x"), b"[Fail]Send to daemon failed: x\r\n".to_vec());
    assert_eq!(make_failure("x"), "[Fail]x\r\n");
    let mut tcp = TcpMap::new();
    tcp.start_session(7);
    assert_eq!(
        reconnect(&mut map, &mut tcp, "dev", 7),
        (reply("Reconnecting dev ...\r\n", true), true)
    );
    assert!(!map.contains_key("dev"));
}

#[test]
fn waiting_for_a_device() {
    let none = wait_step(&ConnectMap::new());
    assert_eq!(none.text, b"[Fail]No any connected target\r\n".to_vec());
    assert!(none.again);
    let one = wait_step(&one_device());
    assert_eq!(one.text, b"Wait for connected target dev\r\n".to_vec());
    assert!(!one.again);
}

#[test]
fn answers_that_are_passed_on() {
    let m = |command: HdcCommand, payload: &[u8]| TaskMessage {
        channel_id: 1,
        command,
        payload: payload.to_vec(),
    };
    assert_eq!(track_step(&m(HdcCommand::KernelEcho, &[2, b'x'])), Some(b"x".to_vec()));
    assert_eq!(track_step(&m(HdcCommand::JdwpTrack, b"12")), Some(b"12".to_vec()));
    assert_eq!(track_step(&m(HdcCommand::KernelChannelClose, &[])), None);
    assert_eq!(
        collect_step(&m(HdcCommand::AppFinish, &[b'a', 0xff])),
        Some("a\u{fffd}".as_bytes().to_vec())
    );
    assert_eq!(collect_step(&m(HdcCommand::KernelChannelClose, &[])), None);
}

#[test]
fn what_clients_ask_for() {
    assert_eq!(request_of("shell"), Request::Shell);
    assert_eq!(
        request_of("shell ls"),
        Request::Command(HdcCommand::UnityExecute, words("shell ls"))
    );
    assert_eq!(
        read_request(b"list targets\0"),
        Request::Command(HdcCommand::KernelTargetList, words("list targets"))
    );
    assert_eq!(request_of(""), Request::Nothing);
    assert_eq!(request_of("nonsense"), Request::Unknown);
    assert_eq!(words_of("a b\0\0"), words("a b"));
}

#[test]
fn the_frames_of_a_development_environment() {
    assert_eq!(read_ide_length(&[0, 0, 0, 5]), Some(5));
    assert_eq!(read_ide_length(&[0, 0, 0, 0]), None);
    assert_eq!(read_ide_length(&[0xff, 0, 0, 0]), None);
    assert_eq!(read_collected_length(&[0, 0, 1, 0]), Some(256));
    assert_eq!(read_collected_length(&[0xff, 0, 0, 0]), None);
    assert_eq!(read_ide_text(b"list\0"), "list");
    assert_eq!(make_ide_answer("ok"), b"\0\0\0\x03ok\n".to_vec());
    assert_eq!(make_ide_answer("ok\n"), b"\0\0\0\x03ok\n".to_vec());
    assert_eq!(make_ide_answer(""), vec![0, 0, 0, 0]);
}

#[test]
fn what_a_development_environment_asks_for() {
    let map = one_device();
    match read_ide_request("list targets -v", &map, "/w") {
        IdeRequest::Answer(t) => assert_eq!(t, "dev TCP Connected"),
        _ => panic!("the server answers itself"),
    }
    assert!(matches!(
        read_ide_request("shell ls", &map, "/w"),
        IdeRequest::Run(HdcCommand::UnityExecute, _, _)
    ));
    assert!(matches!(read_ide_request("track-jpid -p", &map, "/w"), IdeRequest::Track(_)));
    assert_eq!(
        read_ide_request("file send a b", &map, "/w"),
        IdeRequest::Run(HdcCommand::FileInit, words("file send -cwd /w a b"), 300)
    );
    assert_eq!(
        read_ide_request("fport ls", &map, "/w"),
        IdeRequest::Run(HdcCommand::ForwardList, words("fport ls"), 60)
    );
    assert_eq!(
        read_ide_request("shell", &map, "/w"),
        IdeRequest::Answer(
            "[Fail]Interactive shell is not supported over IDE socket\r\n".to_string()
        )
    );
    assert_eq!(
        read_ide_request("what", &map, "/w"),
        IdeRequest::Answer("[Fail]Unknown command: what\r\n".to_string())
    );
    assert_eq!(read_ide_request("alive", &map, "/w"), IdeRequest::Answer(String::new()));
    assert_eq!(
        read_ide_request("list targets", &map, "/w"),
        IdeRequest::Answer("dev".to_string())
    );
    let track = track_request(9, &words("track-jpid -a"));
    assert_eq!((track.channel_id, track.command), (9, HdcCommand::JdwpTrack));
}

#[test]
fn answers_are_collected_for_a_development_environment() {
    let mut out = String::new();
    let m = |command: HdcCommand, payload: &[u8]| {
        Reply::Message(TaskMessage { channel_id: 1, command, payload: payload.to_vec() })
    };
    assert!(!collect_reply(&mut out, m(HdcCommand::KernelEchoRaw, b"abc")));
    assert_eq!(out, "abc");
    assert!(collect_reply(&mut out, m(HdcCommand::KernelChannelClose, &[])));
    assert!(collect_reply(&mut out, Reply::Closed));
    let mut odd = String::new();
    assert!(!collect_reply(&mut odd, m(HdcCommand::KernelEchoRaw, &[0xff, 0xfe])));
    assert_eq!(odd, "[binary 2 bytes]");
    let mut late = String::new();
    assert!(collect_reply(&mut late, Reply::TimedOut));
    assert_eq!(late, "[Fail]Command timed out\r\n");
    assert_eq!(make_collected(b"abc", true, &None), "abc");
    assert_eq!(make_collected(b"", true, &None), "[Fail]Command timed out\r\n");
    assert_eq!(make_collected(b"", false, &None), "");
    assert_eq!(
        make_collected(b"", true, &Some("gone".to_string())),
        "[Fail]Failed to send command to device: gone\r\n"
    );
    assert_eq!(make_collected(b"abc", false, &Some("gone".to_string())), "abc");
    assert_eq!(make_send_failure("x"), "[Fail]Failed to send command to device: x\r\n");
}

#[test]
fn processes_of_the_server() {
    assert_eq!(
        make_fork_args("127.0.0.1:8710", 3, "0.0.0.0"),
        words("-b -m -l 3 -s 127.0.0.1:8710 -e 0.0.0.0")
    );
    assert_eq!(
        make_fork_args("[::1]:8710", 0, "127.0.0.1"),
        words("-b -m -l 0 -s [::1]:8710")
    );
    assert_eq!(find_pid("nothing here"), None);
    assert_eq!(find_pid("hdc.exe    1234 Console"), Some(1234));
    assert_eq!(find_pid("user 42 0.0 hdc -m"), Some(42));
    assert_eq!(find_pid("hdc.exe"), None);
    assert_eq!(find_pid("hdc.exe pid"), None);
    assert!(find_pids("").is_empty());
    assert_eq!(find_pids("head\r\nhdc.exe 1 x\r\n\r\nhdc.exe 2"), vec![1, 2]);
}

#[test]
fn the_server_understands_the_client() {
    for line in ["list targets -v", "fport ls", "fport tcp:1 tcp:2", "install -r a.hap", "tconn 1.2.3.4:5"] {
        let parsed = split_opt_and_cmd(words(&format!("-t key {line}")));
        let command = parsed.command.unwrap();
        assert_eq!(parsed.parameters, words(line));
        let again = split_opt_and_cmd(parsed.parameters.clone());
        assert_eq!(again.command, Some(command));
        assert_eq!(again.options, Vec::<String>::new());
        assert_eq!(
            read_request(line.as_bytes()),
            Request::Command(command, words(line))
        );
    }
    assert_eq!(read_request(b"shell\0"), Request::Shell);

    let answer = match task(&one_device(), HdcCommand::KernelCheckServer, "any", "checkserver") {
        Task::Reply { text, .. } => text,
        other => panic!("{other:?}"),
    };
    assert_eq!(
        check_server_answer(&answer),
        Ok("client Ver: 3.2.0e, server Ver: 3.2.0e".to_string())
    );
}
