use hdc::host::client::{
    answer_text, check_server_answer, client_start, console_key, plan_command, show_answer,
    waits_on, ClientError, ClientPlan, ClientStart, Reading, ServerAnswerError, Shown,
};
use hdc::host::parser::parse_command;
use hdc::protocol::command::HdcCommand;
use hdc::text::Utf8Fault;

fn words(line: &str) -> Vec<String> {
    line.split(' ').map(|w| w.to_string()).collect()
}

fn start(line: &str) -> ClientStart {
    client_start(&parse_command(words(line)).unwrap())
}

#[test]
fn what_command_lines_lead_to() {
    assert_eq!(start("hdc start"), ClientStart::StartServer { kill_first: false });
    assert_eq!(start("hdc start -r"), ClientStart::StartServer { kill_first: true });
    assert_eq!(start("hdc kill -r"), ClientStart::KillServer { start_after: true });
    assert_eq!(start("hdc help"), ClientStart::Help);
    assert_eq!(start("hdc keygen k"), ClientStart::MakeKey);
    assert_eq!(start("hdc shell ls"), ClientStart::Ask { launch: true });
    assert_eq!(start("hdc -p shell ls"), ClientStart::Ask { launch: false });
}

fn plan(command: HdcCommand, line: &str) -> Result<ClientPlan, ClientError> {
    plan_command(command, words(line), "/w/")
}

fn sends(text: &str, reading: Reading) -> Result<ClientPlan, ClientError> {
    Ok(ClientPlan::Send(text.as_bytes().to_vec(), reading))
}

#[test]
fn what_commands_send() {
    assert_eq!(
        plan(HdcCommand::KernelTargetList, "list targets"),
        sends("list targets", Reading::Texts)
    );
    assert_eq!(
        plan(HdcCommand::FileInit, "file send a b"),
        sends("file send -cwd /w/ a b", Reading::All)
    );
    assert_eq!(
        plan(HdcCommand::AppInit, "install a.hap"),
        sends("install -cwd /w/ a.hap", Reading::All)
    );
    assert_eq!(
        plan(HdcCommand::AppUninstall, "uninstall x"),
        sends("uninstall x", Reading::Lines)
    );
    assert_eq!(plan(HdcCommand::UnityRootrun, "smode -r"), sends("smode r", Reading::All));
    assert_eq!(plan(HdcCommand::UnityExecute, "shell"), sends("shell\0", Reading::Shell));
    assert_eq!(plan(HdcCommand::UnityExecute, "shell ls"), sends("shell ls", Reading::All));
    assert_eq!(plan(HdcCommand::KernelWaitFor, "wait"), sends("wait", Reading::Wait));
    assert_eq!(
        plan(HdcCommand::UnityBugreportInit, "bugreport f"),
        sends("bugreport f", Reading::File("f".to_string()))
    );
    assert_eq!(
        plan(HdcCommand::UnityBugreportInit, "bugreport"),
        sends("bugreport", Reading::Texts)
    );
    assert_eq!(
        plan(HdcCommand::KernelCheckServer, "checkserver"),
        sends("checkserver", Reading::Server)
    );
    assert_eq!(plan(HdcCommand::ClientVersion, "version"), sends("version", Reading::Version));
    assert_eq!(plan(HdcCommand::KernelHelp, "help"), Ok(ClientPlan::Help));
}

#[test]
fn commands_that_are_not_sent() {
    assert_eq!(plan(HdcCommand::ForwardInit, "fport tcp:1"), Err(ClientError::TooFew));
    assert_eq!(plan(HdcCommand::ForwardRemove, "fport"), Err(ClientError::TooFew));
    let e = plan(HdcCommand::KernelHandshake, "x").unwrap_err();
    assert_eq!(e, ClientError::Unknown(1));
    assert_eq!(e.message(), "unknown command: 1");
    assert!(e.is_shown());
    assert_eq!(ClientError::TooFew.message(), "Too few arguments.");
    assert!(!ClientError::TooFew.is_shown());
}

#[test]
fn what_is_shown_of_answers() {
    assert_eq!(show_answer(b"ok".to_vec()), Shown::Text("ok".to_string()));
    assert_eq!(
        show_answer(vec![0xff, 0x0a]),
        Shown::Remark("[binary data: [ff, 0a]]".to_string())
    );
    assert_eq!(answer_text(&Reading::Texts, b"ok".to_vec()), Ok("ok".to_string()));
    for bytes in [vec![0xff], vec![b'a', 0xe2, 0x82], vec![0xc3, 0xa9, 0xf0, 0x9f, 0x41]] {
        let e = String::from_utf8(bytes.clone()).unwrap_err();
        assert_eq!(answer_text(&Reading::Lines, bytes.clone()), Err(e.to_string()));
        assert_eq!(
            answer_text(&Reading::Texts, bytes.clone()),
            Err(format!("recv data to str failed: {e}"))
        );
        assert_eq!(
            answer_text(&Reading::Version, bytes.clone()),
            Err(format!("from_utf8 failed: {e}"))
        );
    }
    assert!(waits_on(b"[Fail]No any connected target\r\n".to_vec()));
    assert!(!waits_on(b"Wait for connected target x\r\n".to_vec()));
}

#[test]
fn the_version_of_the_server() {
    assert_eq!(
        check_server_answer(b"\x0d\x00Ver: 1"),
        Ok("client Ver: 3.2.0e, server Ver: 1".to_string())
    );
    assert_eq!(check_server_answer(b"\x0d"), Err(ServerAnswerError::TooShort));
    assert_eq!(check_server_answer(b"\x0e\x00v"), Err(ServerAnswerError::OtherCommand));
    let fault = Utf8Fault { valid_up_to: 0, error_len: Some(1) };
    let no_text = ServerAnswerError::NotText(fault);
    assert_eq!(check_server_answer(&[0x0d, 0, 0xff]), Err(no_text));
    assert_eq!(ServerAnswerError::TooShort.message(), "recv failed");
    assert_eq!(ServerAnswerError::OtherCommand.message(), "recv cmd error");
    assert_eq!(
        no_text.message(),
        "from_utf8 failed: invalid utf-8 sequence of 1 bytes from index 0"
    );
}

#[test]
fn keys_of_a_console() {
    assert_eq!(console_key(0x26, 0, false), Some(b"\x1b[A".to_vec()));
    assert_eq!(console_key(0x2e, 0, false), Some(b"\x1b[3~".to_vec()));
    assert_eq!(console_key(0x43, 0, true), Some(vec![3]));
    assert_eq!(console_key(0x43, 0, false), None);
    for c in ['a', '\u{e9}', '\u{20ac}'] {
        let mut buf = [0u8; 4];
        let text = c.encode_utf8(&mut buf).as_bytes().to_vec();
        assert_eq!(console_key(0, c as u16, false), Some(text));
    }
    assert_eq!(console_key(0, 0xd800, false), None);
}
