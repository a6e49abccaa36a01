use hdc::host::forward::{
    get_forward_listen_ip, make_check_result, make_init_message, make_link_message,
    make_node_message, parse_forward_port, parse_port, set_forward_listen_ip, ForwardError,
    ListenIp, PortFault,
};
use hdc::host::forward_bridge::{
    make_connected, parse_reverse_nodes, reverse_entry, reverse_rule, reverse_step, route_forward,
    route_reverse, Bridge, BridgeStep, ReverseRoute, ReverseStep, Route,
};
use hdc::host::forward_map::{ForwardDirection, ForwardEntry};
use hdc::host::forward_setup::{ForwardSetup, SetupAction, FORWARD_OK};
use hdc::host::transfer::Reply;
use hdc::protocol::command::HdcCommand;
use hdc::protocol::config::TaskMessage;

fn words(line: &str) -> Vec<String> {
    line.split(' ').map(|w| w.to_string()).collect()
}

fn reply(m: TaskMessage) -> Reply {
    Reply::Message(m)
}

fn echo(text: &str) -> Reply {
    reply(TaskMessage {
        channel_id: 4,
        command: HdcCommand::KernelEcho,
        payload: text.as_bytes().to_vec(),
    })
}

fn close() -> Reply {
    reply(TaskMessage {
        channel_id: 4,
        command: HdcCommand::KernelChannelClose,
        payload: vec![0],
    })
}

#[test]
fn the_address_to_listen_on_is_set_once() {
    let mut cell = ListenIp::new();
    assert_eq!(get_forward_listen_ip(&cell), "127.0.0.1");
    set_forward_listen_ip(&mut cell, "0.0.0.0".to_string());
    set_forward_listen_ip(&mut cell, "10.0.0.1".to_string());
    assert_eq!(get_forward_listen_ip(&cell), "0.0.0.0");
}

#[test]
fn numbers_of_ports() {
    assert_eq!(parse_port("8080"), Ok(8080));
    assert_eq!(parse_port("+80"), Ok(80));
    assert_eq!(parse_port("65535"), Ok(65535));
    assert_eq!(parse_port(""), Err(PortFault::Empty));
    assert_eq!(parse_port("+"), Err(PortFault::BadDigit));
    assert_eq!(parse_port("8x"), Err(PortFault::BadDigit));
    assert_eq!(parse_port("65536"), Err(PortFault::TooLarge));
    assert_eq!(parse_port("65536x"), Err(PortFault::TooLarge));
    assert_eq!(PortFault::Empty.message(), "cannot parse integer from empty string");
    assert_eq!(PortFault::BadDigit.message(), "invalid digit found in string");
    assert_eq!(PortFault::TooLarge.message(), "number too large to fit in target type");
}

#[test]
fn nodes_of_the_host() {
    assert_eq!(parse_forward_port("tcp:80"), Ok(80));
    assert_eq!(parse_forward_port("80"), Err(ForwardError::NoColon));
    let e = parse_forward_port("udp:80").unwrap_err();
    assert_eq!(e.message(), "Host only supports tcp: forward spec, got udp");
    let e = parse_forward_port("tcp:x").unwrap_err();
    assert_eq!(e.message(), "Invalid port number: invalid digit found in string");
    assert_eq!(
        ForwardError::NoColon.message(),
        "Invalid forward spec, expected proto:port"
    );
}

#[test]
fn forwardings_that_do_not_begin() {
    let fault = |line: &str| match ForwardSetup::begin(4, "127.0.0.1", &words(line), 9) {
        Err(e) => e,
        Ok(_) => panic!("the forwarding is refused"),
    };
    assert_eq!(fault("fport tcp:1"), ForwardError::MissingNodes);
    assert_eq!(fault("fport udp:1 tcp:2"), ForwardError::LocalNotTcp);
    assert_eq!(fault("fport tcp:x tcp:2"), ForwardError::BadPort(PortFault::BadDigit));
    assert_eq!(
        fault("fport tcp:1 what:2").message(),
        "Unsupported remote forward node: what:2"
    );
    assert_eq!(
        ForwardError::LocalNotTcp.message(),
        "Local forward node must be tcp:<port>"
    );
    assert!(ForwardError::MissingNodes.message().starts_with("Invalid forward parameters."));
}

fn begun(line: &str) -> (ForwardSetup, SetupAction) {
    match ForwardSetup::begin(4, "127.0.0.1", &words(line), 9) {
        Ok(x) => x,
        Err(_) => panic!("the forwarding begins"),
    }
}

#[test]
fn a_forwarding_that_the_host_begins() {
    let (mut setup, first) = begun("fport tcp:8080 tcp:80");
    assert_eq!(first, SetupAction::Bind("127.0.0.1:8080".to_string()));
    assert_eq!(
        setup.bound(None),
        SetupAction::RegisterAndSend(
            9,
            make_node_message(4, HdcCommand::ForwardCheck, 9, "tcp:80")
        )
    );
    assert_eq!(setup.sent(None), SetupAction::Await(5));
    assert_eq!(setup.replied(&echo("x")), SetupAction::Pass);
    assert_eq!(setup.replied(&reply(make_check_result(4, 8, true))), SetupAction::Pass);
    assert_eq!(
        setup.replied(&reply(make_check_result(4, 9, true))),
        SetupAction::Tell(FORWARD_OK.to_string())
    );
    assert_eq!(setup.sent(None), SetupAction::Establish);
    assert_eq!(setup.rule(), "tcp:8080 tcp:80");
    assert_eq!(
        setup.entry(3, "dev"),
        ForwardEntry {
            channel_id: 4,
            session_id: 3,
            connect_key: "dev".to_string(),
            direction: ForwardDirection::Forward,
            task_string: "tcp:8080 tcp:80".to_string(),
            has_listener: true,
        }
    );
    assert_eq!(setup.daemon_spec(), "tcp:80");
    assert_eq!(setup.sent(None), SetupAction::Pass);
}

#[test]
fn a_forwarding_that_the_daemon_begins() {
    let (mut setup, _) = begun("fport tcp:8080 tcp:80");
    assert_eq!(
        setup.bound(Some("in use".to_string())),
        SetupAction::StartOver(make_init_message(4, "tcp:8080", "tcp:80"))
    );
    assert_eq!(setup.sent(None), SetupAction::Await(10));
    let check = make_node_message(4, HdcCommand::ForwardCheck, 77, "tcp:80");
    assert_eq!(
        setup.replied(&reply(check)),
        SetupAction::Bind("127.0.0.1:8080".to_string())
    );
    assert_eq!(
        setup.bound(None),
        SetupAction::SendUsb(make_check_result(4, 77, true))
    );
    assert_eq!(setup.sent(None), SetupAction::Await(5));
    assert_eq!(
        setup.replied(&echo("Forwardport result:OK")),
        SetupAction::Tell(FORWARD_OK.to_string())
    );
    assert_eq!(setup.sent(None), SetupAction::Establish);
}

#[test]
fn a_forwarding_for_a_debugger() {
    let (mut setup, first) = begun("fport tcp:8080 ark:1@x");
    assert_eq!(
        first,
        SetupAction::StartOver(make_init_message(4, "tcp:8080", "ark:1@x"))
    );
    setup.sent(None);
    setup.replied(&reply(make_node_message(4, HdcCommand::ForwardCheck, 77, "ark:1@x")));
    setup.bound(None);
    setup.sent(None);
    assert_eq!(
        setup.replied(&Reply::TimedOut),
        SetupAction::Send(make_node_message(4, HdcCommand::ForwardCheck, 77, "ark:1@x"))
    );
    assert_eq!(setup.sent(None), SetupAction::Await(5));
    assert_eq!(
        setup.replied(&reply(make_check_result(4, 77, false))),
        SetupAction::Tell(FORWARD_OK.to_string())
    );
    assert_eq!(
        setup.sent(Some("gone".to_string())),
        SetupAction::Fail("gone".to_string())
    );
}

#[test]
fn forwardings_that_fail() {
    let waiting = || {
        let (mut setup, _) = begun("fport tcp:8080 jdwp:1");
        setup.sent(None);
        setup
    };
    assert_eq!(
        waiting().replied(&Reply::TimedOut),
        SetupAction::Fail("Timeout waiting for ForwardCheck from daemon".to_string())
    );
    assert_eq!(
        waiting().replied(&Reply::Closed),
        SetupAction::Fail("Response channel closed while waiting for ForwardCheck".to_string())
    );
    assert_eq!(
        waiting().replied(&close()),
        SetupAction::Fail("Channel closed by daemon during forward setup".to_string())
    );
    let short = make_link_message(4, HdcCommand::ForwardCheck, 1, b"");
    assert_eq!(
        waiting().replied(&reply(short)),
        SetupAction::Fail("ForwardCheck payload too short".to_string())
    );
    let mut busy = waiting();
    busy.replied(&reply(make_node_message(4, HdcCommand::ForwardCheck, 5, "jdwp:1")));
    assert_eq!(
        busy.bound(Some("in use".to_string())),
        SetupAction::Refuse(
            make_check_result(4, 5, false),
            "Failed to bind 127.0.0.1:8080: in use".to_string()
        )
    );
}

#[test]
fn a_drawn_number_serves_as_well() {
    assert!(ForwardSetup::start(4, "127.0.0.1", &words("fport tcp:1 tcp:2")).is_ok());
    assert!(ForwardSetup::start(4, "127.0.0.1", &words("fport tcp:1")).is_err());
}

#[test]
fn a_connection_of_a_forwarding() {
    let mut bridge = Bridge::new(4, 0x01020304);
    assert_eq!(bridge.id(), 0x01020304);
    let request = bridge.request("tcp:80");
    assert_eq!(request.command, HdcCommand::ForwardActiveSlave);
    assert_eq!(request.payload, b"\x01\x02\x03\x04\0\0\0\0\0\0\0\0tcp:80\0".to_vec());
    assert_eq!(bridge.delivered(b"early".to_vec()), BridgeStep::Pass);
    assert_eq!(bridge.delivered(Vec::new()), BridgeStep::Open);
    assert_eq!(bridge.delivered(b"x".to_vec()), BridgeStep::Write(b"x".to_vec()));
    assert_eq!(bridge.outgoing(b"y").payload, b"\x01\x02\x03\x04y".to_vec());
    assert_eq!(bridge.release().command, HdcCommand::ForwardFreeContext);
    let other = Bridge::open(4);
    assert_eq!(other.request("t").channel_id, 4);
}

#[test]
fn where_messages_of_a_forwarding_go() {
    let m = |c: HdcCommand, data: &[u8]| make_link_message(4, c, 7, data);
    assert_eq!(
        route_forward(&m(HdcCommand::ForwardData, b"abc")),
        Route::Deliver(7, b"abc".to_vec())
    );
    assert_eq!(
        route_forward(&m(HdcCommand::ForwardActiveMaster, b"")),
        Route::Deliver(7, Vec::new())
    );
    assert_eq!(route_forward(&m(HdcCommand::ForwardFreeContext, b"")), Route::Free(7));
    assert_eq!(route_forward(&m(HdcCommand::ForwardSuccess, b"")), Route::Pass);
    let short = TaskMessage {
        channel_id: 4,
        command: HdcCommand::ForwardData,
        payload: vec![1, 2, 3],
    };
    assert_eq!(route_forward(&short), Route::Pass);
}

#[test]
fn reverse_forwardings() {
    assert_eq!(
        parse_reverse_nodes(&words("rport tcp:1 tcp:2")),
        Ok(("tcp:1".to_string(), "tcp:2".to_string()))
    );
    assert_eq!(reverse_rule("tcp:1", "tcp:2"), "tcp:1 tcp:2");
    assert_eq!(
        reverse_entry(4, 3, "dev", "tcp:1", "tcp:2"),
        ForwardEntry {
            channel_id: 4,
            session_id: 3,
            connect_key: "dev".to_string(),
            direction: ForwardDirection::Reverse,
            task_string: "tcp:1 tcp:2".to_string(),
            has_listener: false,
        }
    );
    let e = parse_reverse_nodes(&words("rport tcp:1")).unwrap_err();
    assert!(e.message().starts_with("Invalid rport parameters."));
    let check = make_node_message(4, HdcCommand::ForwardCheck, 7, "tcp:90");
    assert_eq!(reverse_step(4, &reply(check.clone())), ReverseStep::Probe(7, 90));
    assert_eq!(route_reverse(4, &check), ReverseRoute::Probe(7, 90));
    let bad = make_node_message(4, HdcCommand::ForwardCheck, 7, "what");
    assert_eq!(
        reverse_step(4, &reply(bad)),
        ReverseStep::Answer(make_check_result(4, 7, false))
    );
    let success = make_link_message(4, HdcCommand::ForwardSuccess, 7, b"");
    assert_eq!(
        reverse_step(4, &reply(success)),
        ReverseStep::Ready(FORWARD_OK.to_string())
    );
    assert_eq!(reverse_step(4, &echo("x")), ReverseStep::Tell("x".to_string()));
    assert_eq!(
        reverse_step(4, &close()),
        ReverseStep::Fail("Channel closed by daemon".to_string())
    );
    assert_eq!(
        reverse_step(4, &Reply::Closed),
        ReverseStep::Fail("Response channel closed".to_string())
    );
    assert_eq!(
        reverse_step(4, &Reply::TimedOut),
        ReverseStep::Fail("Timeout waiting for ForwardSuccess".to_string())
    );
    let active = make_node_message(4, HdcCommand::ForwardActiveSlave, 7, "tcp:90");
    assert_eq!(route_reverse(4, &active), ReverseRoute::Connect(7, 90));
    let data = make_link_message(4, HdcCommand::ForwardData, 7, b"abc");
    assert_eq!(route_reverse(4, &data), ReverseRoute::Deliver(7, b"abc".to_vec()));
    let free = make_link_message(4, HdcCommand::ForwardFreeContext, 7, b"");
    assert_eq!(route_reverse(4, &free), ReverseRoute::Free(7));
    assert_eq!(make_connected(4, 7, true).command, HdcCommand::ForwardActiveMaster);
    assert_eq!(make_connected(4, 7, false), free);
}
