use hdc::host::connect_map::{
    get_default_connect_key, ide_device_list, resolve_connect_key, resolve_session_id, ConnectMap,
    DaemonInfo, ResolveError,
};
use hdc::host::forward_map::{
    build_forward_list, close_message, remove_forward_entry, ForwardDirection, ForwardEntry,
    ForwardMap,
};
use hdc::host::session::{
    device_found, make_heartbeat, route_message, strip_level, tcp_session_lost, usb_session_lost,
    Route, Transport,
};
use hdc::host::tcp_map::{frame, maybe_end_channel, SendError, TcpMap};
use hdc::host::usb_map::UsbMap;
use hdc::protocol::command::HdcCommand;
use hdc::protocol::config::{ConnStatus, ConnectType, TaskMessage};
use hdc::protocol::encrypt::PskCipher;
use hdc::protocol::serializer::{HdcSerialize, SessionHandShake};

fn device(session_id: u32, status: ConnStatus) -> DaemonInfo {
    DaemonInfo {
        session_id,
        conn_type: ConnectType::Tcp,
        conn_status: status,
        dev_name: String::new(),
        version: String::new(),
    }
}

#[test]
fn devices_are_put_found_and_removed() {
    let mut map = ConnectMap::new();
    map.put("a".to_string(), device(1, ConnStatus::Ready));
    map.put("b".to_string(), device(2, ConnStatus::Connected));
    map.put("a".to_string(), device(3, ConnStatus::Ready));
    assert!(map.contains_key("a"));
    assert_eq!(map.get_session_id("a"), Some(3));
    assert_eq!(map.get_session_id("b"), Some(2));
    assert_eq!(map.get_connect_key(2), Some("b".to_string()));
    assert_eq!(map.get_first_connected_key(), Some("b".to_string()));
    map.remove("b");
    assert!(!map.contains_key("b"));
    assert_eq!(map.get_session_id("b"), None);
    assert_eq!(map.get_session_id("a"), Some(3));
    map.update_status("a", ConnStatus::Connected);
    assert_eq!(map.get_first_connected_key(), Some("a".to_string()));
}

#[test]
fn lines_of_devices() {
    let mut map = ConnectMap::new();
    assert!(map.get_list(true).is_empty());
    map.put("k1".to_string(), device(1, ConnStatus::Offline));
    let mut named = device(2, ConnStatus::Connected);
    named.dev_name = "phone".to_string();
    named.conn_type = ConnectType::Usb("k2".to_string());
    map.put("k2".to_string(), named);
    assert_eq!(
        map.get_list(true),
        vec![
            "k1\t\tTCP\tOffline\tunknown...".to_string(),
            "k2\t\tUSB\tConnected\tphone".to_string()
        ]
    );
    assert_eq!(map.get_list(false), vec!["k2".to_string()]);
    assert_eq!(ide_device_list(&map), "k1 TCP Offline\nk2 USB Connected");
    assert_eq!(get_default_connect_key(&map), Some("k2".to_string()));
}

#[test]
fn one_connected_device_is_chosen() {
    let mut map = ConnectMap::new();
    assert_eq!(resolve_connect_key(&map, "any"), Err(ResolveError::NoDevice));
    map.put("a".to_string(), device(1, ConnStatus::Ready));
    assert_eq!(resolve_connect_key(&map, "any"), Err(ResolveError::NoDevice));
    map.put("b".to_string(), device(2, ConnStatus::Connected));
    assert_eq!(resolve_connect_key(&map, "any"), Ok("b".to_string()));
    assert_eq!(resolve_session_id(&map, "any"), Ok(2));
    assert_eq!(resolve_session_id(&map, "a"), Ok(1));
    let missing = resolve_session_id(&map, "c").unwrap_err();
    assert_eq!(missing, ResolveError::NotConnected("c".to_string()));
    assert_eq!(missing.message(), "Device c is not connected");
}

#[test]
fn a_device_is_not_connected_by_its_name() {
    let mut map = ConnectMap::new();
    let mut named = device(1, ConnStatus::Offline);
    named.dev_name = "Connected".to_string();
    map.put("Connected".to_string(), named);
    assert_eq!(resolve_connect_key(&map, "any"), Err(ResolveError::NoDevice));
    assert_eq!(get_default_connect_key(&map), None);
    map.put("a\tb".to_string(), device(2, ConnStatus::Connected));
    assert_eq!(resolve_connect_key(&map, "any"), Ok("a\tb".to_string()));
    assert_eq!(resolve_session_id(&map, "any"), Ok(2));
    assert_eq!(get_default_connect_key(&map), Some("a\tb".to_string()));
}

#[test]
fn several_connected_devices_have_to_be_named() {
    let mut map = ConnectMap::new();
    map.put("a".to_string(), device(1, ConnStatus::Connected));
    map.put("b".to_string(), device(2, ConnStatus::Connected));
    map.put("c".to_string(), device(3, ConnStatus::Ready));
    let e = resolve_connect_key(&map, "any").unwrap_err();
    assert_eq!(
        e.message(),
        "Multiple devices connected, please specify target with -t option:\n\
         a\t\tTCP\tConnected\tunknown...\nb\t\tTCP\tConnected\tunknown..."
    );
    assert_eq!(resolve_connect_key(&map, "b"), Ok("b".to_string()));
    assert_eq!(ResolveError::NoDevice.message(), "No device connected");
}

#[test]
fn a_device_that_was_found_is_ready() {
    let mut map = ConnectMap::new();
    device_found(&mut map, "10.0.0.2:5555", ConnectType::Tcp);
    assert_eq!(map.get_list(true), vec!["10.0.0.2:5555\t\tTCP\tReady\tunknown...".to_string()]);
    assert_eq!(map.get_session_id("10.0.0.2:5555"), Some(0));
}

fn entry(channel_id: u32, key: &str, task: &str, direction: ForwardDirection) -> ForwardEntry {
    ForwardEntry {
        channel_id,
        session_id: 1,
        connect_key: key.to_string(),
        direction,
        task_string: task.to_string(),
        has_listener: false,
    }
}

fn some_rules() -> ForwardMap {
    let mut map = ForwardMap::new();
    map.insert(
        "tcp:1 tcp:2".to_string(),
        entry(1, "a", "tcp:1 tcp:2", ForwardDirection::Forward),
    );
    map.insert(
        "tcp:3 tcp:4".to_string(),
        entry(2, "b", "tcp:3 tcp:4", ForwardDirection::Reverse),
    );
    map
}

#[test]
fn forwardings_are_listed() {
    let map = some_rules();
    assert_eq!(
        build_forward_list(&map, "any"),
        "a    tcp:1 tcp:2    [Forward]\r\nb    tcp:3 tcp:4    [Reverse]"
    );
    assert_eq!(build_forward_list(&map, "b"), "b    tcp:3 tcp:4    [Reverse]");
    assert_eq!(build_forward_list(&map, "c"), "");
}

#[test]
fn a_forwarding_is_removed_by_either_end() {
    for words in ["tcp:1 tcp:2", "tcp:1", "tcp:2"] {
        let mut map = some_rules();
        let r = remove_forward_entry(&mut map, "a", words);
        assert_eq!(r.text, Ok("Remove forward ruler success, ruler:tcp:1 tcp:2".to_string()));
        assert_eq!(r.removed.len(), 1);
        let close = close_message(&r.removed[0].entry);
        assert_eq!(close.channel_id, 1);
        assert_eq!(close.command, HdcCommand::KernelChannelClose);
        assert_eq!(close.payload, vec![0]);
        assert_eq!(build_forward_list(&map, ""), "b    tcp:3 tcp:4    [Reverse]");
    }
}

#[test]
fn all_forwardings_of_a_device_are_removed() {
    let mut map = some_rules();
    let r = remove_forward_entry(&mut map, "b", "");
    assert_eq!(
        r.text,
        Ok("Remove forward ruler success, removed 1 rulers".to_string())
    );
    assert_eq!(r.removed[0].rule, "tcp:3 tcp:4");
    let none = remove_forward_entry(&mut map, "a", "tcp:9");
    assert_eq!(
        none.text,
        Err("Remove forward ruler failed, ruler is not exist tcp:9".to_string())
    );
    assert!(none.removed.is_empty());
}

#[test]
fn a_rule_stands_once() {
    let mut map = some_rules();
    let e = entry(9, "a", "tcp:1 tcp:2", ForwardDirection::Forward);
    assert!(map.insert("tcp:1 tcp:2".to_string(), e));
    assert_eq!(map.remove("tcp:1 tcp:2").unwrap().entry.channel_id, 9);
    assert!(map.remove("tcp:1 tcp:2").is_none());
}

#[test]
fn messages_to_clients_and_sessions() {
    let mut map = TcpMap::new();
    assert_eq!(map.send_to_session(1, b"x"), Err(SendError::NoSession));
    assert_eq!(map.send_channel_message(1, b"x"), Err(SendError::NoChannel));
    assert_eq!(SendError::NoSession.message(), "session not found");
    assert_eq!(SendError::NoChannel.message(), "channel not found");
    assert_eq!(SendError::NoUsbSession.message(), "usb session not found");
    map.start_session(1);
    map.start_channel(2);
    assert_eq!(map.send_to_session(1, b"x"), Ok(b"x".to_vec()));
    assert_eq!(map.send_channel_message(2, b"ok"), Ok(vec![0, 0, 0, 2, b'o', b'k']));
    assert_eq!(frame(b""), vec![0, 0, 0, 0]);
}

#[test]
fn encrypted_sessions_of_the_server() {
    let psk = [3u8; 32];
    let mut map = TcpMap::new();
    map.start_session(1);
    map.set_session_cipher(1, PskCipher::new(&psk, true));
    assert!(map.get_session_cipher(1).is_some());
    let sent = map.send_to_session(1, b"hello").unwrap();
    let mut daemon = PskCipher::new(&psk, false);
    assert_eq!(sent[..4], [0, 0, 0, 29]);
    assert_eq!(daemon.decrypt(&sent[4..]), Ok(b"hello".to_vec()));
    let back = daemon.encrypt(b"hi").unwrap();
    assert_eq!(map.decrypt_from_session(1, &back), Some(Ok(b"hi".to_vec())));
    assert_eq!(map.decrypt_from_session(2, &back), None);
}

#[test]
fn channels_kept_alive_survive_a_command() {
    let mut map = TcpMap::new();
    map.start_channel(1);
    map.start_channel(2);
    map.set_keep_alive(1);
    assert!(map.is_keep_alive(1));
    assert!(!maybe_end_channel(&mut map, 1));
    assert!(map.send_channel_message(1, b"").is_ok());
    assert!(maybe_end_channel(&mut map, 2));
    assert!(map.send_channel_message(2, b"").is_err());
}

#[test]
fn the_channels_of_a_session_are_closed() {
    let mut map = TcpMap::new();
    for id in [1, 2, 3] {
        map.start_channel(id);
    }
    map.associate_channel_with_session(1, 10);
    map.associate_channel_with_session(2, 10);
    map.associate_channel_with_session(3, 11);
    let mut closed = map.close_session_channels(10);
    closed.sort();
    assert_eq!(closed, vec![1, 2]);
    assert!(map.send_channel_message(1, b"").is_err());
    assert!(map.send_channel_message(3, b"").is_ok());
    assert!(map.take_channel_writer(3));
    assert!(!map.take_channel_writer(3));
}

#[test]
fn tasks_that_wait_on_usb() {
    let mut map = UsbMap::new();
    assert_eq!(map.send_to_session(1), Err(SendError::NoUsbSession));
    map.start_session(1);
    assert_eq!(map.send_to_session(1), Ok(()));
    map.register_response_channel(1, 5);
    map.register_response_channel(1, 6);
    map.register_response_channel(2, 5);
    assert!(map.route_response(1, 5));
    map.unregister_response_channel(1, 5);
    assert!(!map.route_response(1, 5));
    map.end_session_with_cleanup(1);
    assert!(!map.route_response(1, 6));
    assert!(map.route_response(2, 5));
    assert!(map.send_to_session(1).is_err());
}

fn message(channel_id: u32, command: HdcCommand, payload: &[u8]) -> TaskMessage {
    TaskMessage { channel_id, command, payload: payload.to_vec() }
}

#[test]
fn where_messages_of_a_daemon_go() {
    let mut usb = UsbMap::new();
    usb.register_response_channel(1, 5);
    let route = |t: Transport, m: TaskMessage| route_message(t, &usb, 1, &m);
    let echo = message(7, HdcCommand::KernelEcho, &[1, b'h', b'i']);
    assert_eq!(route(Transport::Tcp, echo), Route::Client(7, b"hi".to_vec()));
    let raw = message(7, HdcCommand::KernelEchoRaw, b"hi");
    assert_eq!(route(Transport::Usb, raw), Route::Client(7, b"hi".to_vec()));
    let close = message(7, HdcCommand::KernelChannelClose, &[0]);
    assert_eq!(route(Transport::Tcp, close), Route::Close(7));
    let waited = message(5, HdcCommand::FileBegin, &[]);
    assert_eq!(route(Transport::Usb, waited), Route::Task);
    assert_eq!(route(Transport::Tcp, make_heartbeat()), Route::Nowhere);
    assert_eq!(route(Transport::Usb, make_heartbeat()), Route::Client(0, Vec::new()));
    assert_eq!(strip_level(&[]), Vec::<u8>::new());
}

#[test]
fn a_late_challenge_is_signed() {
    let usb = UsbMap::new();
    let hs = |auth_type: u8| SessionHandShake {
        banner: "OHOS HDC".to_string(),
        auth_type,
        session_id: 1,
        connect_key: String::new(),
        buf: "c".to_string(),
        version: String::new(),
    };
    let challenge = message(0, HdcCommand::KernelHandshake, &hs(2).serialize());
    let accepted = message(0, HdcCommand::KernelHandshake, &hs(4).serialize());
    let broken = message(0, HdcCommand::KernelHandshake, &[0x80]);
    for t in [Transport::Tcp, Transport::Usb] {
        assert_eq!(
            route_message(t, &usb, 1, &challenge),
            Route::Challenge("c".to_string())
        );
        assert_eq!(route_message(t, &usb, 1, &accepted), Route::Nowhere);
        assert_eq!(route_message(t, &usb, 1, &broken), Route::Nowhere);
    }
}

#[test]
fn sessions_that_are_lost() {
    let mut devices = ConnectMap::new();
    let mut tcp = TcpMap::new();
    let mut usb = UsbMap::new();
    let mut rules = some_rules();
    devices.put("a".to_string(), device(1, ConnStatus::Connected));
    devices.put("t".to_string(), device(2, ConnStatus::Connected));
    usb.start_session(1);
    usb.register_response_channel(1, 4);
    tcp.start_session(2);
    tcp.start_channel(8);
    tcp.associate_channel_with_session(8, 1);
    let left = usb_session_lost(&mut devices, &mut tcp, &mut usb, &mut rules, "a", 1);
    assert_eq!(left.channels, vec![8]);
    assert_eq!(left.forwardings.len(), 1);
    assert!(!devices.contains_key("a"));
    assert!(!usb.route_response(1, 4));
    assert!(tcp_session_lost(&mut devices, &mut tcp, "t", 2));
    assert!(!tcp_session_lost(&mut devices, &mut tcp, "t", 2));
    assert!(devices.get_list(true).is_empty());
}
