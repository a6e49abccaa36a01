use hdc::host::parser::{
    auto_connect_key, extract_global_params, normalize_listen_addr, options_can_be_cut,
    parse_command, parse_command_for_port, parse_server_listen_string, server_port,
    split_opt_and_cmd, usage, verbose_usage, OptionError,
};
use hdc::protocol::command::HdcCommand;
use hdc::protocol::config::get_version;

fn words(line: &str) -> Vec<String> {
    line.split(' ').map(|w| w.to_string()).collect()
}

#[test]
fn normalize_listen_addr_keeps_valid_forms() {
    assert_eq!(normalize_listen_addr("127.0.0.1:8710"), "127.0.0.1:8710");
    assert_eq!(normalize_listen_addr("0.0.0.0:8710"), "0.0.0.0:8710");
    assert_eq!(normalize_listen_addr("[::1]:8710"), "[::1]:8710");
}

#[test]
fn normalize_listen_addr_mapped_ipv6_becomes_ipv4() {
    assert_eq!(normalize_listen_addr("::ffff:127.0.0.1:8710"), "127.0.0.1:8710");
    assert_eq!(normalize_listen_addr("::FFFF:127.0.0.1:8710"), "127.0.0.1:8710");
    assert_eq!(normalize_listen_addr("::ffff:0.0.0.0:8710"), "0.0.0.0:8710");
}

#[test]
fn normalize_listen_addr_unbracketed_ipv6_gets_brackets() {
    assert_eq!(normalize_listen_addr("::1:8710"), "[::1]:8710");
}

#[test]
fn parse_server_listen_string_accepts_mapped_ipv6() {
    assert_eq!(
        parse_server_listen_string("::ffff:127.0.0.1:8710").unwrap(),
        "127.0.0.1:8710"
    );
}

#[test]
fn parse_server_listen_string_accepts_bracketed_ipv6() {
    assert_eq!(
        parse_server_listen_string("[::1]:8710").unwrap(),
        "[::1]:8710"
    );
}

#[test]
fn parse_server_listen_string_rejects_bad_input() {
    assert!(parse_server_listen_string("garbage:8710").is_err());
    assert!(parse_server_listen_string("127.0.0.1:notaport").is_err());
}

#[test]
fn an_address_is_settled_at_once() {
    for s in ["::1:8710", "::ffff:127.0.0.1:08710", "::1:+80", "[::1]:8710", "garbage", "1.2.3.4:5"] {
        let once = normalize_listen_addr(s);
        assert_eq!(normalize_listen_addr(&once), once);
    }
    assert_eq!(normalize_listen_addr("::1:+80"), "[::1]:+80");
}

#[test]
fn a_port_alone_stands_for_the_local_host() {
    assert_eq!(parse_server_listen_string("8710").unwrap(), "127.0.0.1:8710");
    assert_eq!(parse_server_listen_string("00080").unwrap(), "127.0.0.1:80");
}

#[test]
fn every_fault_of_a_server_address() {
    assert_eq!(parse_server_listen_string("garbage:8710"), Err(OptionError::ServerIp));
    assert_eq!(
        parse_server_listen_string("127.0.0.1:notaport"),
        Err(OptionError::PortNotDigits)
    );
    assert_eq!(parse_server_listen_string("127.0.0.1:000001"), Err(OptionError::PortNotDigits));
    assert_eq!(parse_server_listen_string("127.0.0.1:0"), Err(OptionError::PortRange));
    assert_eq!(parse_server_listen_string("65536"), Err(OptionError::PortRange));
    assert_eq!(parse_server_listen_string(""), Err(OptionError::PortNotDigits));
}

#[test]
fn commands_of_two_words() {
    let p = split_opt_and_cmd(words("-t key file send a b"));
    assert_eq!(p.options, words("-t key"));
    assert_eq!(p.command, Some(HdcCommand::FileInit));
    assert_eq!(p.parameters, words("file send a b"));
}

#[test]
fn forwardings_are_opened_listed_and_removed() {
    let open = split_opt_and_cmd(words("fport tcp:1 tcp:2"));
    assert_eq!(open.command, Some(HdcCommand::ForwardInit));
    assert_eq!(open.parameters, words("fport tcp:1 tcp:2"));
    assert_eq!(
        split_opt_and_cmd(words("fport ls")).command,
        Some(HdcCommand::ForwardList)
    );
    assert_eq!(
        split_opt_and_cmd(words("rport rm tcp:1")).command,
        Some(HdcCommand::ForwardRportRemove)
    );
}

#[test]
fn a_line_without_a_command_is_all_options() {
    let p = split_opt_and_cmd(words("-m -s 8710"));
    assert_eq!(p.options, words("-m -s 8710"));
    assert_eq!(p.command, None);
    assert!(p.parameters.is_empty());
}

#[test]
fn the_parts_give_the_line() {
    let line = words("-p -l 4 shell echo hello");
    let p = split_opt_and_cmd(line.clone());
    let mut again = p.options.clone();
    again.extend(p.parameters.clone());
    assert_eq!(again, line);
}

#[test]
fn a_command_line_with_options() {
    let p = parse_command(words("hdc -t 192.168.1.10:5555 -l4 -p -s 8711 -e 0.0.0.0 shell ls"))
        .unwrap();
    assert!(!p.run_in_server);
    assert!(!p.launch_server);
    assert!(!p.spawned_server);
    assert_eq!(p.connect_key, "192.168.1.10:5555");
    assert_eq!(p.log_level, 4);
    assert_eq!(p.server_addr, "127.0.0.1:8711");
    assert_eq!(p.forward_listen_ip, "0.0.0.0");
    assert_eq!(p.command, Some(HdcCommand::UnityExecute));
    assert_eq!(p.parameters, words("shell ls"));
}

#[test]
fn a_command_line_without_options() {
    let p = parse_command(words("hdc list targets")).unwrap();
    assert!(p.launch_server);
    assert_eq!(p.connect_key, "");
    assert_eq!(p.log_level, 3);
    assert_eq!(p.server_addr, "127.0.0.1:8710");
    assert_eq!(p.forward_listen_ip, "127.0.0.1");
    assert_eq!(p.command, Some(HdcCommand::KernelTargetList));
    let none = parse_command(Vec::new()).unwrap();
    assert_eq!(none.command, None);
}

#[test]
fn a_server_line() {
    let p = parse_command(words("hdc -b -m -s 127.0.0.1:8710")).unwrap();
    assert!(p.run_in_server);
    assert!(p.spawned_server);
    assert_eq!(p.command, None);
}

#[test]
fn a_shell_with_bundle_options() {
    let p = parse_command(words("hdc shell - -b bundle ls")).unwrap();
    assert_eq!(p.command, Some(HdcCommand::UnityExecuteEx));
    let q = parse_command(words("hdc shell ls -")).unwrap();
    assert_eq!(q.command, Some(HdcCommand::UnityExecute));
}

#[test]
fn every_fault_of_an_option() {
    let fault = |line: &str| parse_command(words(line)).unwrap_err();
    assert_eq!(fault("hdc -h"), OptionError::Usage);
    assert_eq!(fault("hdc -h verbose"), OptionError::VerboseUsage);
    assert_eq!(fault("hdc -v"), OptionError::Version);
    assert_eq!(fault("hdc -l 7"), OptionError::LogLevel);
    assert_eq!(fault("hdc -l x"), OptionError::LogLevel);
    assert_eq!(
        fault("hdc -t 123456789012345678901234567890123 shell"),
        OptionError::KeyTooLong(33)
    );
    assert_eq!(fault("hdc -s 1.2.3.4:x shell"), OptionError::PortNotDigits);
    assert_eq!(fault("hdc -s 1.2.3.4:70000 shell"), OptionError::PortRange);
    assert_eq!(fault("hdc -s 1.2.3:80 shell"), OptionError::ServerIp);
    assert_eq!(fault("hdc -e host shell"), OptionError::ListenIp);
}

#[test]
fn what_the_user_is_told() {
    assert_eq!(OptionError::Usage.message(), usage());
    assert_eq!(OptionError::VerboseUsage.message(), verbose_usage());
    assert_eq!(OptionError::Version.message(), get_version());
    assert_eq!(get_version(), "Ver: 3.2.0e");
    assert_eq!(
        OptionError::KeyTooLong(33).message(),
        "Size of param '-t' 33 is too long"
    );
    assert_eq!(OptionError::PortRange.message(), "Port range incorrect");
    assert_eq!(OptionError::PortNotDigits.message(), "The port must be digit str");
    assert_eq!(OptionError::ServerIp.message(), "-s content ip incorrect");
    assert_eq!(OptionError::ListenIp.message(), "-e content IP incorrect");
    assert!(OptionError::LogLevel.message().starts_with("-l content loglevel incorrect\n\n"));
    assert!(OptionError::Version.is_asked());
    assert!(!OptionError::LogLevel.is_asked());
    assert!(verbose_usage().ends_with("\nVerbose mode enabled.\n"));
}

#[test]
fn the_port_of_the_server_comes_from_a_setting() {
    assert_eq!(server_port(&None), 8710);
    assert_eq!(server_port(&Some("9000".to_string())), 9000);
    assert_eq!(server_port(&Some("no".to_string())), 8710);
    assert_eq!(server_port(&Some("0".to_string())), 8710);
    let p = parse_command_for_port(words("hdc shell"), 9000).unwrap();
    assert_eq!(p.server_addr, "127.0.0.1:9000");
    let q = parse_command_for_port(words("hdc -s 8711 shell"), 9000).unwrap();
    assert_eq!(q.server_addr, "127.0.0.1:8711");
}

#[test]
fn options_alone() {
    let p = extract_global_params(words("-m -l 6 stray"), 8710).unwrap();
    assert!(p.run_in_server);
    assert_eq!(p.log_level, 6);
    assert!(extract_global_params(words("-l"), 8710).is_err());
}

#[test]
fn words_that_cannot_be_cut() {
    assert!(options_can_be_cut(&words("hdc -t key shell"), 8710));
    assert!(!options_can_be_cut(&words("hdc -\u{e9} shell"), 8710));
    assert!(options_can_be_cut(&words("hdc shell -\u{e9}"), 8710));
    assert!(options_can_be_cut(&Vec::new(), 8710));
    assert!(options_can_be_cut(&words("hdc -h \u{65e5}\u{672c}"), 8710));
    assert!(parse_command(words("hdc -h \u{65e5}\u{672c}")).is_err());
    assert!(!options_can_be_cut(&words("hdc -m \u{65e5}\u{672c}"), 8710));
    let wrong = extract_global_params(words("-l \u{65e5}\u{672c}"), 8710);
    assert!(matches!(wrong, Err(OptionError::LogLevel)));
    assert_eq!(extract_global_params(words("-l +0006"), 8710).unwrap().log_level, 6);
}

#[test]
fn keys_for_commands() {
    assert_eq!(auto_connect_key("", HdcCommand::UnityExecute), "any");
    assert_eq!(auto_connect_key("usb1", HdcCommand::UnityExecute), "usb1");
    assert_eq!(auto_connect_key("usb1", HdcCommand::KernelTargetList), "");
    assert_eq!(auto_connect_key("usb1", HdcCommand::KernelServerKill), "");
}
