use hdc::address::{check_ip, check_ipv4, check_ipv6, check_socket};
use hdc::host::net_discover::{
    broadcast_addresses, format_daemon_addr, note_answer, parse_daemon_response,
    subnet_unicast_hosts,
};
use hdc::host::connect_map::ConnectMap;
use hdc::host::usb::{
    choose_target, forget_device, is_harmony_device, note_devices, transfer_fault, UsbDeviceInfo,
    UsbEndpoint, UsbFault, UsbSetting, UsbTarget,
};
use hdc::host::wire::{
    build_usb_header, checked_sizes, frame_sizes, plan_usb_message, plan_usb_transfers,
    read_addressee, read_patience, read_usb_head, read_usb_message, usb_soft_reset, UsbError,
};
use hdc::protocol::command::HdcCommand;
use hdc::protocol::config::{get_version, AppModeType, CompressType, TaskMessage};
use hdc::protocol::encrypt::{CipherError, PskCipher};
use hdc::protocol::error::CodecError;
use hdc::protocol::labeled::{check_tlv, get_value, make_tlv, parse_tlv};
use hdc::protocol::packet::{concat_pack, unpack_task_message};
use hdc::protocol::serializer::{
    HdcDeserialize, HdcSerialize, PayloadHead, PayloadProtect, SessionHandShake, TransferConfig,
    TransferPayload, UsbHead, HEAD_SIZE,
};
use hdc::protocol::tlv::{read_varint_u32, read_varint_u64, write_varint_u32, write_varint_u64};

fn message(payload: &[u8]) -> TaskMessage {
    TaskMessage {
        channel_id: 5,
        command: HdcCommand::UnityExecute,
        payload: payload.to_vec(),
    }
}

#[test]
fn the_bytes_of_a_packet() {
    let packed = concat_pack(&message(b"ls"));
    assert_eq!(packed[..2], *b"HW");
    assert_eq!(packed.len(), HEAD_SIZE + packed[6] as usize + 2);
    assert_eq!(packed[packed.len() - 2..], *b"ls");
    assert_eq!(frame_sizes(&packed[..HEAD_SIZE]), Ok((packed[6] as usize, 2)));
    assert_eq!(checked_sizes(&packed[..HEAD_SIZE]), Ok((packed[6] as usize, 2)));
    let protect = &packed[HEAD_SIZE..packed.len() - 2];
    assert_eq!(read_addressee(protect), Ok((5, HdcCommand::UnityExecute)));
}

#[test]
fn packets_that_are_none() {
    let packed = concat_pack(&message(b"ls"));
    assert!(unpack_task_message(&packed[..5]).is_err());
    assert!(unpack_task_message(&packed[..packed.len() - 1]).is_err());
    let mut other = packed.clone();
    other[0] = b'X';
    assert!(unpack_task_message(&other).is_err());
    let mut head = packed[..HEAD_SIZE].to_vec();
    for b in head.iter_mut().skip(5) {
        *b = 0;
    }
    assert_eq!(checked_sizes(&head), Err(CodecError::PacketSize));
    let unknown = PayloadProtect { channel_id: 1, command_flag: 0xffff, check_sum: 0, v_code: 9 };
    assert_eq!(read_addressee(&unknown.serialize()), Err(CodecError::UnknownCommand));
}

#[test]
fn messages_over_usb() {
    let m = message(b"hello");
    let parts = plan_usb_message(3, &m, 512);
    assert_eq!(parts.len(), 2);
    assert_eq!(read_usb_head(&parts[0]), Ok((3, parts[1].len())));
    assert_eq!(read_usb_message(&parts[1]), Ok(m));
    let full = plan_usb_transfers(3, &[7; 64], 64);
    assert_eq!(full.len(), 3);
    assert_eq!(full[2], build_usb_header(3, 0, 0));
    assert_eq!(full[2].len() % 64, 11);
    assert_eq!(plan_usb_transfers(3, &[], 64).len(), 1);
}

#[test]
fn usb_blocks_that_are_not_taken() {
    assert_eq!(read_usb_head(&build_usb_header(3, 1, 0)), Err(UsbError::Empty));
    assert_eq!(read_usb_head(&usb_soft_reset(3)), Err(UsbError::Empty));
    assert_eq!(read_usb_head(&build_usb_header(3, 2, 9)), Err(UsbError::NotFirst(2)));
    assert_eq!(
        read_usb_head(&build_usb_header(3, 1, 0x8000_0000)),
        Err(UsbError::TooLarge)
    );
    assert!(matches!(read_usb_head(&[1, 2]), Err(UsbError::Codec(_))));
    assert_eq!(read_usb_message(&[0; 5]), Err(UsbError::NoHead));
    let packed = concat_pack(&message(b"hello"));
    assert_eq!(read_usb_message(&packed[..packed.len() - 1]), Err(UsbError::Incomplete));
    assert_eq!(UsbError::Empty.message(), "USB nop/reset packet");
    assert_eq!(UsbError::NotFirst(2).message(), "USB packet without HEADER option: 2");
    assert_eq!(UsbError::TooLarge.message(), "USB payload too large");
    assert_eq!(UsbError::NoHead.message(), "payload too short for head");
    assert_eq!(UsbError::Incomplete.message(), "incomplete payload");
    assert_eq!(read_patience(0, 100), 100);
    assert_eq!(read_patience(1, 100), 5000);
}

#[test]
fn the_bytes_of_heads() {
    let head = UsbHead { flag: *b"UB", option: 1, session_id: 2, data_size: 3 };
    assert_eq!(head.serialize(), b"UB\x01\0\0\0\x02\0\0\0\x03".to_vec());
    let head = PayloadHead {
        flag: *b"HW",
        reserve: [0, 0],
        protocol_ver: 1,
        head_size: 0x0102,
        data_size: 0x03040506,
    };
    assert_eq!(head.serialize(), b"HW\0\0\x01\x01\x02\x03\x04\x05\x06".to_vec());
    assert!(PayloadHead::deserialize(b"HW").is_err());
}

#[test]
fn varints() {
    let bytes = |n: u64| {
        let mut buf = Vec::new();
        write_varint_u64(n, &mut buf);
        buf
    };
    assert_eq!(bytes(0), vec![0]);
    assert_eq!(bytes(127), vec![0x7f]);
    assert_eq!(bytes(300), vec![0xac, 0x02]);
    assert_eq!(bytes(u64::MAX).len(), 10);
    for n in [0u64, 1, 127, 128, 16383, 16384, u64::MAX] {
        let b = bytes(n);
        let mut offset = 0;
        assert_eq!(read_varint_u64(&b, &mut offset), Ok(n));
        assert_eq!(offset, b.len());
    }
    let mut buf = Vec::new();
    write_varint_u32(u32::MAX, &mut buf);
    let read = |bytes: &[u8], at: usize| {
        let mut offset = at;
        (read_varint_u32(bytes, &mut offset), offset)
    };
    assert_eq!(read(&buf, 0), (Ok(u32::MAX), 5));
    assert_eq!(read(&[0x80, 0x80], 1), (Err(CodecError::TruncatedVarint), 2));
    assert_eq!(read(&[0xff; 7], 1), (Err(CodecError::VarintOverflow), 6));
    assert_eq!(read(&[], 3), (Err(CodecError::TruncatedVarint), 3));
}

#[test]
fn fields_that_cannot_be_read() {
    assert!(SessionHandShake::deserialize(&[0x80]).is_err());
    assert!(SessionHandShake::deserialize(&[0x08, 0x01]).is_err());
    let bytes = SessionHandShake { banner: "ab".to_string(), ..Default::default() }.serialize();
    let place = bytes.len() - bytes.iter().rev().position(|&b| b == b'b').unwrap() - 1;
    let mut wrong = bytes.clone();
    wrong[place] = 0xe2;
    assert_eq!(
        SessionHandShake::deserialize(&wrong).unwrap_err().message(),
        format!("invalid utf8: {}", String::from_utf8(vec![b'a', 0xe2]).unwrap_err())
    );
    assert!(TransferPayload::deserialize(&[0x0d, 1, 2, 3, 4]).is_err());
    let e = TransferPayload::deserialize(&[0x80]).unwrap_err();
    assert_eq!(e, CodecError::TruncatedVarint);
    assert!(!e.message().is_empty());
    let skipped = TransferPayload::deserialize(&[0x08, 7, 0x78, 1]).unwrap();
    assert_eq!(skipped.index, 7);
}

#[test]
fn unknown_fields_change_nothing() {
    let config = TransferConfig { file_size: 9, path: "/a".to_string(), ..Default::default() };
    let written = config.serialize();
    let fields: [&[u8]; 5] = [
        &[0, 0],
        &[0x70, 0x96, 0x01],
        &[0x71, 1, 2, 3, 4, 5, 6, 7, 8],
        &[0x72, 2, 9, 9],
        &[0x75, 1, 2, 3, 4],
    ];
    for field in fields {
        let before = [field, &written[..]].concat();
        assert_eq!(TransferConfig::deserialize(&before).unwrap(), config);
        let behind = [&written[..], field].concat();
        assert_eq!(TransferConfig::deserialize(&behind).unwrap(), config);
    }
    assert!(TransferConfig::deserialize(&[0]).is_err());
}

#[test]
fn labeled_values() {
    let mut s = make_tlv("devname", "phone");
    s.push_str(&make_tlv("emgmsg", ""));
    assert!(check_tlv(&s));
    let entries = parse_tlv(&s);
    assert_eq!(entries.len(), 2);
    assert_eq!(get_value(&entries, "devname"), Some("phone".to_string()));
    assert_eq!(get_value(&entries, "emgmsg"), Some(String::new()));
    assert_eq!(get_value(&entries, "other"), None);
    assert!(parse_tlv("").is_empty());
}

#[test]
fn every_code_has_its_command() {
    for code in 0u32..5000 {
        if let Ok(c) = HdcCommand::try_from(code) {
            assert_eq!(c.as_u32(), code);
        }
    }
    assert_eq!(HdcCommand::KernelHandshake.as_u32(), 1);
    assert_eq!(HdcCommand::UnityExecute.as_u32(), 1001);
    assert_eq!(HdcCommand::KernelCheckServer.as_u32(), 13);
    assert!(HdcCommand::try_from(4999).is_err());
    assert_eq!(HdcCommand::FileBegin.name_text(), "FileBegin");
    assert!(CompressType::try_from(99u8).is_err());
    assert_eq!(AppModeType::try_from(AppModeType::Install.as_u8()), Ok(AppModeType::Install));
    assert_eq!(get_version(), "Ver: 3.2.0e");
}

#[test]
fn frames_of_a_cipher() {
    let mut psk = [1u8; 32];
    psk[31] = 2;
    let mut host = PskCipher::new(&psk, true);
    let mut daemon = PskCipher::new(&psk, false);
    let first = host.encrypt(b"a").unwrap();
    let second = host.encrypt(b"a").unwrap();
    assert_eq!(first[..8], [0, 0, 0, 0, 0, 0, 0, 0]);
    assert_eq!(second[..8], [0, 0, 0, 0, 0, 0, 0, 1]);
    assert_ne!(first[8..], second[8..]);
    assert_eq!(daemon.decrypt(&second), Ok(b"a".to_vec()));
    assert_eq!(daemon.decrypt(&first), Ok(b"a".to_vec()));
    assert_eq!(host.decrypt(&first), Err(CipherError::Decrypt));
    assert_eq!(daemon.decrypt(&[0; 8]), Err(CipherError::TooShort));
    let mut other = PskCipher::new(&[2u8; 32], false);
    assert_eq!(other.decrypt(&first), Err(CipherError::Decrypt));
    assert_ne!(PskCipher::generate_psk(), PskCipher::generate_psk());
}

#[test]
fn addresses() {
    assert!(check_ipv4("0.0.0.0"));
    assert!(!check_ipv4("1.2.3.256"));
    assert!(!check_ipv4("01.2.3.4"));
    assert!(!check_ipv4("1.2.3"));
    assert!(check_ipv6("::"));
    assert!(check_ipv6("2001:db8::1"));
    assert!(check_ipv6("::ffff:1.2.3.4"));
    assert!(!check_ipv6("1:2:3:4:5:6:7"));
    assert!(!check_ipv6("1::2::3"));
    assert!(check_ip("::1") && check_ip("10.0.0.1") && !check_ip("host"));
    assert!(check_socket("1.2.3.4:80") && check_socket("[::1]:80"));
    assert!(!check_socket("1.2.3.4") && !check_socket("::1:80:"));
}

#[test]
fn daemons_on_the_network() {
    let local = Some((192, 168, 1, 7));
    assert_eq!(
        broadcast_addresses(local),
        vec![
            "255.255.255.255:8710",
            "192.168.1.255:8710",
            "192.168.255.255:8710",
            "192.255.255.255:8710"
        ]
    );
    assert_eq!(broadcast_addresses(None), vec!["255.255.255.255:8710"]);
    let hosts = subnet_unicast_hosts(local);
    assert_eq!(hosts.len(), 254);
    assert_eq!(hosts[0], "192.168.1.1:8710");
    assert_eq!(hosts[253], "192.168.1.254:8710");
    assert!(subnet_unicast_hosts(None).is_empty());
    assert_eq!(parse_daemon_response("OHOS HDC-5555\n"), Some(5555));
    assert_eq!(parse_daemon_response("OHOS HDC-x"), None);
    assert_eq!(parse_daemon_response("5555"), None);
    assert_eq!(format_daemon_addr("::1", true, 5), "[::1]:5");
    let mut found = Vec::new();
    note_answer(&mut found, b"OHOS HDC-5555", "10.0.0.2", false);
    note_answer(&mut found, b"OHOS HDC-5555", "10.0.0.2", false);
    note_answer(&mut found, b"hello", "10.0.0.3", false);
    note_answer(&mut found, b"OHOS HDC-1\xff", "10.0.0.3", false);
    assert_eq!(found, vec!["10.0.0.2:5555"]);
}

fn endpoint(address: u8, inward: bool, size: u16) -> UsbEndpoint {
    UsbEndpoint { address, bulk: true, inward, max_packet_size: size }
}

fn setting(interface: u8, class: u8, endpoints: Vec<UsbEndpoint>) -> UsbSetting {
    UsbSetting { interface, class, sub_class: 0x50, protocol: 0x01, endpoints }
}

#[test]
fn devices_on_usb() {
    let other = setting(0, 0x08, vec![endpoint(0x82, true, 64)]);
    let ours = setting(1, 0xff, vec![endpoint(0x81, true, 512), endpoint(0x01, false, 1024)]);
    let settings = vec![other, ours];
    assert!(is_harmony_device(&settings));
    assert_eq!(
        choose_target(&settings),
        Some(UsbTarget { interface: 1, bulk_in: 0x81, bulk_out: 0x01, max_packet_size: 1024 })
    );
    let half = vec![setting(1, 0xff, vec![endpoint(0x81, true, 512)])];
    assert!(!is_harmony_device(&half));
    assert_eq!(choose_target(&half), None);
    assert!(!is_harmony_device(&[]));
}

#[test]
fn devices_on_usb_are_served_once() {
    let device = |serial: &str| UsbDeviceInfo {
        serial_number: serial.to_string(),
        vendor_id: 0x12d1,
        product_id: 0x1101,
        device_address: 9,
    };
    let mut known = Vec::new();
    let mut map = ConnectMap::new();
    let fresh = note_devices(&mut known, &mut map, &[device("a"), device("b"), device("a")]);
    assert_eq!(fresh, vec!["a", "b"]);
    assert_eq!(map.get_list(true)[0], "a\t\tUSB\tReady\tunknown...");
    assert!(note_devices(&mut known, &mut map, &[device("a")]).is_empty());
    forget_device(&mut known, "a");
    assert_eq!(note_devices(&mut known, &mut map, &[device("a")]), vec!["a"]);
}

#[test]
fn faults_of_usb_transfers() {
    assert_eq!(transfer_fault(0), None);
    let said = |status: i32| transfer_fault(status).unwrap().message();
    assert_eq!(transfer_fault(2), Some(UsbFault::TimedOut));
    assert_eq!(said(2), "USB transfer timed out");
    assert_eq!(said(3), "USB transfer cancelled");
    assert_eq!(said(4), "USB transfer stalled");
    assert_eq!(said(5), "USB device disconnected");
    assert_eq!(said(6), "USB transfer overflow");
    assert_eq!(said(1), "USB transfer failed: status=1");
    assert_eq!(said(-99), "USB transfer failed: status=-99");
}
