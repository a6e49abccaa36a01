use hdc::protocol::command::HdcCommand;
use hdc::protocol::config::TaskMessage;
use hdc::protocol::packet::{concat_pack, unpack_task_message};
use hdc::protocol::serializer::{
    FileMode, HdcDeserialize, HdcSerialize, PayloadHead, PayloadProtect, SessionHandShake,
    TransferConfig, TransferPayload, UartHead, UsbHead, HEAD_SIZE, UART_HEAD_SIZE, USB_HEAD_SIZE,
};

#[test]
fn test_payload_head_roundtrip() {
    let head = PayloadHead {
        flag: *b"HW",
        reserve: [0, 0],
        protocol_ver: 1,
        head_size: 10u16,
        data_size: 100u32,
    };
    let bytes = head.serialize();
    assert_eq!(bytes.len(), HEAD_SIZE);
    let head2 = PayloadHead::deserialize(&bytes).unwrap();
    assert_eq!(head, head2);
}

#[test]
fn test_usb_head_roundtrip() {
    let head = UsbHead {
        flag: *b"UB",
        option: 1,
        session_id: 0x12345678,
        data_size: 0xabcdef00,
    };
    let bytes = head.serialize();
    assert_eq!(bytes.len(), USB_HEAD_SIZE);
    let head2 = UsbHead::deserialize(&bytes).unwrap();
    assert_eq!(head, head2);
}

#[test]
fn test_uart_head_roundtrip() {
    let head = UartHead {
        flag: *b"UB",
        option: 0x1234,
        session_id: 0xdeadbeef,
        data_size: 0x11223344,
        package_index: 0x55667788,
        data_checksum: 0xaabbccdd,
        head_checksum: 0xeeff0011,
    };
    let bytes = head.serialize();
    assert_eq!(bytes.len(), UART_HEAD_SIZE);
    let head2 = UartHead::deserialize(&bytes).unwrap();
    assert_eq!(head, head2);
}

#[test]
fn test_session_handshake_roundtrip() {
    let shs = SessionHandShake {
        banner: "OHOS HDC".to_string(),
        auth_type: 1,
        session_id: 12345,
        connect_key: "test-device".to_string(),
        buf: "some-buf".to_string(),
        version: "Ver: 3.0.0b".to_string(),
    };
    let bytes = shs.serialize();
    let shs2 = SessionHandShake::deserialize(&bytes).unwrap();
    assert_eq!(shs, shs2);
}

#[test]
fn test_payload_protect_roundtrip() {
    let pp = PayloadProtect {
        channel_id: 42,
        command_flag: 1001,
        check_sum: 0,
        v_code: 0x09,
    };
    let bytes = pp.serialize();
    let pp2 = PayloadProtect::deserialize(&bytes).unwrap();
    assert_eq!(pp, pp2);
}

#[test]
fn test_transfer_config_roundtrip() {
    let tc = TransferConfig {
        file_size: 1024,
        atime: 1234567890,
        mtime: 9876543210,
        options: "-r".to_string(),
        path: "/data/local/tmp".to_string(),
        optional_name: "test.txt".to_string(),
        update_if_new: true,
        compress_type: 1,
        hold_timestamp: false,
        function_name: "install".to_string(),
        client_cwd: "/home/user".to_string(),
        reserve1: "".to_string(),
        reserve2: "".to_string(),
    };
    let bytes = tc.serialize();
    let tc2 = TransferConfig::deserialize(&bytes).unwrap();
    assert_eq!(tc, tc2);
}

#[test]
fn test_file_mode_roundtrip() {
    let fm = FileMode {
        perm: 0o644,
        u_id: 1000,
        g_id: 1000,
        context: "u:object_r:app_data_file:s0".to_string(),
        full_name: "/data/app/test.hap".to_string(),
    };
    let bytes = fm.serialize();
    let fm2 = FileMode::deserialize(&bytes).unwrap();
    assert_eq!(fm, fm2);
}

#[test]
fn test_transfer_payload_roundtrip() {
    let tp = TransferPayload {
        index: 0,
        compress_type: 1,
        compress_size: 512,
        uncompress_size: 1024,
    };
    let bytes = tp.serialize();
    let tp2 = TransferPayload::deserialize(&bytes).unwrap();
    assert_eq!(tp, tp2);
}

#[test]
fn test_concat_and_unpack() {
    let msg = TaskMessage {
        channel_id: 1,
        command: HdcCommand::UnityExecute,
        payload: b"hello world".to_vec(),
    };
    let packed = concat_pack(&msg);
    let unpacked = unpack_task_message(&packed).unwrap();
    assert_eq!(msg.channel_id, unpacked.channel_id);
    assert_eq!(msg.command, unpacked.command);
    assert_eq!(msg.payload, unpacked.payload);
}
