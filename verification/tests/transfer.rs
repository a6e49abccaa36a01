use hdc::host::app_install::{
    extract_haps_from_app, find_app_path, haps_to_install, is_app_pack, read_haps, AppError,
    HapInstall, InstallStep,
};
use hdc::host::file_transfer::{
    make_recv_request, on_finish_reply, trim_slashes, FileRecv, FileSend, RecvStep, SendStep,
};
use hdc::host::flash::{
    flash_step, make_flash_command, make_flash_request, parse_flashd_file_args, progress_step,
    validate_flashd_file, FlashError, FlashStep,
};
use hdc::host::shell::{shell_init, shell_input, shell_step, ShellStep};
use hdc::host::transfer::{
    config_bytes, make_piece, make_unexpected, resolve_file_paths, strip_quotes, wait_for,
    PathError, Reply, Sender, TransferError, Waited,
};
use hdc::path::{file_extension, file_name};
use hdc::protocol::command::HdcCommand;
use hdc::protocol::config::TaskMessage;
use hdc::protocol::serializer::{HdcDeserialize, TransferConfig, TransferPayload};
use std::io::Write;
use zip::write::SimpleFileOptions;

fn words(line: &str) -> Vec<String> {
    line.split(' ').map(|w| w.to_string()).collect()
}

fn message(command: HdcCommand, payload: &[u8]) -> TaskMessage {
    TaskMessage { channel_id: 4, command, payload: payload.to_vec() }
}

fn reply(command: HdcCommand, payload: &[u8]) -> Reply {
    Reply::Message(message(command, payload))
}

fn archive(entries: &[(&str, &[u8])]) -> Vec<u8> {
    let mut zip = zip::ZipWriter::new(std::io::Cursor::new(Vec::new()));
    let options = SimpleFileOptions::default();
    for (name, data) in entries {
        zip.start_file(*name, options).unwrap();
        zip.write_all(data).unwrap();
    }
    zip.finish().unwrap().into_inner()
}

#[test]
fn extract_haps_from_app_finds_hap_files() {
    let app = archive(&[
        ("entry-default-signed.hap", b"fake hap 1"),
        ("feature/Feature.hap", b"fake hap 2"),
        ("readme.txt", b"not hap"),
    ]);
    let haps = extract_haps_from_app(&app, '/').unwrap();
    assert_eq!(haps.haps.len(), 2);
    let names: Vec<_> = haps.order.clone();
    assert!(names.contains(&"entry-default-signed.hap".to_string()));
    assert!(names.contains(&"Feature.hap".to_string()));
    assert_eq!(haps.haps[0].data, b"fake hap 1".to_vec());
    assert_eq!(haps.haps[1].data, b"fake hap 2".to_vec());
}

#[test]
fn packages_are_installed_in_the_order_of_their_names() {
    let app = archive(&[("b.hap", b"b"), ("x/a.HAP", b"a"), ("c.hsp", b"c")]);
    let read = read_haps(&app, '/').unwrap();
    let names: Vec<&str> = read.iter().map(|h| h.name.as_str()).collect();
    assert_eq!(names, vec!["b.hap", "a.HAP"]);
    let all = haps_to_install(&app, '/').unwrap();
    assert_eq!(all.order, words("a.HAP b.hap"));
}

#[test]
fn archives_that_cannot_be_installed() {
    let empty = archive(&[("readme.txt", b"x")]);
    assert_eq!(haps_to_install(&empty, '/'), Err(AppError::NoHap));
    assert_eq!(AppError::NoHap.message(), "No .hap found in .app package");
    let e = extract_haps_from_app(b"no zip", '/').unwrap_err();
    assert!(matches!(e, AppError::Archive(_)));
    assert!(e.message().starts_with("Failed to open .app as zip: "));
    assert_eq!(AppError::Entry("x".to_string()).message(), "Zip entry error: x");
    let mut torn = archive(&[("a.hap", &[7u8; 4000])]);
    let at = torn.iter().position(|b| *b == b'a').unwrap() + 5;
    torn[at + 2] ^= 0xff;
    torn[at + 3] ^= 0xff;
    let e = read_haps(&torn, '/').unwrap_err();
    assert!(e.message().starts_with("Extract failed: "));
}

#[test]
fn what_a_command_installs() {
    assert_eq!(find_app_path(&words("install a.hap")), Ok("a.hap".to_string()));
    assert_eq!(find_app_path(&words("install -cwd /w a.hap")), Ok("a.hap".to_string()));
    assert_eq!(find_app_path(&words("install")), Err(AppError::MissingPath));
    assert_eq!(AppError::MissingPath.message(), "Missing app path");
    assert!(is_app_pack("/d/x.APP", '/'));
    assert!(!is_app_pack("/d/x.hap", '/'));
    assert!(!is_app_pack("/d/app", '/'));
}

#[test]
fn an_installation() {
    let task = HapInstall::new(4, 10, "/tmp/a.hap", '/');
    assert_eq!((task.init().channel_id, task.init().command), (4, HdcCommand::AppInit));
    let request = task.request();
    assert_eq!(request.command, HdcCommand::AppCheck);
    let config = TransferConfig::deserialize(&request.payload).unwrap();
    assert_eq!(config.file_size, 10);
    assert_eq!(config.path, "/data/local/tmp/a.hap");
    assert_eq!(config.optional_name, "a.hap");
    assert_eq!(config.function_name, "install");
    assert_eq!(
        task.on_reply(&reply(HdcCommand::AppFinish, &[1, 0])),
        InstallStep::Done("AppMod finish: a.hap\r\n".to_string())
    );
    assert_eq!(
        task.on_reply(&reply(HdcCommand::AppFinish, b"\x01\x01bad")),
        InstallStep::Fail("[Fail]App install failed: bad".to_string())
    );
    assert_eq!(
        task.on_reply(&reply(HdcCommand::AppFinish, &[1])),
        InstallStep::Fail("[Fail]App unknown failed: Invalid AppFinish payload".to_string())
    );
    assert_eq!(
        task.on_reply(&reply(HdcCommand::KernelEcho, b"x")),
        InstallStep::Tell("x".to_string())
    );
    assert_eq!(task.on_reply(&reply(HdcCommand::AppData, b"")), InstallStep::Pass);
    assert_eq!(
        task.on_reply(&reply(HdcCommand::KernelChannelClose, b"")),
        InstallStep::Fail("[Fail]App unknown failed: Channel closed".to_string())
    );
    assert_eq!(
        task.on_reply(&Reply::TimedOut),
        InstallStep::Fail("Timeout waiting for app install result".to_string())
    );
}

#[test]
fn the_files_of_a_command() {
    assert_eq!(
        resolve_file_paths(&words("file send a b"), '/'),
        Ok(("a".to_string(), "b".to_string()))
    );
    assert_eq!(
        resolve_file_paths(&words("file send -cwd /w/ \"a\" b"), '/'),
        Ok(("/w/a".to_string(), "b".to_string()))
    );
    assert_eq!(resolve_file_paths(&words("file send a"), '/'), Err(PathError::MissingArguments));
    assert_eq!(
        resolve_file_paths(&words("file send -cwd /w a"), '/'),
        Err(PathError::MissingPath)
    );
    assert_eq!(PathError::MissingArguments.message(), "Missing file path arguments");
    assert_eq!(PathError::MissingPath.message(), "Missing local or remote path");
    assert_eq!(strip_quotes("  \"a b\" "), "a b");
    assert_eq!(strip_quotes("\""), "\"");
}

#[test]
fn names_and_extensions() {
    assert_eq!(file_name("/a/b.txt", '/'), Some("b.txt".to_string()));
    assert_eq!(file_name("/a/b/", '/'), Some("b".to_string()));
    assert_eq!(file_name("/", '/'), None);
    assert_eq!(file_name("a/..", '/'), None);
    assert_eq!(file_extension("/a/b.tar.gz", '/'), Some("gz".to_string()));
    assert_eq!(file_extension("/a/.profile", '/'), None);
    assert_eq!(file_extension("/a.d/b", '/'), None);
    assert_eq!(file_name("C:a", '/'), Some("C:a".to_string()));
}

#[test]
fn names_behind_prefixes() {
    let name = |path: &str| file_name(path, '\\');
    assert_eq!(name("C:a"), Some("a".to_string()));
    assert_eq!(name("C:"), None);
    assert_eq!(name("C:\\d/a.hap"), Some("a.hap".to_string()));
    assert_eq!(name("\\\\server\\share"), None);
    assert_eq!(name("//server/share/a"), Some("a".to_string()));
    assert_eq!(name("\\\\server"), Some("server".to_string()));
    assert_eq!(name("\\\\.\\COM42"), None);
    assert_eq!(name("\\\\?\\C:\\d\\a/b"), Some("a/b".to_string()));
    assert_eq!(name("\\\\?\\UNC\\server\\share\\a"), Some("a".to_string()));
    assert_eq!(name("\\\\?\\name"), None);
    assert_eq!(name("\\\\?\\C:\\a\\."), None);
    assert_eq!(name("a\\."), Some("a".to_string()));
    assert_eq!(file_extension("C:a.hap", '\\'), Some("hap".to_string()));
}

#[test]
fn a_file_is_sent() {
    let mut task = FileSend::new(4, 5, "/w/a.txt", "/data/", '/');
    assert_eq!(task.wakeup().command, HdcCommand::KernelWakeupSlavetask);
    let config = TransferConfig::deserialize(&task.request().payload).unwrap();
    assert_eq!((config.file_size, config.path.as_str()), (5, "/data/"));
    assert_eq!(task.on_reply(reply(HdcCommand::FileBegin, b"")), SendStep::Begin);
    assert_eq!(task.finish(), message(HdcCommand::FileFinish, &[1]));
    assert_eq!(
        on_finish_reply(&reply(HdcCommand::FileFinish, &[0])),
        Some("FileTransfer finish\r\n".to_string())
    );
    assert_eq!(on_finish_reply(&reply(HdcCommand::FileFinish, &[1])), None);
    assert_eq!(
        on_finish_reply(&Reply::TimedOut),
        Some("[Fail]FileTransfer timeout\r\n".to_string())
    );
    assert_eq!(
        on_finish_reply(&Reply::Closed),
        Some("[Fail]FileTransfer failed: Response channel closed\r\n".to_string())
    );
}

#[test]
fn a_directory_gets_the_name_of_the_file_once() {
    let mut task = FileSend::new(4, 5, "/w/a.txt", "/data/", '/');
    let complaint = b"\x00illegal operation on a directory";
    let again = match task.on_reply(reply(HdcCommand::KernelEcho, complaint)) {
        SendStep::Again(m) => m,
        _ => panic!("the request goes out again"),
    };
    let config = TransferConfig::deserialize(&again.payload).unwrap();
    assert_eq!(config.path, "/data");
    assert_eq!(config.optional_name, "a.txt");
    assert_eq!(task.on_reply(reply(HdcCommand::KernelChannelClose, b"")), SendStep::Pass);
    assert!(matches!(
        task.on_reply(reply(HdcCommand::KernelEcho, complaint)),
        SendStep::Fail(TransferError::Unexpected { .. })
    ));
    assert_eq!(trim_slashes("/data\\//"), "/data");
}

#[test]
fn files_that_are_not_taken() {
    let mut task = FileSend::new(4, 5, "/w/a.txt", "/data", '/');
    assert_eq!(task.on_reply(Reply::Closed), SendStep::Fail(TransferError::ResponseClosed));
    assert_eq!(
        task.on_reply(Reply::TimedOut),
        SendStep::Fail(TransferError::NoAnswer(HdcCommand::FileBegin))
    );
    assert_eq!(
        TransferError::NoAnswer(HdcCommand::FileBegin).message(),
        "Timeout waiting for FileBegin"
    );
    assert_eq!(
        task.on_reply(reply(HdcCommand::KernelChannelClose, b"")),
        SendStep::Fail(TransferError::Unexpected {
            expected: HdcCommand::FileBegin,
            got: HdcCommand::KernelChannelClose
        })
    );
    assert_eq!(
        make_unexpected(HdcCommand::FileBegin, HdcCommand::KernelEcho),
        "Expected FileBegin, got KernelEcho"
    );
    assert_eq!(TransferError::NoData.message(), "Timeout waiting for file data");
    assert_eq!(TransferError::NoResult.message(), "Timeout waiting for app install result");
    assert_eq!(
        TransferError::BadFinish(HdcCommand::AppFinish).message(),
        "Invalid AppFinish payload"
    );
}

#[test]
fn pieces_carry_their_place_and_their_bytes() {
    let mut sender = Sender::new(4, HdcCommand::FileData);
    let first = sender.next_piece(b"hello");
    let second = sender.next_piece(b"world!");
    assert_eq!(sender.offset, 11);
    assert_eq!(first.payload.len(), 64 + 5);
    let head = TransferPayload::deserialize(&first.payload[..64]).unwrap();
    assert_eq!((head.index, head.compress_size, head.uncompress_size), (0, 5, 5));
    let head = TransferPayload::deserialize(&second.payload[..64]).unwrap();
    assert_eq!((head.index, head.compress_size), (5, 6));
    assert_eq!(second.payload[64..], *b"world!");
    assert_eq!(make_piece(0, &[]), vec![0; 64]);
}

#[test]
fn a_file_is_received() {
    let config = config_bytes(11, "", "/data/a", "", "");
    let mut task = FileRecv::new(4, &message(HdcCommand::FileCheck, &config));
    assert_eq!(task.begin(), message(HdcCommand::FileBegin, b""));
    let mut sender = Sender::new(4, HdcCommand::FileData);
    let first = sender.next_piece(b"hello");
    let second = sender.next_piece(b"world!");
    assert_eq!(
        task.on_reply(Reply::Message(first)),
        RecvStep::Write(b"hello".to_vec())
    );
    assert_eq!(
        task.on_reply(Reply::Message(second.clone())),
        RecvStep::WriteAndSend(b"world!".to_vec(), message(HdcCommand::FileFinish, &[1]))
    );
    assert_eq!(
        task.on_reply(Reply::Message(second)),
        RecvStep::Write(b"world!".to_vec())
    );
    assert_eq!(task.total(), 17);
    assert_eq!(task.summary(), "FileTransfer finish, Size:17 bytes\r\n");
    assert_eq!(
        task.on_reply(reply(HdcCommand::FileFinish, &[1])),
        RecvStep::SendAndEnd(message(HdcCommand::FileFinish, &[0]))
    );
    assert_eq!(task.on_reply(reply(HdcCommand::FileFinish, &[0])), RecvStep::End);
    assert_eq!(task.on_reply(reply(HdcCommand::FileData, &[1; 63])), RecvStep::Pass);
    assert_eq!(
        task.on_reply(reply(HdcCommand::KernelEcho, b"x")),
        RecvStep::Tell("x".to_string())
    );
    assert_eq!(task.on_reply(Reply::TimedOut), RecvStep::Fail(TransferError::NoData));
    assert_eq!(
        make_recv_request(4, "/data/a", "b"),
        message(HdcCommand::FileInit, b"recv /data/a b")
    );
}

#[test]
fn a_head_is_read_whatever_fills_it_up() {
    let mut head = vec![0x08, 0x80, 0x01, 0x18, 0x05, 0x20, 0x05];
    let expected = TransferPayload {
        index: 128,
        compress_type: 0,
        compress_size: 5,
        uncompress_size: 5,
    };
    while head.len() <= 64 {
        assert_eq!(TransferPayload::deserialize(&head).unwrap(), expected);
        head.push(0);
    }
    let explicit = TransferPayload::deserialize(&[0x08, 7, 0x18, 0]).unwrap();
    assert_eq!((explicit.index, explicit.compress_size), (7, 0));
}

#[test]
fn every_place_of_a_file_is_received() {
    for index in [0u64, 127, 128, 16384, 2097152, 2616000, u64::MAX] {
        let mut task = FileRecv::new(4, &message(HdcCommand::FileCheck, &[0xff]));
        let piece = make_piece(index, b"abc");
        assert_eq!(
            task.on_reply(reply(HdcCommand::FileData, &piece)),
            RecvStep::WriteAndSend(b"abc".to_vec(), message(HdcCommand::FileFinish, &[1]))
        );
        assert_eq!(task.total(), 3);
    }
}

#[test]
fn a_piece_without_a_head_is_written_as_it_came() {
    let mut task = FileRecv::new(4, &message(HdcCommand::FileCheck, &[0xff]));
    let raw = vec![0xffu8; 70];
    assert_eq!(task.on_reply(reply(HdcCommand::FileData, &raw)), RecvStep::Write(raw));
    assert_eq!(task.total(), 70);
}

#[test]
fn waiting_for_one_message() {
    let begin = HdcCommand::FileBegin;
    assert_eq!(
        wait_for(begin, None, reply(begin, b"x")),
        Waited::Come(message(begin, b"x"))
    );
    assert_eq!(wait_for(begin, Some(9), reply(begin, b"x")), Waited::Pass);
    assert_eq!(
        wait_for(begin, None, reply(HdcCommand::KernelWakeupSlavetask, b"")),
        Waited::Pass
    );
    assert_eq!(
        wait_for(begin, Some(4), reply(HdcCommand::KernelEcho, b"")),
        Waited::Fail(TransferError::Unexpected { expected: begin, got: HdcCommand::KernelEcho })
    );
    assert_eq!(wait_for(begin, None, Reply::Closed), Waited::Fail(TransferError::ResponseClosed));
    assert_eq!(
        wait_for(begin, None, Reply::TimedOut),
        Waited::Fail(TransferError::NoAnswer(begin))
    );
}

#[test]
fn the_words_of_flashing() {
    assert_eq!(
        parse_flashd_file_args(&words("update a.zip"), true),
        Ok(("a.zip".to_string(), false))
    );
    assert_eq!(
        parse_flashd_file_args(&words("flash -f boot a.img"), false),
        Ok(("a.img".to_string(), true))
    );
    assert_eq!(parse_flashd_file_args(&[], true), Err(FlashError::MissingCommand));
    assert_eq!(
        parse_flashd_file_args(&words("flash boot"), false),
        Err(FlashError::BadArguments { is_update: false })
    );
    assert_eq!(FlashError::MissingCommand.message(), "Missing flashd command");
    assert_eq!(
        FlashError::BadArguments { is_update: true }.message(),
        "Invalid flashd update arguments"
    );
    assert_eq!(validate_flashd_file("/a/b.IMG", '/'), Ok(()));
    let e = validate_flashd_file("/a/b.txt", '/').unwrap_err();
    assert_eq!(
        e.message(),
        "Invalid flashd file type: txt (expected .img/.bin/.fd/.cpio/.zip)"
    );
}

#[test]
fn images_go_to_the_device() {
    let m = make_flash_request(4, 9, &words("flash boot /w/a.img"), "/w/a.img", false, '/');
    assert_eq!(m.command, HdcCommand::FlashdCheck);
    assert_eq!(m.payload[..8], [0; 8]);
    let config = TransferConfig::deserialize(&m.payload[8..]).unwrap();
    assert_eq!(config.options, "flash boot /w/a.img");
    assert_eq!(config.optional_name, "a.img");
    assert_eq!(config.function_name, "flashd_flash");
    assert_eq!(
        make_flash_command(4, HdcCommand::FlashdErase, &words("erase boot")),
        message(HdcCommand::FlashdErase, b"erase boot")
    );
    assert_eq!(progress_step(10, 10), None);
    assert_eq!(progress_step(10, 11), Some("\rProcessing: 11%".to_string()));
    let finish = |p: &[u8]| flash_step(4, &reply(HdcCommand::FlashdFinish, p));
    assert_eq!(finish(&[0, 2]), FlashStep::Done("\r\n".to_string()));
    assert_eq!(finish(b"\x00\x02ok"), FlashStep::Done("\r\nok\r\n".to_string()));
    assert_eq!(finish(b"\x00\x00no"), FlashStep::Fail("[Fail]Flashd failed: no".to_string()));
    assert_eq!(
        finish(&[0]),
        FlashStep::Fail("Invalid FlashdFinish payload".to_string())
    );
    assert_eq!(
        flash_step(4, &reply(HdcCommand::FlashdProgress, &[42])),
        FlashStep::Tell("\rProcessing: 42%".to_string())
    );
    assert_eq!(flash_step(5, &reply(HdcCommand::FlashdProgress, &[42])), FlashStep::Pass);
    assert_eq!(
        flash_step(4, &Reply::TimedOut),
        FlashStep::Fail("Timeout waiting for FlashdFinish".to_string())
    );
}

#[test]
fn a_shell() {
    assert_eq!(shell_init(4), message(HdcCommand::ShellInit, b""));
    assert_eq!(shell_input(4, b"ls\n".to_vec()), message(HdcCommand::ShellData, b"ls\n"));
    assert_eq!(
        shell_step(&Some(message(HdcCommand::ShellData, b"x"))),
        ShellStep::Write(vec![0, 0, 0, 1, b'x'])
    );
    assert_eq!(
        shell_step(&Some(message(HdcCommand::KernelChannelClose, b""))),
        ShellStep::Close
    );
    assert_eq!(shell_step(&Some(message(HdcCommand::FileBegin, b""))), ShellStep::Pass);
    assert_eq!(shell_step(&None), ShellStep::Close);
}
