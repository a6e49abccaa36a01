//! The client: what a command sends to the server, and what is done with the answers.

use crate::host::connect_map;
use crate::host::connect_map::DeviceView;
use crate::host::dispatch;
use crate::host::dispatch::{contains_word, text_bytes};
use crate::host::parser::{ParsedCommand, ParsedCommandView};
use crate::protocol::bytes;
use crate::protocol::bytes::{copy_range, read_le16};
use crate::protocol::command::HdcCommand;
use crate::protocol::config;
use crate::protocol::config::{HDC_VERSION_NUMBER, get_version};
use crate::text;
use crate::text::{Utf8Fault, concat2, concat3, copy_text, decimal_text, join, read_utf8, same_text, starts_with, text_of_utf8};
use vstd::prelude::*;
use vstd::utf8::*;

verus! {

// ---------------------------------------------------------------------------
// The first decision
// ---------------------------------------------------------------------------

/// What a command line leads to.
#[derive(Debug, Clone, Copy, PartialEq, Eq, Structural)]
pub enum ClientStart {
    /// A server is started, perhaps after the one that runs was stopped.
    StartServer { kill_first: bool },
    /// The server is stopped, and perhaps another one started.
    KillServer { start_after: bool },
    /// The usage is printed.
    Help,
    /// A key is made.
    MakeKey,
    /// The server is asked, and perhaps started before that.
    Ask { launch: bool },
}

/// What a command line leads to.
pub open spec fn start_of(cmd: ParsedCommandView) -> ClientStart {
    match cmd.command {
        Some(HdcCommand::KernelServerStart) => ClientStart::StartServer {
            kill_first: dispatch::has_word(cmd.parameters, "-r"@),
        },
        Some(HdcCommand::KernelServerKill) => ClientStart::KillServer {
            start_after: dispatch::has_word(cmd.parameters, "-r"@),
        },
        Some(HdcCommand::KernelHelp) => ClientStart::Help,
        Some(HdcCommand::ClientKeyGenerate) => ClientStart::MakeKey,
        _ => ClientStart::Ask { launch: cmd.launch_server },
    }
}

/// What a command line leads to.
pub fn client_start(cmd: &ParsedCommand) -> (r: ClientStart)
    ensures
        r == start_of(cmd@),
{
    match cmd.command {
        Some(HdcCommand::KernelServerStart) => ClientStart::StartServer {
            kill_first: contains_word(cmd.parameters.as_slice(), "-r"),
        },
        Some(HdcCommand::KernelServerKill) => ClientStart::KillServer {
            start_after: contains_word(cmd.parameters.as_slice(), "-r"),
        },
        Some(HdcCommand::KernelHelp) => ClientStart::Help,
        Some(HdcCommand::ClientKeyGenerate) => ClientStart::MakeKey,
        _ => ClientStart::Ask { launch: cmd.launch_server },
    }
}

// ---------------------------------------------------------------------------
// What is sent
// ---------------------------------------------------------------------------

/// What is done with the answers of the server.
#[derive(Debug, PartialEq, Eq)]
pub enum Reading {
    /// They are printed; one that is no text is an error.
    Texts,
    /// They are printed, whatever they are, until the server closes the connection.
    All,
    /// They are printed, each on a line of its own; one that is no text is an error.
    Lines,
    /// They are written to a file.
    File(String),
    /// The request is repeated until a device is there.
    Wait,
    /// The only answer holds the version of the server.
    Server,
    /// The only answer is printed.
    Version,
    /// The terminal of the user becomes that of the device.
    Shell,
}

/// What is done with the answers of the server.
pub enum ReadingView {
    Texts,
    All,
    Lines,
    File(Seq<char>),
    Wait,
    Server,
    Version,
    Shell,
}

impl View for Reading {
    type V = ReadingView;

    open spec fn view(&self) -> ReadingView {
        match *self {
            Reading::Texts => ReadingView::Texts,
            Reading::All => ReadingView::All,
            Reading::Lines => ReadingView::Lines,
            Reading::File(p) => ReadingView::File(p@),
            Reading::Wait => ReadingView::Wait,
            Reading::Server => ReadingView::Server,
            Reading::Version => ReadingView::Version,
            Reading::Shell => ReadingView::Shell,
        }
    }
}

/// What a command does.
#[derive(Debug, PartialEq, Eq)]
pub enum ClientPlan {
    /// The usage is printed.
    Help,
    /// Bytes go to the server, and its answers are read.
    Send(Vec<u8>, Reading),
}

/// What a command does.
pub enum ClientPlanView {
    Help,
    Send(Seq<u8>, ReadingView),
}

impl View for ClientPlan {
    type V = ClientPlanView;

    open spec fn view(&self) -> ClientPlanView {
        match *self {
            ClientPlan::Help => ClientPlanView::Help,
            ClientPlan::Send(b, r) => ClientPlanView::Send(b@, r@),
        }
    }
}

/// Why a command is not carried out.
#[derive(Debug, Clone, Copy, PartialEq, Eq, Structural)]
pub enum ClientError {
    /// There are too few words.
    TooFew,
    /// The command is none that a client sends.
    Unknown(u32),
}

impl ClientError {
    /// The sentence that reports the error.
    pub open spec fn text(self) -> Seq<char> {
        match self {
            ClientError::TooFew => "Too few arguments."@,
            ClientError::Unknown(n) => "unknown command: "@ + text::decimal(n as nat),
        }
    }

    /// The sentence that reports the error.
    pub fn message(&self) -> (r: String)
        ensures
            r@ == self.text(),
    {
        match *self {
            ClientError::TooFew => "Too few arguments.".to_owned(),
            ClientError::Unknown(n) => concat2(
                "unknown command: ",
                decimal_text(n as u64).as_str(),
            ),
        }
    }

    /// Tells whether the error is shown to the user.
    pub fn is_shown(&self) -> (r: bool)
        ensures
            r == (self is Unknown),
    {
        match *self {
            ClientError::TooFew => false,
            ClientError::Unknown(_) => true,
        }
    }
}

/// The words of a command as they go out.
pub open spec fn as_sent(params: Seq<Seq<char>>) -> Seq<u8> {
    encode_utf8(text::joined(params, " "@))
}

/// The words of a command with the directory of this process behind the first `at`.
pub open spec fn with_cwd(params: Seq<Seq<char>>, at: int, cwd: Seq<char>) -> Seq<Seq<char>> {
    params.take(at) + seq!["-cwd"@, cwd] + params.skip(at)
}

/// The words of the command that changes the mode of the daemon.
pub open spec fn rootrun_words(params: Seq<Seq<char>>) -> Seq<Seq<char>> {
    if params.len() >= 2 && text::has_prefix(params[1], "-r"@) {
        params.update(1, "r"@)
    } else {
        params
    }
}

/// The commands whose answers are texts.
pub open spec fn is_general(c: HdcCommand) -> bool {
    c == HdcCommand::KernelTargetList || c == HdcCommand::KernelTargetConnect || c
        == HdcCommand::UnityHilog || c == HdcCommand::KernelTargetDiscover || c
        == HdcCommand::KernelCheckDevice || c == HdcCommand::KernelEnableKeepalive
}

/// The commands that go out as they are and whose answers may be anything.
pub open spec fn is_plain(c: HdcCommand) -> bool {
    c == HdcCommand::FileCheck || c == HdcCommand::FileRecvInit || c == HdcCommand::UnityRunmode
        || c == HdcCommand::UnityReboot || c == HdcCommand::UnityRemount || c
        == HdcCommand::FlashdUpdateInit || c == HdcCommand::FlashdFlashInit || c
        == HdcCommand::FlashdErase || c == HdcCommand::FlashdFormat || c == HdcCommand::ForwardList
        || c == HdcCommand::ForwardRportList || c == HdcCommand::JdwpList || c
        == HdcCommand::JdwpTrack || c == HdcCommand::SpawnSub
}

/// How many words a command that carries a directory has at least.
pub open spec fn words_before_cwd(c: HdcCommand) -> int {
    if c == HdcCommand::FileInit {
        2
    } else if c == HdcCommand::AppInit || c == HdcCommand::AppSideload {
        1
    } else {
        0
    }
}

/// What a command does.
pub open spec fn plan_of(c: HdcCommand, params: Seq<Seq<char>>, cwd: Seq<char>) -> Result<
    ClientPlanView,
    ClientError,
> {
    if is_general(c) {
        Ok(ClientPlanView::Send(as_sent(params), ReadingView::Texts))
    } else if is_plain(c) {
        Ok(ClientPlanView::Send(as_sent(params), ReadingView::All))
    } else if words_before_cwd(c) > 0 {
        Ok(
            ClientPlanView::Send(
                as_sent(with_cwd(params, words_before_cwd(c), cwd)),
                ReadingView::All,
            ),
        )
    } else if c == HdcCommand::AppUninstall {
        Ok(ClientPlanView::Send(as_sent(params), ReadingView::Lines))
    } else if c == HdcCommand::UnityRootrun {
        Ok(ClientPlanView::Send(as_sent(rootrun_words(params)), ReadingView::All))
    } else if c == HdcCommand::UnityExecute || c == HdcCommand::UnityExecuteEx {
        if params.len() == 1 {
            Ok(ClientPlanView::Send(encode_utf8("shell\0"@), ReadingView::Shell))
        } else {
            Ok(ClientPlanView::Send(as_sent(params), ReadingView::All))
        }
    } else if c == HdcCommand::KernelWaitFor {
        Ok(ClientPlanView::Send(as_sent(params), ReadingView::Wait))
    } else if c == HdcCommand::UnityBugreportInit {
        if params.len() <= 1 {
            Ok(ClientPlanView::Send(as_sent(params), ReadingView::Texts))
        } else {
            Ok(ClientPlanView::Send(as_sent(params), ReadingView::File(params[1])))
        }
    } else if c == HdcCommand::ForwardRemove || c == HdcCommand::ForwardRportRemove {
        if params.len() < 2 {
            Err(ClientError::TooFew)
        } else {
            Ok(ClientPlanView::Send(as_sent(params), ReadingView::All))
        }
    } else if c == HdcCommand::ForwardInit || c == HdcCommand::ForwardRportInit {
        if params.len() < 3 {
            Err(ClientError::TooFew)
        } else {
            Ok(ClientPlanView::Send(as_sent(params), ReadingView::All))
        }
    } else if c == HdcCommand::KernelCheckServer {
        Ok(ClientPlanView::Send(as_sent(params), ReadingView::Server))
    } else if c == HdcCommand::ClientVersion {
        Ok(ClientPlanView::Send(as_sent(params), ReadingView::Version))
    } else if c == HdcCommand::KernelHelp {
        Ok(ClientPlanView::Help)
    } else {
        Err(ClientError::Unknown(c.code()))
    }
}

fn send_words(params: &[String], reading: Reading) -> (r: Result<ClientPlan, ClientError>)
    ensures
        r is Ok,
        r->Ok_0@ == ClientPlanView::Send(as_sent(text::texts(params@)), reading@),
{
    Ok(ClientPlan::Send(text_bytes(join(params, " ").as_str()), reading))
}

fn send_with_cwd(params: Vec<String>, at: usize, cwd: &str) -> (r: Result<ClientPlan, ClientError>)
    requires
        at <= params@.len(),
        at <= 2,
    ensures
        r is Ok,
        r->Ok_0@ == ClientPlanView::Send(
            as_sent(with_cwd(text::texts(params@), at as int, cwd@)),
            ReadingView::All,
        ),
{
    let ghost before = text::texts(params@);
    let mut out = params;
    out.insert(at, "-cwd".to_owned());
    out.insert(at + 1, copy_text(cwd));
    assert(text::texts(out@) =~= with_cwd(before, at as int, cwd@));
    send_words(out.as_slice(), Reading::All)
}

/// What a command does. `cwd` is the directory of this process, with a separator at its
/// end. A command that sends a file or installs a package has its own words at least.
pub fn plan_command(command: HdcCommand, params: Vec<String>, cwd: &str) -> (r: Result<
    ClientPlan,
    ClientError,
>)
    requires
        params@.len() >= words_before_cwd(command),
    ensures
        match r {
            Ok(p) => plan_of(command, text::texts(params@), cwd@) == Ok::<_, ClientError>(p@),
            Err(e) => plan_of(command, text::texts(params@), cwd@) == Err::<ClientPlanView, _>(e),
        },
{
    let n: usize = params.len();
    let ghost views = text::texts(params@);
    match command {
        HdcCommand::KernelTargetList
        | HdcCommand::KernelTargetConnect
        | HdcCommand::UnityHilog
        | HdcCommand::KernelTargetDiscover
        | HdcCommand::KernelCheckDevice
        | HdcCommand::KernelEnableKeepalive => send_words(params.as_slice(), Reading::Texts),
        HdcCommand::FileCheck
        | HdcCommand::FileRecvInit
        | HdcCommand::UnityRunmode
        | HdcCommand::UnityReboot
        | HdcCommand::UnityRemount
        | HdcCommand::FlashdUpdateInit
        | HdcCommand::FlashdFlashInit
        | HdcCommand::FlashdErase
        | HdcCommand::FlashdFormat
        | HdcCommand::ForwardList
        | HdcCommand::ForwardRportList
        | HdcCommand::JdwpList
        | HdcCommand::JdwpTrack
        | HdcCommand::SpawnSub => send_words(params.as_slice(), Reading::All),
        HdcCommand::FileInit => send_with_cwd(params, 2, cwd),
        HdcCommand::AppInit | HdcCommand::AppSideload => send_with_cwd(params, 1, cwd),
        HdcCommand::AppUninstall => send_words(params.as_slice(), Reading::Lines),
        HdcCommand::UnityRootrun => {
            let mut out = params;
            if n >= 2 {
                assert(views[1] == out@[1]@);
                if starts_with(out[1].as_str(), "-r") {
                    out.set(1, "r".to_owned());
                    assert(text::texts(out@) =~= views.update(1, "r"@));
                }
            }
            send_words(out.as_slice(), Reading::All)
        },
        HdcCommand::UnityExecute | HdcCommand::UnityExecuteEx => {
            if n == 1 {
                Ok(ClientPlan::Send(text_bytes("shell\0"), Reading::Shell))
            } else {
                send_words(params.as_slice(), Reading::All)
            }
        },
        HdcCommand::KernelWaitFor => send_words(params.as_slice(), Reading::Wait),
        HdcCommand::UnityBugreportInit => {
            if n <= 1 {
                send_words(params.as_slice(), Reading::Texts)
            } else {
                assert(views[1] == params@[1]@);
                let path = copy_text(params[1].as_str());
                send_words(params.as_slice(), Reading::File(path))
            }
        },
        HdcCommand::ForwardRemove | HdcCommand::ForwardRportRemove => {
            if n < 2 {
                Err(ClientError::TooFew)
            } else {
                send_words(params.as_slice(), Reading::All)
            }
        },
        HdcCommand::ForwardInit | HdcCommand::ForwardRportInit => {
            if n < 3 {
                Err(ClientError::TooFew)
            } else {
                send_words(params.as_slice(), Reading::All)
            }
        },
        HdcCommand::KernelCheckServer => send_words(params.as_slice(), Reading::Server),
        HdcCommand::ClientVersion => send_words(params.as_slice(), Reading::Version),
        HdcCommand::KernelHelp => Ok(ClientPlan::Help),
        _ => Err(ClientError::Unknown(command.as_u32())),
    }
}

// ---------------------------------------------------------------------------
// What is done with the answers
// ---------------------------------------------------------------------------

/// A digit of a number to the base sixteen.
pub open spec fn hex_digit(d: nat) -> char {
    if d < 10 {
        (d + '0' as nat) as char
    } else {
        (d - 10 + 'a' as nat) as char
    }
}

/// A byte as two digits.
pub open spec fn hex_byte(b: u8) -> Seq<char> {
    seq![hex_digit((b / 16) as nat), hex_digit((b % 16) as nat)]
}

/// Bytes as a list of two digits each.
pub open spec fn hex_list(bytes: Seq<u8>) -> Seq<char>
    decreases bytes.len(),
{
    if bytes.len() == 0 {
        Seq::empty()
    } else if bytes.len() == 1 {
        hex_byte(bytes[0])
    } else {
        hex_list(bytes.drop_last()) + ", "@ + hex_byte(bytes.last())
    }
}

fn push_hex(s: &mut String, b: u8)
    ensures
        final(s)@ == old(s)@ + hex_byte(b),
{
    let digits: [char; 16] = [
        '0',
        '1',
        '2',
        '3',
        '4',
        '5',
        '6',
        '7',
        '8',
        '9',
        'a',
        'b',
        'c',
        'd',
        'e',
        'f',
    ];
    assert(forall|d: int| 0 <= d < 16 ==> #[trigger] digits@[d] == hex_digit(d as nat));
    let hi: usize = (b / 16) as usize;
    let lo: usize = (b % 16) as usize;
    let ghost before = s@;
    s.push(digits[hi]);
    s.push(digits[lo]);
    assert(s@ =~= before + hex_byte(b));
}

fn make_hex_list(bytes: &[u8]) -> (r: String)
    ensures
        r@ == hex_list(bytes@),
{
    let mut s = String::new();
    let mut i: usize = 0;
    while i < bytes.len()
        invariant
            i <= bytes.len(),
            s@ == hex_list(bytes@.take(i as int)),
        decreases bytes.len() - i,
    {
        assert(bytes@.take(i + 1).drop_last() =~= bytes@.take(i as int));
        if i > 0 {
            s.append(", ");
        } else {
            assert(s@ + hex_byte(bytes@[0]) =~= hex_byte(bytes@[0]));
        }
        push_hex(&mut s, bytes[i]);
        i = i + 1;
    }
    assert(bytes@.take(i as int) =~= bytes@);
    s
}

/// What is shown of an answer.
#[derive(Debug, PartialEq, Eq)]
pub enum Shown {
    /// A text.
    Text(String),
    /// A remark on bytes that are no text.
    Remark(String),
}

/// What is shown of bytes that are no text.
pub open spec fn shown_bytes(bytes: Seq<u8>) -> Seq<char> {
    "[binary data: ["@ + hex_list(bytes) + "]]"@
}

/// What is shown of an answer, whatever it is.
pub fn show_answer(answer: Vec<u8>) -> (r: Shown)
    ensures
        match r {
            Shown::Text(t) => valid_utf8(answer@) && t@ == decode_utf8(answer@),
            Shown::Remark(t) => !valid_utf8(answer@) && t@ == shown_bytes(answer@),
        },
{
    let remark = concat3("[binary data: [", make_hex_list(answer.as_slice()).as_str(), "]]");
    match text_of_utf8(answer) {
        Some(t) => Shown::Text(t),
        None => Shown::Remark(remark),
    }
}

/// The sentence that reports an answer that is no text, for the way in which the answers are
/// read.
pub open spec fn answer_fault(reading: ReadingView, fault: Utf8Fault) -> Seq<char> {
    match reading {
        ReadingView::Texts => "recv data to str failed: "@ + fault.text(),
        ReadingView::Version => "from_utf8 failed: "@ + fault.text(),
        _ => fault.text(),
    }
}

/// The text of an answer, for the way in which the answers are read; where it is none, the
/// sentence that reports it.
pub fn answer_text(reading: &Reading, answer: Vec<u8>) -> (r: Result<String, String>)
    ensures
        match r {
            Ok(t) => valid_utf8(answer@) && t@ == decode_utf8(answer@),
            Err(e) => !valid_utf8(answer@) && e@ == answer_fault(
                reading@,
                text::utf8_fault(answer@),
            ),
        },
{
    match read_utf8(answer) {
        Ok(t) => Ok(t),
        Err(fault) => {
            let told = fault.message();
            match reading {
                Reading::Texts => Err(concat2("recv data to str failed: ", told.as_str())),
                Reading::Version => Err(concat2("from_utf8 failed: ", told.as_str())),
                _ => Err(told),
            }
        },
    }
}

/// What the server says while no device is there.
pub const NO_TARGET: &'static str = "[Fail]No any connected target\r\n";

/// Tells whether the request is to be repeated: the answer is a text, and says that no
/// device is there.
pub fn waits_on(answer: Vec<u8>) -> (r: bool)
    requires
        valid_utf8(answer@),
    ensures
        r == (decode_utf8(answer@) == NO_TARGET@),
{
    match text_of_utf8(answer) {
        Some(t) => same_text(t.as_str(), NO_TARGET),
        None => false,
    }
}

/// Why the answer of the server to the question for its version is not taken.
#[derive(Debug, Clone, Copy, PartialEq, Eq, Structural)]
pub enum ServerAnswerError {
    /// It is too short.
    TooShort,
    /// It answers something else.
    OtherCommand,
    /// The version is no text.
    NotText(Utf8Fault),
}

impl ServerAnswerError {
    /// The sentence that reports the error.
    pub open spec fn text(self) -> Seq<char> {
        match self {
            ServerAnswerError::TooShort => "recv failed"@,
            ServerAnswerError::OtherCommand => "recv cmd error"@,
            ServerAnswerError::NotText(e) => "from_utf8 failed: "@ + e.text(),
        }
    }

    /// The sentence that reports the error.
    pub fn message(&self) -> (r: String)
        ensures
            r@ == self.text(),
    {
        match *self {
            ServerAnswerError::TooShort => "recv failed".to_owned(),
            ServerAnswerError::OtherCommand => "recv cmd error".to_owned(),
            ServerAnswerError::NotText(e) => concat2("from_utf8 failed: ", e.message().as_str()),
        }
    }
}

/// What is printed of the answer of the server to the question for its version.
pub open spec fn server_version(answer: Seq<u8>) -> Result<Seq<char>, ServerAnswerError> {
    if answer.len() < 2 {
        Err(ServerAnswerError::TooShort)
    } else if bytes::le16_value(answer, 0) != HdcCommand::KernelCheckServer.code() {
        Err(ServerAnswerError::OtherCommand)
    } else if !valid_utf8(answer.skip(2)) {
        Err(ServerAnswerError::NotText(text::utf8_fault(answer.skip(2))))
    } else {
        Ok(
            "client "@ + config::version_text(HDC_VERSION_NUMBER) + ", server "@ + decode_utf8(
                answer.skip(2),
            ),
        )
    }
}

/// What is printed of the answer of the server to the question for its version.
pub fn check_server_answer(answer: &[u8]) -> (r: Result<String, ServerAnswerError>)
    ensures
        match r {
            Ok(t) => server_version(answer@) == Ok::<_, ServerAnswerError>(t@),
            Err(e) => server_version(answer@) == Err::<Seq<char>, _>(e),
        },
{
    let n: usize = answer.len();
    if n < 2 {
        return Err(ServerAnswerError::TooShort);
    }
    if read_le16(answer, 0) as u32 != HdcCommand::KernelCheckServer.as_u32() {
        return Err(ServerAnswerError::OtherCommand);
    }
    let rest = copy_range(answer, 2, n);
    assert(rest@ =~= answer@.skip(2));
    match read_utf8(rest) {
        Err(e) => Err(ServerAnswerError::NotText(e)),
        Ok(v) => {
            let mut s = concat3("client ", get_version().as_str(), ", server ");
            s.append(v.as_str());
            Ok(s)
        },
    }
}

// ---------------------------------------------------------------------------
// Keys of a console
// ---------------------------------------------------------------------------

/// What a key without a character sends to a shell.
pub open spec fn key_sequence(code: u16, ctrl: bool) -> Option<Seq<u8>> {
    if code == 0x21 {
        Some(seq![0x1bu8, 0x5b, 0x35, 0x7e])
    } else if code == 0x22 {
        Some(seq![0x1bu8, 0x5b, 0x36, 0x7e])
    } else if code == 0x23 {
        Some(seq![0x1bu8, 0x5b, 0x46])
    } else if code == 0x24 {
        Some(seq![0x1bu8, 0x5b, 0x48])
    } else if code == 0x25 {
        Some(seq![0x1bu8, 0x5b, 0x44])
    } else if code == 0x26 {
        Some(seq![0x1bu8, 0x5b, 0x41])
    } else if code == 0x27 {
        Some(seq![0x1bu8, 0x5b, 0x43])
    } else if code == 0x28 {
        Some(seq![0x1bu8, 0x5b, 0x42])
    } else if code == 0x2d {
        Some(seq![0x1bu8, 0x5b, 0x32, 0x7e])
    } else if code == 0x2e {
        Some(seq![0x1bu8, 0x5b, 0x33, 0x7e])
    } else if 0x41 <= code <= 0x5a && ctrl {
        Some(seq![(code - 0x40) as u8])
    } else {
        None
    }
}

/// What a key that was pressed sends to a shell: its character, or a sequence that
/// stands for it.
pub open spec fn key_bytes_sent(code: u16, unicode: u16, ctrl: bool) -> Option<Seq<u8>> {
    if unicode == 0 {
        key_sequence(code, ctrl)
    } else if is_scalar(unicode as u32) {
        Some(encode_scalar(unicode as u32))
    } else {
        None
    }
}

fn three_bytes(c: u8) -> (r: Option<Vec<u8>>)
    ensures
        r is Some,
        r->Some_0@ == seq![0x1bu8, 0x5b, c],
{
    let mut v: Vec<u8> = Vec::new();
    v.push(0x1b);
    v.push(0x5b);
    v.push(c);
    assert(v@ =~= seq![0x1bu8, 0x5b, c]);
    Some(v)
}

fn four_bytes(c: u8) -> (r: Option<Vec<u8>>)
    ensures
        r is Some,
        r->Some_0@ == seq![0x1bu8, 0x5b, c, 0x7e],
{
    let mut v: Vec<u8> = Vec::new();
    v.push(0x1b);
    v.push(0x5b);
    v.push(c);
    v.push(0x7e);
    assert(v@ =~= seq![0x1bu8, 0x5b, c, 0x7e]);
    Some(v)
}

/// What a key that was pressed sends to a shell.
pub fn console_key(code: u16, unicode: u16, ctrl: bool) -> (r: Option<Vec<u8>>)
    ensures
        match r {
            Some(b) => key_bytes_sent(code, unicode, ctrl) == Some(b@),
            None => key_bytes_sent(code, unicode, ctrl) is None,
        },
{
    if unicode == 0 {
        return match code {
            0x21 => four_bytes(0x35),
            0x22 => four_bytes(0x36),
            0x23 => three_bytes(0x46),
            0x24 => three_bytes(0x48),
            0x25 => three_bytes(0x44),
            0x26 => three_bytes(0x41),
            0x27 => three_bytes(0x43),
            0x28 => three_bytes(0x42),
            0x2d => four_bytes(0x32),
            0x2e => four_bytes(0x33),
            _ => {
                if 0x41 <= code && code <= 0x5a && ctrl {
                    let mut v: Vec<u8> = Vec::new();
                    v.push((code - 0x40) as u8);
                    assert(v@ =~= seq![(code - 0x40) as u8]);
                    Some(v)
                } else {
                    None
                }
            },
        };
    }
    let c: u32 = unicode as u32;
    let mut v: Vec<u8> = Vec::new();
    if c <= 0x7f {
        v.push((c & 0x7f) as u8);
        assert(v@ =~= encode_scalar(c));
        Some(v)
    } else if c <= 0x7ff {
        v.push(0xc0 | ((c >> 6) & 0x1f) as u8);
        v.push(0x80 | (c & 0x3f) as u8);
        assert(v@ =~= encode_scalar(c));
        Some(v)
    } else if c >= 0xd800 && c <= 0xdfff {
        None
    } else {
        v.push(0xe0 | ((c >> 12) & 0x0f) as u8);
        v.push(0x80 | ((c >> 6) & 0x3f) as u8);
        v.push(0x80 | (c & 0x3f) as u8);
        assert(v@ =~= encode_scalar(c));
        Some(v)
    }
}

// ---------------------------------------------------------------------------
// What the commands ask for
// ---------------------------------------------------------------------------

/// The commands that the client carries out by itself: to start and to end the server, again
/// where the user says `-r`, the help, and a key. Anything else is asked of a server, which is
/// started unless the user says no.
pub proof fn client_starts(cmd: ParsedCommandView)
    ensures
        cmd.command == Some(HdcCommand::KernelServerStart) ==> start_of(cmd)
            == (ClientStart::StartServer { kill_first: cmd.parameters.contains("-r"@) }),
        cmd.command == Some(HdcCommand::KernelServerKill) ==> start_of(cmd)
            == (ClientStart::KillServer { start_after: cmd.parameters.contains("-r"@) }),
        cmd.command == Some(HdcCommand::KernelHelp) ==> start_of(cmd) == ClientStart::Help,
        cmd.command == Some(HdcCommand::ClientKeyGenerate) ==> start_of(cmd)
            == ClientStart::MakeKey,
        cmd.command != Some(HdcCommand::KernelServerStart) && cmd.command != Some(
            HdcCommand::KernelServerKill,
        ) && cmd.command != Some(HdcCommand::KernelHelp) && cmd.command != Some(
            HdcCommand::ClientKeyGenerate,
        ) ==> start_of(cmd) == (ClientStart::Ask { launch: cmd.launch_server }),
{
    assert(dispatch::has_word(cmd.parameters, "-r"@) == cmd.parameters.contains("-r"@));
}

/// Most commands are sent to the server as the user wrote them, with a blank between the words,
/// and the answers are shown as they come: until the server ends, as texts, or as lines.
#[verifier::rlimit(40)]
pub proof fn commands_are_sent(params: Seq<Seq<char>>, cwd: Seq<char>)
    ensures
        forall|c: HdcCommand|
            c == HdcCommand::KernelTargetList || c == HdcCommand::KernelTargetConnect || c
                == HdcCommand::UnityHilog || c == HdcCommand::KernelTargetDiscover || c
                == HdcCommand::KernelCheckDevice || c == HdcCommand::KernelEnableKeepalive
                ==> #[trigger] plan_of(c, params, cwd) == Ok::<_, ClientError>(
                ClientPlanView::Send(
                    encode_utf8(text::joined(params, " "@)),
                    ReadingView::Texts,
                ),
            ),
        forall|c: HdcCommand|
            c == HdcCommand::FileRecvInit || c == HdcCommand::UnityRunmode || c
                == HdcCommand::UnityReboot || c == HdcCommand::UnityRemount || c
                == HdcCommand::FlashdUpdateInit || c == HdcCommand::FlashdFlashInit || c
                == HdcCommand::FlashdErase || c == HdcCommand::FlashdFormat || c
                == HdcCommand::ForwardList || c == HdcCommand::ForwardRportList || c
                == HdcCommand::JdwpList || c == HdcCommand::JdwpTrack || c == HdcCommand::SpawnSub
                ==> #[trigger] plan_of(c, params, cwd) == Ok::<_, ClientError>(
                ClientPlanView::Send(encode_utf8(text::joined(params, " "@)), ReadingView::All),
            ),
        forall|c: HdcCommand|
            (c == HdcCommand::ForwardInit || c == HdcCommand::ForwardRportInit) && params.len() >= 3
                || (c == HdcCommand::ForwardRemove || c == HdcCommand::ForwardRportRemove)
                && params.len() >= 2 || (c == HdcCommand::UnityExecute || c
                == HdcCommand::UnityExecuteEx) && params.len() != 1 ==> #[trigger] plan_of(
                c,
                params,
                cwd,
            ) == Ok::<_, ClientError>(
                ClientPlanView::Send(encode_utf8(text::joined(params, " "@)), ReadingView::All),
            ),
        plan_of(HdcCommand::AppUninstall, params, cwd) == Ok::<_, ClientError>(
            ClientPlanView::Send(encode_utf8(text::joined(params, " "@)), ReadingView::Lines),
        ),
        plan_of(HdcCommand::KernelWaitFor, params, cwd) == Ok::<_, ClientError>(
            ClientPlanView::Send(encode_utf8(text::joined(params, " "@)), ReadingView::Wait),
        ),
        plan_of(HdcCommand::KernelCheckServer, params, cwd) == Ok::<_, ClientError>(
            ClientPlanView::Send(encode_utf8(text::joined(params, " "@)), ReadingView::Server),
        ),
        plan_of(HdcCommand::ClientVersion, params, cwd) == Ok::<_, ClientError>(
            ClientPlanView::Send(encode_utf8(text::joined(params, " "@)), ReadingView::Version),
        ),
        plan_of(HdcCommand::KernelHelp, params, cwd) == Ok::<_, ClientError>(ClientPlanView::Help),
{
}

/// Some commands are sent otherwise: before the files that are sent or installed stands the
/// directory of the user; a shell without a command is asked for by its name alone; a report
/// goes to a file that the user names; a mode may be given with a hyphen.
#[verifier::rlimit(40)]
pub proof fn commands_are_sent_otherwise(
    one: Seq<char>,
    other: Seq<char>,
    rest: Seq<Seq<char>>,
    cwd: Seq<char>,
)
    ensures
        plan_of(HdcCommand::FileInit, seq![one, other] + rest, cwd) == Ok::<_, ClientError>(
            ClientPlanView::Send(
                encode_utf8(text::joined(seq![one, other, "-cwd"@, cwd] + rest, " "@)),
                ReadingView::All,
            ),
        ),
        forall|c: HdcCommand|
            #![trigger c.code()]
            c == HdcCommand::AppInit || c == HdcCommand::AppSideload ==> plan_of(
                c,
                seq![one] + rest,
                cwd,
            ) == Ok::<_, ClientError>(
                ClientPlanView::Send(
                    encode_utf8(text::joined(seq![one, "-cwd"@, cwd] + rest, " "@)),
                    ReadingView::All,
                ),
            ),
        plan_of(HdcCommand::UnityExecute, seq![one], cwd) == Ok::<_, ClientError>(
            ClientPlanView::Send(encode_utf8("shell\0"@), ReadingView::Shell),
        ),
        plan_of(HdcCommand::UnityBugreportInit, seq![one], cwd) == Ok::<_, ClientError>(
            ClientPlanView::Send(encode_utf8(one), ReadingView::Texts),
        ),
        plan_of(HdcCommand::UnityBugreportInit, seq![one, other], cwd) == Ok::<_, ClientError>(
            ClientPlanView::Send(
                encode_utf8(one + " "@ + other),
                ReadingView::File(other),
            ),
        ),
        plan_of(HdcCommand::UnityRootrun, seq![one], cwd) == Ok::<_, ClientError>(
            ClientPlanView::Send(encode_utf8(one), ReadingView::All),
        ),
        plan_of(HdcCommand::UnityRootrun, seq![one, "-r"@], cwd) == Ok::<_, ClientError>(
            ClientPlanView::Send(encode_utf8(one + " "@ + "r"@), ReadingView::All),
        ),
{
    let two = seq![one, other] + rest;
    let single = seq![one] + rest;
    assert(with_cwd(two, 2, cwd) =~= seq![one, other, "-cwd"@, cwd] + rest);
    assert(with_cwd(single, 1, cwd) =~= seq![one, "-cwd"@, cwd] + rest);
    reveal_with_fuel(text::joined, 3);
    assert(seq![one, other].drop_last() =~= seq![one]);
    assert(seq![one, "r"@].drop_last() =~= seq![one]);
    assert(seq![one, "-r"@].update(1, "r"@) =~= seq![one, "r"@]);
    assert(text::has_prefix("-r"@, "-r"@)) by {
        assert("-r"@.subrange(0, "-r"@.len() as int) =~= "-r"@);
    }
}

/// A forwarding without two nodes, and the removal of one without a word, are refused by the
/// client; and so is what it does not know.
pub proof fn incomplete_commands_are_refused(params: Seq<Seq<char>>, cwd: Seq<char>)
    ensures
        params.len() < 3 ==> plan_of(HdcCommand::ForwardInit, params, cwd) == Err::<
            ClientPlanView,
            _,
        >(ClientError::TooFew),
        params.len() < 3 ==> plan_of(HdcCommand::ForwardRportInit, params, cwd) == Err::<
            ClientPlanView,
            _,
        >(ClientError::TooFew),
        params.len() < 2 ==> plan_of(HdcCommand::ForwardRemove, params, cwd) == Err::<
            ClientPlanView,
            _,
        >(ClientError::TooFew),
        params.len() < 2 ==> plan_of(HdcCommand::ForwardRportRemove, params, cwd) == Err::<
            ClientPlanView,
            _,
        >(ClientError::TooFew),
        forall|c: HdcCommand|
            c == HdcCommand::KernelTargetAny || c == HdcCommand::KernelTargetReconnect || c
                == HdcCommand::KernelEcho || c == HdcCommand::ShellInit || c
                == HdcCommand::KernelHandshake ==> #[trigger] plan_of(c, params, cwd) == Err::<
                ClientPlanView,
                _,
            >(ClientError::Unknown(c.code())),
{
}

/// A client that waits for a device waits on as long as the server has none to tell of, and no
/// longer.
pub proof fn waiting_follows_the_server(devs: Seq<DeviceView>)
    ensures
        valid_utf8(dispatch::waited(devs).0),
        (decode_utf8(dispatch::waited(devs).0) == NO_TARGET@) == dispatch::waited(devs).1,
{
    let list = connect_map::device_list(devs, false);
    let none = "[Fail]No any connected target\r\n"@;
    let told = "Wait for connected target "@ + list[0] + "\r\n"@;
    encode_utf8_valid_utf8(none);
    encode_utf8_decode_utf8(none);
    encode_utf8_valid_utf8(told);
    encode_utf8_decode_utf8(told);
    reveal_strlit("[Fail]No any connected target\r\n");
    reveal_strlit("Wait for connected target ");
    assert(none[0] == '[');
    assert(told[0] == 'W');
}

/// The keys of a terminal are sent as it sends them: the arrows, the places, and the letters
/// with the control key. A key with a character sends that character.
#[verifier::rlimit(40)]
pub proof fn keys_are_sent(code: u16, unicode: u16, ctrl: bool, letter: u8)
    requires
        65 <= letter <= 90,
    ensures
        key_bytes_sent(0x26, 0, ctrl) == Some(seq![27u8, 91, 65]),
        key_bytes_sent(0x28, 0, ctrl) == Some(seq![27u8, 91, 66]),
        key_bytes_sent(0x27, 0, ctrl) == Some(seq![27u8, 91, 67]),
        key_bytes_sent(0x25, 0, ctrl) == Some(seq![27u8, 91, 68]),
        key_bytes_sent(0x24, 0, ctrl) == Some(seq![27u8, 91, 72]),
        key_bytes_sent(0x23, 0, ctrl) == Some(seq![27u8, 91, 70]),
        key_bytes_sent(0x21, 0, ctrl) == Some(seq![27u8, 91, 53, 126]),
        key_bytes_sent(0x22, 0, ctrl) == Some(seq![27u8, 91, 54, 126]),
        key_bytes_sent(0x2d, 0, ctrl) == Some(seq![27u8, 91, 50, 126]),
        key_bytes_sent(0x2e, 0, ctrl) == Some(seq![27u8, 91, 51, 126]),
        key_bytes_sent(letter as u16, 0, true) == Some(seq![(letter - 64) as u8]),
        key_bytes_sent(letter as u16, 0, false) is None,
        unicode != 0 && is_scalar(unicode as u32) ==> key_bytes_sent(code, unicode, ctrl) == Some(
            encode_scalar(unicode as u32),
        ),
        unicode != 0 && !is_scalar(unicode as u32) ==> key_bytes_sent(code, unicode, ctrl) is None,
{
}

/// Bytes that are no text are shown as two small hexadecimal digits each, the higher one first,
/// with a comma and a blank between them.
pub proof fn bytes_are_shown(v: Seq<u8>, b: u8)
    ensures
        ({
            let digits = "0123456789abcdef"@;
            let two = seq![digits[(b / 16) as int], digits[(b % 16) as int]];
            &&& hex_list(seq![b]) == two
            &&& v.len() > 0 ==> hex_list(v.push(b)) == hex_list(v) + ", "@ + two
            &&& shown_bytes(v) == "[binary data: ["@ + hex_list(v) + "]]"@
        }),
{
    reveal_strlit("0123456789abcdef");
    let digits = "0123456789abcdef"@;
    assert(digits.len() == 16);
    assert(digits[0] == '0' && digits[1] == '1' && digits[2] == '2' && digits[3] == '3'
        && digits[4] == '4' && digits[5] == '5' && digits[6] == '6' && digits[7] == '7'
        && digits[8] == '8' && digits[9] == '9' && digits[10] == 'a' && digits[11] == 'b'
        && digits[12] == 'c' && digits[13] == 'd' && digits[14] == 'e' && digits[15] == 'f');
    assert forall|d: nat| d < 16 implies #[trigger] hex_digit(d) == digits[d as int] by {
        assert(d == 0 || d == 1 || d == 2 || d == 3 || d == 4 || d == 5 || d == 6 || d == 7 || d
            == 8 || d == 9 || d == 10 || d == 11 || d == 12 || d == 13 || d == 14 || d == 15);
    }
    assert(seq![b][0] == b);
    assert(hex_byte(b) =~= seq![digits[(b / 16) as int], digits[(b % 16) as int]]);
    assert(v.push(b).drop_last() =~= v);
}

/// What is said of an answer that is no text names what was read.
pub proof fn unreadable_answers_are_told(fault: Utf8Fault)
    ensures
        answer_fault(ReadingView::Texts, fault) == "recv data to str failed: "@ + fault.text(),
        answer_fault(ReadingView::Version, fault) == "from_utf8 failed: "@ + fault.text(),
{
}

} // verus!
