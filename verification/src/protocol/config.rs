//! Constants of the protocol, and the kinds of things it tells apart.

use crate::protocol::command::HdcCommand;
use crate::text;
use crate::text::decimal_text;
use vstd::prelude::*;

verus! {

/// The two bytes that begin every packet: "HW".
pub const PACKET_FLAG: [u8; 2] = [0x48, 0x57];

/// The two bytes that begin every USB block: "UB".
pub const USB_PACKET_FLAG: [u8; 2] = [0x55, 0x42];

/// The option of a USB block that announces data.
pub const USB_OPTION_HEADER: u8 = 1;

/// The option of a USB block that resets the session.
pub const USB_OPTION_RESET: u8 = 2;

/// The version of the packet layout.
pub const VER_PROTOCOL: u16 = 1;

/// Whether packets carry a checksum of their payload.
pub const ENABLE_IO_CHECK: bool = false;

/// The fixed code in the protection block of a packet.
pub const PAYLOAD_VCODE: u8 = 0x09;

/// The largest packet, without its head.
pub const HDC_BUF_MAX_SIZE: usize = 0x7fff_ffff;

/// The banner of every handshake.
pub const HANDSHAKE_MESSAGE: &'static str = "OHOS HDC";

/// The size of the banner in a channel handshake.
pub const BANNER_SIZE: usize = 12;

/// The size of the connect key in a channel handshake.
pub const KEY_MAX_SIZE: usize = 32;

/// The size of the head before a piece of a file.
pub const FILE_PACKAGE_HEAD: usize = 64;

/// The size of a piece of a file that is compressed.
pub const FILE_PACKAGE_PAYLOAD_SIZE: usize = 49152;

pub const KERNEL_FILE_NODE_SIZE: u16 = 4096;

pub const MAX_PACKET_SIZE_HISPEED: i32 = 512;

pub const MAX_SIZE_IOBUF: usize = 511 * 1024;

pub const MAX_USBFFS_BULK: usize = 512 * 1024;

pub const MAX_SIZE_IOBUF_STABLE: usize = 60 * 1024;

pub const MAX_USBFFS_BULK_STABLE: usize = 61 * 1024;

pub const MAX_DIED_SESSION_NUM: usize = 10;

pub const FEATURE_FLAG_MAX_SIZE: usize = 8;

pub const HEARTBEAT_INTERVAL: u16 = 5000;

pub const SSL_HANDSHAKE_FINISHED_WAIT_TIME: u16 = 300;

pub const BUF_SIZE_SSL_HEAD: u16 = 22;

pub const BUF_SIZE_PSK: u16 = 32;

pub const BUF_SIZE_PSK_ENCRYPTED: u16 = 512;

pub const ENV_SERVER_HEARTBEAT: &'static str = "OHOS_HDC_HEARTBEAT";

pub const ENV_SERVER_PORT: &'static str = "OHOS_HDC_SERVER_PORT";

pub const ENV_ENCRYPT_CHANNEL: &'static str = "OHOS_HDC_ENCRYPT_CHANNEL";

pub const ENV_SERVER_LOG_LIMIT: &'static str = "OHOS_HDC_LOG_LIMIT";

pub const HUGE_BUF_TAG: char = 'H';

pub const BANNER_FEATURE_TAG_OFFSET: usize = 11;

pub const WAIT_DEVICE_TAG: char = 'W';

pub const WAIT_TAG_OFFSET: usize = 11;

pub const SHELL_PROG: &'static str = "sh";

pub const WIN_CMD_PROG: &'static str = "cmd.exe";

pub const FEATURE_ENCRYPT_TCP: &'static str = "encrypt_tcp";

pub const FEATURE_HEARTBEAT: &'static str = "heartbeat";

pub const AUTH_TYPE_NONE: u8 = 0;

pub const AUTH_TYPE_TOKEN: u8 = 1;

pub const AUTH_TYPE_SIGNATURE: u8 = 2;

pub const AUTH_TYPE_PUBLICKEY: u8 = 3;

pub const AUTH_TYPE_OK: u8 = 4;

pub const AUTH_TYPE_FAIL: u8 = 5;

pub const AUTH_TYPE_SSL_TLS_PSK: u8 = 6;

pub const SHELL_TEMP: &'static str = "/data/local/tmp/hdc-pty";

pub const DAEMON_PORT: u16 = 0;

/// The port of the server when none is given.
pub const SERVER_DEFAULT_PORT: u16 = 8710;

pub const MAX_PORT_NUM: u32 = 65535;

pub const LOCAL_HOST: &'static str = "127.0.0.1";

pub const USB_FFS_BASE: &'static str = "/dev/usb-ffs/";

pub const USB_QUEUE_LEN: usize = 64;

pub const INSTALL_TMP_DIR: &'static str = "/data/local/tmp/";

pub const INSTALL_TAR_MAX_CNT: usize = 512;

pub const RSA_BIT_NUM: usize = 3072;

pub const RSA_PUBKEY_PATH: &'static str = "/data/service/el1/public/hdc";

pub const RSA_PUBKEY_NAME: &'static str = "hdc_keys";

pub const RSA_PRIKEY_PATH: &'static str = ".harmony";

pub const RSA_PRIKEY_NAME: &'static str = "hdckey";

/// What separates the host name from the key that follows it.
pub const HDC_HOST_DAEMON_BUF_SEPARATOR: char = '\x0C';

pub const HDC_HANDSHAKE_TOKEN_LEN: usize = 32;

pub const DAEOMN_AUTH_SUCCESS: &'static str = "SUCCESS";

pub const DAEOMN_UNAUTHORIZED: &'static str = "DAEMON_UNAUTH";

/// The first version that authenticates hosts.
pub const AUTH_BASE_VERSION: &'static str = "Ver: 3.2.0b";

/// The version of the protocol. From the most significant bits on: four bits for
/// the major number, eight for the minor, eight for the version, four for the fix;
/// the other bits are reserved.
pub const HDC_VERSION_NUMBER: u32 = 0x3020_0400;

/// A version number as text: its three numbers, and the letter of its fix.
pub open spec fn version_text(n: u32) -> Seq<char> {
    "Ver: "@ + text::decimal((n / 0x1000_0000) as nat) + "."@ + text::decimal((n / 0x10_0000 % 0x100) as nat)
        + "."@ + text::decimal((n / 0x1000 % 0x100) as nat) + seq![(97 + n / 0x100 % 0x10) as char]
}

/// The version of the protocol, as it is told.
pub proof fn version_is_told()
    ensures
        version_text(HDC_VERSION_NUMBER) == "Ver: 3.2.0e"@,
{
    reveal_strlit("Ver: ");
    reveal_strlit(".");
    reveal_strlit("Ver: 3.2.0e");
    reveal_with_fuel(text::decimal, 2);
    assert(version_text(HDC_VERSION_NUMBER) =~= "Ver: 3.2.0e"@);
}

/// The version of the protocol as text.
pub fn get_version() -> (r: String)
    ensures
        r@ == version_text(HDC_VERSION_NUMBER),
        r@ == "Ver: 3.2.0e"@,
{
    let n: u32 = HDC_VERSION_NUMBER;
    let mut s = "Ver: ".to_owned();
    s.append(decimal_text((n / 0x1000_0000) as u64).as_str());
    s.append(".");
    s.append(decimal_text((n / 0x10_0000 % 0x100) as u64).as_str());
    s.append(".");
    s.append(decimal_text((n / 0x1000 % 0x100) as u64).as_str());
    let fix: u8 = (97 + n / 0x100 % 0x10) as u8;
    s.push(fix as char);
    proof {
        reveal_strlit("Ver: ");
        reveal_strlit(".");
        reveal_strlit("Ver: 3.2.0e");
        reveal_with_fuel(text::decimal, 2);
        assert(s@ =~= version_text(HDC_VERSION_NUMBER));
        assert(s@ =~= "Ver: 3.2.0e"@);
    }
    s
}

/// How a file is compressed on its way.
#[derive(Debug, Clone, Copy, PartialEq, Eq, Structural)]
pub enum CompressType {
    Uncompressed,
    Lz4,
    Lz77,
    Lzma,
    Brotli,
}

impl CompressType {
    /// The number on the wire.
    pub open spec fn code(self) -> u8 {
        match self {
            CompressType::Uncompressed => 0,
            CompressType::Lz4 => 1,
            CompressType::Lz77 => 2,
            CompressType::Lzma => 3,
            CompressType::Brotli => 4,
        }
    }

    /// The number on the wire.
    pub fn as_u8(&self) -> (r: u8)
        ensures
            r == self.code(),
    {
        match *self {
            CompressType::Uncompressed => 0,
            CompressType::Lz4 => 1,
            CompressType::Lz77 => 2,
            CompressType::Lzma => 3,
            CompressType::Brotli => 4,
        }
    }

    /// What a number stands for.
    pub open spec fn of_code(n: u8) -> Result<CompressType, ()> {
        match n {
            0 => Ok(CompressType::Uncompressed),
            1 => Ok(CompressType::Lz4),
            2 => Ok(CompressType::Lz77),
            3 => Ok(CompressType::Lzma),
            4 => Ok(CompressType::Brotli),
            _ => Err(()),
        }
    }
}

impl TryFrom<u8> for CompressType {
    type Error = ();

    fn try_from(n: u8) -> (r: Result<Self, ()>) {
        match n {
            0 => Ok(CompressType::Uncompressed),
            1 => Ok(CompressType::Lz4),
            2 => Ok(CompressType::Lz77),
            3 => Ok(CompressType::Lzma),
            4 => Ok(CompressType::Brotli),
            _ => Err(()),
        }
    }
}

impl vstd::std_specs::convert::TryFromSpecImpl<u8> for CompressType {
    open spec fn obeys_try_from_spec() -> bool {
        true
    }

    open spec fn try_from_spec(n: u8) -> Result<Self, ()> {
        CompressType::of_code(n)
    }
}

impl Default for CompressType {
    fn default() -> (r: Self)
        ensures
            r == CompressType::Uncompressed,
    {
        CompressType::Uncompressed
    }
}

/// How a device is reached.
#[derive(Debug, Clone, PartialEq, Eq)]
pub enum ConnectType {
    Usb(String),
    Tcp,
    Uart,
    Bt,
    Bridge,
    HostUsb(String),
}

/// How a device is reached.
pub enum ConnectTypeView {
    Usb(Seq<char>),
    Tcp,
    Uart,
    Bt,
    Bridge,
    HostUsb(Seq<char>),
}

impl View for ConnectType {
    type V = ConnectTypeView;

    open spec fn view(&self) -> ConnectTypeView {
        match *self {
            ConnectType::Usb(s) => ConnectTypeView::Usb(s@),
            ConnectType::Tcp => ConnectTypeView::Tcp,
            ConnectType::Uart => ConnectTypeView::Uart,
            ConnectType::Bt => ConnectTypeView::Bt,
            ConnectType::Bridge => ConnectTypeView::Bridge,
            ConnectType::HostUsb(s) => ConnectTypeView::HostUsb(s@),
        }
    }
}

impl Default for ConnectType {
    fn default() -> (r: Self)
        ensures
            r is Tcp,
    {
        ConnectType::Tcp
    }
}

/// The two ends of a session.
#[derive(Debug, Clone, Copy, PartialEq, Eq, Structural)]
pub enum NodeType {
    Server,
    Daemon,
}

/// How far a device has come.
#[derive(Debug, Clone, Copy, PartialEq, Eq, Structural)]
pub enum ConnStatus {
    Ready,
    Connected,
    Offline,
    Unauthorized,
}

impl ConnStatus {
    /// The number on the wire.
    pub open spec fn code(self) -> u8 {
        match self {
            ConnStatus::Ready => 0,
            ConnStatus::Connected => 1,
            ConnStatus::Offline => 2,
            ConnStatus::Unauthorized => 3,
        }
    }

    /// The number on the wire.
    pub fn as_u8(&self) -> (r: u8)
        ensures
            r == self.code(),
    {
        match *self {
            ConnStatus::Ready => 0,
            ConnStatus::Connected => 1,
            ConnStatus::Offline => 2,
            ConnStatus::Unauthorized => 3,
        }
    }
}

/// The steps of authentication.
#[derive(Debug, Clone, Copy, PartialEq, Eq, Structural)]
pub enum AuthType {
    NoAuth,
    Token,
    Signature,
    Publickey,
    Accepted,
    Fail,
}

impl AuthType {
    /// The number on the wire.
    pub open spec fn code(self) -> u8 {
        match self {
            AuthType::NoAuth => 0,
            AuthType::Token => 1,
            AuthType::Signature => 2,
            AuthType::Publickey => 3,
            AuthType::Accepted => 4,
            AuthType::Fail => 5,
        }
    }

    /// The number on the wire.
    pub fn as_u8(&self) -> (r: u8)
        ensures
            r == self.code(),
    {
        match *self {
            AuthType::NoAuth => 0,
            AuthType::Token => 1,
            AuthType::Signature => 2,
            AuthType::Publickey => 3,
            AuthType::Accepted => 4,
            AuthType::Fail => 5,
        }
    }
}

/// What is done to an application.
#[derive(Debug, Clone, Copy, PartialEq, Eq, Structural)]
pub enum AppModeType {
    Install,
    UnInstall,
}

impl AppModeType {
    /// The number on the wire.
    pub open spec fn code(self) -> u8 {
        match self {
            AppModeType::Install => 1,
            AppModeType::UnInstall => 2,
        }
    }

    /// The number on the wire.
    pub fn as_u8(&self) -> (r: u8)
        ensures
            r == self.code(),
    {
        match *self {
            AppModeType::Install => 1,
            AppModeType::UnInstall => 2,
        }
    }

    /// What a number stands for.
    pub open spec fn of_code(n: u8) -> Result<AppModeType, ()> {
        match n {
            1 => Ok(AppModeType::Install),
            2 => Ok(AppModeType::UnInstall),
            _ => Err(()),
        }
    }
}

impl TryFrom<u8> for AppModeType {
    type Error = ();

    fn try_from(n: u8) -> (r: Result<Self, ()>) {
        match n {
            1 => Ok(AppModeType::Install),
            2 => Ok(AppModeType::UnInstall),
            _ => Err(()),
        }
    }
}

impl vstd::std_specs::convert::TryFromSpecImpl<u8> for AppModeType {
    open spec fn obeys_try_from_spec() -> bool {
        true
    }

    open spec fn try_from_spec(n: u8) -> Result<Self, ()> {
        AppModeType::of_code(n)
    }
}

/// How a message to the user is meant.
#[derive(Debug, Clone, Copy, PartialEq, Eq, Structural)]
pub enum MessageLevel {
    Fail,
    Info,
    Success,
}

impl MessageLevel {
    /// The number on the wire.
    pub open spec fn code(self) -> u8 {
        match self {
            MessageLevel::Fail => 0,
            MessageLevel::Info => 1,
            MessageLevel::Success => 2,
        }
    }

    /// The number on the wire.
    pub fn as_u8(&self) -> (r: u8)
        ensures
            r == self.code(),
    {
        match *self {
            MessageLevel::Fail => 0,
            MessageLevel::Info => 1,
            MessageLevel::Success => 2,
        }
    }
}

/// Which ends of a connection validate each other.
#[derive(Debug, Clone, Copy, PartialEq, Eq, Structural)]
pub enum ConnectValidationStatus {
    ValidationClose,
    ValidationHost,
    ValidationDaemon,
    ValidationHostAndDaemon,
}

impl ConnectValidationStatus {
    /// The number on the wire.
    pub open spec fn code(self) -> u8 {
        match self {
            ConnectValidationStatus::ValidationClose => 0,
            ConnectValidationStatus::ValidationHost => 1,
            ConnectValidationStatus::ValidationDaemon => 2,
            ConnectValidationStatus::ValidationHostAndDaemon => 3,
        }
    }

    /// The number on the wire.
    pub fn as_u8(&self) -> (r: u8)
        ensures
            r == self.code(),
    {
        match *self {
            ConnectValidationStatus::ValidationClose => 0,
            ConnectValidationStatus::ValidationHost => 1,
            ConnectValidationStatus::ValidationDaemon => 2,
            ConnectValidationStatus::ValidationHostAndDaemon => 3,
        }
    }
}

/// The parts of a request to run a command for a bundle.
#[derive(Debug, Clone, Copy, PartialEq, Eq, Structural)]
pub enum ShellExecuteTag {
    TagShellCmd,
    TagShellBundle,
    TagShellDefault,
}

impl ShellExecuteTag {
    /// The number on the wire.
    pub open spec fn code(self) -> u32 {
        match self {
            ShellExecuteTag::TagShellCmd => 0,
            ShellExecuteTag::TagShellBundle => 1,
            ShellExecuteTag::TagShellDefault => 0xFFFF_FFFF,
        }
    }

    /// The number on the wire.
    pub fn as_u32(&self) -> (r: u32)
        ensures
            r == self.code(),
    {
        match *self {
            ShellExecuteTag::TagShellCmd => 0,
            ShellExecuteTag::TagShellBundle => 1,
            ShellExecuteTag::TagShellDefault => 0xFFFF_FFFF,
        }
    }
}

/// A message of a session: the channel that it belongs to, what it asks for, and
/// its data.
#[derive(Debug, Clone, PartialEq, Eq)]
pub struct TaskMessage {
    pub channel_id: u32,
    pub command: HdcCommand,
    pub payload: Vec<u8>,
}

/// What a message says.
pub struct TaskMessageView {
    pub channel_id: u32,
    pub command: HdcCommand,
    pub payload: Seq<u8>,
}

impl View for TaskMessage {
    type V = TaskMessageView;

    open spec fn view(&self) -> TaskMessageView {
        TaskMessageView {
            channel_id: self.channel_id,
            command: self.command,
            payload: self.payload@,
        }
    }
}

/// A way to compress is found again by its number.
pub proof fn compress_type_of_its_code(c: CompressType)
    ensures
        CompressType::of_code(c.code()) == Ok::<CompressType, ()>(c),
{
}

/// A mode is found again by its number.
pub proof fn app_mode_of_its_code(m: AppModeType)
    ensures
        AppModeType::of_code(m.code()) == Ok::<AppModeType, ()>(m),
{
}

/// The numbers that stand for things on the wire, which every host and every device agree on.
pub proof fn numbers_on_the_wire()
    ensures
        CompressType::Uncompressed.code() == 0 && CompressType::Lz4.code() == 1
            && CompressType::Lz77.code() == 2 && CompressType::Lzma.code() == 3
            && CompressType::Brotli.code() == 4,
        ConnStatus::Ready.code() == 0 && ConnStatus::Connected.code() == 1
            && ConnStatus::Offline.code() == 2 && ConnStatus::Unauthorized.code() == 3,
        AuthType::NoAuth.code() == 0 && AuthType::Token.code() == 1 && AuthType::Signature.code()
            == 2 && AuthType::Publickey.code() == 3 && AuthType::Accepted.code() == 4
            && AuthType::Fail.code() == 5,
        AppModeType::Install.code() == 1 && AppModeType::UnInstall.code() == 2,
        MessageLevel::Fail.code() == 0 && MessageLevel::Info.code() == 1
            && MessageLevel::Success.code() == 2,
        ConnectValidationStatus::ValidationClose.code() == 0
            && ConnectValidationStatus::ValidationHost.code() == 1
            && ConnectValidationStatus::ValidationDaemon.code() == 2
            && ConnectValidationStatus::ValidationHostAndDaemon.code() == 3,
        ShellExecuteTag::TagShellCmd.code() == 0 && ShellExecuteTag::TagShellBundle.code() == 1
            && ShellExecuteTag::TagShellDefault.code() == 0xFFFF_FFFF,
        PACKET_FLAG[0] == 72 && PACKET_FLAG[1] == 87 && USB_PACKET_FLAG[0] == 85
            && USB_PACKET_FLAG[1] == 66,
        USB_OPTION_HEADER == 1 && USB_OPTION_RESET == 2,
        VER_PROTOCOL == 1 && PAYLOAD_VCODE == 9,
        AUTH_TYPE_NONE == 0 && AUTH_TYPE_TOKEN == 1 && AUTH_TYPE_SIGNATURE == 2
            && AUTH_TYPE_PUBLICKEY == 3 && AUTH_TYPE_OK == 4 && AUTH_TYPE_FAIL == 5
            && AUTH_TYPE_SSL_TLS_PSK == 6,
        SERVER_DEFAULT_PORT == 8710,
        RSA_BIT_NUM == 3072,
{
}

} // verus!
