//! The command numbers that tag every message between host and daemon.

use vstd::prelude::*;

verus! {

/// What a message asks its receiver to do. Every command has a number on the
/// wire, see [`HdcCommand::code`].
#[derive(Debug, Clone, Copy, PartialEq, Eq, Structural)]
pub enum HdcCommand {
    KernelHelp,
    KernelHandshake,
    KernelChannelClose,
    KernelTargetDiscover,
    KernelTargetList,
    KernelTargetAny,
    KernelTargetConnect,
    KernelTargetDisconnect,
    KernelEcho,
    KernelEchoRaw,
    KernelEnableKeepalive,
    KernelWakeupSlavetask,
    KernelCheckServer,
    KernelCheckDevice,
    KernelWaitFor,

    KernelServerKill,
    KernelServerStart,
    KernelTargetReconnect,
    ClientVersion,
    SslHandshake,
    ClientKeyGenerate,

    UnityCommandHead,
    UnityExecute,
    UnityRemount,
    UnityReboot,
    UnityRunmode,
    UnityHilog,
    UnityTerminate,
    UnityRootrun,
    JdwpList,
    JdwpTrack,
    UnityCommandTail,
    UnityBugreportInit,
    UnityBugreportData,
    UnityExecuteEx,

    ShellInit,
    ShellData,

    ForwardInit,
    ForwardCheck,
    ForwardCheckResult,
    ForwardActiveSlave,
    ForwardActiveMaster,
    ForwardData,
    ForwardFreeContext,
    ForwardList,
    ForwardRemove,
    ForwardSuccess,
    ForwardRportInit,
    ForwardRportList,
    ForwardRportRemove,

    FileInit,
    FileCheck,
    FileBegin,
    FileData,
    FileFinish,
    AppSideload,
    FileMode,
    DirMode,
    FileRecvInit,

    AppInit,
    AppCheck,
    AppBegin,
    AppData,
    AppFinish,
    AppUninstall,

    FlashdUpdateInit,
    FlashdFlashInit,
    FlashdCheck,
    FlashdBegin,
    FlashdData,
    FlashdFinish,
    FlashdErase,
    FlashdFormat,
    FlashdProgress,

    HeartbeatMsg,
    SpawnSub,
}

impl HdcCommand {
    /// The number of the command on the wire.
    pub open spec fn code(self) -> u32 {
        match self {
            HdcCommand::KernelHelp => 0,
            HdcCommand::KernelHandshake => 1,
            HdcCommand::KernelChannelClose => 2,
            HdcCommand::KernelTargetDiscover => 4,
            HdcCommand::KernelTargetList => 5,
            HdcCommand::KernelTargetAny => 6,
            HdcCommand::KernelTargetConnect => 7,
            HdcCommand::KernelTargetDisconnect => 8,
            HdcCommand::KernelEcho => 9,
            HdcCommand::KernelEchoRaw => 10,
            HdcCommand::KernelEnableKeepalive => 11,
            HdcCommand::KernelWakeupSlavetask => 12,
            HdcCommand::KernelCheckServer => 13,
            HdcCommand::KernelCheckDevice => 14,
            HdcCommand::KernelWaitFor => 15,
            HdcCommand::KernelServerKill => 16,
            HdcCommand::KernelServerStart => 17,
            HdcCommand::KernelTargetReconnect => 18,
            HdcCommand::ClientVersion => 19,
            HdcCommand::SslHandshake => 20,
            HdcCommand::ClientKeyGenerate => 21,
            HdcCommand::UnityCommandHead => 1000,
            HdcCommand::UnityExecute => 1001,
            HdcCommand::UnityRemount => 1002,
            HdcCommand::UnityReboot => 1003,
            HdcCommand::UnityRunmode => 1004,
            HdcCommand::UnityHilog => 1005,
            HdcCommand::UnityTerminate => 1006,
            HdcCommand::UnityRootrun => 1007,
            HdcCommand::JdwpList => 1008,
            HdcCommand::JdwpTrack => 1009,
            HdcCommand::UnityCommandTail => 1010,
            HdcCommand::UnityBugreportInit => 1011,
            HdcCommand::UnityBugreportData => 1012,
            HdcCommand::UnityExecuteEx => 1200,
            HdcCommand::ShellInit => 2000,
            HdcCommand::ShellData => 2001,
            HdcCommand::ForwardInit => 2500,
            HdcCommand::ForwardCheck => 2501,
            HdcCommand::ForwardCheckResult => 2502,
            HdcCommand::ForwardActiveSlave => 2503,
            HdcCommand::ForwardActiveMaster => 2504,
            HdcCommand::ForwardData => 2505,
            HdcCommand::ForwardFreeContext => 2506,
            HdcCommand::ForwardList => 2507,
            HdcCommand::ForwardRemove => 2508,
            HdcCommand::ForwardSuccess => 2509,
            HdcCommand::ForwardRportInit => 2510,
            HdcCommand::ForwardRportList => 2511,
            HdcCommand::ForwardRportRemove => 2512,
            HdcCommand::FileInit => 3000,
            HdcCommand::FileCheck => 3001,
            HdcCommand::FileBegin => 3002,
            HdcCommand::FileData => 3003,
            HdcCommand::FileFinish => 3004,
            HdcCommand::AppSideload => 3005,
            HdcCommand::FileMode => 3006,
            HdcCommand::DirMode => 3007,
            HdcCommand::FileRecvInit => 3008,
            HdcCommand::AppInit => 3500,
            HdcCommand::AppCheck => 3501,
            HdcCommand::AppBegin => 3502,
            HdcCommand::AppData => 3503,
            HdcCommand::AppFinish => 3504,
            HdcCommand::AppUninstall => 3505,
            HdcCommand::FlashdUpdateInit => 4000,
            HdcCommand::FlashdFlashInit => 4001,
            HdcCommand::FlashdCheck => 4002,
            HdcCommand::FlashdBegin => 4003,
            HdcCommand::FlashdData => 4004,
            HdcCommand::FlashdFinish => 4005,
            HdcCommand::FlashdErase => 4006,
            HdcCommand::FlashdFormat => 4007,
            HdcCommand::FlashdProgress => 4008,
            HdcCommand::HeartbeatMsg => 5000,
            HdcCommand::SpawnSub => 6000,
        }
    }

    /// The command that has a number, if there is one.
    pub open spec fn of_code(cmd: u32) -> Result<HdcCommand, ()> {
        match cmd {
            0 => Ok(HdcCommand::KernelHelp),
            1 => Ok(HdcCommand::KernelHandshake),
            2 => Ok(HdcCommand::KernelChannelClose),
            4 => Ok(HdcCommand::KernelTargetDiscover),
            5 => Ok(HdcCommand::KernelTargetList),
            6 => Ok(HdcCommand::KernelTargetAny),
            7 => Ok(HdcCommand::KernelTargetConnect),
            8 => Ok(HdcCommand::KernelTargetDisconnect),
            9 => Ok(HdcCommand::KernelEcho),
            10 => Ok(HdcCommand::KernelEchoRaw),
            11 => Ok(HdcCommand::KernelEnableKeepalive),
            12 => Ok(HdcCommand::KernelWakeupSlavetask),
            13 => Ok(HdcCommand::KernelCheckServer),
            14 => Ok(HdcCommand::KernelCheckDevice),
            15 => Ok(HdcCommand::KernelWaitFor),
            16 => Ok(HdcCommand::KernelServerKill),
            17 => Ok(HdcCommand::KernelServerStart),
            18 => Ok(HdcCommand::KernelTargetReconnect),
            19 => Ok(HdcCommand::ClientVersion),
            20 => Ok(HdcCommand::SslHandshake),
            21 => Ok(HdcCommand::ClientKeyGenerate),
            1000 => Ok(HdcCommand::UnityCommandHead),
            1001 => Ok(HdcCommand::UnityExecute),
            1002 => Ok(HdcCommand::UnityRemount),
            1003 => Ok(HdcCommand::UnityReboot),
            1004 => Ok(HdcCommand::UnityRunmode),
            1005 => Ok(HdcCommand::UnityHilog),
            1006 => Ok(HdcCommand::UnityTerminate),
            1007 => Ok(HdcCommand::UnityRootrun),
            1008 => Ok(HdcCommand::JdwpList),
            1009 => Ok(HdcCommand::JdwpTrack),
            1010 => Ok(HdcCommand::UnityCommandTail),
            1011 => Ok(HdcCommand::UnityBugreportInit),
            1012 => Ok(HdcCommand::UnityBugreportData),
            1200 => Ok(HdcCommand::UnityExecuteEx),
            2000 => Ok(HdcCommand::ShellInit),
            2001 => Ok(HdcCommand::ShellData),
            2500 => Ok(HdcCommand::ForwardInit),
            2501 => Ok(HdcCommand::ForwardCheck),
            2502 => Ok(HdcCommand::ForwardCheckResult),
            2503 => Ok(HdcCommand::ForwardActiveSlave),
            2504 => Ok(HdcCommand::ForwardActiveMaster),
            2505 => Ok(HdcCommand::ForwardData),
            2506 => Ok(HdcCommand::ForwardFreeContext),
            2507 => Ok(HdcCommand::ForwardList),
            2508 => Ok(HdcCommand::ForwardRemove),
            2509 => Ok(HdcCommand::ForwardSuccess),
            2510 => Ok(HdcCommand::ForwardRportInit),
            2511 => Ok(HdcCommand::ForwardRportList),
            2512 => Ok(HdcCommand::ForwardRportRemove),
            3000 => Ok(HdcCommand::FileInit),
            3001 => Ok(HdcCommand::FileCheck),
            3002 => Ok(HdcCommand::FileBegin),
            3003 => Ok(HdcCommand::FileData),
            3004 => Ok(HdcCommand::FileFinish),
            3005 => Ok(HdcCommand::AppSideload),
            3006 => Ok(HdcCommand::FileMode),
            3007 => Ok(HdcCommand::DirMode),
            3008 => Ok(HdcCommand::FileRecvInit),
            3500 => Ok(HdcCommand::AppInit),
            3501 => Ok(HdcCommand::AppCheck),
            3502 => Ok(HdcCommand::AppBegin),
            3503 => Ok(HdcCommand::AppData),
            3504 => Ok(HdcCommand::AppFinish),
            3505 => Ok(HdcCommand::AppUninstall),
            4000 => Ok(HdcCommand::FlashdUpdateInit),
            4001 => Ok(HdcCommand::FlashdFlashInit),
            4002 => Ok(HdcCommand::FlashdCheck),
            4003 => Ok(HdcCommand::FlashdBegin),
            4004 => Ok(HdcCommand::FlashdData),
            4005 => Ok(HdcCommand::FlashdFinish),
            4006 => Ok(HdcCommand::FlashdErase),
            4007 => Ok(HdcCommand::FlashdFormat),
            4008 => Ok(HdcCommand::FlashdProgress),
            5000 => Ok(HdcCommand::HeartbeatMsg),
            6000 => Ok(HdcCommand::SpawnSub),
            _ => Err(()),
        }
    }

    /// The number of the command on the wire.
    pub fn as_u32(&self) -> (r: u32)
        ensures
            r == self.code(),
    {
        match *self {
            HdcCommand::KernelHelp => 0,
            HdcCommand::KernelHandshake => 1,
            HdcCommand::KernelChannelClose => 2,
            HdcCommand::KernelTargetDiscover => 4,
            HdcCommand::KernelTargetList => 5,
            HdcCommand::KernelTargetAny => 6,
            HdcCommand::KernelTargetConnect => 7,
            HdcCommand::KernelTargetDisconnect => 8,
            HdcCommand::KernelEcho => 9,
            HdcCommand::KernelEchoRaw => 10,
            HdcCommand::KernelEnableKeepalive => 11,
            HdcCommand::KernelWakeupSlavetask => 12,
            HdcCommand::KernelCheckServer => 13,
            HdcCommand::KernelCheckDevice => 14,
            HdcCommand::KernelWaitFor => 15,
            HdcCommand::KernelServerKill => 16,
            HdcCommand::KernelServerStart => 17,
            HdcCommand::KernelTargetReconnect => 18,
            HdcCommand::ClientVersion => 19,
            HdcCommand::SslHandshake => 20,
            HdcCommand::ClientKeyGenerate => 21,
            HdcCommand::UnityCommandHead => 1000,
            HdcCommand::UnityExecute => 1001,
            HdcCommand::UnityRemount => 1002,
            HdcCommand::UnityReboot => 1003,
            HdcCommand::UnityRunmode => 1004,
            HdcCommand::UnityHilog => 1005,
            HdcCommand::UnityTerminate => 1006,
            HdcCommand::UnityRootrun => 1007,
            HdcCommand::JdwpList => 1008,
            HdcCommand::JdwpTrack => 1009,
            HdcCommand::UnityCommandTail => 1010,
            HdcCommand::UnityBugreportInit => 1011,
            HdcCommand::UnityBugreportData => 1012,
            HdcCommand::UnityExecuteEx => 1200,
            HdcCommand::ShellInit => 2000,
            HdcCommand::ShellData => 2001,
            HdcCommand::ForwardInit => 2500,
            HdcCommand::ForwardCheck => 2501,
            HdcCommand::ForwardCheckResult => 2502,
            HdcCommand::ForwardActiveSlave => 2503,
            HdcCommand::ForwardActiveMaster => 2504,
            HdcCommand::ForwardData => 2505,
            HdcCommand::ForwardFreeContext => 2506,
            HdcCommand::ForwardList => 2507,
            HdcCommand::ForwardRemove => 2508,
            HdcCommand::ForwardSuccess => 2509,
            HdcCommand::ForwardRportInit => 2510,
            HdcCommand::ForwardRportList => 2511,
            HdcCommand::ForwardRportRemove => 2512,
            HdcCommand::FileInit => 3000,
            HdcCommand::FileCheck => 3001,
            HdcCommand::FileBegin => 3002,
            HdcCommand::FileData => 3003,
            HdcCommand::FileFinish => 3004,
            HdcCommand::AppSideload => 3005,
            HdcCommand::FileMode => 3006,
            HdcCommand::DirMode => 3007,
            HdcCommand::FileRecvInit => 3008,
            HdcCommand::AppInit => 3500,
            HdcCommand::AppCheck => 3501,
            HdcCommand::AppBegin => 3502,
            HdcCommand::AppData => 3503,
            HdcCommand::AppFinish => 3504,
            HdcCommand::AppUninstall => 3505,
            HdcCommand::FlashdUpdateInit => 4000,
            HdcCommand::FlashdFlashInit => 4001,
            HdcCommand::FlashdCheck => 4002,
            HdcCommand::FlashdBegin => 4003,
            HdcCommand::FlashdData => 4004,
            HdcCommand::FlashdFinish => 4005,
            HdcCommand::FlashdErase => 4006,
            HdcCommand::FlashdFormat => 4007,
            HdcCommand::FlashdProgress => 4008,
            HdcCommand::HeartbeatMsg => 5000,
            HdcCommand::SpawnSub => 6000,
        }
    }
}

impl HdcCommand {
    /// The name of the command, for messages to the user.
    pub open spec fn name(self) -> Seq<char> {
        match self {
            HdcCommand::KernelHelp => "KernelHelp"@,
            HdcCommand::KernelHandshake => "KernelHandshake"@,
            HdcCommand::KernelChannelClose => "KernelChannelClose"@,
            HdcCommand::KernelTargetDiscover => "KernelTargetDiscover"@,
            HdcCommand::KernelTargetList => "KernelTargetList"@,
            HdcCommand::KernelTargetAny => "KernelTargetAny"@,
            HdcCommand::KernelTargetConnect => "KernelTargetConnect"@,
            HdcCommand::KernelTargetDisconnect => "KernelTargetDisconnect"@,
            HdcCommand::KernelEcho => "KernelEcho"@,
            HdcCommand::KernelEchoRaw => "KernelEchoRaw"@,
            HdcCommand::KernelEnableKeepalive => "KernelEnableKeepalive"@,
            HdcCommand::KernelWakeupSlavetask => "KernelWakeupSlavetask"@,
            HdcCommand::KernelCheckServer => "KernelCheckServer"@,
            HdcCommand::KernelCheckDevice => "KernelCheckDevice"@,
            HdcCommand::KernelWaitFor => "KernelWaitFor"@,
            HdcCommand::KernelServerKill => "KernelServerKill"@,
            HdcCommand::KernelServerStart => "KernelServerStart"@,
            HdcCommand::KernelTargetReconnect => "KernelTargetReconnect"@,
            HdcCommand::ClientVersion => "ClientVersion"@,
            HdcCommand::SslHandshake => "SslHandshake"@,
            HdcCommand::ClientKeyGenerate => "ClientKeyGenerate"@,
            HdcCommand::UnityCommandHead => "UnityCommandHead"@,
            HdcCommand::UnityExecute => "UnityExecute"@,
            HdcCommand::UnityRemount => "UnityRemount"@,
            HdcCommand::UnityReboot => "UnityReboot"@,
            HdcCommand::UnityRunmode => "UnityRunmode"@,
            HdcCommand::UnityHilog => "UnityHilog"@,
            HdcCommand::UnityTerminate => "UnityTerminate"@,
            HdcCommand::UnityRootrun => "UnityRootrun"@,
            HdcCommand::JdwpList => "JdwpList"@,
            HdcCommand::JdwpTrack => "JdwpTrack"@,
            HdcCommand::UnityCommandTail => "UnityCommandTail"@,
            HdcCommand::UnityBugreportInit => "UnityBugreportInit"@,
            HdcCommand::UnityBugreportData => "UnityBugreportData"@,
            HdcCommand::UnityExecuteEx => "UnityExecuteEx"@,
            HdcCommand::ShellInit => "ShellInit"@,
            HdcCommand::ShellData => "ShellData"@,
            HdcCommand::ForwardInit => "ForwardInit"@,
            HdcCommand::ForwardCheck => "ForwardCheck"@,
            HdcCommand::ForwardCheckResult => "ForwardCheckResult"@,
            HdcCommand::ForwardActiveSlave => "ForwardActiveSlave"@,
            HdcCommand::ForwardActiveMaster => "ForwardActiveMaster"@,
            HdcCommand::ForwardData => "ForwardData"@,
            HdcCommand::ForwardFreeContext => "ForwardFreeContext"@,
            HdcCommand::ForwardList => "ForwardList"@,
            HdcCommand::ForwardRemove => "ForwardRemove"@,
            HdcCommand::ForwardSuccess => "ForwardSuccess"@,
            HdcCommand::ForwardRportInit => "ForwardRportInit"@,
            HdcCommand::ForwardRportList => "ForwardRportList"@,
            HdcCommand::ForwardRportRemove => "ForwardRportRemove"@,
            HdcCommand::FileInit => "FileInit"@,
            HdcCommand::FileCheck => "FileCheck"@,
            HdcCommand::FileBegin => "FileBegin"@,
            HdcCommand::FileData => "FileData"@,
            HdcCommand::FileFinish => "FileFinish"@,
            HdcCommand::AppSideload => "AppSideload"@,
            HdcCommand::FileMode => "FileMode"@,
            HdcCommand::DirMode => "DirMode"@,
            HdcCommand::FileRecvInit => "FileRecvInit"@,
            HdcCommand::AppInit => "AppInit"@,
            HdcCommand::AppCheck => "AppCheck"@,
            HdcCommand::AppBegin => "AppBegin"@,
            HdcCommand::AppData => "AppData"@,
            HdcCommand::AppFinish => "AppFinish"@,
            HdcCommand::AppUninstall => "AppUninstall"@,
            HdcCommand::FlashdUpdateInit => "FlashdUpdateInit"@,
            HdcCommand::FlashdFlashInit => "FlashdFlashInit"@,
            HdcCommand::FlashdCheck => "FlashdCheck"@,
            HdcCommand::FlashdBegin => "FlashdBegin"@,
            HdcCommand::FlashdData => "FlashdData"@,
            HdcCommand::FlashdFinish => "FlashdFinish"@,
            HdcCommand::FlashdErase => "FlashdErase"@,
            HdcCommand::FlashdFormat => "FlashdFormat"@,
            HdcCommand::FlashdProgress => "FlashdProgress"@,
            HdcCommand::HeartbeatMsg => "HeartbeatMsg"@,
            HdcCommand::SpawnSub => "SpawnSub"@,
        }
    }

    /// The name of the command, for messages to the user.
    pub fn name_text(&self) -> (r: String)
        ensures
            r@ == self.name(),
    {
        match *self {
            HdcCommand::KernelHelp => "KernelHelp".to_owned(),
            HdcCommand::KernelHandshake => "KernelHandshake".to_owned(),
            HdcCommand::KernelChannelClose => "KernelChannelClose".to_owned(),
            HdcCommand::KernelTargetDiscover => "KernelTargetDiscover".to_owned(),
            HdcCommand::KernelTargetList => "KernelTargetList".to_owned(),
            HdcCommand::KernelTargetAny => "KernelTargetAny".to_owned(),
            HdcCommand::KernelTargetConnect => "KernelTargetConnect".to_owned(),
            HdcCommand::KernelTargetDisconnect => "KernelTargetDisconnect".to_owned(),
            HdcCommand::KernelEcho => "KernelEcho".to_owned(),
            HdcCommand::KernelEchoRaw => "KernelEchoRaw".to_owned(),
            HdcCommand::KernelEnableKeepalive => "KernelEnableKeepalive".to_owned(),
            HdcCommand::KernelWakeupSlavetask => "KernelWakeupSlavetask".to_owned(),
            HdcCommand::KernelCheckServer => "KernelCheckServer".to_owned(),
            HdcCommand::KernelCheckDevice => "KernelCheckDevice".to_owned(),
            HdcCommand::KernelWaitFor => "KernelWaitFor".to_owned(),
            HdcCommand::KernelServerKill => "KernelServerKill".to_owned(),
            HdcCommand::KernelServerStart => "KernelServerStart".to_owned(),
            HdcCommand::KernelTargetReconnect => "KernelTargetReconnect".to_owned(),
            HdcCommand::ClientVersion => "ClientVersion".to_owned(),
            HdcCommand::SslHandshake => "SslHandshake".to_owned(),
            HdcCommand::ClientKeyGenerate => "ClientKeyGenerate".to_owned(),
            HdcCommand::UnityCommandHead => "UnityCommandHead".to_owned(),
            HdcCommand::UnityExecute => "UnityExecute".to_owned(),
            HdcCommand::UnityRemount => "UnityRemount".to_owned(),
            HdcCommand::UnityReboot => "UnityReboot".to_owned(),
            HdcCommand::UnityRunmode => "UnityRunmode".to_owned(),
            HdcCommand::UnityHilog => "UnityHilog".to_owned(),
            HdcCommand::UnityTerminate => "UnityTerminate".to_owned(),
            HdcCommand::UnityRootrun => "UnityRootrun".to_owned(),
            HdcCommand::JdwpList => "JdwpList".to_owned(),
            HdcCommand::JdwpTrack => "JdwpTrack".to_owned(),
            HdcCommand::UnityCommandTail => "UnityCommandTail".to_owned(),
            HdcCommand::UnityBugreportInit => "UnityBugreportInit".to_owned(),
            HdcCommand::UnityBugreportData => "UnityBugreportData".to_owned(),
            HdcCommand::UnityExecuteEx => "UnityExecuteEx".to_owned(),
            HdcCommand::ShellInit => "ShellInit".to_owned(),
            HdcCommand::ShellData => "ShellData".to_owned(),
            HdcCommand::ForwardInit => "ForwardInit".to_owned(),
            HdcCommand::ForwardCheck => "ForwardCheck".to_owned(),
            HdcCommand::ForwardCheckResult => "ForwardCheckResult".to_owned(),
            HdcCommand::ForwardActiveSlave => "ForwardActiveSlave".to_owned(),
            HdcCommand::ForwardActiveMaster => "ForwardActiveMaster".to_owned(),
            HdcCommand::ForwardData => "ForwardData".to_owned(),
            HdcCommand::ForwardFreeContext => "ForwardFreeContext".to_owned(),
            HdcCommand::ForwardList => "ForwardList".to_owned(),
            HdcCommand::ForwardRemove => "ForwardRemove".to_owned(),
            HdcCommand::ForwardSuccess => "ForwardSuccess".to_owned(),
            HdcCommand::ForwardRportInit => "ForwardRportInit".to_owned(),
            HdcCommand::ForwardRportList => "ForwardRportList".to_owned(),
            HdcCommand::ForwardRportRemove => "ForwardRportRemove".to_owned(),
            HdcCommand::FileInit => "FileInit".to_owned(),
            HdcCommand::FileCheck => "FileCheck".to_owned(),
            HdcCommand::FileBegin => "FileBegin".to_owned(),
            HdcCommand::FileData => "FileData".to_owned(),
            HdcCommand::FileFinish => "FileFinish".to_owned(),
            HdcCommand::AppSideload => "AppSideload".to_owned(),
            HdcCommand::FileMode => "FileMode".to_owned(),
            HdcCommand::DirMode => "DirMode".to_owned(),
            HdcCommand::FileRecvInit => "FileRecvInit".to_owned(),
            HdcCommand::AppInit => "AppInit".to_owned(),
            HdcCommand::AppCheck => "AppCheck".to_owned(),
            HdcCommand::AppBegin => "AppBegin".to_owned(),
            HdcCommand::AppData => "AppData".to_owned(),
            HdcCommand::AppFinish => "AppFinish".to_owned(),
            HdcCommand::AppUninstall => "AppUninstall".to_owned(),
            HdcCommand::FlashdUpdateInit => "FlashdUpdateInit".to_owned(),
            HdcCommand::FlashdFlashInit => "FlashdFlashInit".to_owned(),
            HdcCommand::FlashdCheck => "FlashdCheck".to_owned(),
            HdcCommand::FlashdBegin => "FlashdBegin".to_owned(),
            HdcCommand::FlashdData => "FlashdData".to_owned(),
            HdcCommand::FlashdFinish => "FlashdFinish".to_owned(),
            HdcCommand::FlashdErase => "FlashdErase".to_owned(),
            HdcCommand::FlashdFormat => "FlashdFormat".to_owned(),
            HdcCommand::FlashdProgress => "FlashdProgress".to_owned(),
            HdcCommand::HeartbeatMsg => "HeartbeatMsg".to_owned(),
            HdcCommand::SpawnSub => "SpawnSub".to_owned(),
        }
    }
}

impl TryFrom<u32> for HdcCommand {
    type Error = ();

    fn try_from(cmd: u32) -> (r: Result<Self, ()>) {
        match cmd {
            0 => Ok(HdcCommand::KernelHelp),
            1 => Ok(HdcCommand::KernelHandshake),
            2 => Ok(HdcCommand::KernelChannelClose),
            4 => Ok(HdcCommand::KernelTargetDiscover),
            5 => Ok(HdcCommand::KernelTargetList),
            6 => Ok(HdcCommand::KernelTargetAny),
            7 => Ok(HdcCommand::KernelTargetConnect),
            8 => Ok(HdcCommand::KernelTargetDisconnect),
            9 => Ok(HdcCommand::KernelEcho),
            10 => Ok(HdcCommand::KernelEchoRaw),
            11 => Ok(HdcCommand::KernelEnableKeepalive),
            12 => Ok(HdcCommand::KernelWakeupSlavetask),
            13 => Ok(HdcCommand::KernelCheckServer),
            14 => Ok(HdcCommand::KernelCheckDevice),
            15 => Ok(HdcCommand::KernelWaitFor),
            16 => Ok(HdcCommand::KernelServerKill),
            17 => Ok(HdcCommand::KernelServerStart),
            18 => Ok(HdcCommand::KernelTargetReconnect),
            19 => Ok(HdcCommand::ClientVersion),
            20 => Ok(HdcCommand::SslHandshake),
            21 => Ok(HdcCommand::ClientKeyGenerate),
            1000 => Ok(HdcCommand::UnityCommandHead),
            1001 => Ok(HdcCommand::UnityExecute),
            1002 => Ok(HdcCommand::UnityRemount),
            1003 => Ok(HdcCommand::UnityReboot),
            1004 => Ok(HdcCommand::UnityRunmode),
            1005 => Ok(HdcCommand::UnityHilog),
            1006 => Ok(HdcCommand::UnityTerminate),
            1007 => Ok(HdcCommand::UnityRootrun),
            1008 => Ok(HdcCommand::JdwpList),
            1009 => Ok(HdcCommand::JdwpTrack),
            1010 => Ok(HdcCommand::UnityCommandTail),
            1011 => Ok(HdcCommand::UnityBugreportInit),
            1012 => Ok(HdcCommand::UnityBugreportData),
            1200 => Ok(HdcCommand::UnityExecuteEx),
            2000 => Ok(HdcCommand::ShellInit),
            2001 => Ok(HdcCommand::ShellData),
            2500 => Ok(HdcCommand::ForwardInit),
            2501 => Ok(HdcCommand::ForwardCheck),
            2502 => Ok(HdcCommand::ForwardCheckResult),
            2503 => Ok(HdcCommand::ForwardActiveSlave),
            2504 => Ok(HdcCommand::ForwardActiveMaster),
            2505 => Ok(HdcCommand::ForwardData),
            2506 => Ok(HdcCommand::ForwardFreeContext),
            2507 => Ok(HdcCommand::ForwardList),
            2508 => Ok(HdcCommand::ForwardRemove),
            2509 => Ok(HdcCommand::ForwardSuccess),
            2510 => Ok(HdcCommand::ForwardRportInit),
            2511 => Ok(HdcCommand::ForwardRportList),
            2512 => Ok(HdcCommand::ForwardRportRemove),
            3000 => Ok(HdcCommand::FileInit),
            3001 => Ok(HdcCommand::FileCheck),
            3002 => Ok(HdcCommand::FileBegin),
            3003 => Ok(HdcCommand::FileData),
            3004 => Ok(HdcCommand::FileFinish),
            3005 => Ok(HdcCommand::AppSideload),
            3006 => Ok(HdcCommand::FileMode),
            3007 => Ok(HdcCommand::DirMode),
            3008 => Ok(HdcCommand::FileRecvInit),
            3500 => Ok(HdcCommand::AppInit),
            3501 => Ok(HdcCommand::AppCheck),
            3502 => Ok(HdcCommand::AppBegin),
            3503 => Ok(HdcCommand::AppData),
            3504 => Ok(HdcCommand::AppFinish),
            3505 => Ok(HdcCommand::AppUninstall),
            4000 => Ok(HdcCommand::FlashdUpdateInit),
            4001 => Ok(HdcCommand::FlashdFlashInit),
            4002 => Ok(HdcCommand::FlashdCheck),
            4003 => Ok(HdcCommand::FlashdBegin),
            4004 => Ok(HdcCommand::FlashdData),
            4005 => Ok(HdcCommand::FlashdFinish),
            4006 => Ok(HdcCommand::FlashdErase),
            4007 => Ok(HdcCommand::FlashdFormat),
            4008 => Ok(HdcCommand::FlashdProgress),
            5000 => Ok(HdcCommand::HeartbeatMsg),
            6000 => Ok(HdcCommand::SpawnSub),
            _ => Err(()),
        }
    }
}

impl vstd::std_specs::convert::TryFromSpecImpl<u32> for HdcCommand {
    open spec fn obeys_try_from_spec() -> bool {
        true
    }

    open spec fn try_from_spec(cmd: u32) -> Result<Self, ()> {
        HdcCommand::of_code(cmd)
    }
}

/// A command is found again by its number.
pub proof fn command_of_its_code(c: HdcCommand)
    ensures
        HdcCommand::of_code(c.code()) == Ok::<HdcCommand, ()>(c),
{
}

/// A number leads to a command only if it is the number of that command, and no
/// command has a number that leads to none.
pub proof fn code_of_its_command(cmd: u32)
    ensures
        HdcCommand::of_code(cmd) matches Ok(c) ==> c.code() == cmd,
        HdcCommand::of_code(cmd) is Err ==> forall|c: HdcCommand| c.code() != cmd,
{
}

/// Two commands never share a number.
pub proof fn command_codes_are_distinct(a: HdcCommand, b: HdcCommand)
    requires
        a.code() == b.code(),
    ensures
        a == b,
{
}

/// The numbers of the commands, which every host and every device agree on.
pub proof fn numbers_of_commands()
    ensures
        HdcCommand::KernelHelp.code() == 0,
        HdcCommand::KernelHandshake.code() == 1,
        HdcCommand::KernelChannelClose.code() == 2,
        HdcCommand::KernelTargetDiscover.code() == 4,
        HdcCommand::KernelTargetList.code() == 5,
        HdcCommand::KernelTargetAny.code() == 6,
        HdcCommand::KernelTargetConnect.code() == 7,
        HdcCommand::KernelTargetDisconnect.code() == 8,
        HdcCommand::KernelEcho.code() == 9,
        HdcCommand::KernelEchoRaw.code() == 10,
        HdcCommand::KernelEnableKeepalive.code() == 11,
        HdcCommand::KernelWakeupSlavetask.code() == 12,
        HdcCommand::KernelCheckServer.code() == 13,
        HdcCommand::KernelCheckDevice.code() == 14,
        HdcCommand::KernelWaitFor.code() == 15,
        HdcCommand::KernelServerKill.code() == 16,
        HdcCommand::KernelServerStart.code() == 17,
        HdcCommand::KernelTargetReconnect.code() == 18,
        HdcCommand::ClientVersion.code() == 19,
        HdcCommand::SslHandshake.code() == 20,
        HdcCommand::ClientKeyGenerate.code() == 21,
        HdcCommand::UnityCommandHead.code() == 1000,
        HdcCommand::UnityExecute.code() == 1001,
        HdcCommand::UnityRemount.code() == 1002,
        HdcCommand::UnityReboot.code() == 1003,
        HdcCommand::UnityRunmode.code() == 1004,
        HdcCommand::UnityHilog.code() == 1005,
        HdcCommand::UnityTerminate.code() == 1006,
        HdcCommand::UnityRootrun.code() == 1007,
        HdcCommand::JdwpList.code() == 1008,
        HdcCommand::JdwpTrack.code() == 1009,
        HdcCommand::UnityCommandTail.code() == 1010,
        HdcCommand::UnityBugreportInit.code() == 1011,
        HdcCommand::UnityBugreportData.code() == 1012,
        HdcCommand::UnityExecuteEx.code() == 1200,
        HdcCommand::ShellInit.code() == 2000,
        HdcCommand::ShellData.code() == 2001,
        HdcCommand::ForwardInit.code() == 2500,
        HdcCommand::ForwardCheck.code() == 2501,
        HdcCommand::ForwardCheckResult.code() == 2502,
        HdcCommand::ForwardActiveSlave.code() == 2503,
        HdcCommand::ForwardActiveMaster.code() == 2504,
        HdcCommand::ForwardData.code() == 2505,
        HdcCommand::ForwardFreeContext.code() == 2506,
        HdcCommand::ForwardList.code() == 2507,
        HdcCommand::ForwardRemove.code() == 2508,
        HdcCommand::ForwardSuccess.code() == 2509,
        HdcCommand::ForwardRportInit.code() == 2510,
        HdcCommand::ForwardRportList.code() == 2511,
        HdcCommand::ForwardRportRemove.code() == 2512,
        HdcCommand::FileInit.code() == 3000,
        HdcCommand::FileCheck.code() == 3001,
        HdcCommand::FileBegin.code() == 3002,
        HdcCommand::FileData.code() == 3003,
        HdcCommand::FileFinish.code() == 3004,
        HdcCommand::AppSideload.code() == 3005,
        HdcCommand::FileMode.code() == 3006,
        HdcCommand::DirMode.code() == 3007,
        HdcCommand::FileRecvInit.code() == 3008,
        HdcCommand::AppInit.code() == 3500,
        HdcCommand::AppCheck.code() == 3501,
        HdcCommand::AppBegin.code() == 3502,
        HdcCommand::AppData.code() == 3503,
        HdcCommand::AppFinish.code() == 3504,
        HdcCommand::AppUninstall.code() == 3505,
        HdcCommand::FlashdUpdateInit.code() == 4000,
        HdcCommand::FlashdFlashInit.code() == 4001,
        HdcCommand::FlashdCheck.code() == 4002,
        HdcCommand::FlashdBegin.code() == 4003,
        HdcCommand::FlashdData.code() == 4004,
        HdcCommand::FlashdFinish.code() == 4005,
        HdcCommand::FlashdErase.code() == 4006,
        HdcCommand::FlashdFormat.code() == 4007,
        HdcCommand::FlashdProgress.code() == 4008,
        HdcCommand::HeartbeatMsg.code() == 5000,
        HdcCommand::SpawnSub.code() == 6000,
{
}

} // verus!
