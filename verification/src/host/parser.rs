//! The command line of the host tool.

use crate::address;
use crate::address::{check_ip, check_ipv6, check_socket, parse_socket_v4, split_port};
use crate::host::auth;
use crate::protocol::command::HdcCommand;
use crate::protocol::config;
use crate::protocol::config::{HDC_VERSION_NUMBER, LOCAL_HOST, SERVER_DEFAULT_PORT, get_version};
use crate::text;
use crate::text::{chars_of, concat2, concat3, copy_text, copy_texts, decimal_text, join, parse_up_to, same_text, skip_chars, starts_with, strip_prefix, to_ascii_lowercase, trim_end_of, trim_start_of};
use vstd::prelude::*;
use vstd::slice::slice_subrange;
use vstd::utf8::*;

verus! {

// ---------------------------------------------------------------------------
// The names of the commands
// ---------------------------------------------------------------------------

/// The command that has a name.
pub open spec fn command_named(name: Seq<char>) -> Option<HdcCommand> {
    if name == "version"@ {
        Some(HdcCommand::ClientVersion)
    } else if name == "help"@ {
        Some(HdcCommand::KernelHelp)
    } else if name == "discover"@ {
        Some(HdcCommand::KernelTargetDiscover)
    } else if name == "start"@ {
        Some(HdcCommand::KernelServerStart)
    } else if name == "kill"@ {
        Some(HdcCommand::KernelServerKill)
    } else if name == "keygen"@ {
        Some(HdcCommand::ClientKeyGenerate)
    } else if name == "list targets"@ {
        Some(HdcCommand::KernelTargetList)
    } else if name == "checkserver"@ {
        Some(HdcCommand::KernelCheckServer)
    } else if name == "checkdevice"@ {
        Some(HdcCommand::KernelCheckDevice)
    } else if name == "wait"@ {
        Some(HdcCommand::KernelWaitFor)
    } else if name == "tconn"@ {
        Some(HdcCommand::KernelTargetConnect)
    } else if name == "any"@ {
        Some(HdcCommand::KernelTargetAny)
    } else if name == "shell"@ {
        Some(HdcCommand::UnityExecute)
    } else if name == "target boot"@ {
        Some(HdcCommand::UnityReboot)
    } else if name == "target mount"@ {
        Some(HdcCommand::UnityRemount)
    } else if name == "smode"@ {
        Some(HdcCommand::UnityRootrun)
    } else if name == "tmode"@ {
        Some(HdcCommand::UnityRunmode)
    } else if name == "bugreport"@ {
        Some(HdcCommand::UnityBugreportInit)
    } else if name == "hilog"@ {
        Some(HdcCommand::UnityHilog)
    } else if name == "file send"@ {
        Some(HdcCommand::FileInit)
    } else if name == "file recv"@ {
        Some(HdcCommand::FileRecvInit)
    } else if name == "fport"@ {
        Some(HdcCommand::ForwardInit)
    } else if name == "rport"@ {
        Some(HdcCommand::ForwardRportInit)
    } else if name == "rport ls"@ {
        Some(HdcCommand::ForwardRportList)
    } else if name == "fport ls"@ {
        Some(HdcCommand::ForwardList)
    } else if name == "fport rm"@ {
        Some(HdcCommand::ForwardRemove)
    } else if name == "rport rm"@ {
        Some(HdcCommand::ForwardRportRemove)
    } else if name == "install"@ {
        Some(HdcCommand::AppInit)
    } else if name == "uninstall"@ {
        Some(HdcCommand::AppUninstall)
    } else if name == "sideload"@ {
        Some(HdcCommand::AppSideload)
    } else if name == "jpid"@ {
        Some(HdcCommand::JdwpList)
    } else if name == "track-jpid"@ {
        Some(HdcCommand::JdwpTrack)
    } else if name == "alive"@ {
        Some(HdcCommand::KernelEnableKeepalive)
    } else if name == "update"@ {
        Some(HdcCommand::FlashdUpdateInit)
    } else if name == "flash"@ {
        Some(HdcCommand::FlashdFlashInit)
    } else if name == "erase"@ {
        Some(HdcCommand::FlashdErase)
    } else if name == "format"@ {
        Some(HdcCommand::FlashdFormat)
    } else if name == "reconnect"@ {
        Some(HdcCommand::KernelTargetReconnect)
    } else if name == "spawn-sub"@ {
        Some(HdcCommand::SpawnSub)
    } else if name == "killall-sub"@ {
        Some(HdcCommand::SpawnSub)
    } else {
        None
    }
}

fn find_command(name: &str) -> (r: Option<HdcCommand>)
    ensures
        r == command_named(name@),
{
    if same_text(name, "version") {
        Some(HdcCommand::ClientVersion)
    } else if same_text(name, "help") {
        Some(HdcCommand::KernelHelp)
    } else if same_text(name, "discover") {
        Some(HdcCommand::KernelTargetDiscover)
    } else if same_text(name, "start") {
        Some(HdcCommand::KernelServerStart)
    } else if same_text(name, "kill") {
        Some(HdcCommand::KernelServerKill)
    } else if same_text(name, "keygen") {
        Some(HdcCommand::ClientKeyGenerate)
    } else if same_text(name, "list targets") {
        Some(HdcCommand::KernelTargetList)
    } else if same_text(name, "checkserver") {
        Some(HdcCommand::KernelCheckServer)
    } else if same_text(name, "checkdevice") {
        Some(HdcCommand::KernelCheckDevice)
    } else if same_text(name, "wait") {
        Some(HdcCommand::KernelWaitFor)
    } else if same_text(name, "tconn") {
        Some(HdcCommand::KernelTargetConnect)
    } else if same_text(name, "any") {
        Some(HdcCommand::KernelTargetAny)
    } else if same_text(name, "shell") {
        Some(HdcCommand::UnityExecute)
    } else if same_text(name, "target boot") {
        Some(HdcCommand::UnityReboot)
    } else if same_text(name, "target mount") {
        Some(HdcCommand::UnityRemount)
    } else if same_text(name, "smode") {
        Some(HdcCommand::UnityRootrun)
    } else if same_text(name, "tmode") {
        Some(HdcCommand::UnityRunmode)
    } else if same_text(name, "bugreport") {
        Some(HdcCommand::UnityBugreportInit)
    } else if same_text(name, "hilog") {
        Some(HdcCommand::UnityHilog)
    } else if same_text(name, "file send") {
        Some(HdcCommand::FileInit)
    } else if same_text(name, "file recv") {
        Some(HdcCommand::FileRecvInit)
    } else if same_text(name, "fport") {
        Some(HdcCommand::ForwardInit)
    } else if same_text(name, "rport") {
        Some(HdcCommand::ForwardRportInit)
    } else if same_text(name, "rport ls") {
        Some(HdcCommand::ForwardRportList)
    } else if same_text(name, "fport ls") {
        Some(HdcCommand::ForwardList)
    } else if same_text(name, "fport rm") {
        Some(HdcCommand::ForwardRemove)
    } else if same_text(name, "rport rm") {
        Some(HdcCommand::ForwardRportRemove)
    } else if same_text(name, "install") {
        Some(HdcCommand::AppInit)
    } else if same_text(name, "uninstall") {
        Some(HdcCommand::AppUninstall)
    } else if same_text(name, "sideload") {
        Some(HdcCommand::AppSideload)
    } else if same_text(name, "jpid") {
        Some(HdcCommand::JdwpList)
    } else if same_text(name, "track-jpid") {
        Some(HdcCommand::JdwpTrack)
    } else if same_text(name, "alive") {
        Some(HdcCommand::KernelEnableKeepalive)
    } else if same_text(name, "update") {
        Some(HdcCommand::FlashdUpdateInit)
    } else if same_text(name, "flash") {
        Some(HdcCommand::FlashdFlashInit)
    } else if same_text(name, "erase") {
        Some(HdcCommand::FlashdErase)
    } else if same_text(name, "format") {
        Some(HdcCommand::FlashdFormat)
    } else if same_text(name, "reconnect") {
        Some(HdcCommand::KernelTargetReconnect)
    } else if same_text(name, "spawn-sub") {
        Some(HdcCommand::SpawnSub)
    } else if same_text(name, "killall-sub") {
        Some(HdcCommand::SpawnSub)
    } else {
        None
    }
}

/// The longest name of a command, in words.
pub const MAX_CMD_LEN: usize = 3;

/// The help text.
pub const USAGE: &'static str = "HDC (HarmonyOS Device Connector) Rust Implementation

Usage: hdc [options] [command]

Global Options:
  -h              Show this help message
  -v              Show version
  -l <level>      Set log level (0-6)
  -m              Run in server mode
  -p              Do not launch server automatically
  -t <key>        Target connect key
  -s <addr>       Server address (ip:port)
  -e <ip>         IP address for host to listen during TCP port forwarding
  -b              Server spawned by client (no stdout)

Commands:
  list targets              List connected devices
  tconn <ip:port>           Connect to device via TCP
  shell [cmd]               Execute shell command or enter interactive shell
  shell - [cmd]             Execute shell with bundle options
  file send <local> <remote> Send file to device
  file recv <remote> <local> Receive file from device
  install [options] <path...>  Install application package(s) (.hap/.hsp/.app)
                              options are passed to 'bm install' (e.g. -r replace,
                              -g grant permissions, -s shared bundle)
  uninstall <package>       Uninstall application
  fport [ls|rm]             Forward port management
  rport [ls|rm]             Reverse port management
  hilog                     Show device logs
  bugreport [path]          Generate bug report
  target boot [mode]        Reboot device
  target mount              Remount filesystem
  smode                     Switch root mode
  tmode                     Switch target mode
  jpid                      List JDWP processes
  track-jpid                Track JDWP processes
  update <package>          Update system by package (.zip/.img/...)
  flash [-f] <partition> <image>  Flash partition by image
  erase [-f] <partition>    Erase partition
  format [-f] <partition>   Format partition
  reconnect <key>           Reconnect USB device
  start [-r]                Start server (with -r to restart)
  kill [-r]                 Kill server (with -r to restart)
  checkserver               Check server version
  wait                      Wait for device connection
";

/// The help text.
pub fn usage() -> (r: String)
    ensures
        r@ == USAGE@,
{
    USAGE.to_owned()
}

/// The help text with a remark.
pub fn verbose_usage() -> (r: String)
    ensures
        r@ == USAGE@ + "\nVerbose mode enabled.\n"@,
{
    concat2(USAGE, "\nVerbose mode enabled.\n")
}

// ---------------------------------------------------------------------------
// Options, command and parameters
// ---------------------------------------------------------------------------

/// A command line in three parts: the options before the command, the command, and
/// the words from the command on.
#[derive(Debug, Clone)]
pub struct Parsed {
    pub options: Vec<String>,
    pub command: Option<HdcCommand>,
    pub parameters: Vec<String>,
}

impl Default for Parsed {
    fn default() -> (r: Self)
        ensures
            r.options@.len() == 0,
            r.command is None,
            r.parameters@.len() == 0,
    {
        Parsed { options: Vec::new(), command: None, parameters: Vec::new() }
    }
}

/// The command that `len` words from `st` on name, with one blank between them.
pub open spec fn named_by(input: Seq<Seq<char>>, st: int, len: int) -> Option<HdcCommand> {
    command_named(text::joined(input.subrange(st, st + len), " "@))
}

/// The commands that open a forwarding; a longer name may follow their name.
pub open spec fn opens_forward(c: HdcCommand) -> bool {
    c == HdcCommand::ForwardInit || c == HdcCommand::ForwardRportInit
}

/// The commands that list or remove forwardings.
pub open spec fn manages_forward(c: HdcCommand) -> bool {
    c == HdcCommand::ForwardRemove || c == HdcCommand::ForwardList || c
        == HdcCommand::ForwardRportList || c == HdcCommand::ForwardRportRemove
}

/// The command found so far and its place, once the names of `len` and more words
/// at `st` have been looked at. The shortest name counts. After a command that opens
/// a forwarding, only one that lists or removes forwardings is taken in its place.
pub open spec fn found_at(
    input: Seq<Seq<char>>,
    st: int,
    len: int,
    found: Option<(HdcCommand, int)>,
) -> Option<(HdcCommand, int)>
    decreases MAX_CMD_LEN + 1 - len,
{
    if len > MAX_CMD_LEN || st + len > input.len() {
        found
    } else {
        match named_by(input, st, len) {
            None => found_at(input, st, len + 1, found),
            Some(c) => if found is Some && opens_forward(found->Some_0.0) && !manages_forward(c) {
                found
            } else if opens_forward(c) {
                found_at(input, st, len + 1, Some((c, st)))
            } else {
                Some((c, st))
            },
        }
    }
}

/// The command and its place, once the words from `st` on have been looked at. The
/// search ends with the first command that does not open a forwarding.
pub open spec fn found_from(
    input: Seq<Seq<char>>,
    st: int,
    found: Option<(HdcCommand, int)>,
) -> Option<(HdcCommand, int)>
    decreases input.len() - st,
{
    if st >= input.len() {
        found
    } else {
        let now = found_at(input, st, 1, found);
        if now is Some && !opens_forward(now->Some_0.0) {
            now
        } else {
            found_from(input, st + 1, now)
        }
    }
}

/// The command in a command line, and its place.
pub open spec fn command_in(input: Seq<Seq<char>>) -> Option<(HdcCommand, int)> {
    found_from(input, 0, None)
}

/// Where the options end: at the command, or at the end.
pub open spec fn options_end(input: Seq<Seq<char>>) -> int {
    match command_in(input) {
        Some((_, i)) => i,
        None => input.len() as int,
    }
}

/// A place that names a command.
pub open spec fn names_at(input: Seq<Seq<char>>, c: HdcCommand, i: int) -> bool {
    exists|len: int|
        1 <= len <= MAX_CMD_LEN && i + len <= input.len() && #[trigger] named_by(input, i, len)
            == Some(c)
}

proof fn found_at_names(
    input: Seq<Seq<char>>,
    st: int,
    len: int,
    found: Option<(HdcCommand, int)>,
)
    requires
        0 <= st < input.len(),
        1 <= len,
        found matches Some((c, i)) ==> 0 <= i < input.len() && names_at(input, c, i),
    ensures
        found_at(input, st, len, found) matches Some((c, i)) ==> 0 <= i < input.len() && names_at(
            input,
            c,
            i,
        ),
        found_at(input, st, len, found) is None ==> found is None,
        found_at(input, st, len, found) is None ==> forall|k: int|
            len <= k <= MAX_CMD_LEN && st + k <= input.len() ==> #[trigger] named_by(input, st, k)
                is None,
    decreases MAX_CMD_LEN + 1 - len,
{
    if len <= MAX_CMD_LEN && st + len <= input.len() {
        match named_by(input, st, len) {
            None => {
                found_at_names(input, st, len + 1, found);
            },
            Some(c) => {
                assert(names_at(input, c, st));
                if opens_forward(c) {
                    found_at_names(input, st, len + 1, Some((c, st)));
                }
            },
        }
    }
}

proof fn found_from_names(input: Seq<Seq<char>>, st: int, found: Option<(HdcCommand, int)>)
    requires
        0 <= st,
        found matches Some((c, i)) ==> 0 <= i < input.len() && names_at(input, c, i),
    ensures
        found_from(input, st, found) matches Some((c, i)) ==> 0 <= i < input.len() && names_at(
            input,
            c,
            i,
        ),
        found_from(input, st, found) is None ==> found is None && forall|j: int, k: int|
            st <= j && 1 <= k <= MAX_CMD_LEN && j + k <= input.len() ==> #[trigger] named_by(
                input,
                j,
                k,
            ) is None,
    decreases input.len() - st,
{
    if st < input.len() {
        let now = found_at(input, st, 1, found);
        found_at_names(input, st, 1, found);
        found_from_names(input, st + 1, now);
    }
}

/// A command is found exactly if some one to three words in a row name one, and the
/// words at the place where it is found name it.
pub proof fn command_is_named(input: Seq<Seq<char>>)
    ensures
        match command_in(input) {
            Some((c, i)) => 0 <= i < input.len() && names_at(input, c, i),
            None => forall|j: int, k: int|
                0 <= j && 1 <= k <= MAX_CMD_LEN && j + k <= input.len() ==> #[trigger] named_by(
                    input,
                    j,
                    k,
                ) is None,
        },
{
    found_from_names(input, 0, None);
}

/// What is found at a place after a command that opens a forwarding: that command still,
/// or another that would be found there in any case.
proof fn found_at_after_opening(
    input: Seq<Seq<char>>,
    st: int,
    len: int,
    found: Option<(HdcCommand, int)>,
)
    requires
        found matches Some((c, i)) && opens_forward(c),
    ensures
        ({
            let now = found_at(input, st, len, found);
            now != found ==> {
                &&& now == found_at(input, st, len, None)
                &&& now is Some
                &&& now->Some_0.1 == st
                &&& !opens_forward(now->Some_0.0)
            }
        }),
    decreases MAX_CMD_LEN + 1 - len,
{
    if len <= MAX_CMD_LEN && st + len <= input.len() && named_by(input, st, len) is None {
        found_at_after_opening(input, st, len + 1, found);
    }
}

/// A command that is found at a place is found there whatever stands before it.
proof fn found_from_its_place(input: Seq<Seq<char>>, st: int, found: Option<(HdcCommand, int)>)
    requires
        0 <= st,
        found matches Some((c, i)) ==> opens_forward(c) && 0 <= i < st,
    ensures
        found_from(input, st, found) matches Some((c, i)) ==> i >= st ==> found_from(input, i, None)
            == Some((c, i)),
        found is Some && found_from(input, st, found) != found ==> (found_from(input, st, found) is Some
            && found_from(input, st, found)->Some_0.1 >= st),
    decreases input.len() - st,
{
    if st < input.len() {
        let now = found_at(input, st, 1, found);
        if found is Some {
            found_at_after_opening(input, st, 1, found);
            if now == found {
                found_from_its_place(input, st + 1, found);
            }
        } else {
            found_at_stands(input, st, 1, None);
            if now is None || opens_forward(now->Some_0.0) {
                found_from_its_place(input, st + 1, now);
            }
        }
    }
}

/// What is newly found at a place stands there.
proof fn found_at_stands(
    input: Seq<Seq<char>>,
    st: int,
    len: int,
    found: Option<(HdcCommand, int)>,
)
    requires
        found matches Some((c, i)) ==> i == st,
    ensures
        found_at(input, st, len, found) matches Some((c, i)) ==> i == st,
    decreases MAX_CMD_LEN + 1 - len,
{
    if len <= MAX_CMD_LEN && st + len <= input.len() {
        match named_by(input, st, len) {
            None => {
                found_at_stands(input, st, len + 1, found);
            },
            Some(c) => {
                found_at_stands(input, st, len + 1, Some((c, st)));
            },
        }
    }
}

/// What is found, counted from a later place.
spec fn moved(found: Option<(HdcCommand, int)>, by: int) -> Option<(HdcCommand, int)> {
    match found {
        Some((c, i)) => Some((c, i - by)),
        None => None,
    }
}

proof fn found_at_moves(
    input: Seq<Seq<char>>,
    st: int,
    len: int,
    found: Option<(HdcCommand, int)>,
    by: int,
)
    requires
        0 <= by <= st,
        by <= input.len(),
        len >= 1,
    ensures
        found_at(input.skip(by), st - by, len, moved(found, by)) == moved(
            found_at(input, st, len, found),
            by,
        ),
    decreases MAX_CMD_LEN + 1 - len,
{
    if len <= MAX_CMD_LEN && st + len <= input.len() {
        assert(input.skip(by).subrange(st - by, st - by + len) =~= input.subrange(st, st + len));
        match named_by(input, st, len) {
            None => {
                found_at_moves(input, st, len + 1, found, by);
            },
            Some(c) => {
                found_at_moves(input, st, len + 1, Some((c, st)), by);
            },
        }
    }
}

proof fn found_from_moves(
    input: Seq<Seq<char>>,
    st: int,
    found: Option<(HdcCommand, int)>,
    by: int,
)
    requires
        0 <= by <= st,
        by <= input.len(),
    ensures
        found_from(input.skip(by), st - by, moved(found, by)) == moved(
            found_from(input, st, found),
            by,
        ),
    decreases input.len() - st,
{
    if st < input.len() {
        found_at_moves(input, st, 1, found, by);
        found_from_moves(input, st + 1, found_at(input, st, 1, found), by);
    }
}

/// The words from a command on are a command line with that command, and without
/// options.
pub proof fn command_found_again(input: Seq<Seq<char>>)
    ensures
        command_in(input) matches Some((c, i)) ==> command_in(input.skip(i)) == Some((c, 0int)),
{
    command_is_named(input);
    if let Some((c, i)) = command_in(input) {
        found_from_its_place(input, 0, None);
        found_from_moves(input, i, None, i);
    }
}

// ---------------------------------------------------------------------------
// What the names stand for
// ---------------------------------------------------------------------------

/// A command line that begins with these words has this command, whatever words follow.
pub open spec fn led_by(name: Seq<Seq<char>>, c: HdcCommand) -> bool {
    forall|rest: Seq<Seq<char>>| #[trigger] command_in(name + rest) == Some((c, 0int))
}

/// A name of one word leads a command line, unless it opens a forwarding.
proof fn leads_with_one(name: Seq<char>, c: HdcCommand)
    requires
        command_named(name) == Some(c),
        c != HdcCommand::ForwardInit,
        c != HdcCommand::ForwardRportInit,
    ensures
        led_by(seq![name], c),
{
    let words = seq![name];
    assert forall|rest: Seq<Seq<char>>| #[trigger] command_in(words + rest) == Some((c, 0int)) by {
        let input = words + rest;
        assert(input.subrange(0, 1) =~= seq![name]);
        assert(named_by(input, 0, 1) == Some(c));
        assert(found_at(input, 0, 1, None) == Some((c, 0int)));
    }
}

/// A name of two words leads a command line, if its first word is no name, or one that it
/// takes the place of.
proof fn leads_with_two(first: Seq<char>, second: Seq<char>, c: HdcCommand)
    requires
        command_named(first + " "@ + second) == Some(c),
        c != HdcCommand::ForwardInit,
        c != HdcCommand::ForwardRportInit,
        command_named(first) is None || ((command_named(first) == Some(HdcCommand::ForwardInit)
            || command_named(first) == Some(HdcCommand::ForwardRportInit)) && (c
            == HdcCommand::ForwardList || c == HdcCommand::ForwardRemove || c
            == HdcCommand::ForwardRportList || c == HdcCommand::ForwardRportRemove)),
    ensures
        led_by(seq![first, second], c),
{
    let words = seq![first, second];
    assert forall|rest: Seq<Seq<char>>| #[trigger] command_in(words + rest) == Some((c, 0int)) by {
        let input = words + rest;
        let two = input.subrange(0, 2);
        assert(input.subrange(0, 1) =~= seq![first]);
        assert(two =~= seq![first, second]);
        assert(two.drop_last() =~= seq![first]);
        assert(text::joined(two, " "@) == first + " "@ + second);
        assert(named_by(input, 0, 1) == command_named(first));
        assert(named_by(input, 0, 2) == Some(c));
        assert(found_at(input, 0, 1, None) == found_at(
            input,
            0,
            2,
            match command_named(first) {
                Some(d) => Some((d, 0int)),
                None => None,
            },
        ));
        assert(found_at(input, 0, 1, None) == Some((c, 0int)));
    }
}

/// What tells the names of the commands apart: their length, their first two characters and
/// the last but one.
spec fn mark(s: Seq<char>) -> (nat, char, char, char) {
    (s.len(), s[0], s[1], s[s.len() - 2])
}

/// The marks of the names, and of the words that begin one and are none.
proof fn marks_of_names()
    ensures
        mark("version"@) == (7nat, 'v', 'e', 'o'),
        mark("help"@) == (4nat, 'h', 'e', 'l'),
        mark("discover"@) == (8nat, 'd', 'i', 'e'),
        mark("start"@) == (5nat, 's', 't', 'r'),
        mark("kill"@) == (4nat, 'k', 'i', 'l'),
        mark("keygen"@) == (6nat, 'k', 'e', 'e'),
        mark("list targets"@) == (12nat, 'l', 'i', 't'),
        mark("checkserver"@) == (11nat, 'c', 'h', 'e'),
        mark("checkdevice"@) == (11nat, 'c', 'h', 'c'),
        mark("wait"@) == (4nat, 'w', 'a', 'i'),
        mark("tconn"@) == (5nat, 't', 'c', 'n'),
        mark("any"@) == (3nat, 'a', 'n', 'n'),
        mark("shell"@) == (5nat, 's', 'h', 'l'),
        mark("target boot"@) == (11nat, 't', 'a', 'o'),
        mark("target mount"@) == (12nat, 't', 'a', 'n'),
        mark("smode"@) == (5nat, 's', 'm', 'd'),
        mark("tmode"@) == (5nat, 't', 'm', 'd'),
        mark("bugreport"@) == (9nat, 'b', 'u', 'r'),
        mark("hilog"@) == (5nat, 'h', 'i', 'o'),
        mark("file send"@) == (9nat, 'f', 'i', 'n'),
        mark("file recv"@) == (9nat, 'f', 'i', 'c'),
        mark("fport"@) == (5nat, 'f', 'p', 'r'),
        mark("rport"@) == (5nat, 'r', 'p', 'r'),
        mark("rport ls"@) == (8nat, 'r', 'p', 'l'),
        mark("fport ls"@) == (8nat, 'f', 'p', 'l'),
        mark("fport rm"@) == (8nat, 'f', 'p', 'r'),
        mark("rport rm"@) == (8nat, 'r', 'p', 'r'),
        mark("install"@) == (7nat, 'i', 'n', 'l'),
        mark("uninstall"@) == (9nat, 'u', 'n', 'l'),
        mark("sideload"@) == (8nat, 's', 'i', 'a'),
        mark("jpid"@) == (4nat, 'j', 'p', 'i'),
        mark("track-jpid"@) == (10nat, 't', 'r', 'i'),
        mark("alive"@) == (5nat, 'a', 'l', 'v'),
        mark("update"@) == (6nat, 'u', 'p', 't'),
        mark("flash"@) == (5nat, 'f', 'l', 's'),
        mark("erase"@) == (5nat, 'e', 'r', 's'),
        mark("format"@) == (6nat, 'f', 'o', 'a'),
        mark("reconnect"@) == (9nat, 'r', 'e', 'c'),
        mark("spawn-sub"@) == (9nat, 's', 'p', 'u'),
        mark("killall-sub"@) == (11nat, 'k', 'i', 'u'),
        mark("list"@) == (4nat, 'l', 'i', 's'),
        mark("target"@) == (6nat, 't', 'a', 'e'),
        mark("file"@) == (4nat, 'f', 'i', 'l'),
{
    reveal_strlit("version");
    reveal_strlit("help");
    reveal_strlit("discover");
    reveal_strlit("start");
    reveal_strlit("kill");
    reveal_strlit("keygen");
    reveal_strlit("list targets");
    reveal_strlit("checkserver");
    reveal_strlit("checkdevice");
    reveal_strlit("wait");
    reveal_strlit("tconn");
    reveal_strlit("any");
    reveal_strlit("shell");
    reveal_strlit("target boot");
    reveal_strlit("target mount");
    reveal_strlit("smode");
    reveal_strlit("tmode");
    reveal_strlit("bugreport");
    reveal_strlit("hilog");
    reveal_strlit("file send");
    reveal_strlit("file recv");
    reveal_strlit("fport");
    reveal_strlit("rport");
    reveal_strlit("rport ls");
    reveal_strlit("fport ls");
    reveal_strlit("fport rm");
    reveal_strlit("rport rm");
    reveal_strlit("install");
    reveal_strlit("uninstall");
    reveal_strlit("sideload");
    reveal_strlit("jpid");
    reveal_strlit("track-jpid");
    reveal_strlit("alive");
    reveal_strlit("update");
    reveal_strlit("flash");
    reveal_strlit("erase");
    reveal_strlit("format");
    reveal_strlit("reconnect");
    reveal_strlit("spawn-sub");
    reveal_strlit("killall-sub");
    reveal_strlit("list");
    reveal_strlit("target");
    reveal_strlit("file");
}

/// Every command has the name under which it is known: a command line that begins with the
/// name has the command, whatever follows.
#[verifier::rlimit(60)]
#[verifier::spinoff_prover]
pub proof fn names_lead_to_their_commands()
    ensures
        led_by(seq!["version"@], HdcCommand::ClientVersion),
        led_by(seq!["help"@], HdcCommand::KernelHelp),
        led_by(seq!["discover"@], HdcCommand::KernelTargetDiscover),
        led_by(seq!["start"@], HdcCommand::KernelServerStart),
        led_by(seq!["kill"@], HdcCommand::KernelServerKill),
        led_by(seq!["keygen"@], HdcCommand::ClientKeyGenerate),
        led_by(seq!["checkserver"@], HdcCommand::KernelCheckServer),
        led_by(seq!["checkdevice"@], HdcCommand::KernelCheckDevice),
        led_by(seq!["wait"@], HdcCommand::KernelWaitFor),
        led_by(seq!["tconn"@], HdcCommand::KernelTargetConnect),
        led_by(seq!["any"@], HdcCommand::KernelTargetAny),
        led_by(seq!["shell"@], HdcCommand::UnityExecute),
        led_by(seq!["smode"@], HdcCommand::UnityRootrun),
        led_by(seq!["tmode"@], HdcCommand::UnityRunmode),
        led_by(seq!["bugreport"@], HdcCommand::UnityBugreportInit),
        led_by(seq!["hilog"@], HdcCommand::UnityHilog),
        led_by(seq!["install"@], HdcCommand::AppInit),
        led_by(seq!["uninstall"@], HdcCommand::AppUninstall),
        led_by(seq!["sideload"@], HdcCommand::AppSideload),
        led_by(seq!["jpid"@], HdcCommand::JdwpList),
        led_by(seq!["track-jpid"@], HdcCommand::JdwpTrack),
        led_by(seq!["alive"@], HdcCommand::KernelEnableKeepalive),
        led_by(seq!["update"@], HdcCommand::FlashdUpdateInit),
        led_by(seq!["flash"@], HdcCommand::FlashdFlashInit),
        led_by(seq!["erase"@], HdcCommand::FlashdErase),
        led_by(seq!["format"@], HdcCommand::FlashdFormat),
        led_by(seq!["reconnect"@], HdcCommand::KernelTargetReconnect),
        led_by(seq!["spawn-sub"@], HdcCommand::SpawnSub),
        led_by(seq!["killall-sub"@], HdcCommand::SpawnSub),
        led_by(seq!["list"@, "targets"@], HdcCommand::KernelTargetList),
        led_by(seq!["target"@, "boot"@], HdcCommand::UnityReboot),
        led_by(seq!["target"@, "mount"@], HdcCommand::UnityRemount),
        led_by(seq!["file"@, "send"@], HdcCommand::FileInit),
        led_by(seq!["file"@, "recv"@], HdcCommand::FileRecvInit),
        led_by(seq!["fport"@, "ls"@], HdcCommand::ForwardList),
        led_by(seq!["fport"@, "rm"@], HdcCommand::ForwardRemove),
        led_by(seq!["rport"@, "ls"@], HdcCommand::ForwardRportList),
        led_by(seq!["rport"@, "rm"@], HdcCommand::ForwardRportRemove),
{
    marks_of_names();
    leads_with_one("version"@, HdcCommand::ClientVersion);
    leads_with_one("help"@, HdcCommand::KernelHelp);
    leads_with_one("discover"@, HdcCommand::KernelTargetDiscover);
    leads_with_one("start"@, HdcCommand::KernelServerStart);
    leads_with_one("kill"@, HdcCommand::KernelServerKill);
    leads_with_one("keygen"@, HdcCommand::ClientKeyGenerate);
    leads_with_one("checkserver"@, HdcCommand::KernelCheckServer);
    leads_with_one("checkdevice"@, HdcCommand::KernelCheckDevice);
    leads_with_one("wait"@, HdcCommand::KernelWaitFor);
    leads_with_one("tconn"@, HdcCommand::KernelTargetConnect);
    leads_with_one("any"@, HdcCommand::KernelTargetAny);
    leads_with_one("shell"@, HdcCommand::UnityExecute);
    leads_with_one("smode"@, HdcCommand::UnityRootrun);
    leads_with_one("tmode"@, HdcCommand::UnityRunmode);
    leads_with_one("bugreport"@, HdcCommand::UnityBugreportInit);
    leads_with_one("hilog"@, HdcCommand::UnityHilog);
    leads_with_one("install"@, HdcCommand::AppInit);
    leads_with_one("uninstall"@, HdcCommand::AppUninstall);
    leads_with_one("sideload"@, HdcCommand::AppSideload);
    leads_with_one("jpid"@, HdcCommand::JdwpList);
    leads_with_one("track-jpid"@, HdcCommand::JdwpTrack);
    leads_with_one("alive"@, HdcCommand::KernelEnableKeepalive);
    leads_with_one("update"@, HdcCommand::FlashdUpdateInit);
    leads_with_one("flash"@, HdcCommand::FlashdFlashInit);
    leads_with_one("erase"@, HdcCommand::FlashdErase);
    leads_with_one("format"@, HdcCommand::FlashdFormat);
    leads_with_one("reconnect"@, HdcCommand::KernelTargetReconnect);
    leads_with_one("spawn-sub"@, HdcCommand::SpawnSub);
    leads_with_one("killall-sub"@, HdcCommand::SpawnSub);
    assert("list"@ + " "@ + "targets"@ =~= "list targets"@) by {
        reveal_strlit("list");
        reveal_strlit(" ");
        reveal_strlit("targets");
        reveal_strlit("list targets");
    }
    leads_with_two("list"@, "targets"@, HdcCommand::KernelTargetList);
    assert("target"@ + " "@ + "boot"@ =~= "target boot"@) by {
        reveal_strlit("target");
        reveal_strlit(" ");
        reveal_strlit("boot");
        reveal_strlit("target boot");
    }
    leads_with_two("target"@, "boot"@, HdcCommand::UnityReboot);
    assert("target"@ + " "@ + "mount"@ =~= "target mount"@) by {
        reveal_strlit("target");
        reveal_strlit(" ");
        reveal_strlit("mount");
        reveal_strlit("target mount");
    }
    leads_with_two("target"@, "mount"@, HdcCommand::UnityRemount);
    assert("file"@ + " "@ + "send"@ =~= "file send"@) by {
        reveal_strlit("file");
        reveal_strlit(" ");
        reveal_strlit("send");
        reveal_strlit("file send");
    }
    leads_with_two("file"@, "send"@, HdcCommand::FileInit);
    assert("file"@ + " "@ + "recv"@ =~= "file recv"@) by {
        reveal_strlit("file");
        reveal_strlit(" ");
        reveal_strlit("recv");
        reveal_strlit("file recv");
    }
    leads_with_two("file"@, "recv"@, HdcCommand::FileRecvInit);
    assert("fport"@ + " "@ + "ls"@ =~= "fport ls"@) by {
        reveal_strlit("fport");
        reveal_strlit(" ");
        reveal_strlit("ls");
        reveal_strlit("fport ls");
    }
    leads_with_two("fport"@, "ls"@, HdcCommand::ForwardList);
    assert("fport"@ + " "@ + "rm"@ =~= "fport rm"@) by {
        reveal_strlit("fport");
        reveal_strlit(" ");
        reveal_strlit("rm");
        reveal_strlit("fport rm");
    }
    leads_with_two("fport"@, "rm"@, HdcCommand::ForwardRemove);
    assert("rport"@ + " "@ + "ls"@ =~= "rport ls"@) by {
        reveal_strlit("rport");
        reveal_strlit(" ");
        reveal_strlit("ls");
        reveal_strlit("rport ls");
    }
    leads_with_two("rport"@, "ls"@, HdcCommand::ForwardRportList);
    assert("rport"@ + " "@ + "rm"@ =~= "rport rm"@) by {
        reveal_strlit("rport");
        reveal_strlit(" ");
        reveal_strlit("rm");
        reveal_strlit("rport rm");
    }
    leads_with_two("rport"@, "rm"@, HdcCommand::ForwardRportRemove);
}

/// No later words of a command line name a command that lists or removes forwardings.
pub open spec fn nothing_is_managed(input: Seq<Seq<char>>) -> bool {
    forall|j: int, k: int|
        0 <= j && 1 <= k <= 3 && j + k <= input.len() ==> {
            let c = #[trigger] named_by(input, j, k);
            &&& c != Some(HdcCommand::ForwardList)
            &&& c != Some(HdcCommand::ForwardRemove)
            &&& c != Some(HdcCommand::ForwardRportList)
            &&& c != Some(HdcCommand::ForwardRportRemove)
        }
}

proof fn opening_is_kept(input: Seq<Seq<char>>, st: int, c: HdcCommand)
    requires
        0 <= st,
        opens_forward(c),
        nothing_is_managed(input),
    ensures
        found_from(input, st, Some((c, 0int))) == Some((c, 0int)),
    decreases input.len() - st,
{
    if st < input.len() {
        opening_is_kept_at(input, st, 1, c);
        opening_is_kept(input, st + 1, c);
    }
}

proof fn opening_is_kept_at(input: Seq<Seq<char>>, st: int, len: int, c: HdcCommand)
    requires
        0 <= st,
        1 <= len,
        opens_forward(c),
        nothing_is_managed(input),
    ensures
        found_at(input, st, len, Some((c, 0int))) == Some((c, 0int)),
    decreases MAX_CMD_LEN + 1 - len,
{
    if len <= MAX_CMD_LEN && st + len <= input.len() {
        let d = named_by(input, st, len);
        if d is None {
            opening_is_kept_at(input, st, len + 1, c);
        }
    }
}

/// `fport` asks for a forwarding from the host, `rport` for one from the device, unless the
/// words name a command that lists or removes forwardings.
pub proof fn forwarding_is_asked_for(rest: Seq<Seq<char>>)
    ensures
        nothing_is_managed(seq!["fport"@] + rest) ==> command_in(seq!["fport"@] + rest) == Some(
            (HdcCommand::ForwardInit, 0int),
        ),
        nothing_is_managed(seq!["rport"@] + rest) ==> command_in(seq!["rport"@] + rest) == Some(
            (HdcCommand::ForwardRportInit, 0int),
        ),
{
    marks_of_names();
    opening_leads("fport"@, rest, HdcCommand::ForwardInit);
    opening_leads("rport"@, rest, HdcCommand::ForwardRportInit);
}

proof fn opening_leads(name: Seq<char>, rest: Seq<Seq<char>>, c: HdcCommand)
    requires
        command_named(name) == Some(c),
        opens_forward(c),
    ensures
        nothing_is_managed(seq![name] + rest) ==> command_in(seq![name] + rest) == Some((c, 0int)),
{
    let input = seq![name] + rest;
    if nothing_is_managed(input) {
        assert(input.subrange(0, 1) =~= seq![name]);
        assert(named_by(input, 0, 1) == Some(c));
        opening_is_kept_at(input, 0, 2, c);
        assert(found_at(input, 0, 1, None) == Some((c, 0int)));
        opening_is_kept(input, 1, c);
    }
}

/// Two names never stand for the same command, but for those of the two commands for
/// subservers.
#[verifier::rlimit(60)]
pub proof fn names_are_told_apart(a: Seq<char>, b: Seq<char>)
    requires
        command_named(a) is Some,
        command_named(a) == command_named(b),
    ensures
        a == b || ((a == "spawn-sub"@ || a == "killall-sub"@) && (b == "spawn-sub"@ || b
            == "killall-sub"@)),
{
}

fn is_forward_opening(c: HdcCommand) -> (r: bool)
    ensures
        r == opens_forward(c),
{
    c == HdcCommand::ForwardInit || c == HdcCommand::ForwardRportInit
}

fn is_forward_managing(c: HdcCommand) -> (r: bool)
    ensures
        r == manages_forward(c),
{
    c == HdcCommand::ForwardRemove || c == HdcCommand::ForwardList || c
        == HdcCommand::ForwardRportList || c == HdcCommand::ForwardRportRemove
}

/// The command found so far and its place, as numbers that can be computed with.
pub open spec fn place(found: Option<(HdcCommand, usize)>) -> Option<(HdcCommand, int)> {
    match found {
        Some((c, i)) => Some((c, i as int)),
        None => None,
    }
}

fn find_at(
    input: &[String],
    st: usize,
    len: usize,
    found: Option<(HdcCommand, usize)>,
) -> (r: Option<(HdcCommand, usize)>)
    requires
        st < input.len(),
        1 <= len <= MAX_CMD_LEN + 1,
    ensures
        place(r) == found_at(text::texts(input@), st as int, len as int, place(found)),
    decreases MAX_CMD_LEN + 1 - len,
{
    if len > MAX_CMD_LEN || len > input.len() - st {
        return found;
    }
    let name = join(slice_subrange(input, st, st + len), " ");
    assert(text::texts(input@.subrange(st as int, st + len)) =~= text::texts(input@).subrange(
        st as int,
        st + len,
    ));
    match find_command(name.as_str()) {
        None => find_at(input, st, len + 1, found),
        Some(c) => {
            let held: bool = match found {
                Some((e, _)) => is_forward_opening(e) && !is_forward_managing(c),
                None => false,
            };
            if held {
                found
            } else if is_forward_opening(c) {
                find_at(input, st, len + 1, Some((c, st)))
            } else {
                Some((c, st))
            }
        },
    }
}

/// Splits a command line at its command.
pub fn split_opt_and_cmd(input: Vec<String>) -> (r: Parsed)
    ensures
        r.command == match command_in(text::texts(input@)) {
            Some((c, _)) => Some(c),
            None => None,
        },
        text::texts(r.options@) == text::texts(input@).take(options_end(text::texts(input@))),
        text::texts(r.parameters@) == text::texts(input@).skip(options_end(text::texts(input@))),
        text::texts(r.options@) + text::texts(r.parameters@) == text::texts(input@),
{
    let n: usize = input.len();
    let ghost views = text::texts(input@);
    let mut found: Option<(HdcCommand, usize)> = None;
    let mut st: usize = 0;
    let mut done: bool = false;
    while st < n && !done
        invariant
            n == input.len(),
            views == text::texts(input@),
            st <= n,
            !done ==> found_from(views, st as int, place(found)) == command_in(views),
            done ==> place(found) == command_in(views),
        decreases n - st,
    {
        found = find_at(&input, st, 1, found);
        match found {
            Some((c, _)) => {
                if !is_forward_opening(c) {
                    done = true;
                }
            },
            None => {},
        }
        st += 1;
    }
    proof {
        command_is_named(views);
    }
    let (command, end): (Option<HdcCommand>, usize) = match found {
        Some((c, i)) => (Some(c), i),
        None => (None, n),
    };
    assert(end == options_end(views));
    let options = copy_texts(slice_subrange(&input, 0, end));
    let parameters = copy_texts(slice_subrange(&input, end, n));
    proof {
        assert(text::texts(input@.subrange(0, end as int)) =~= views.take(end as int));
        assert(text::texts(input@.subrange(end as int, n as int)) =~= views.skip(end as int));
        assert(views.take(end as int) + views.skip(end as int) =~= views);
    }
    Parsed { options, command, parameters }
}

// ---------------------------------------------------------------------------
// The options
// ---------------------------------------------------------------------------

/// Why a command line is not carried out.
#[derive(Debug, Clone, Copy, PartialEq, Eq, Structural)]
pub enum OptionError {
    /// The user asked for help.
    Usage,
    /// The user asked for help with a remark.
    VerboseUsage,
    /// The user asked for the version.
    Version,
    /// The log level is not a number below seven.
    LogLevel,
    /// The connect key has more than 32 bytes; how many is told.
    KeyTooLong(usize),
    /// The port is not one to five digits.
    PortNotDigits,
    /// The port is zero or above 65535.
    PortRange,
    /// The address of the server is not an IP address.
    ServerIp,
    /// The address to listen at is not an IP address.
    ListenIp,
}

impl OptionError {
    /// What the user is told.
    pub open spec fn text(self) -> Seq<char> {
        match self {
            OptionError::Usage => USAGE@,
            OptionError::VerboseUsage => USAGE@ + "\nVerbose mode enabled.\n"@,
            OptionError::Version => config::version_text(HDC_VERSION_NUMBER),
            OptionError::LogLevel => "-l content loglevel incorrect\n\n"@ + USAGE@,
            OptionError::KeyTooLong(n) => "Size of param '-t' "@ + text::decimal(n as nat)
                + " is too long"@,
            OptionError::PortNotDigits => "The port must be digit str"@,
            OptionError::PortRange => "Port range incorrect"@,
            OptionError::ServerIp => "-s content ip incorrect"@,
            OptionError::ListenIp => "-e content IP incorrect"@,
        }
    }

    /// The user has asked for what is told: it is no mistake.
    pub open spec fn asked(self) -> bool {
        self is Usage || self is VerboseUsage || self is Version
    }

    /// Tells whether the user has asked for what is told.
    pub fn is_asked(&self) -> (r: bool)
        ensures
            r == self.asked(),
    {
        match *self {
            OptionError::Usage | OptionError::VerboseUsage | OptionError::Version => true,
            _ => false,
        }
    }

    /// What the user is told.
    pub fn message(&self) -> (r: String)
        ensures
            r@ == self.text(),
    {
        match *self {
            OptionError::Usage => usage(),
            OptionError::VerboseUsage => verbose_usage(),
            OptionError::Version => get_version(),
            OptionError::LogLevel => concat2("-l content loglevel incorrect\n\n", USAGE),
            OptionError::KeyTooLong(n) => concat3(
                "Size of param '-t' ",
                decimal_text(n as u64).as_str(),
                " is too long",
            ),
            OptionError::PortNotDigits => "The port must be digit str".to_owned(),
            OptionError::PortRange => "Port range incorrect".to_owned(),
            OptionError::ServerIp => "-s content ip incorrect".to_owned(),
            OptionError::ListenIp => "-e content IP incorrect".to_owned(),
        }
    }
}

/// The port that a text names: one to five digits, and not zero.
pub open spec fn port_named(s: Seq<char>) -> Result<u16, OptionError> {
    if !(0 < s.len() <= 5 && text::all_digits(s)) {
        Err(OptionError::PortNotDigits)
    } else if 0 < text::digits_value(s) <= 65535 {
        Ok(text::digits_value(s) as u16)
    } else {
        Err(OptionError::PortRange)
    }
}

fn check_port(port_str: &str) -> (r: Result<u16, OptionError>)
    ensures
        r == port_named(port_str@),
{
    let v = chars_of(port_str);
    if v.len() == 0 || v.len() > 5 {
        return Err(OptionError::PortNotDigits);
    }
    let mut i: usize = 0;
    while i < v.len()
        invariant
            i <= v.len(),
            v@ == port_str@,
            v.len() <= 5,
            forall|j: int| 0 <= j < i ==> text::is_digit(#[trigger] port_str@[j]),
        decreases v.len() - i,
    {
        if !('0' <= v[i] && v[i] <= '9') {
            assert(!text::is_digit(port_str@[i as int]));
            return Err(OptionError::PortNotDigits);
        }
        i += 1;
    }
    assert(text::all_digits(port_str@));
    assert(text::is_digit(port_str@[0]));
    match parse_up_to(port_str, 65535) {
        Some(n) => {
            if n > 0 {
                Ok(n as u16)
            } else {
                Err(OptionError::PortRange)
            }
        },
        None => Err(OptionError::PortRange),
    }
}

/// An address to listen at in a form that names a socket: an IPv4 address mapped
/// into IPv6 without brackets becomes the IPv4 address, an IPv6 address without
/// brackets gets them, and anything else is kept.
pub open spec fn listen_addr(s: Seq<char>) -> Seq<char> {
    let low = text::lowered(s);
    if address::is_socket_v4(s) || address::is_socket_v6(s) {
        s
    } else if text::has_prefix(low, "::ffff:"@) && address::is_socket_v4(low.skip("::ffff:"@.len() as int)) {
        address::plain_socket_v4(low.skip("::ffff:"@.len() as int))
    } else if text::last_of(s, ':') >= 0 && text::parsed_up_to(address::port_part(s), 65535) is Some && address::is_ipv6(
        address::host_part(s),
    ) {
        "["@ + address::host_part(s) + "]:"@ + address::port_part(s)
    } else {
        s
    }
}

/// An address that names a socket is kept, and what an address is brought to is kept if it
/// is brought there again.
pub proof fn listen_addr_is_settled(s: Seq<char>)
    ensures
        address::is_socket_v4(s) || address::is_socket_v6(s) ==> listen_addr(s) == s,
        listen_addr(listen_addr(s)) == listen_addr(s),
{
    let low = text::lowered(s);
    let mapped = low.skip("::ffff:"@.len() as int);
    let host = address::host_part(s);
    let port = address::port_part(s);
    if address::is_socket_v4(s) || address::is_socket_v6(s) {
    } else if text::has_prefix(low, "::ffff:"@) && address::is_socket_v4(mapped) {
        address::plain_is_socket_v4(mapped);
    } else if text::last_of(s, ':') >= 0 && text::parsed_up_to(port, 65535) is Some
        && address::is_ipv6(host) {
        let r = listen_addr(s);
        let inner = "["@ + host + "]"@;
        reveal_strlit("[");
        reveal_strlit("]");
        reveal_strlit("]:");
        reveal_strlit("::ffff:");
        text::last_of_is_last(s, ':');
        assert(!port.contains(':')) by {
            if port.contains(':') {
                let k = choose|k: int| 0 <= k < port.len() && port[k] == ':';
                assert(s[text::last_of(s, ':') + 1 + k] == ':');
            }
        }
        assert(r =~= inner.push(':') + port);
        address::parts_of_joined(inner, port);
        address::no_ipv6_in_brackets(inner);
        assert(!text::has_prefix(text::lowered(r), "::ffff:"@)) by {
            assert(text::lowered(r)[0] == '[');
            if text::has_prefix(text::lowered(r), "::ffff:"@) {
                assert("::ffff:"@[0] == ':');
                assert(text::lowered(r).subrange(0, 7)[0] == '[');
            }
        }
    }
}

/// Brings an address to listen at into a form that names a socket.
pub fn normalize_listen_addr(s: &str) -> (r: String)
    ensures
        r@ == listen_addr(s@),
{
    if check_socket(s) {
        return copy_text(s);
    }
    let low = to_ascii_lowercase(s);
    match strip_prefix(low.as_str(), "::ffff:") {
        Some(rest) => {
            match parse_socket_v4(rest.as_str()) {
                Some(v4) => {
                    return v4;
                },
                None => {},
            }
        },
        None => {},
    }
    match split_port(s) {
        Some((host, port)) => {
            if parse_up_to(port.as_str(), 65535).is_some() && check_ipv6(host.as_str()) {
                let mut out = concat3("[", host.as_str(), "]:");
                out.append(port.as_str());
                return out;
            }
        },
        None => {},
    }
    copy_text(s)
}

/// The address that the argument of `-s` names: a port alone stands for that port of
/// the local host.
pub open spec fn server_addr_named(arg: Seq<char>) -> Result<Seq<char>, OptionError> {
    let addr = listen_addr(arg);
    let alone = text::last_of(addr, ':') < 0;
    let port_str = if alone {
        addr
    } else {
        address::port_part(addr)
    };
    match port_named(port_str) {
        Err(e) => Err(e),
        Ok(port) => if alone {
            Ok(LOCAL_HOST@ + ":"@ + text::decimal(port as nat))
        } else if address::is_ip(text::trimmed_end_of(text::trimmed_start_of(address::host_part(addr), '['), ']')) {
            Ok(addr)
        } else {
            Err(OptionError::ServerIp)
        },
    }
}

/// Reads the argument of `-s`.
pub fn parse_server_listen_string(arg: &str) -> (r: Result<String, OptionError>)
    ensures
        match r {
            Ok(addr) => server_addr_named(arg@) == Ok::<_, OptionError>(addr@),
            Err(e) => server_addr_named(arg@) == Err::<Seq<char>, _>(e),
        },
{
    let addr = normalize_listen_addr(arg);
    match split_port(addr.as_str()) {
        None => match check_port(addr.as_str()) {
            Err(e) => Err(e),
            Ok(port) => Ok(concat3(LOCAL_HOST, ":", decimal_text(port as u64).as_str())),
        },
        Some((host, port_str)) => match check_port(port_str.as_str()) {
            Err(e) => Err(e),
            Ok(_) => {
                let opened = trim_start_of(host.as_str(), '[');
                let ip_str = trim_end_of(opened.as_str(), ']');
                if check_ip(ip_str.as_str()) {
                    Ok(addr)
                } else {
                    Err(OptionError::ServerIp)
                }
            },
        },
    }
}

/// A command line that was understood.
#[derive(Debug, Clone)]
pub struct ParsedCommand {
    pub run_in_server: bool,
    pub launch_server: bool,
    pub spawned_server: bool,
    pub connect_key: String,
    pub log_level: usize,
    pub server_addr: String,
    pub forward_listen_ip: String,
    pub command: Option<HdcCommand>,
    pub parameters: Vec<String>,
}

/// What a command line says.
pub struct ParsedCommandView {
    pub run_in_server: bool,
    pub launch_server: bool,
    pub spawned_server: bool,
    pub connect_key: Seq<char>,
    pub log_level: usize,
    pub server_addr: Seq<char>,
    pub forward_listen_ip: Seq<char>,
    pub command: Option<HdcCommand>,
    pub parameters: Seq<Seq<char>>,
}

impl View for ParsedCommand {
    type V = ParsedCommandView;

    open spec fn view(&self) -> ParsedCommandView {
        ParsedCommandView {
            run_in_server: self.run_in_server,
            launch_server: self.launch_server,
            spawned_server: self.spawned_server,
            connect_key: self.connect_key@,
            log_level: self.log_level,
            server_addr: self.server_addr@,
            forward_listen_ip: self.forward_listen_ip@,
            command: self.command,
            parameters: text::texts(self.parameters@),
        }
    }
}

impl Default for ParsedCommand {
    fn default() -> (r: Self)
        ensures
            r@ == (ParsedCommandView {
                run_in_server: false,
                launch_server: false,
                spawned_server: false,
                connect_key: Seq::empty(),
                log_level: 0,
                server_addr: Seq::empty(),
                forward_listen_ip: Seq::empty(),
                command: None,
                parameters: Seq::empty(),
            }),
    {
        let r = ParsedCommand {
            run_in_server: false,
            launch_server: false,
            spawned_server: false,
            connect_key: String::new(),
            log_level: 0,
            server_addr: String::new(),
            forward_listen_ip: String::new(),
            command: None,
            parameters: Vec::new(),
        };
        assert(text::texts(r.parameters@) =~= Seq::<Seq<char>>::empty());
        r
    }
}

/// The port of the server where no option names one: that of a setting, if it is one.
pub open spec fn default_port(setting: Option<Seq<char>>) -> u16 {
    match setting {
        None => SERVER_DEFAULT_PORT,
        Some(s) => match port_named(s) {
            Ok(port) => port,
            Err(_) => SERVER_DEFAULT_PORT,
        },
    }
}

/// The port of the server where no option names one.
pub fn server_port(setting: &Option<String>) -> (r: u16)
    ensures
        r == default_port(auth::opt_text(*setting)),
{
    match setting {
        None => SERVER_DEFAULT_PORT,
        Some(s) => match check_port(s.as_str()) {
            Ok(port) => port,
            Err(_) => SERVER_DEFAULT_PORT,
        },
    }
}

/// What holds without any option. `port` is that of the server where no option names
/// one.
pub open spec fn without_options(port: u16) -> ParsedCommandView {
    ParsedCommandView {
        run_in_server: false,
        launch_server: true,
        spawned_server: false,
        connect_key: Seq::empty(),
        log_level: 3,
        server_addr: LOCAL_HOST@ + ":"@ + text::decimal(port as nat),
        forward_listen_ip: LOCAL_HOST@,
        command: None,
        parameters: Seq::empty(),
    }
}

/// The argument of the option at `i`: what follows its letter, or the next word.
pub open spec fn argument_of(opts: Seq<Seq<char>>, i: int) -> Seq<char> {
    if opts[i].len() > 2 {
        opts[i].skip(2)
    } else if i + 1 < opts.len() {
        opts[i + 1]
    } else {
        Seq::empty()
    }
}

/// What the option at `i` adds. A word that is no option adds nothing.
pub open spec fn with_option(
    opts: Seq<Seq<char>>,
    i: int,
    before: ParsedCommandView,
) -> Result<ParsedCommandView, OptionError> {
    let opt = opts[i];
    let arg = argument_of(opts, i);
    if text::has_prefix(opt, "-h"@) {
        if arg == "verbose"@ {
            Err(OptionError::VerboseUsage)
        } else {
            Err(OptionError::Usage)
        }
    } else if text::has_prefix(opt, "-v"@) {
        Err(OptionError::Version)
    } else if text::has_prefix(opt, "-l"@) {
        match text::parsed_up_to(arg, 6) {
            Some(level) => Ok(ParsedCommandView { log_level: level as usize, ..before }),
            None => Err(OptionError::LogLevel),
        }
    } else if text::has_prefix(opt, "-m"@) {
        Ok(ParsedCommandView { run_in_server: true, ..before })
    } else if text::has_prefix(opt, "-p"@) {
        Ok(ParsedCommandView { launch_server: false, ..before })
    } else if text::has_prefix(opt, "-t"@) {
        if encode_utf8(arg).len() > 32 {
            Err(OptionError::KeyTooLong(encode_utf8(arg).len() as usize))
        } else {
            Ok(ParsedCommandView { connect_key: arg, ..before })
        }
    } else if text::has_prefix(opt, "-s"@) {
        match server_addr_named(arg) {
            Ok(addr) => Ok(ParsedCommandView { server_addr: addr, ..before }),
            Err(e) => Err(e),
        }
    } else if text::has_prefix(opt, "-e"@) {
        if address::is_ip(arg) {
            Ok(ParsedCommandView { forward_listen_ip: arg, ..before })
        } else {
            Err(OptionError::ListenIp)
        }
    } else if text::has_prefix(opt, "-b"@) {
        Ok(ParsedCommandView { spawned_server: true, ..before })
    } else {
        Ok(before)
    }
}

/// What the first `n` options say, one after the other.
pub open spec fn with_options(opts: Seq<Seq<char>>, n: nat, port: u16) -> Result<
    ParsedCommandView,
    OptionError,
>
    decreases n,
{
    if n == 0 {
        Ok(without_options(port))
    } else {
        match with_options(opts, (n - 1) as nat, port) {
            Err(e) => Err(e),
            Ok(before) => with_option(opts, n - 1, before),
        }
    }
}

proof fn options_end_early(opts: Seq<Seq<char>>, n: nat, m: nat, port: u16)
    requires
        n <= m,
        with_options(opts, n, port) is Err,
    ensures
        with_options(opts, m, port) == with_options(opts, n, port),
    decreases m,
{
    if n < m {
        options_end_early(opts, n, (m - 1) as nat, port);
    }
}

/// A word that can be cut after its second byte, as the reading of options does with
/// every longer word before the command.
pub open spec fn can_be_cut(word: Seq<char>) -> bool {
    encode_utf8(word).len() <= 2 || is_char_boundary(encode_utf8(word), 2)
}

/// Every word that the reading of options reaches can be cut. It ends at the first word at
/// which it fails or the user asks for something.
#[verifier::opaque]
pub open spec fn reached_can_be_cut(opts: Seq<Seq<char>>, port: u16) -> bool {
    forall|i: int|
        0 <= i < opts.len() && with_options(opts, i as nat, port) is Ok ==> can_be_cut(
            #[trigger] opts[i],
        )
}

/// A word that is reached and cannot be cut is one too many.
proof fn some_cannot_be_cut(opts: Seq<Seq<char>>, i: int, port: u16)
    requires
        0 <= i < opts.len(),
        with_options(opts, i as nat, port) is Ok,
        !can_be_cut(opts[i]),
    ensures
        !reached_can_be_cut(opts, port),
{
    reveal(reached_can_be_cut);
}

/// Where the reading of options ends after words that can be cut, all that are reached can.
proof fn first_can_be_cut(opts: Seq<Seq<char>>, n: nat, port: u16)
    requires
        n <= opts.len(),
        forall|j: int| 0 <= j < n ==> can_be_cut(#[trigger] opts[j]),
        n < opts.len() ==> with_options(opts, n, port) is Err,
    ensures
        reached_can_be_cut(opts, port),
{
    reveal(reached_can_be_cut);
    assert forall|j: int|
        0 <= j < opts.len() && with_options(opts, j as nat, port) is Ok implies can_be_cut(
        #[trigger] opts[j]) by {
        if j >= n {
            options_end_early(opts, n, j as nat, port);
        }
    }
}

/// Whether every word before the command that the reading of options reaches can be cut,
/// which [`parse_command_for_port`] asks for.
pub fn options_can_be_cut(args: &Vec<String>, port: u16) -> (r: bool)
    ensures
        r == reached_can_be_cut(options_in(text::texts(args@)), port),
{
    let input: Vec<String> = if args.len() == 0 {
        Vec::new()
    } else {
        copy_texts(slice_subrange(args, 1, args.len()))
    };
    assert(text::texts(input@) =~= input_of(text::texts(args@)));
    let opts = split_opt_and_cmd(input).options;
    let ghost words = text::texts(opts@);
    let mut parsed = no_options(port);
    let mut i: usize = 0;
    while i < opts.len()
        invariant
            i <= opts.len(),
            words == text::texts(opts@),
            with_options(words, i as nat, port) == Ok::<_, OptionError>(parsed@),
            words == options_in(text::texts(args@)),
            forall|j: int| 0 <= j < i ==> can_be_cut(#[trigger] words[j]),
        decreases opts.len() - i,
    {
        let word = opts[i].as_str();
        assert(words[i as int] == word@);
        if word.as_bytes().len() > 2 && !word.is_char_boundary(2) {
            proof {
                some_cannot_be_cut(words, i as int, port);
            }
            return false;
        }
        assert(can_be_cut(words[i as int]));
        match apply_option(&opts, i, parsed) {
            Ok(p) => {
                parsed = p;
            },
            Err(_) => {
                proof {
                    first_can_be_cut(words, (i + 1) as nat, port);
                }
                return true;
            },
        }
        i += 1;
    }
    proof {
        first_can_be_cut(words, words.len(), port);
    }
    true
}

/// The argument of the option at `i`.
fn find_argument(opts: &[String], i: usize) -> (r: String)
    requires
        i < opts.len(),
    ensures
        r@ == argument_of(text::texts(opts@), i as int),
{
    let n: usize = opts[i].as_str().unicode_len();
    if n > 2 {
        skip_chars(opts[i].as_str(), 2)
    } else if i < opts.len() - 1 {
        copy_text(opts[i + 1].as_str())
    } else {
        String::new()
    }
}

fn apply_option(opts: &[String], i: usize, before: ParsedCommand) -> (r: Result<
    ParsedCommand,
    OptionError,
>)
    requires
        i < opts.len(),
    ensures
        match r {
            Ok(p) => with_option(text::texts(opts@), i as int, before@) == Ok::<_, OptionError>(p@),
            Err(e) => with_option(text::texts(opts@), i as int, before@) == Err::<
                ParsedCommandView,
                _,
            >(e),
        },
{
    let opt = opts[i].as_str();
    let arg = find_argument(opts, i);
    assert(text::texts(opts@)[i as int] == opt@);
    let mut parsed = before;
    if starts_with(opt, "-h") {
        if same_text(arg.as_str(), "verbose") {
            Err(OptionError::VerboseUsage)
        } else {
            Err(OptionError::Usage)
        }
    } else if starts_with(opt, "-v") {
        Err(OptionError::Version)
    } else if starts_with(opt, "-l") {
        match parse_up_to(arg.as_str(), 6) {
            Some(level) => {
                parsed.log_level = level as usize;
                Ok(parsed)
            },
            None => Err(OptionError::LogLevel),
        }
    } else if starts_with(opt, "-m") {
        parsed.run_in_server = true;
        Ok(parsed)
    } else if starts_with(opt, "-p") {
        parsed.launch_server = false;
        Ok(parsed)
    } else if starts_with(opt, "-t") {
        let size: usize = arg.as_str().as_bytes().len();
        if size > 32 {
            Err(OptionError::KeyTooLong(size))
        } else {
            parsed.connect_key = arg;
            Ok(parsed)
        }
    } else if starts_with(opt, "-s") {
        match parse_server_listen_string(arg.as_str()) {
            Ok(addr) => {
                parsed.server_addr = addr;
                Ok(parsed)
            },
            Err(e) => Err(e),
        }
    } else if starts_with(opt, "-e") {
        if check_ip(arg.as_str()) {
            parsed.forward_listen_ip = arg;
            Ok(parsed)
        } else {
            Err(OptionError::ListenIp)
        }
    } else if starts_with(opt, "-b") {
        parsed.spawned_server = true;
        Ok(parsed)
    } else {
        Ok(parsed)
    }
}

/// What holds without any option.
fn no_options(port: u16) -> (r: ParsedCommand)
    ensures
        r@ == without_options(port),
{
    let parsed = ParsedCommand {
        run_in_server: false,
        launch_server: true,
        spawned_server: false,
        connect_key: String::new(),
        log_level: 3,
        server_addr: concat3(LOCAL_HOST, ":", decimal_text(port as u64).as_str()),
        forward_listen_ip: LOCAL_HOST.to_owned(),
        command: None,
        parameters: Vec::new(),
    };
    assert(parsed@.parameters =~= without_options(port).parameters);
    parsed
}

/// Reads the options. Every longer word that is reached has to be one that can be cut after
/// its second byte.
pub fn extract_global_params(opts: Vec<String>, port: u16) -> (r: Result<
    ParsedCommand,
    OptionError,
>)
    requires
        reached_can_be_cut(text::texts(opts@), port),
    ensures
        match r {
            Ok(p) => with_options(text::texts(opts@), opts@.len(), port) == Ok::<_, OptionError>(
                p@,
            ),
            Err(e) => with_options(text::texts(opts@), opts@.len(), port) == Err::<
                ParsedCommandView,
                _,
            >(e),
        },
{
    let mut parsed = no_options(port);
    let mut i: usize = 0;
    while i < opts.len()
        invariant
            i <= opts.len(),
            with_options(text::texts(opts@), i as nat, port) == Ok::<_, OptionError>(parsed@),
        decreases opts.len() - i,
    {
        match apply_option(&opts, i, parsed) {
            Ok(p) => {
                parsed = p;
            },
            Err(e) => {
                proof {
                    options_end_early(text::texts(opts@), (i + 1) as nat, opts@.len(), port);
                }
                return Err(e);
            },
        }
        i += 1;
    }
    Ok(parsed)
}

/// A word of ASCII characters can be cut.
proof fn ascii_can_be_cut(word: Seq<char>)
    requires
        is_ascii_chars(word),
    ensures
        can_be_cut(word),
{
    let b = encode_utf8(word);
    is_ascii_chars_encode_utf8(word);
    encode_utf8_valid_utf8(word);
    if b.len() > 2 {
        is_char_boundary_iff_not_is_continuation_byte(b, 2);
        assert(b[2] == word[2] as u8);
        assert(!is_continuation_byte(b[2]));
    }
}

/// A word that does not begin with a hyphen is no option: it changes nothing.
pub proof fn no_option(opts: Seq<Seq<char>>, i: int, before: ParsedCommandView)
    requires
        opts[i].len() > 0,
        opts[i][0] != '-',
    ensures
        with_option(opts, i, before) == Ok::<_, OptionError>(before),
{
    reveal_strlit("-h");
    reveal_strlit("-v");
    reveal_strlit("-l");
    reveal_strlit("-m");
    reveal_strlit("-p");
    reveal_strlit("-t");
    reveal_strlit("-s");
    reveal_strlit("-e");
    reveal_strlit("-b");
    let opt = opts[i];
    if opt.len() >= 2 {
        assert(opt.subrange(0, 2)[0] == opt[0]);
    }
}

/// The text of a number that can be read is ASCII, and does not begin with a hyphen.
proof fn number_is_ascii(s: Seq<char>, max: nat)
    requires
        text::parsed_up_to(s, max) is Some,
    ensures
        s.len() > 0,
        s[0] != '-',
        is_ascii_chars(s),
{
    assert forall|i: int| 0 <= i < s.len() implies '\0' <= #[trigger] s[i] <= '\u{7f}' by {
        if s[0] == '+' {
            if i > 0 {
                assert(text::is_digit(s.drop_first()[i - 1]));
            }
        } else {
            assert(text::is_digit(s[i]));
        }
    }
    if s[0] != '+' {
        assert(text::is_digit(s[0]));
    }
}

/// The level of the log is the argument of its option, from 0 to 6; any other argument is
/// refused.
pub proof fn level_is_set(arg: Seq<char>, port: u16)
    ensures
        reached_can_be_cut(seq!["-l"@, arg], port),
        with_options(seq!["-l"@, arg], 2, port) == match text::parsed_up_to(arg, 6) {
            Some(level) => Ok::<_, OptionError>(
                ParsedCommandView { log_level: level as usize, ..without_options(port) },
            ),
            None => Err(OptionError::LogLevel),
        },
{
    let opts = seq!["-l"@, arg];
    let opt = "-l"@;
    reveal_strlit("-h");
    reveal_strlit("-v");
    reveal_strlit("-l");
    ascii_can_be_cut(opt);
    assert(text::has_prefix(opt, "-l"@)) by {
        assert(opt.subrange(0, 2) =~= opt);
    }
    assert(opt.subrange(0, 2)[1] == 'l');
    assert(!text::has_prefix(opt, "-h"@) && !text::has_prefix(opt, "-v"@));
    let first = with_options(opts, 1, port);
    assert(with_options(opts, 0, port) == Ok::<_, OptionError>(without_options(port)));
    assert(first == with_option(opts, 0, without_options(port)));
    assert(argument_of(opts, 0) == arg);
    if text::parsed_up_to(arg, 6) is Some {
        number_is_ascii(arg, 6);
        ascii_can_be_cut(arg);
        no_option(opts, 1, first->Ok_0);
    }
    reveal(reached_can_be_cut);
    assert forall|i: int|
        0 <= i < opts.len() && with_options(opts, i as nat, port) is Ok implies can_be_cut(
        #[trigger] opts[i]) by {
        if i == 1 {
            assert(opts[1] == arg);
        } else {
            assert(opts[0] == opt);
        }
    }
}

/// The words after the name of the program.
pub open spec fn input_of(args: Seq<Seq<char>>) -> Seq<Seq<char>> {
    if args.len() == 0 {
        Seq::empty()
    } else {
        args.skip(1)
    }
}

/// The words between the name of the program and the command.
pub open spec fn options_in(args: Seq<Seq<char>>) -> Seq<Seq<char>> {
    input_of(args).take(options_end(input_of(args)))
}

/// `shell -` asks for a shell with bundle options, which is a command of its own.
pub open spec fn refined(command: Option<HdcCommand>, parameters: Seq<Seq<char>>) -> Option<
    HdcCommand,
> {
    if command == Some(HdcCommand::UnityExecute) && parameters.len() >= 2 && parameters[1]
        == "-"@ {
        Some(HdcCommand::UnityExecuteEx)
    } else {
        command
    }
}

/// What a command line says. `port` is that of the server where no option names one.
pub open spec fn command_line(args: Seq<Seq<char>>, port: u16) -> Result<
    ParsedCommandView,
    OptionError,
> {
    let input = input_of(args);
    let options = options_in(args);
    let parameters = input.skip(options_end(input));
    let command = match command_in(input) {
        Some((c, _)) => Some(c),
        None => None,
    };
    match with_options(options, options.len(), port) {
        Err(e) => Err(e),
        Ok(p) => Ok(
            ParsedCommandView { command: refined(command, parameters), parameters, ..p },
        ),
    }
}

/// Reads a command line, whose first word is the name of the program.
pub fn parse_command(args: Vec<String>) -> (r: Result<ParsedCommand, OptionError>)
    requires
        reached_can_be_cut(options_in(text::texts(args@)), SERVER_DEFAULT_PORT),
    ensures
        match r {
            Ok(p) => command_line(text::texts(args@), SERVER_DEFAULT_PORT) == Ok::<_, OptionError>(
                p@,
            ),
            Err(e) => command_line(text::texts(args@), SERVER_DEFAULT_PORT) == Err::<
                ParsedCommandView,
                _,
            >(e),
        },
{
    parse_command_for_port(args, SERVER_DEFAULT_PORT)
}

/// Reads a command line, whose first word is the name of the program. `port` is that of
/// the server where no option names one.
pub fn parse_command_for_port(args: Vec<String>, port: u16) -> (r: Result<
    ParsedCommand,
    OptionError,
>)
    requires
        reached_can_be_cut(options_in(text::texts(args@)), port),
    ensures
        match r {
            Ok(p) => command_line(text::texts(args@), port) == Ok::<_, OptionError>(p@),
            Err(e) => command_line(text::texts(args@), port) == Err::<ParsedCommandView, _>(e),
        },
{
    let input: Vec<String> = if args.len() == 0 {
        Vec::new()
    } else {
        copy_texts(slice_subrange(&args, 1, args.len()))
    };
    assert(text::texts(input@) =~= input_of(text::texts(args@)));
    let parsed = split_opt_and_cmd(input);
    assert(text::texts(parsed.options@) == options_in(text::texts(args@)));
    let params = parsed.parameters;
    let mut command = parsed.command;
    if params.len() >= 2 && same_text(params[1].as_str(), "-") {
        match command {
            Some(c) => {
                if c == HdcCommand::UnityExecute {
                    command = Some(HdcCommand::UnityExecuteEx);
                }
            },
            None => {},
        }
    }
    proof {
        if params.len() >= 2 {
            assert(text::texts(params@)[1] == params@[1]@);
        }
    }
    match extract_global_params(parsed.options, port) {
        Err(e) => Err(e),
        Ok(p) => {
            let mut out = p;
            out.command = command;
            out.parameters = params;
            Ok(out)
        },
    }
}

/// The commands that need no device.
pub open spec fn needs_no_device(cmd: HdcCommand) -> bool {
    cmd == HdcCommand::ClientVersion || cmd == HdcCommand::KernelHelp || cmd
        == HdcCommand::KernelTargetList || cmd == HdcCommand::KernelCheckServer || cmd
        == HdcCommand::KernelTargetConnect || cmd == HdcCommand::KernelServerKill
}

/// The key that a command goes to: none for a command that needs no device, the
/// given key, or `any`.
pub open spec fn key_for(key: Seq<char>, cmd: HdcCommand) -> Seq<char> {
    if needs_no_device(cmd) {
        Seq::empty()
    } else if key.len() == 0 {
        "any"@
    } else {
        key
    }
}

/// The key that a command goes to.
pub fn auto_connect_key(key: &str, cmd: HdcCommand) -> (r: String)
    ensures
        r@ == key_for(key@, cmd),
{
    match cmd {
        HdcCommand::ClientVersion
        | HdcCommand::KernelHelp
        | HdcCommand::KernelTargetList
        | HdcCommand::KernelCheckServer
        | HdcCommand::KernelTargetConnect
        | HdcCommand::KernelServerKill => String::new(),
        _ => {
            if key.is_empty() {
                "any".to_owned()
            } else {
                copy_text(key)
            }
        },
    }
}

/// An option with a letter and an argument stands at `i`: the argument follows the letter, or
/// is the next word.
pub open spec fn option_at(
    opts: Seq<Seq<char>>,
    i: int,
    letter: char,
    arg: Seq<char>,
) -> bool {
    ||| i + 1 < opts.len() && opts[i] == seq!['-', letter] && opts[i + 1] == arg
    ||| arg.len() > 0 && opts[i] == seq!['-', letter] + arg
}

proof fn letter_decides(opt: Seq<char>)
    requires
        opt.len() >= 2,
        opt[0] == '-',
    ensures
        text::has_prefix(opt, "-h"@) == (opt[1] == 'h'),
        text::has_prefix(opt, "-v"@) == (opt[1] == 'v'),
        text::has_prefix(opt, "-l"@) == (opt[1] == 'l'),
        text::has_prefix(opt, "-m"@) == (opt[1] == 'm'),
        text::has_prefix(opt, "-p"@) == (opt[1] == 'p'),
        text::has_prefix(opt, "-t"@) == (opt[1] == 't'),
        text::has_prefix(opt, "-s"@) == (opt[1] == 's'),
        text::has_prefix(opt, "-e"@) == (opt[1] == 'e'),
        text::has_prefix(opt, "-b"@) == (opt[1] == 'b'),
{
    reveal_strlit("-h");
    reveal_strlit("-v");
    reveal_strlit("-l");
    reveal_strlit("-m");
    reveal_strlit("-p");
    reveal_strlit("-t");
    reveal_strlit("-s");
    reveal_strlit("-e");
    reveal_strlit("-b");
    let head = opt.subrange(0, 2);
    assert(head[0] == opt[0] && head[1] == opt[1]);
    assert(head =~= "-h"@ <==> opt[1] == 'h');
    assert(head =~= "-v"@ <==> opt[1] == 'v');
    assert(head =~= "-l"@ <==> opt[1] == 'l');
    assert(head =~= "-m"@ <==> opt[1] == 'm');
    assert(head =~= "-p"@ <==> opt[1] == 'p');
    assert(head =~= "-t"@ <==> opt[1] == 't');
    assert(head =~= "-s"@ <==> opt[1] == 's');
    assert(head =~= "-e"@ <==> opt[1] == 'e');
    assert(head =~= "-b"@ <==> opt[1] == 'b');
}

/// An option with an argument sets what it is for, and nothing else: `-t` the device, of at
/// most 32 bytes, `-s` the address of the server, `-e` the address to listen at, `-l` the
/// level of the log. `-h` and `-v` ask for the help and the version.
pub proof fn options_with_argument(
    opts: Seq<Seq<char>>,
    i: int,
    letter: char,
    arg: Seq<char>,
    before: ParsedCommandView,
)
    requires
        0 <= i < opts.len(),
        option_at(opts, i, letter, arg),
    ensures
        letter == 't' ==> with_option(opts, i, before) == if encode_utf8(arg).len() <= 32 {
            Ok::<_, OptionError>(ParsedCommandView { connect_key: arg, ..before })
        } else {
            Err(OptionError::KeyTooLong(encode_utf8(arg).len() as usize))
        },
        letter == 's' && server_addr_named(arg) is Ok ==> with_option(opts, i, before) == Ok::<
            _,
            OptionError,
        >(ParsedCommandView { server_addr: server_addr_named(arg)->Ok_0, ..before }),
        letter == 's' && server_addr_named(arg) is Err ==> with_option(opts, i, before) == Err::<
            ParsedCommandView,
            _,
        >(server_addr_named(arg)->Err_0),
        letter == 'e' ==> with_option(opts, i, before) == if address::is_ip(arg) {
            Ok::<_, OptionError>(ParsedCommandView { forward_listen_ip: arg, ..before })
        } else {
            Err(OptionError::ListenIp)
        },
        letter == 'l' && text::parsed_up_to(arg, 6) is Some ==> with_option(opts, i, before)
            == Ok::<_, OptionError>(
            ParsedCommandView {
                log_level: text::parsed_up_to(arg, 6)->Some_0 as usize,
                ..before
            },
        ),
        letter == 'l' && text::parsed_up_to(arg, 6) is None ==> with_option(opts, i, before)
            == Err::<ParsedCommandView, _>(OptionError::LogLevel),
        letter == 'h' ==> with_option(opts, i, before) == Err::<ParsedCommandView, _>(
            if arg == "verbose"@ {
                OptionError::VerboseUsage
            } else {
                OptionError::Usage
            },
        ),
        letter == 'v' ==> with_option(opts, i, before) == Err::<ParsedCommandView, _>(
            OptionError::Version,
        ),
{
    let opt = opts[i];
    letter_decides(opt);
    if opt.len() > 2 {
        assert(opt.skip(2) =~= arg);
    }
}

/// An option without an argument sets what it is for, and nothing else: `-m` runs the server,
/// `-p` keeps the server from being started, `-b` is given by a client that starts the server.
/// `-v` and `-h` ask for the version and the help. Another letter changes nothing.
pub proof fn options_without_argument(
    opts: Seq<Seq<char>>,
    i: int,
    before: ParsedCommandView,
)
    requires
        0 <= i < opts.len(),
        opts[i].len() >= 2,
        opts[i][0] == '-',
    ensures
        opts[i][1] == 'm' ==> with_option(opts, i, before) == Ok::<_, OptionError>(
            ParsedCommandView { run_in_server: true, ..before },
        ),
        opts[i][1] == 'p' ==> with_option(opts, i, before) == Ok::<_, OptionError>(
            ParsedCommandView { launch_server: false, ..before },
        ),
        opts[i][1] == 'b' ==> with_option(opts, i, before) == Ok::<_, OptionError>(
            ParsedCommandView { spawned_server: true, ..before },
        ),
        opts[i][1] == 'v' ==> with_option(opts, i, before) == Err::<ParsedCommandView, _>(
            OptionError::Version,
        ),
        opts[i] == seq!['-', 'h'] && i + 1 == opts.len() ==> with_option(opts, i, before) == Err::<
            ParsedCommandView,
            _,
        >(OptionError::Usage),
        !seq!['h', 'v', 'l', 'm', 'p', 't', 's', 'e', 'b'].contains(opts[i][1]) ==> with_option(
            opts,
            i,
            before,
        ) == Ok::<_, OptionError>(before),
{
    let letters = seq!['h', 'v', 'l', 'm', 'p', 't', 's', 'e', 'b'];
    letter_decides(opts[i]);
    reveal_strlit("verbose");
    assert("verbose"@.len() > 0);
    assert(letters[0] == 'h' && letters[1] == 'v' && letters[2] == 'l' && letters[3] == 'm'
        && letters[4] == 'p' && letters[5] == 't' && letters[6] == 's' && letters[7] == 'e'
        && letters[8] == 'b');
}

/// The options are heard in their order: what all of them say is what the last one makes of
/// what those before it say, and where one fails, the command line fails as it does.
pub proof fn options_add_up(opts: Seq<Seq<char>>, n: nat, port: u16)
    ensures
        with_options(opts, 0, port) == Ok::<_, OptionError>(
            ParsedCommandView {
                run_in_server: false,
                launch_server: true,
                spawned_server: false,
                connect_key: Seq::empty(),
                log_level: 3,
                server_addr: "127.0.0.1:"@ + text::decimal(port as nat),
                forward_listen_ip: "127.0.0.1"@,
                command: None,
                parameters: Seq::empty(),
            },
        ),
        with_options(opts, n, port) is Ok ==> with_options(opts, n + 1, port) == with_option(
            opts,
            n as int,
            with_options(opts, n, port)->Ok_0,
        ),
        with_options(opts, n, port) is Err ==> with_options(opts, n + 1, port) == with_options(
            opts,
            n,
            port,
        ),
{
    reveal_strlit("127.0.0.1");
    reveal_strlit(":");
    reveal_strlit("127.0.0.1:");
    assert("127.0.0.1"@ + ":"@ =~= "127.0.0.1:"@);
    assert(with_options(opts, 0, port) == Ok::<_, OptionError>(without_options(port)));
}

/// A command line that begins with a command has that command, with all its words, and nothing
/// else is set. A shell whose first word is a hyphen has the command for bundle options.
pub proof fn command_without_options(name: Seq<char>, input: Seq<Seq<char>>, c: HdcCommand, port: u16)
    requires
        command_in(input) == Some((c, 0int)),
    ensures
        command_line(seq![name] + input, port) == Ok::<_, OptionError>(
            ParsedCommandView {
                run_in_server: false,
                launch_server: true,
                spawned_server: false,
                connect_key: Seq::empty(),
                log_level: 3,
                server_addr: "127.0.0.1:"@ + text::decimal(port as nat),
                forward_listen_ip: "127.0.0.1"@,
                command: Some(
                    if c == HdcCommand::UnityExecute && input.len() >= 2 && input[1] == "-"@ {
                        HdcCommand::UnityExecuteEx
                    } else {
                        c
                    },
                ),
                parameters: input,
            },
        ),
{
    let args = seq![name] + input;
    assert(input_of(args) =~= input);
    assert(options_in(args) =~= Seq::<Seq<char>>::empty());
    assert(input.skip(0) =~= input);
    options_add_up(options_in(args), 0, port);
}

/// A command that needs no device goes to none; any other goes to the device that was named,
/// or else to the one that is there.
pub proof fn commands_go_to_their_device(key: Seq<char>, c: HdcCommand)
    ensures
        c == HdcCommand::ClientVersion || c == HdcCommand::KernelHelp || c
            == HdcCommand::KernelTargetList || c == HdcCommand::KernelCheckServer || c
            == HdcCommand::KernelTargetConnect || c == HdcCommand::KernelServerKill ==> key_for(
            key,
            c,
        ) == Seq::<char>::empty(),
        !(c is ClientVersion || c is KernelHelp || c is KernelTargetList || c is KernelCheckServer
            || c is KernelTargetConnect || c is KernelServerKill) ==> key_for(key, c) == (
        if key == Seq::<char>::empty() {
            "any"@
        } else {
            key
        }),
{
    assert(key.len() == 0 <==> key =~= Seq::<char>::empty());
}

/// A port is a number from 1 to 65535 in at most five digits. Without a setting that is one the
/// server is at port 8710.
pub proof fn ports_are_read(n: nat, word: Seq<char>)
    requires
        !text::all_digits(word),
    ensures
        0 < n <= 65535 ==> port_named(text::decimal(n)) == Ok::<u16, OptionError>(n as u16),
        n == 0 || 65535 < n < 100000 ==> port_named(text::decimal(n)) == Err::<u16, OptionError>(
            OptionError::PortRange,
        ),
        n >= 100000 ==> port_named(text::decimal(n)) == Err::<u16, OptionError>(
            OptionError::PortNotDigits,
        ),
        port_named(word) == Err::<u16, OptionError>(OptionError::PortNotDigits),
        port_named(Seq::empty()) == Err::<u16, OptionError>(OptionError::PortNotDigits),
        default_port(None) == 8710,
        default_port(Some(word)) == 8710,
        0 < n <= 65535 ==> default_port(Some(text::decimal(n))) == n,
{
    text::decimal_denotes(n);
    text::decimal_length(n);
}

/// A port alone stands for that port of the computer itself, an address of four numbers with a
/// port for itself. A port that is none is told.
pub proof fn servers_are_named(port: nat, host: Seq<char>)
    requires
        address::is_ipv4(host),
    ensures
        0 < port <= 65535 ==> server_addr_named(text::decimal(port)) == Ok::<Seq<char>, OptionError>(
            "127.0.0.1:"@ + text::decimal(port),
        ),
        0 < port <= 65535 ==> server_addr_named(host + ":"@ + text::decimal(port)) == Ok::<
            Seq<char>,
            OptionError,
        >(host + ":"@ + text::decimal(port)),
        server_addr_named(host + ":"@ + text::decimal(0)) == Err::<Seq<char>, OptionError>(
            OptionError::PortRange,
        ),
{
    let s = text::decimal(port);
    let full = host + ":"@ + s;
    text::decimal_denotes(port);
    text::decimal_denotes(0);
    text::decimal_length(port);
    text::decimal_length(0);
    reveal_strlit("127.0.0.1");
    reveal_strlit(":");
    reveal_strlit("127.0.0.1:");
    reveal_strlit("::ffff:");
    assert("127.0.0.1"@ + ":"@ =~= "127.0.0.1:"@);
    text::last_of_is_last(s, ':');
    assert(text::last_of(s, ':') < 0) by {
        if text::last_of(s, ':') >= 0 {
            assert(text::is_digit(s[text::last_of(s, ':')]));
        }
    }
    assert(!address::is_socket_v6(s));
    let low = text::lowered(s);
    assert(!text::has_prefix(low, "::ffff:"@)) by {
        if text::has_prefix(low, "::ffff:"@) {
            assert("::ffff:"@[0] == ':');
            assert(low.subrange(0, 7)[0] == low[0]);
            assert(text::is_digit(s[0]));
        }
    }
    assert(listen_addr(s) == s);
    address::address_and_port_are_a_socket(host, port);
    address::address_and_port_are_a_socket(host, 0);
    address_has_no_brackets(host);
}

proof fn address_has_no_brackets(host: Seq<char>)
    requires
        address::is_ipv4(host),
    ensures
        text::trimmed_end_of(text::trimmed_start_of(host, '['), ']') == host,
{
    address::ends_of_address(host);
}

} // verus!
