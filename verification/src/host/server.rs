//! The process of the server: how it is started, and how it is found.

use crate::address;
use crate::host::parser;
use crate::host::parser::{OptionError, ParsedCommandView};
use crate::text;
use crate::text::{chars_of, contains_text, copy_text, decimal_text, parse_up_to, same_text, slice_text, split, split_words};
use vstd::prelude::*;

verus! {

/// The arguments with which a server is started in the background.
pub open spec fn fork_args(addr: Seq<char>, log_level: nat, forward_listen_ip: Seq<char>) -> Seq<
    Seq<char>,
> {
    let base = seq!["-b"@, "-m"@, "-l"@, text::decimal(log_level), "-s"@, addr];
    if forward_listen_ip != "127.0.0.1"@ && forward_listen_ip.len() > 0 {
        base + seq!["-e"@, forward_listen_ip]
    } else {
        base
    }
}

/// The arguments with which a server is started in the background.
pub fn make_fork_args(addr: &str, log_level: usize, forward_listen_ip: &str) -> (r: Vec<String>)
    ensures
        text::texts(r@) == fork_args(addr@, log_level as nat, forward_listen_ip@),
{
    let mut args: Vec<String> = Vec::new();
    args.push("-b".to_owned());
    args.push("-m".to_owned());
    args.push("-l".to_owned());
    args.push(decimal_text(log_level as u64));
    args.push("-s".to_owned());
    args.push(copy_text(addr));
    if !same_text(forward_listen_ip, "127.0.0.1") && !forward_listen_ip.is_empty() {
        args.push("-e".to_owned());
        args.push(copy_text(forward_listen_ip));
    }
    assert(text::texts(args@) =~= fork_args(addr@, log_level as nat, forward_listen_ip@));
    args
}

/// The number of the process that a line of the list of processes describes, if it is
/// one of ours.
pub open spec fn pid_in(line: Seq<char>) -> Option<nat> {
    if text::has_part(line, "hdc.exe"@) || text::has_part(line, "hdc "@) {
        if text::words(line).len() >= 2 {
            text::parsed_up_to(text::words(line)[1], 0xffff_ffff)
        } else {
            None
        }
    } else {
        None
    }
}

/// The number of the process that a line of the list of processes describes, if it is
/// one of ours.
pub fn find_pid(line: &str) -> (r: Option<u32>)
    ensures
        match r {
            Some(n) => pid_in(line@) == Some(n as nat),
            None => pid_in(line@) is None,
        },
{
    if contains_text(line, "hdc.exe") || contains_text(line, "hdc ") {
        let parts = split_words(line);
        if parts.len() >= 2 {
            assert(text::texts(parts@)[1] == parts@[1]@);
            match parse_up_to(parts[1].as_str(), 0xffff_ffff) {
                Some(n) => Some(n as u32),
                None => None,
            }
        } else {
            None
        }
    } else {
        None
    }
}

/// A line without a carriage return at its end.
pub open spec fn without_return(l: Seq<char>) -> Seq<char> {
    if l.len() > 0 && l.last() == '\r' {
        l.drop_last()
    } else {
        l
    }
}

/// The lines of a text, without what ends them. What follows the last line feed is a line
/// unless it is empty, and keeps a carriage return.
pub open spec fn lines(s: Seq<char>) -> Seq<Seq<char>> {
    let parts = text::split_parts(s, '\n');
    let ended = parts.drop_last().map_values(|l: Seq<char>| without_return(l));
    if parts.last().len() == 0 {
        ended
    } else {
        ended.push(parts.last())
    }
}

/// The numbers of our processes, of the first `n` lines of the list of processes.
pub open spec fn pids_among(v: Seq<Seq<char>>, n: nat) -> Seq<nat>
    decreases n,
{
    if n == 0 {
        Seq::empty()
    } else {
        let before = pids_among(v, (n - 1) as nat);
        match pid_in(v[n - 1]) {
            Some(p) => before.push(p),
            None => before,
        }
    }
}

/// Numbers as they are.
pub open spec fn numbers(v: Seq<u32>) -> Seq<nat> {
    v.map_values(|n: u32| n as nat)
}

/// The numbers of our processes, out of the list of processes.
pub fn find_pids(listing: &str) -> (r: Vec<u32>)
    ensures
        numbers(r@) == pids_among(lines(listing@), lines(listing@).len()),
{
    let parts = split(listing, '\n');
    let ghost views = text::texts(parts@);
    let ghost all = lines(listing@);
    proof {
        text::split_parts_not_empty(listing@, '\n');
        assert(views[views.len() - 1] == parts@[parts@.len() - 1]@);
    }
    let last: usize = parts.len() - 1;
    let ended: bool = parts[last].as_str().is_empty();
    let n: usize = if ended {
        last
    } else {
        parts.len()
    };
    let mut out: Vec<u32> = Vec::new();
    let mut i: usize = 0;
    assert(numbers(out@) =~= Seq::<nat>::empty());
    assert(all.len() == n);
    while i < n
        invariant
            i <= n,
            n <= parts@.len(),
            last == parts@.len() - 1,
            views == text::texts(parts@),
            views == text::split_parts(listing@, '\n'),
            all == lines(listing@),
            all.len() == n,
            ended == (views.last().len() == 0),
            n == (if ended {
                last as int
            } else {
                parts@.len() as int
            }),
            numbers(out@) == pids_among(all, i as nat),
        decreases n - i,
    {
        let ghost m = (i + 1) as nat;
        assert((m - 1) as nat == i as nat);
        assert(views[i as int] == parts@[i as int]@);
        let line: String = if i == last {
            copy_text(parts[i].as_str())
        } else {
            strip_return(parts[i].as_str())
        };
        assert(line@ == all[i as int]);
        match find_pid(line.as_str()) {
            Some(p) => {
                let ghost before = numbers(out@);
                out.push(p);
                assert(numbers(out@) =~= before.push(p as nat));
            },
            None => {},
        }
        i = i + 1;
    }
    out
}

fn strip_return(l: &str) -> (r: String)
    ensures
        r@ == without_return(l@),
{
    let v = chars_of(l);
    let n: usize = v.len();
    if n > 0 && v[n - 1] == '\r' {
        let r = slice_text(&v, 0, n - 1);
        assert(r@ =~= l@.drop_last());
        r
    } else {
        copy_text(l)
    }
}

/// A server that is started in the background reads in its arguments what it is started for: to
/// run as a server that a client has started, with the level of the log, the address and the
/// address to listen at of the client.
pub proof fn started_server_understands(
    addr: Seq<char>,
    log_level: nat,
    forward_listen_ip: Seq<char>,
    port: u16,
)
    requires
        log_level <= 6,
        addr.len() > 0 && addr[0] != '-',
        parser::server_addr_named(addr) == Ok::<_, OptionError>(addr),
        address::is_ip(forward_listen_ip) || forward_listen_ip == "127.0.0.1"@,
        forward_listen_ip.len() > 0 && forward_listen_ip[0] != '-',
    ensures
        ({
            let args = fork_args(addr, log_level, forward_listen_ip);
            parser::with_options(args, args.len(), port) == Ok::<_, OptionError>(
                ParsedCommandView {
                    run_in_server: true,
                    launch_server: true,
                    spawned_server: true,
                    connect_key: Seq::empty(),
                    log_level: log_level as usize,
                    server_addr: addr,
                    forward_listen_ip,
                    command: None,
                    parameters: Seq::empty(),
                },
            )
        }),
{
    let args = fork_args(addr, log_level, forward_listen_ip);
    let level = text::decimal(log_level);
    reveal_strlit("-b");
    reveal_strlit("-m");
    reveal_strlit("-l");
    reveal_strlit("-s");
    reveal_strlit("-e");
    assert("-b"@ =~= seq!['-', 'b']);
    assert("-m"@ =~= seq!['-', 'm']);
    assert("-l"@ =~= seq!['-', 'l']);
    assert("-s"@ =~= seq!['-', 's']);
    assert("-e"@ =~= seq!['-', 'e']);
    text::decimal_denotes(log_level);
    assert(text::is_digit(level[0]));
    let v0 = parser::with_options(args, 0, port)->Ok_0;
    parser::options_add_up(args, 0, port);
    parser::options_without_argument(args, 0, v0);
    let v1 = ParsedCommandView { spawned_server: true, ..v0 };
    parser::options_add_up(args, 1, port);
    parser::options_without_argument(args, 1, v1);
    let v2 = ParsedCommandView { run_in_server: true, ..v1 };
    parser::options_add_up(args, 2, port);
    parser::options_with_argument(args, 2, 'l', level, v2);
    assert(text::parsed_up_to(level, 6) == Some(log_level));
    let v3 = ParsedCommandView { log_level: log_level as usize, ..v2 };
    parser::options_add_up(args, 3, port);
    parser::no_option(args, 3, v3);
    parser::options_add_up(args, 4, port);
    parser::options_with_argument(args, 4, 's', addr, v3);
    let v5 = ParsedCommandView { server_addr: addr, ..v3 };
    parser::options_add_up(args, 5, port);
    parser::no_option(args, 5, v5);
    if forward_listen_ip != "127.0.0.1"@ {
        parser::options_add_up(args, 6, port);
        parser::options_with_argument(args, 6, 'e', forward_listen_ip, v5);
        let v7 = ParsedCommandView { forward_listen_ip, ..v5 };
        parser::options_add_up(args, 7, port);
        parser::no_option(args, 7, v7);
    }
}

/// A line of the list of processes that names the program tells the number of the process in its
/// second word; no other line tells one.
pub proof fn processes_are_found(line: Seq<char>, n: nat)
    requires
        n <= 0xffff_ffff,
    ensures
        (text::has_part(line, "hdc.exe"@) || text::has_part(line, "hdc "@)) && text::words(
            line,
        ).len() >= 2 && text::words(line)[1] == text::decimal(n) ==> pid_in(line) == Some(n),
        !text::has_part(line, "hdc.exe"@) && !text::has_part(line, "hdc "@) ==> pid_in(line)
            is None,
{
    text::decimal_denotes(n);
}

} // verus!
