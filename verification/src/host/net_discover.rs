//! The search for devices on the network.
//!
//! A daemon answers a broadcast with the banner, a hyphen and the port on which it
//! listens.

use crate::host::dispatch::contains_word;
use crate::protocol::config::{HANDSHAKE_MESSAGE, SERVER_DEFAULT_PORT};
use crate::text;
use crate::text::{concat2, concat3, copy_text, decimal_text, lossy_text, parse_up_to, strip_prefix, trim};
use vstd::prelude::*;

verus! {

/// An address in its dotted form, with the port of the search behind it.
pub open spec fn dotted(a: u8, b: u8, c: u8, d: u8) -> Seq<char> {
    text::decimal(a as nat) + "."@ + text::decimal(b as nat) + "."@ + text::decimal(c as nat) + "."@ + text::decimal(
        d as nat,
    ) + ":"@ + text::decimal(SERVER_DEFAULT_PORT as nat)
}

fn make_dotted(a: u8, b: u8, c: u8, d: u8) -> (r: String)
    ensures
        r@ == dotted(a, b, c, d),
{
    let mut s = decimal_text(a as u64);
    s.append(".");
    s.append(decimal_text(b as u64).as_str());
    s.append(".");
    s.append(decimal_text(c as u64).as_str());
    s.append(".");
    s.append(decimal_text(d as u64).as_str());
    s.append(":");
    s.append(decimal_text(SERVER_DEFAULT_PORT as u64).as_str());
    s
}

/// The broadcast addresses that are tried: that of every network, and those of three
/// networks that this host may be in.
pub open spec fn broadcasts(local: Option<(u8, u8, u8, u8)>) -> Seq<Seq<char>> {
    match local {
        None => seq![dotted(255, 255, 255, 255)],
        Some((a, b, c, _)) => seq![
            dotted(255, 255, 255, 255),
            dotted(a, b, c, 255),
            dotted(a, b, 255, 255),
            dotted(a, 255, 255, 255),
        ],
    }
}

/// The broadcast addresses that are tried. `local` is the address of this host.
pub fn broadcast_addresses(local: Option<(u8, u8, u8, u8)>) -> (r: Vec<String>)
    ensures
        text::texts(r@) == broadcasts(local),
{
    let mut out: Vec<String> = Vec::new();
    out.push(make_dotted(255, 255, 255, 255));
    match local {
        None => {},
        Some((a, b, c, _)) => {
            out.push(make_dotted(a, b, c, 255));
            out.push(make_dotted(a, b, 255, 255));
            out.push(make_dotted(a, 255, 255, 255));
        },
    }
    assert(text::texts(out@) =~= broadcasts(local));
    out
}

/// The addresses of the hosts beside this one.
pub open spec fn neighbours(local: Option<(u8, u8, u8, u8)>) -> Seq<Seq<char>> {
    match local {
        None => Seq::empty(),
        Some((a, b, c, _)) => Seq::new(254, |i: int| dotted(a, b, c, (i + 1) as u8)),
    }
}

/// The addresses of the hosts beside this one. `local` is the address of this host.
pub fn subnet_unicast_hosts(local: Option<(u8, u8, u8, u8)>) -> (r: Vec<String>)
    ensures
        text::texts(r@) == neighbours(local),
{
    let mut out: Vec<String> = Vec::new();
    match local {
        None => {},
        Some((a, b, c, _)) => {
            let mut i: u8 = 1;
            while i < 255
                invariant
                    1 <= i <= 255,
                    text::texts(out@) == Seq::new((i - 1) as nat, |j: int| dotted(a, b, c, (j + 1) as u8)),
                decreases 255 - i,
            {
                let ghost before = text::texts(out@);
                out.push(make_dotted(a, b, c, i));
                assert(text::texts(out@) =~= before.push(dotted(a, b, c, i)));
                assert(text::texts(out@) =~= Seq::new(i as nat, |j: int| dotted(a, b, c, (j + 1) as u8)));
                i = i + 1;
            }
        },
    }
    assert(text::texts(out@) =~= neighbours(local));
    out
}

/// The port that a daemon answers with.
pub open spec fn answered_port(text: Seq<char>) -> Option<nat> {
    let prefix = HANDSHAKE_MESSAGE@ + "-"@;
    if text::has_prefix(text, prefix) {
        text::parsed_up_to(text::trimmed(text.skip(prefix.len() as int)), 65535)
    } else {
        None
    }
}

/// The port that a daemon answers with.
pub fn parse_daemon_response(text: &str) -> (r: Option<u16>)
    ensures
        match r {
            Some(p) => answered_port(text@) == Some(p as nat),
            None => answered_port(text@) is None,
        },
{
    let prefix = concat2(HANDSHAKE_MESSAGE, "-");
    match strip_prefix(text, prefix.as_str()) {
        None => None,
        Some(rest) => match parse_up_to(trim(rest.as_str()).as_str(), 65535) {
            Some(n) => {
                proof {
                    parsed_is_bounded(text::trimmed(rest@), 65535);
                }
                Some(n as u16)
            },
            None => None,
        },
    }
}

/// What was read up to a bound is within it.
proof fn parsed_is_bounded(s: Seq<char>, max: nat)
    ensures
        text::parsed_up_to(s, max) is Some ==> text::parsed_up_to(s, max)->Some_0 <= max,
{
}

/// The address of a daemon; that of IPv6 stands in brackets.
pub open spec fn daemon_addr(ip: Seq<char>, v6: bool, port: nat) -> Seq<char> {
    (if v6 {
        "["@ + ip + "]"@
    } else {
        ip
    }) + ":"@ + text::decimal(port)
}

/// The address of a daemon.
pub fn format_daemon_addr(ip: &str, v6: bool, port: u16) -> (r: String)
    ensures
        r@ == daemon_addr(ip@, v6, port as nat),
{
    let host: String = if v6 {
        concat3("[", ip, "]")
    } else {
        copy_text(ip)
    };
    concat3(host.as_str(), ":", decimal_text(port as u64).as_str())
}

/// The addresses that were found, after an answer from a host: a daemon that was not
/// found before is one more.
pub open spec fn with_answer(found: Seq<Seq<char>>, text: Seq<char>, ip: Seq<char>, v6: bool) -> Seq<
    Seq<char>,
> {
    match answered_port(text) {
        None => found,
        Some(port) => if found.contains(daemon_addr(ip, v6, port)) {
            found
        } else {
            found.push(daemon_addr(ip, v6, port))
        },
    }
}

/// Notes an answer from a host.
pub fn note_answer(found: &mut Vec<String>, answer: &[u8], ip: &str, v6: bool)
    ensures
        text::texts(final(found)@) == with_answer(text::texts(old(found)@), text::utf8_lossy(answer@), ip@, v6),
{
    let text = lossy_text(answer);
    match parse_daemon_response(text.as_str()) {
        None => {},
        Some(port) => {
            let addr = format_daemon_addr(ip, v6, port);
            if !contains_word(found.as_slice(), addr.as_str()) {
                let ghost before = text::texts(found@);
                let ghost key = addr@;
                found.push(addr);
                assert(text::texts(found@) =~= before.push(key));
            }
        },
    }
}

/// No daemon is found twice.
pub proof fn found_once(found: Seq<Seq<char>>, text: Seq<char>, ip: Seq<char>, v6: bool)
    requires
        found.no_duplicates(),
    ensures
        with_answer(found, text, ip, v6).no_duplicates(),
{
    let after = with_answer(found, text, ip, v6);
    assert forall|i: int, j: int|
        0 <= i < after.len() && 0 <= j < after.len() && i != j implies after[i] != after[j] by {
        if i < found.len() {
            assert(found.contains(found[i]));
        }
        if j < found.len() {
            assert(found.contains(found[j]));
        }
    }
}

/// Daemons are looked for at port 8710: at the address of everybody, and for a computer with
/// an address also at the address of everybody in each network it may stand in. The other
/// hosts of its own network are those whose last number is neither 0 nor 255.
pub proof fn daemons_are_looked_for(a: u8, b: u8, c: u8, d: u8, last: u8)
    ensures
        ({
            let at = |x: u8, y: u8, z: u8, w: u8|
                text::decimal(x as nat) + "."@ + text::decimal(y as nat) + "."@ + text::decimal(
                    z as nat,
                ) + "."@ + text::decimal(w as nat) + ":"@ + text::decimal(8710);
            let local = Some((a, b, c, d));
            &&& broadcasts(None) == seq![at(255, 255, 255, 255)]
            &&& broadcasts(local).len() == 4
            &&& broadcasts(local).contains(at(255, 255, 255, 255))
            &&& broadcasts(local).contains(at(a, b, c, 255))
            &&& broadcasts(local).contains(at(a, b, 255, 255))
            &&& broadcasts(local).contains(at(a, 255, 255, 255))
            &&& broadcasts(local)[0] == at(255, 255, 255, 255)
            &&& neighbours(None).len() == 0
            &&& neighbours(local).len() == 254
            &&& 1 <= last <= 254 ==> neighbours(local)[last - 1] == at(a, b, c, last)
        }),
{
    let v = broadcasts(Some((a, b, c, d)));
    assert(v[0] == dotted(255, 255, 255, 255));
    assert(v[1] == dotted(a, b, c, 255));
    assert(v[2] == dotted(a, b, 255, 255));
    assert(v[3] == dotted(a, 255, 255, 255));
}

/// A daemon that answers with the greeting, a dash and its port is known by the address that
/// it answered from and that port, and it is known once. An answer that does not begin with
/// the greeting leaves what is known.
pub proof fn daemon_that_answers_is_found(
    found: Seq<Seq<char>>,
    ip: Seq<char>,
    port: u16,
    other: Seq<char>,
)
    requires
        !text::has_prefix(other, "OHOS HDC-"@),
    ensures
        ({
            let answer = "OHOS HDC-"@ + text::decimal(port as nat);
            let v4 = ip + ":"@ + text::decimal(port as nat);
            let v6 = "["@ + ip + "]:"@ + text::decimal(port as nat);
            &&& with_answer(found, answer, ip, false).contains(v4)
            &&& with_answer(found, answer, ip, true).contains(v6)
            &&& !found.contains(v4) ==> with_answer(found, answer, ip, false) == found.push(v4)
            &&& !found.contains(v6) ==> with_answer(found, answer, ip, true) == found.push(v6)
            &&& found.contains(v4) ==> with_answer(found, answer, ip, false) == found
            &&& with_answer(found, other, ip, false) == found
            &&& with_answer(found, other, ip, true) == found
        }),
{
    let s = text::decimal(port as nat);
    let answer = "OHOS HDC-"@ + s;
    let v4 = ip + ":"@ + s;
    let v6 = "["@ + ip + "]:"@ + s;
    reveal_strlit("OHOS HDC");
    reveal_strlit("-");
    reveal_strlit("OHOS HDC-");
    reveal_strlit("]");
    reveal_strlit(":");
    reveal_strlit("]:");
    assert(HANDSHAKE_MESSAGE@ + "-"@ =~= "OHOS HDC-"@);
    assert("]"@ + ":"@ =~= "]:"@);
    assert(answer.skip("OHOS HDC-"@.len() as int) =~= s);
    assert(answer.take("OHOS HDC-"@.len() as int) =~= "OHOS HDC-"@);
    text::decimal_denotes(port as nat);
    text::trimmed_number(port as nat);
    assert(answered_port(answer) == Some(port as nat));
    assert(daemon_addr(ip, false, port as nat) =~= v4);
    assert(daemon_addr(ip, true, port as nat) =~= v6);
    assert(found.push(v4)[found.len() as int] == v4);
    assert(found.push(v6)[found.len() as int] == v6);
}

} // verus!
