//! Internet addresses in their textual forms.
//!
//! An IPv4 address is four decimal numbers of at most three digits, without
//! leading zeros, between full stops. An IPv6 address is eight groups of at most
//! four hexadecimal digits between colons; one run of zero groups may be written as
//! two colons, and the last two groups may be written as an IPv4 address. A port
//! follows the address after a colon, and an IPv6 address with a port stands in
//! square brackets, where a percent sign and the number of a scope may follow it.

use crate::text;
use crate::text::{chars_of, concat3, decimal_text, find_first, find_last, parse_up_to, slice_text, split, starts_with};
use vstd::prelude::*;

verus! {

/// The number that one part of an IPv4 address denotes.
pub open spec fn octet(s: Seq<char>) -> Option<nat> {
    if 0 < s.len() <= 3 && text::all_digits(s) && (s.len() == 1 || s[0] != '0') && text::digits_value(s)
        <= 255 {
        Some(text::digits_value(s))
    } else {
        None
    }
}

/// `s` is an IPv4 address.
pub open spec fn is_ipv4(s: Seq<char>) -> bool {
    let parts = text::split_parts(s, '.');
    &&& parts.len() == 4
    &&& octet(parts[0]) is Some
    &&& octet(parts[1]) is Some
    &&& octet(parts[2]) is Some
    &&& octet(parts[3]) is Some
}

/// `c` is a hexadecimal digit.
pub open spec fn is_hex(c: char) -> bool {
    text::is_digit(c) || 'a' <= c && c <= 'f' || 'A' <= c && c <= 'F'
}

/// `s` is a group of an IPv6 address.
pub open spec fn is_group(s: Seq<char>) -> bool {
    0 < s.len() <= 4 && forall|i: int| 0 <= i < s.len() ==> is_hex(#[trigger] s[i])
}

/// Every one of the parts is a group.
pub open spec fn all_groups(parts: Seq<Seq<char>>) -> bool {
    forall|i: int| 0 <= i < parts.len() ==> is_group(#[trigger] parts[i])
}

/// How many groups `s` stands for, if it is a run of groups between colons. The
/// last part may be an IPv4 address if `v4` allows it; it stands for two groups.
pub open spec fn run_size(s: Seq<char>, v4: bool) -> Option<nat> {
    let parts = text::split_parts(s, ':');
    if s.len() == 0 {
        Some(0)
    } else if all_groups(parts) {
        Some(parts.len())
    } else if v4 && all_groups(parts.drop_last()) && is_ipv4(parts.last()) {
        Some(parts.len() + 1)
    } else {
        None
    }
}

/// The place of the first two colons in a row, or the length of `s`.
pub open spec fn double_colon(s: Seq<char>) -> int
    decreases s.len(),
{
    if s.len() < 2 {
        s.len() as int
    } else if s[0] == ':' && s[1] == ':' {
        0
    } else {
        1 + double_colon(s.drop_first())
    }
}

/// `s` is an IPv6 address.
pub open spec fn is_ipv6(s: Seq<char>) -> bool {
    let i = double_colon(s);
    if i >= s.len() {
        run_size(s, true) == Some(8nat)
    } else {
        match (run_size(s.take(i), false), run_size(s.skip(i + 2), true)) {
            (Some(before), Some(after)) => before + after <= 7,
            _ => false,
        }
    }
}

/// `s` is an IPv4 or an IPv6 address.
pub open spec fn is_ip(s: Seq<char>) -> bool {
    is_ipv4(s) || is_ipv6(s)
}

/// The number of a port, or of a scope: digits up to a bound.
pub open spec fn bounded_digits(s: Seq<char>, max: nat) -> Option<nat> {
    if s.len() > 0 && text::all_digits(s) && text::digits_value(s) <= max {
        Some(text::digits_value(s))
    } else {
        None
    }
}

/// What stands before the last colon.
pub open spec fn host_part(s: Seq<char>) -> Seq<char> {
    s.take(text::last_of(s, ':'))
}

/// What stands after the last colon.
pub open spec fn port_part(s: Seq<char>) -> Seq<char> {
    s.skip(text::last_of(s, ':') + 1)
}

/// `s` is an IPv4 address with a port.
pub open spec fn is_socket_v4(s: Seq<char>) -> bool {
    &&& text::last_of(s, ':') >= 0
    &&& is_ipv4(host_part(s))
    &&& bounded_digits(port_part(s), 65535) is Some
}

/// `s` is what may stand between the brackets: an IPv6 address, and a scope or not.
pub open spec fn is_scoped_ipv6(s: Seq<char>) -> bool {
    let i = text::first_of(s, '%');
    if i >= s.len() {
        is_ipv6(s)
    } else {
        is_ipv6(s.take(i)) && bounded_digits(s.skip(i + 1), 0xffff_ffff) is Some
    }
}

/// `s` is an IPv6 address in brackets with a port.
pub open spec fn is_socket_v6(s: Seq<char>) -> bool {
    &&& text::last_of(s, ':') >= 0
    &&& bounded_digits(port_part(s), 65535) is Some
    &&& ({
        let host = host_part(s);
        &&& host.len() >= 2
        &&& host[0] == '['
        &&& host.last() == ']'
        &&& is_scoped_ipv6(host.subrange(1, host.len() - 1))
    })
}

/// An IPv4 address with a port, written without leading zeros.
pub open spec fn plain_socket_v4(s: Seq<char>) -> Seq<char> {
    host_part(s) + ":"@ + text::decimal(text::digits_value(port_part(s)))
}

fn digits_up_to(s: &str, max: u64) -> (r: Option<u64>)
    ensures
        match r {
            Some(n) => bounded_digits(s@, max as nat) == Some(n as nat),
            None => bounded_digits(s@, max as nat) is None,
        },
{
    if starts_with(s, "+") {
        proof {
            reveal_strlit("+");
            assert(s@.subrange(0, 1)[0] == '+');
            assert(!text::is_digit(s@[0]));
        }
        return None;
    }
    proof {
        reveal_strlit("+");
        if s@.len() > 0 && s@[0] == '+' {
            assert(s@.subrange(0, 1) =~= "+"@);
        }
    }
    parse_up_to(s, max)
}

fn octet_of(s: &str) -> (r: Option<u64>)
    ensures
        match r {
            Some(n) => octet(s@) == Some(n as nat),
            None => octet(s@) is None,
        },
{
    let v = chars_of(s);
    if v.len() == 0 || v.len() > 3 || (v.len() > 1 && v[0] == '0') {
        None
    } else {
        digits_up_to(s, 255)
    }
}

/// Whether `s` is an IPv4 address.
pub fn check_ipv4(s: &str) -> (r: bool)
    ensures
        r == is_ipv4(s@),
{
    let parts = split(s, '.');
    proof {
        if parts.len() == 4 {
            assert(text::texts(parts@)[0] == parts@[0]@);
            assert(text::texts(parts@)[1] == parts@[1]@);
            assert(text::texts(parts@)[2] == parts@[2]@);
            assert(text::texts(parts@)[3] == parts@[3]@);
        }
    }
    parts.len() == 4 && octet_of(parts[0].as_str()).is_some() && octet_of(
        parts[1].as_str(),
    ).is_some() && octet_of(parts[2].as_str()).is_some() && octet_of(parts[3].as_str()).is_some()
}

fn check_group(s: &str) -> (r: bool)
    ensures
        r == is_group(s@),
{
    let v = chars_of(s);
    if v.len() == 0 || v.len() > 4 {
        return false;
    }
    let mut i: usize = 0;
    while i < v.len()
        invariant
            i <= v.len(),
            v@ == s@,
            forall|j: int| 0 <= j < i ==> is_hex(#[trigger] s@[j]),
        decreases v.len() - i,
    {
        let c: char = v[i];
        if !('0' <= c && c <= '9' || 'a' <= c && c <= 'f' || 'A' <= c && c <= 'F') {
            assert(!is_hex(s@[i as int]));
            return false;
        }
        i += 1;
    }
    true
}

fn size_of_run(s: &str, v4: bool) -> (r: Option<usize>)
    ensures
        match r {
            Some(n) => run_size(s@, v4) == Some(n as nat),
            None => run_size(s@, v4) is None || run_size(s@, v4)->Some_0 > 8,
        },
{
    let v = chars_of(s);
    if v.len() == 0 {
        return Some(0);
    }
    let parts = split(s, ':');
    let n: usize = parts.len();
    proof {
        text::split_parts_not_empty(s@, ':');
    }
    if n > 8 {
        return None;
    }
    let ghost views = text::texts(parts@);
    let mut i: usize = 0;
    while i < n - 1
        invariant
            n == parts.len(),
            0 <= i <= n - 1,
            views == text::texts(parts@),
            views == text::split_parts(s@, ':'),
            s@.len() > 0,
            forall|j: int| 0 <= j < i ==> is_group(#[trigger] views[j]),
        decreases n - i,
    {
        assert(views[i as int] == parts@[i as int]@);
        if !check_group(parts[i].as_str()) {
            proof {
                assert(!is_group(views[i as int]));
                assert(views.drop_last()[i as int] == views[i as int]);
            }
            return None;
        }
        i += 1;
    }
    assert(views[n - 1] == parts@[n - 1]@);
    assert(all_groups(views.drop_last()));
    if check_group(parts[n - 1].as_str()) {
        Some(n)
    } else if v4 && check_ipv4(parts[n - 1].as_str()) {
        Some(n + 1)
    } else {
        None
    }
}

proof fn double_colon_bounds(s: Seq<char>)
    ensures
        0 <= double_colon(s) <= s.len(),
        double_colon(s) < s.len() ==> double_colon(s) + 2 <= s.len(),
        double_colon(s) < s.len() ==> s[double_colon(s)] == ':' && s[double_colon(s) + 1] == ':',
        forall|i: int|
            0 <= i < double_colon(s) && i + 1 < s.len() ==> !(#[trigger] s[i] == ':' && s[i + 1]
                == ':'),
    decreases s.len(),
{
    if s.len() >= 2 && !(s[0] == ':' && s[1] == ':') {
        let t = s.drop_first();
        double_colon_bounds(t);
        let d = double_colon(t);
        if d < t.len() {
            assert(s[d + 1] == t[d] && s[d + 2] == t[d + 1]);
        }
        assert forall|i: int| 0 <= i < double_colon(s) && i + 1 < s.len() implies !(
        #[trigger] s[i] == ':' && s[i + 1] == ':') by {
            if i > 0 {
                assert(s[i] == t[i - 1] && s[i + 1] == t[i]);
            }
        }
    }
}

fn find_double_colon(v: &[char]) -> (r: usize)
    ensures
        r == double_colon(v@),
{
    proof {
        double_colon_bounds(v@);
    }
    let mut i: usize = 0;
    while v.len() > 1 && i < v.len() - 1
        invariant
            i <= v.len(),
            0 <= double_colon(v@) <= v.len(),
            double_colon(v@) < v.len() ==> double_colon(v@) + 2 <= v.len(),
            double_colon(v@) < v.len() ==> v@[double_colon(v@)] == ':' && v@[double_colon(v@) + 1]
                == ':',
            forall|j: int|
                0 <= j < double_colon(v@) && j + 1 < v.len() ==> !(#[trigger] v@[j] == ':' && v@[j
                    + 1] == ':'),
            forall|j: int|
                0 <= j < i && j + 1 < v.len() ==> !(#[trigger] v@[j] == ':' && v@[j + 1] == ':'),
        decreases v.len() - i,
    {
        if v[i] == ':' && v[i + 1] == ':' {
            return i;
        }
        i += 1;
    }
    v.len()
}

/// Whether `s` is an IPv6 address.
pub fn check_ipv6(s: &str) -> (r: bool)
    ensures
        r == is_ipv6(s@),
{
    let v = chars_of(s);
    let i: usize = find_double_colon(&v);
    proof {
        double_colon_bounds(v@);
    }
    if i >= v.len() {
        match size_of_run(s, true) {
            Some(n) => n == 8,
            None => false,
        }
    } else {
        let before = slice_text(&v, 0, i);
        let after = slice_text(&v, i + 2, v.len());
        assert(v@.subrange(0, i as int) =~= s@.take(i as int));
        assert(v@.subrange(i + 2, v@.len() as int) =~= s@.skip(i + 2));
        match (size_of_run(before.as_str(), false), size_of_run(after.as_str(), true)) {
            (Some(a), Some(b)) => a <= 7 && b <= 7 - a,
            _ => false,
        }
    }
}

/// Whether `s` is an IPv4 or an IPv6 address.
pub fn check_ip(s: &str) -> (r: bool)
    ensures
        r == is_ip(s@),
{
    check_ipv4(s) || check_ipv6(s)
}

/// The host before the last colon and the port after it, if there is a colon.
pub fn split_port(s: &str) -> (r: Option<(String, String)>)
    ensures
        r is Some <==> text::last_of(s@, ':') >= 0,
        r matches Some((host, port)) ==> host@ == host_part(s@) && port@ == port_part(s@),
{
    let v = chars_of(s);
    proof {
        text::last_of_is_last(v@, ':');
    }
    match find_last(&v, ':') {
        None => None,
        Some(i) => {
            assert(v@.subrange(0, i as int) =~= host_part(s@));
            assert(v@.subrange(i + 1, v@.len() as int) =~= port_part(s@));
            Some((slice_text(&v, 0, i), slice_text(&v, i + 1, v.len())))
        },
    }
}

/// The plain form of an IPv4 address with a port, if `s` is one.
pub fn parse_socket_v4(s: &str) -> (r: Option<String>)
    ensures
        r is Some <==> is_socket_v4(s@),
        r matches Some(t) ==> t@ == plain_socket_v4(s@),
{
    match split_port(s) {
        None => None,
        Some((host, port)) => {
            if check_ipv4(host.as_str()) {
                match digits_up_to(port.as_str(), 65535) {
                    Some(n) => Some(
                        concat3(host.as_str(), ":", decimal_text(n).as_str()),
                    ),
                    None => None,
                }
            } else {
                None
            }
        },
    }
}

fn check_scoped_ipv6(s: &str) -> (r: bool)
    ensures
        r == is_scoped_ipv6(s@),
{
    let v = chars_of(s);
    let i: usize = find_first(&v, '%');
    proof {
        text::first_of_is_first(v@, '%');
    }
    if i >= v.len() {
        check_ipv6(s)
    } else {
        assert(v@.subrange(0, i as int) =~= s@.take(i as int));
        assert(v@.subrange(i + 1, v@.len() as int) =~= s@.skip(i + 1));
        check_ipv6(slice_text(&v, 0, i).as_str()) && digits_up_to(
            slice_text(&v, i + 1, v.len()).as_str(),
            0xffff_ffff,
        ).is_some()
    }
}

/// Whether `s` is an IPv6 address in brackets with a port.
pub fn check_socket_v6(s: &str) -> (r: bool)
    ensures
        r == is_socket_v6(s@),
{
    match split_port(s) {
        None => false,
        Some((host, port)) => {
            if digits_up_to(port.as_str(), 65535).is_none() {
                return false;
            }
            let v = chars_of(host.as_str());
            let n: usize = v.len();
            if n >= 2 && v[0] == '[' && v[n - 1] == ']' {
                check_scoped_ipv6(slice_text(&v, 1, n - 1).as_str())
            } else {
                false
            }
        },
    }
}

/// Whether `s` is an address with a port.
pub fn check_socket(s: &str) -> (r: bool)
    ensures
        r == (is_socket_v4(s@) || is_socket_v6(s@)),
{
    parse_socket_v4(s).is_some() || check_socket_v6(s)
}

/// Where a text without a colon follows a colon, it is the port, and the host stands before.
pub proof fn parts_of_joined(host: Seq<char>, port: Seq<char>)
    requires
        !port.contains(':'),
    ensures
        text::last_of(host.push(':') + port, ':') == host.len(),
        host_part(host.push(':') + port) == host,
        port_part(host.push(':') + port) == port,
    decreases port.len(),
{
    let s = host.push(':') + port;
    if port.len() == 0 {
        assert(s =~= host.push(':'));
    } else {
        let rest = port.drop_last();
        assert(port.contains(port.last()));
        assert(!rest.contains(':')) by {
            if rest.contains(':') {
                let k = choose|k: int| 0 <= k < rest.len() && rest[k] == ':';
                assert(port[k] == ':');
            }
        }
        parts_of_joined(host, rest);
        assert(s.drop_last() =~= host.push(':') + rest);
        assert(s.last() == port.last());
    }
    assert(host_part(s) =~= host);
    assert(port_part(s) =~= port);
}

/// The plain form of an IPv4 address with a port is such an address.
pub proof fn plain_is_socket_v4(s: Seq<char>)
    requires
        is_socket_v4(s),
    ensures
        is_socket_v4(plain_socket_v4(s)),
{
    let n = text::digits_value(port_part(s));
    let port = text::decimal(n);
    text::decimal_denotes(n);
    assert(!port.contains(':')) by {
        if port.contains(':') {
            let k = choose|k: int| 0 <= k < port.len() && port[k] == ':';
            assert(text::is_digit(port[k]));
        }
    }
    parts_of_joined(host_part(s), port);
    reveal_strlit(":");
    assert(plain_socket_v4(s) =~= host_part(s).push(':') + port);
}

/// The last part of a text that does not end in the separator ends as the text does.
proof fn last_part_ends(s: Seq<char>, c: char)
    requires
        s.len() > 0,
        s.last() != c,
    ensures
        text::split_parts(s, c).len() > 0,
        text::split_parts(s, c).last().len() > 0,
        text::split_parts(s, c).last().last() == s.last(),
{
    text::split_parts_not_empty(s, c);
    text::split_parts_not_empty(s.drop_last(), c);
}

/// What ends in a bracket is no run of groups.
proof fn no_run_in_brackets(s: Seq<char>)
    requires
        s.len() > 0,
        s.last() == ']',
    ensures
        run_size(s, true) is None,
{
    let parts = text::split_parts(s, ':');
    last_part_ends(s, ':');
    let last = parts.last();
    assert(!is_group(last)) by {
        assert(!is_hex(last[last.len() - 1]));
    }
    assert(last == parts[parts.len() - 1]);
    last_part_ends(last, '.');
    let octets = text::split_parts(last, '.');
    if octets.len() == 4 {
        let end = octets[3];
        assert(end == octets.last());
        assert(!text::is_digit(end[end.len() - 1]));
    }
}

/// What stands in brackets is no IPv6 address with them.
pub proof fn no_ipv6_in_brackets(s: Seq<char>)
    requires
        s.len() > 0,
        s.last() == ']',
    ensures
        !is_ipv6(s),
{
    let i = double_colon(s);
    double_colon_bounds(s);
    if i >= s.len() {
        no_run_in_brackets(s);
    } else {
        assert(i + 2 < s.len());
        assert(s.skip(i + 2).last() == s.last());
        no_run_in_brackets(s.skip(i + 2));
    }
}

/// Four numbers up to 255 with full stops between them are an address. With a greater number
/// among them they are none.
pub proof fn dotted_numbers_are_addresses(a: nat, b: nat, c: nat, d: nat)
    ensures
        is_ipv4(
            text::decimal(a) + "."@ + text::decimal(b) + "."@ + text::decimal(c) + "."@
                + text::decimal(d),
        ) <==> a <= 255 && b <= 255 && c <= 255 && d <= 255,
{
    let v = seq![text::decimal(a), text::decimal(b), text::decimal(c), text::decimal(d)];
    number_is_octet(a);
    number_is_octet(b);
    number_is_octet(c);
    number_is_octet(d);
    assert forall|i: int| 0 <= i < v.len() implies !(#[trigger] v[i]).contains('.') by {
        assert(v[i] == v[0] || v[i] == v[1] || v[i] == v[2] || v[i] == v[3]);
    }
    text::split_undoes_join(v, '.');
    reveal_strlit(".");
    assert("."@ =~= seq!['.']);
    reveal_with_fuel(text::joined, 5);
    assert(v.drop_last() =~= seq![v[0], v[1], v[2]]);
    assert(v.drop_last().drop_last() =~= seq![v[0], v[1]]);
    assert(v.drop_last().drop_last().drop_last() =~= seq![v[0]]);
    assert(text::joined(v, seq!['.']) =~= v[0] + "."@ + v[1] + "."@ + v[2] + "."@ + v[3]);
}

proof fn number_is_octet(n: nat)
    ensures
        octet(text::decimal(n)) is Some <==> n <= 255,
        !text::decimal(n).contains('.'),
        !text::decimal(n).contains(':'),
{
    text::decimal_denotes(n);
    text::decimal_length(n);
    let s = text::decimal(n);
    assert forall|c: char| s.contains(c) implies text::is_digit(c) by {
        let i = choose|i: int| 0 <= i < s.len() && s[i] == c;
        assert(text::is_digit(s[i]));
    }
}

/// An address of four numbers, a colon and a port name a socket, and nothing of them changes.
pub proof fn address_and_port_are_a_socket(host: Seq<char>, port: nat)
    requires
        is_ipv4(host),
    ensures
        is_socket_v4(host + ":"@ + text::decimal(port)) <==> port <= 65535,
        plain_socket_v4(host + ":"@ + text::decimal(port)) == host + ":"@ + text::decimal(port),
        host_part(host + ":"@ + text::decimal(port)) == host,
        port_part(host + ":"@ + text::decimal(port)) == text::decimal(port),
{
    let s = text::decimal(port);
    number_is_octet(port);
    text::decimal_denotes(port);
    reveal_strlit(":");
    assert(":"@ =~= seq![':']);
    text::last_before(host, s, ':');
}

/// An address of four numbers begins and ends with a digit.
pub proof fn ends_of_address(s: Seq<char>)
    requires
        is_ipv4(s),
    ensures
        s.len() > 0,
        text::is_digit(s[0]),
        text::is_digit(s.last()),
{
    let parts = text::split_parts(s, '.');
    text::first_and_last_part(s, '.');
    assert(text::is_digit(parts[0][0]));
    assert(text::is_digit(parts[3][parts[3].len() - 1]));
}

/// An IPv6 address in brackets, a colon and a port name a socket; without the brackets they
/// name none.
pub proof fn bracketed_address_and_port_are_a_socket(host: Seq<char>, port: nat)
    requires
        !host.contains('%'),
    ensures
        is_socket_v6("["@ + host + "]"@ + ":"@ + text::decimal(port)) <==> is_ipv6(host) && port
            <= 65535,
        host.len() > 0 && host[0] != '[' ==> !is_socket_v6(host + ":"@ + text::decimal(port)),
{
    let s = text::decimal(port);
    let inner = "["@ + host + "]"@;
    number_is_octet(port);
    text::decimal_denotes(port);
    reveal_strlit("[");
    reveal_strlit("]");
    reveal_strlit(":");
    assert(":"@ =~= seq![':']);
    text::last_before(inner, s, ':');
    text::last_before(host, s, ':');
    assert(inner.subrange(1, inner.len() - 1) =~= host);
    assert(inner[0] == '[' && inner.last() == ']');
    text::first_of_is_first(host, '%');
}

} // verus!
