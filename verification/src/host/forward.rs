//! Forwarding of ports: from the host to a device, and from a device to the host.

use crate::host::channel;
use crate::host::dispatch::text_bytes;
use crate::protocol::bytes;
use crate::protocol::bytes::{push_be32, push_bytes, push_zeros, read_be32};
use crate::protocol::command::HdcCommand;
use crate::protocol::config::{TaskMessage, TaskMessageView};
use crate::protocol::labeled;
use crate::text;
use crate::text::{chars_of, concat2, concat3, copy_text, find_first, same_text, slice_text, starts_with};
use vstd::prelude::*;
use vstd::utf8::*;

verus! {

// ---------------------------------------------------------------------------
// Where forwarding listens
// ---------------------------------------------------------------------------

/// The address on which forwarded ports are listened on, once it has been set.
pub struct ListenIp {
    ip: Option<String>,
}

impl View for ListenIp {
    type V = Option<Seq<char>>;

    closed spec fn view(&self) -> Option<Seq<char>> {
        match self.ip {
            Some(s) => Some(s@),
            None => None,
        }
    }
}

impl ListenIp {
    /// No address has been set.
    pub fn new() -> (r: Self)
        ensures
            r@ is None,
    {
        ListenIp { ip: None }
    }
}

/// The address once one was set: the first that was set stays.
pub open spec fn with_listen_ip(cell: Option<Seq<char>>, ip: Seq<char>) -> Option<Seq<char>> {
    match cell {
        Some(set) => Some(set),
        None => Some(ip),
    }
}

/// Sets the address on which forwarded ports are listened on. Only the first call has
/// an effect.
pub fn set_forward_listen_ip(cell: &mut ListenIp, ip: String)
    ensures
        final(cell)@ == with_listen_ip(old(cell)@, ip@),
{
    if cell.ip.is_none() {
        cell.ip = Some(ip);
    }
}

/// The address on which forwarded ports are listened on.
pub open spec fn listen_ip(cell: Option<Seq<char>>) -> Seq<char> {
    match cell {
        Some(ip) => ip,
        None => "127.0.0.1"@,
    }
}

/// The address on which forwarded ports are listened on.
pub fn get_forward_listen_ip(cell: &ListenIp) -> (r: String)
    ensures
        r@ == listen_ip(cell@),
{
    match &cell.ip {
        Some(ip) => copy_text(ip.as_str()),
        None => "127.0.0.1".to_owned(),
    }
}

// ---------------------------------------------------------------------------
// Nodes
// ---------------------------------------------------------------------------

/// Why a text is not the number of a port.
#[derive(Debug, Clone, Copy, PartialEq, Eq, Structural)]
pub enum PortFault {
    /// It is empty.
    Empty,
    /// It holds something else than digits.
    BadDigit,
    /// The number is too large.
    TooLarge,
}

impl PortFault {
    /// The words that report the fault.
    pub open spec fn text(self) -> Seq<char> {
        match self {
            PortFault::Empty => "cannot parse integer from empty string"@,
            PortFault::BadDigit => "invalid digit found in string"@,
            PortFault::TooLarge => "number too large to fit in target type"@,
        }
    }

    /// The words that report the fault.
    pub fn message(&self) -> (r: String)
        ensures
            r@ == self.text(),
    {
        match *self {
            PortFault::Empty => "cannot parse integer from empty string".to_owned(),
            PortFault::BadDigit => "invalid digit found in string".to_owned(),
            PortFault::TooLarge => "number too large to fit in target type".to_owned(),
        }
    }
}

/// The number that digits denote, up to the first character at which there is none.
pub open spec fn port_digits(s: Seq<char>) -> Result<nat, PortFault>
    decreases s.len(),
{
    if s.len() == 0 {
        Ok(0)
    } else {
        match port_digits(s.drop_last()) {
            Err(e) => Err(e),
            Ok(v) => if !text::is_digit(s.last()) {
                Err(PortFault::BadDigit)
            } else {
                let w = v * 10 + (s.last() as nat - '0' as nat) as nat;
                if w > 65535 {
                    Err(PortFault::TooLarge)
                } else {
                    Ok(w)
                }
            },
        }
    }
}

/// The number of a port: digits, perhaps behind a plus sign.
pub open spec fn port_number(s: Seq<char>) -> Result<nat, PortFault> {
    if s.len() == 0 {
        Err(PortFault::Empty)
    } else if s[0] == '+' && s.len() > 1 {
        port_digits(s.drop_first())
    } else {
        port_digits(s)
    }
}

/// A fault stays a fault, whatever follows.
proof fn fault_stays(s: Seq<char>, n: int)
    requires
        0 <= n <= s.len(),
        port_digits(s.take(n)) is Err,
    ensures
        port_digits(s) == port_digits(s.take(n)),
    decreases s.len(),
{
    if n < s.len() {
        assert(s.drop_last().take(n) =~= s.take(n));
        fault_stays(s.drop_last(), n);
    } else {
        assert(s.take(n) =~= s);
    }
}

/// Reads the number of a port.
pub fn parse_port(s: &str) -> (r: Result<u16, PortFault>)
    ensures
        match r {
            Ok(p) => port_number(s@) == Ok::<nat, PortFault>(p as nat),
            Err(e) => port_number(s@) == Err::<nat, PortFault>(e),
        },
{
    let v = chars_of(s);
    if v.len() == 0 {
        return Err(PortFault::Empty);
    }
    let start: usize = if v[0] == '+' && v.len() > 1 {
        1
    } else {
        0
    };
    let ghost d = v@.skip(start as int);
    proof {
        if start == 1 {
            assert(d =~= s@.drop_first());
        } else {
            assert(d =~= s@);
        }
        assert(d.take(0) =~= Seq::<char>::empty());
    }
    let mut value: u32 = 0;
    let mut i: usize = start;
    while i < v.len()
        invariant
            start <= i <= v.len(),
            d == v@.skip(start as int),
            value <= 65535,
            port_digits(d.take(i - start)) == Ok::<nat, PortFault>(value as nat),
            port_number(s@) == port_digits(d),
        decreases v.len() - i,
    {
        let c = v[i];
        proof {
            assert(d.take(i - start + 1).drop_last() =~= d.take(i - start));
            assert(d.take(i - start + 1).last() == c);
        }
        if c < '0' || c > '9' {
            proof {
                fault_stays(d, i - start + 1);
            }
            return Err(PortFault::BadDigit);
        }
        let x: u32 = c as u32 - '0' as u32;
        if value * 10 + x > 65535 {
            proof {
                fault_stays(d, i - start + 1);
            }
            return Err(PortFault::TooLarge);
        }
        value = value * 10 + x;
        i = i + 1;
    }
    assert(d.take(i - start) =~= d);
    Ok(value as u16)
}

/// Why a port cannot be forwarded.
#[derive(Debug, PartialEq, Eq)]
pub enum ForwardError {
    /// A node has no colon.
    NoColon,
    /// A node on the host is not a port: what stands before its colon.
    NotTcp(String),
    /// The number of a port cannot be read.
    BadPort(PortFault),
    /// A forwarding does not name two nodes.
    MissingNodes,
    /// A reverse forwarding does not name two nodes.
    MissingReverseNodes,
    /// The node on the host is not a port.
    LocalNotTcp,
    /// The node on the device is of no known kind.
    UnknownRemote(String),
}

/// Why a port cannot be forwarded.
pub enum ForwardErrorView {
    NoColon,
    NotTcp(Seq<char>),
    BadPort(PortFault),
    MissingNodes,
    MissingReverseNodes,
    LocalNotTcp,
    UnknownRemote(Seq<char>),
}

impl View for ForwardError {
    type V = ForwardErrorView;

    open spec fn view(&self) -> ForwardErrorView {
        match *self {
            ForwardError::NoColon => ForwardErrorView::NoColon,
            ForwardError::NotTcp(s) => ForwardErrorView::NotTcp(s@),
            ForwardError::BadPort(f) => ForwardErrorView::BadPort(f),
            ForwardError::MissingNodes => ForwardErrorView::MissingNodes,
            ForwardError::MissingReverseNodes => ForwardErrorView::MissingReverseNodes,
            ForwardError::LocalNotTcp => ForwardErrorView::LocalNotTcp,
            ForwardError::UnknownRemote(s) => ForwardErrorView::UnknownRemote(s@),
        }
    }
}

/// What is said when a forwarding does not name two nodes.
pub const FORWARD_USAGE: &'static str =
    "Invalid forward parameters. Usage: fport tcp:local tcp:remote|ark:pid@bundle|jdwp:pid";

/// What is said when a reverse forwarding does not name two nodes.
pub const RPORT_USAGE: &'static str =
    "Invalid rport parameters. Usage: rport tcp:remote tcp:local";

impl ForwardErrorView {
    /// The sentence that reports the error.
    pub open spec fn text(self) -> Seq<char> {
        match self {
            ForwardErrorView::NoColon => "Invalid forward spec, expected proto:port"@,
            ForwardErrorView::NotTcp(s) => "Host only supports tcp: forward spec, got "@ + s,
            ForwardErrorView::BadPort(f) => "Invalid port number: "@ + f.text(),
            ForwardErrorView::MissingNodes => FORWARD_USAGE@,
            ForwardErrorView::MissingReverseNodes => RPORT_USAGE@,
            ForwardErrorView::LocalNotTcp => "Local forward node must be tcp:<port>"@,
            ForwardErrorView::UnknownRemote(s) => "Unsupported remote forward node: "@ + s,
        }
    }
}

impl ForwardError {
    /// The sentence that reports the error.
    pub fn message(&self) -> (r: String)
        ensures
            r@ == self@.text(),
    {
        match self {
            ForwardError::NoColon => "Invalid forward spec, expected proto:port".to_owned(),
            ForwardError::NotTcp(s) => concat2(
                "Host only supports tcp: forward spec, got ",
                s.as_str(),
            ),
            ForwardError::BadPort(f) => concat2("Invalid port number: ", f.message().as_str()),
            ForwardError::MissingNodes => FORWARD_USAGE.to_owned(),
            ForwardError::MissingReverseNodes => RPORT_USAGE.to_owned(),
            ForwardError::LocalNotTcp => "Local forward node must be tcp:<port>".to_owned(),
            ForwardError::UnknownRemote(s) => concat2(
                "Unsupported remote forward node: ",
                s.as_str(),
            ),
        }
    }
}

/// The port of a node on the host.
pub open spec fn forward_port(spec: Seq<char>) -> Result<u16, ForwardErrorView> {
    let at = text::first_of(spec, ':');
    if at >= spec.len() {
        Err(ForwardErrorView::NoColon)
    } else if spec.take(at) != "tcp"@ {
        Err(ForwardErrorView::NotTcp(spec.take(at)))
    } else {
        match port_number(spec.skip(at + 1)) {
            Ok(p) => Ok(p as u16),
            Err(f) => Err(ForwardErrorView::BadPort(f)),
        }
    }
}

/// The port of a node on the host.
pub fn parse_forward_port(spec: &str) -> (r: Result<u16, ForwardError>)
    ensures
        match r {
            Ok(p) => forward_port(spec@) == Ok::<u16, ForwardErrorView>(p),
            Err(e) => forward_port(spec@) == Err::<u16, ForwardErrorView>(e@),
        },
{
    let v = chars_of(spec);
    let at: usize = find_first(&v, ':');
    if at >= v.len() {
        return Err(ForwardError::NoColon);
    }
    proof {
        text::first_of_is_first(v@, ':');
    }
    let kind = slice_text(&v, 0, at);
    assert(kind@ =~= spec@.take(at as int));
    if !same_text(kind.as_str(), "tcp") {
        return Err(ForwardError::NotTcp(kind));
    }
    let rest = slice_text(&v, at + 1, v.len());
    assert(rest@ =~= spec@.skip(at + 1));
    match parse_port(rest.as_str()) {
        Ok(p) => Ok(p),
        Err(f) => Err(ForwardError::BadPort(f)),
    }
}

/// The node on the device is of a known kind.
pub open spec fn known_remote(spec: Seq<char>) -> bool {
    text::has_prefix(spec, "tcp:"@) || text::has_prefix(spec, "ark:"@) || text::has_prefix(spec, "jdwp:"@)
        || text::has_prefix(spec, "localabstract:"@) || text::has_prefix(spec, "localreserved:"@) || text::has_prefix(
        spec,
        "localfilesystem:"@,
    ) || text::has_prefix(spec, "dev:"@)
}

/// The node on the device is that of a debugger.
pub open spec fn is_debugger(spec: Seq<char>) -> bool {
    text::has_prefix(spec, "ark:"@) || text::has_prefix(spec, "jdwp:"@)
}

pub(crate) fn is_known_remote(spec: &str) -> (r: bool)
    ensures
        r == known_remote(spec@),
{
    starts_with(spec, "tcp:") || starts_with(spec, "ark:") || starts_with(spec, "jdwp:")
        || starts_with(spec, "localabstract:") || starts_with(spec, "localreserved:")
        || starts_with(spec, "localfilesystem:") || starts_with(spec, "dev:")
}

/// The two nodes of a forwarding, and the port of the first.
pub open spec fn forward_nodes(params: Seq<Seq<char>>) -> Result<
    (Seq<char>, Seq<char>, u16),
    ForwardErrorView,
> {
    if params.len() < 3 {
        Err(ForwardErrorView::MissingNodes)
    } else if !text::has_prefix(params[1], "tcp:"@) {
        Err(ForwardErrorView::LocalNotTcp)
    } else {
        match forward_port(params[1]) {
            Err(e) => Err(e),
            Ok(port) => if known_remote(params[2]) {
                Ok((params[1], params[2], port))
            } else {
                Err(ForwardErrorView::UnknownRemote(params[2]))
            },
        }
    }
}

// ---------------------------------------------------------------------------
// Messages
// ---------------------------------------------------------------------------

/// What names a node to the other end: a number, eight zeros, the node, a zero.
pub open spec fn node_payload(id: u32, spec: Seq<char>) -> Seq<u8> {
    bytes::be32(id) + bytes::zeros(8) + encode_utf8(spec) + seq![0u8]
}

/// A message that names a node to the other end.
pub open spec fn node_message(
    channel_id: u32,
    command: HdcCommand,
    id: u32,
    spec: Seq<char>,
) -> TaskMessageView {
    TaskMessageView { channel_id, command, payload: node_payload(id, spec) }
}

/// A message that names a node to the other end.
pub fn make_node_message(channel_id: u32, command: HdcCommand, id: u32, spec: &str) -> (r:
    TaskMessage)
    ensures
        r@ == node_message(channel_id, command, id, spec@),
{
    let mut payload: Vec<u8> = Vec::new();
    push_be32(&mut payload, id);
    push_zeros(&mut payload, 8);
    push_bytes(&mut payload, text_bytes(spec).as_slice());
    payload.push(0);
    assert(payload@ =~= node_payload(id, spec@));
    TaskMessage { channel_id, command, payload }
}

/// A message that holds the number of a connection, and what follows it.
pub open spec fn link_message(
    channel_id: u32,
    command: HdcCommand,
    id: u32,
    data: Seq<u8>,
) -> TaskMessageView {
    TaskMessageView { channel_id, command, payload: bytes::be32(id) + data }
}

/// The request that the other end connect to a node.
pub open spec fn open_request(channel_id: u32, id: u32, spec: Seq<char>) -> TaskMessageView {
    node_message(channel_id, HdcCommand::ForwardActiveSlave, id, spec)
}

/// The message that carries what was read from a connection.
pub open spec fn carried(channel_id: u32, id: u32, data: Seq<u8>) -> TaskMessageView {
    link_message(channel_id, HdcCommand::ForwardData, id, data)
}

/// The message that gives a connection up.
pub open spec fn given_up(channel_id: u32, id: u32) -> TaskMessageView {
    link_message(channel_id, HdcCommand::ForwardFreeContext, id, Seq::empty())
}

/// A message that holds the number of a connection, and what follows it.
pub fn make_link_message(channel_id: u32, command: HdcCommand, id: u32, data: &[u8]) -> (r:
    TaskMessage)
    ensures
        r@ == link_message(channel_id, command, id, data@),
{
    let mut payload: Vec<u8> = Vec::new();
    push_be32(&mut payload, id);
    push_bytes(&mut payload, data);
    assert(payload@ =~= bytes::be32(id) + data@);
    TaskMessage { channel_id, command, payload }
}

/// What a daemon is told of the outcome of a check.
pub open spec fn check_result(channel_id: u32, id: u32, ok: bool) -> TaskMessageView {
    link_message(
        channel_id,
        HdcCommand::ForwardCheckResult,
        id,
        seq![
            if ok {
                1u8
            } else {
                0u8
            },
        ],
    )
}

/// What a daemon is told of the outcome of a check.
pub fn make_check_result(channel_id: u32, id: u32, ok: bool) -> (r: TaskMessage)
    ensures
        r@ == check_result(channel_id, id, ok),
{
    let flag: [u8; 1] = if ok {
        [1]
    } else {
        [0]
    };
    assert(flag@ =~= seq![
        if ok {
            1u8
        } else {
            0u8
        },
    ]);
    make_link_message(channel_id, HdcCommand::ForwardCheckResult, id, &flag)
}

/// The request that the daemon begin a forwarding: its two nodes.
pub open spec fn init_message(channel_id: u32, first: Seq<char>, second: Seq<char>) -> TaskMessageView {
    TaskMessageView {
        channel_id,
        command: HdcCommand::ForwardInit,
        payload: encode_utf8(first + " "@ + second),
    }
}

/// The request that the daemon begin a forwarding.
pub fn make_init_message(channel_id: u32, first: &str, second: &str) -> (r: TaskMessage)
    ensures
        r@ == init_message(channel_id, first@, second@),
{
    let s = concat3(first, " ", second);
    TaskMessage {
        channel_id,
        command: HdcCommand::ForwardInit,
        payload: text_bytes(s.as_str()),
    }
}

/// The message says of connection `id` whether it was accepted.
pub open spec fn is_check_result(m: TaskMessageView, id: u32) -> bool {
    m.command == HdcCommand::ForwardCheckResult && m.payload.len() >= 5 && bytes::be32_value(m.payload, 0)
        == id
}

/// The result that the message gives for connection `id`, if it gives one.
pub(crate) fn check_result_in(m: &TaskMessage, id: u32) -> (r: Option<bool>)
    ensures
        r is Some == is_check_result(m@, id),
        r is Some ==> r->Some_0 == (m@.payload[4] != 0),
{
    if m.command == HdcCommand::ForwardCheckResult && m.payload.len() >= 5 && read_be32(
        m.payload.as_slice(),
        0,
    ) == id {
        Some(m.payload[4] != 0)
    } else {
        None
    }
}

/// A daemon is told what it is told, and reads it: the outcome of a check is read back.
pub proof fn check_result_read_back(channel_id: u32, id: u32, ok: bool)
    ensures
        is_check_result(check_result(channel_id, id, ok), id),
        (check_result(channel_id, id, ok).payload[4] != 0) == ok,
{
    let p = check_result(channel_id, id, ok).payload;
    bytes::be32_read_back(p, 0, id);
}

/// The node is read back out of the payload that names it: its number, and the bytes of
/// its text up to the zero, if the text holds no zero byte.
pub proof fn node_read_back(id: u32, spec: Seq<char>)
    requires
        !encode_utf8(spec).contains(0u8),
    ensures
        bytes::be32_value(node_payload(id, spec), 0) == id,
        node_payload(id, spec).skip(12).take(channel::first_zero(node_payload(id, spec).skip(12)))
            == encode_utf8(spec),
{
    let p = node_payload(id, spec);
    bytes::be32_read_back(p, 0, id);
    let rest = p.skip(12);
    let text = encode_utf8(spec);
    assert(rest =~= text + seq![0u8]);
    zero_after(text);
    assert(rest.take(text.len() as int) =~= text);
}

/// The first zero of bytes without one that a zero follows.
proof fn zero_after(text: Seq<u8>)
    requires
        !text.contains(0u8),
    ensures
        channel::first_zero(text + seq![0u8]) == text.len(),
    decreases text.len(),
{
    let all = text + seq![0u8];
    if text.len() > 0 {
        assert(text[0] != 0) by {
            if text[0] == 0 {
                assert(text.contains(text[0]));
            }
        }
        assert(all[0] == text[0]);
        assert(all.drop_first() =~= text.drop_first() + seq![0u8]);
        assert(!text.drop_first().contains(0u8)) by {
            if text.drop_first().contains(0u8) {
                let i = choose|i: int|
                    0 <= i < text.drop_first().len() && text.drop_first()[i] == 0u8;
                assert(text[i + 1] == 0u8);
            }
        }
        zero_after(text.drop_first());
    }
}

/// The request for a forwarding holds the two nodes in the order in which they were given: the
/// bytes of the first, a blank, and those of the second.
pub proof fn nodes_keep_their_order(channel_id: u32, first: Seq<char>, second: Seq<char>)
    ensures
        ({
            let m = init_message(channel_id, first, second);
            &&& m.channel_id == channel_id
            &&& m.command == HdcCommand::ForwardInit
            &&& m.payload == encode_utf8(first) + seq![32u8] + encode_utf8(second)
        }),
{
    reveal_strlit(" ");
    assert(is_ascii_chars(" "@));
    is_ascii_chars_encode_utf8(" "@);
    assert(encode_utf8(" "@) =~= seq![32u8]);
    labeled::encode_of_concat(first, " "@);
    labeled::encode_of_concat(first + " "@, second);
}

proof fn port_of_digits(s: Seq<char>)
    requires
        text::all_digits(s),
    ensures
        port_digits(s) == if text::digits_value(s) <= 65535 {
            Ok::<nat, PortFault>(text::digits_value(s))
        } else {
            Err(PortFault::TooLarge)
        },
    decreases s.len(),
{
    if s.len() > 0 {
        let d = s.drop_last();
        assert(s.last() == s[s.len() - 1]);
        assert forall|i: int| 0 <= i < d.len() implies text::is_digit(#[trigger] d[i]) by {
            assert(d[i] == s[i]);
        }
        port_of_digits(d);
    }
}

/// The port of a node on the host is the number that follows `tcp:`, up to 65535.
pub proof fn port_is_read(port: u16, kind: Seq<char>, rest: Seq<char>)
    requires
        !kind.contains(':'),
    ensures
        port_number(text::decimal(port as nat)) == Ok::<nat, PortFault>(port as nat),
        forward_port("tcp:"@ + text::decimal(port as nat)) == Ok::<u16, ForwardErrorView>(port),
        kind != "tcp"@ ==> forward_port(kind + seq![':'] + rest) == Err::<u16, ForwardErrorView>(
            ForwardErrorView::NotTcp(kind),
        ),
{
    let s = text::decimal(port as nat);
    text::decimal_denotes(port as nat);
    port_of_digits(s);
    assert(text::is_digit(s[0]));
    reveal_strlit("tcp");
    reveal_strlit("tcp:");
    assert(!"tcp"@.contains(':'));
    assert("tcp:"@ + s =~= "tcp"@ + seq![':'] + s);
    text::first_after("tcp"@, s, ':');
    text::first_after(kind, rest, ':');
}

/// A text begins with what it was made to begin with.
proof fn begins_with(a: Seq<char>, b: Seq<char>)
    ensures
        text::has_prefix(a + b, a),
{
    assert((a + b).subrange(0, a.len() as int) =~= a);
}

/// The kinds of nodes on a device that ports can be forwarded to.
pub proof fn remote_kinds(rest: Seq<char>)
    ensures
        known_remote("tcp:"@ + rest),
        known_remote("ark:"@ + rest),
        known_remote("jdwp:"@ + rest),
        known_remote("localabstract:"@ + rest),
        known_remote("localreserved:"@ + rest),
        known_remote("localfilesystem:"@ + rest),
        known_remote("dev:"@ + rest),
        is_debugger("ark:"@ + rest),
        is_debugger("jdwp:"@ + rest),
        !is_debugger("tcp:"@ + rest),
        !is_debugger("localabstract:"@ + rest),
        !is_debugger("localreserved:"@ + rest),
        !is_debugger("localfilesystem:"@ + rest),
        !is_debugger("dev:"@ + rest),
{
    begins_with("tcp:"@, rest);
    begins_with("ark:"@, rest);
    begins_with("jdwp:"@, rest);
    begins_with("localabstract:"@, rest);
    begins_with("localreserved:"@, rest);
    begins_with("localfilesystem:"@, rest);
    begins_with("dev:"@, rest);
    reveal_strlit("tcp:");
    reveal_strlit("ark:");
    reveal_strlit("jdwp:");
    reveal_strlit("localabstract:");
    reveal_strlit("localreserved:");
    reveal_strlit("localfilesystem:");
    reveal_strlit("dev:");
    first_differs("tcp:"@ + rest);
    first_differs("localabstract:"@ + rest);
    first_differs("localreserved:"@ + rest);
    first_differs("localfilesystem:"@ + rest);
    first_differs("dev:"@ + rest);
}

proof fn first_differs(s: Seq<char>)
    requires
        s.len() > 0,
        s[0] != 'a',
        s[0] != 'j',
    ensures
        !is_debugger(s),
{
    reveal_strlit("ark:");
    reveal_strlit("jdwp:");
    if s.len() >= 4 {
        assert(s.subrange(0, 4)[0] == s[0]);
        assert("ark:"@[0] == 'a');
    }
    if s.len() >= 5 {
        assert(s.subrange(0, 5)[0] == s[0]);
        assert("jdwp:"@[0] == 'j');
    }
}

/// A forwarding is read off its words: the port of the host first, then the node on the device,
/// which is of a known kind. Fewer words, or another node first, are refused.
pub proof fn forwarding_is_read(params: Seq<Seq<char>>, port: u16)
    ensures
        params.len() >= 3 && params[1] == "tcp:"@ + text::decimal(port as nat) && known_remote(
            params[2],
        ) ==> forward_nodes(params) == Ok::<_, ForwardErrorView>((params[1], params[2], port)),
        params.len() >= 3 && params[1] == "tcp:"@ + text::decimal(port as nat) && !known_remote(
            params[2],
        ) ==> forward_nodes(params) == Err::<(Seq<char>, Seq<char>, u16), _>(
            ForwardErrorView::UnknownRemote(params[2]),
        ),
        params.len() < 3 ==> forward_nodes(params) == Err::<(Seq<char>, Seq<char>, u16), _>(
            ForwardErrorView::MissingNodes,
        ),
        params.len() >= 3 && !text::has_prefix(params[1], "tcp:"@) ==> forward_nodes(params)
            == Err::<(Seq<char>, Seq<char>, u16), _>(ForwardErrorView::LocalNotTcp),
{
    let kind = Seq::<char>::empty();
    port_is_read(port, kind, kind);
    begins_with("tcp:"@, text::decimal(port as nat));
}

/// A forwarded port is listened on at the address that was set first, or else at that of this
/// host.
pub proof fn listened_address(ip: Seq<char>)
    ensures
        listen_ip(Some(ip)) == ip,
        listen_ip(None) == "127.0.0.1"@,
{
}

/// Forwarded ports are listened on at the address that was set first, and at that of the
/// computer itself where none was.
pub proof fn first_address_stays(cell: Option<Seq<char>>, a: Seq<char>, b: Seq<char>)
    ensures
        listen_ip(None) == "127.0.0.1"@,
        listen_ip(with_listen_ip(None, a)) == a,
        with_listen_ip(with_listen_ip(cell, a), b) == with_listen_ip(cell, a),
        cell is Some ==> listen_ip(with_listen_ip(cell, a)) == listen_ip(cell),
{
}

} // verus!
