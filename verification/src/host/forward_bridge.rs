//! The connections of a forwarding, and reverse forwarding.

use crate::host::forward;
use crate::host::forward::{ForwardError, ForwardErrorView, make_check_result, make_link_message, make_node_message, parse_forward_port};
use crate::host::forward_map;
use crate::host::forward_map::{ForwardDirection, ForwardEntry, ForwardEntryView, RuleView};
use crate::host::forward_setup::FORWARD_OK;
use crate::host::transfer::{Reply, ReplyView};
use crate::protocol::bytes;
use crate::protocol::bytes::{copy_range, read_be32};
use crate::protocol::command::HdcCommand;
use crate::protocol::config::{TaskMessage, TaskMessageView};
use crate::protocol::labeled;
use crate::random::random_id;
use crate::text;
use crate::text::{concat3, copy_text, lossy_text, trim_end_of};
use vstd::prelude::*;
use vstd::utf8::*;

verus! {

// ---------------------------------------------------------------------------
// From the host to a device
// ---------------------------------------------------------------------------

/// Where a message of the daemon for a forwarding goes.
#[derive(Debug, PartialEq, Eq)]
pub enum Route {
    /// Bytes go to a connection.
    Deliver(u32, Vec<u8>),
    /// A connection is given up.
    Free(u32),
    /// The message does not count.
    Pass,
}

/// Where a message of the daemon for a forwarding goes.
pub enum RouteView {
    Deliver(u32, Seq<u8>),
    Free(u32),
    Pass,
}

impl View for Route {
    type V = RouteView;

    open spec fn view(&self) -> RouteView {
        match *self {
            Route::Deliver(id, b) => RouteView::Deliver(id, b@),
            Route::Free(id) => RouteView::Free(id),
            Route::Pass => RouteView::Pass,
        }
    }
}

/// Where a message of the daemon for a forwarding goes. The word that a connection
/// stands is delivered as no bytes at all.
pub open spec fn forward_route(m: TaskMessageView) -> RouteView {
    if m.payload.len() < 4 {
        RouteView::Pass
    } else {
        let id = bytes::be32_value(m.payload, 0);
        match m.command {
            HdcCommand::ForwardData => RouteView::Deliver(id, m.payload.skip(4)),
            HdcCommand::ForwardActiveMaster => RouteView::Deliver(id, Seq::empty()),
            HdcCommand::ForwardFreeContext => RouteView::Free(id),
            _ => RouteView::Pass,
        }
    }
}

/// Where a message of the daemon for a forwarding goes.
pub fn route_forward(m: &TaskMessage) -> (r: Route)
    ensures
        r@ == forward_route(m@),
{
    let n: usize = m.payload.len();
    if n < 4 {
        return Route::Pass;
    }
    let id: u32 = read_be32(m.payload.as_slice(), 0);
    match m.command {
        HdcCommand::ForwardData => {
            let data = copy_range(m.payload.as_slice(), 4, n);
            assert(data@ =~= m.payload@.skip(4));
            Route::Deliver(id, data)
        },
        HdcCommand::ForwardActiveMaster => {
            let data: Vec<u8> = Vec::new();
            Route::Deliver(id, data)
        },
        HdcCommand::ForwardFreeContext => Route::Free(id),
        _ => Route::Pass,
    }
}

/// What one end sends of a connection, the other end delivers to it.
pub proof fn data_is_delivered(channel_id: u32, id: u32, data: Seq<u8>)
    ensures
        forward_route(forward::link_message(channel_id, HdcCommand::ForwardData, id, data))
            == RouteView::Deliver(id, data),
        forward_route(forward::link_message(channel_id, HdcCommand::ForwardActiveMaster, id, Seq::empty()))
            == RouteView::Deliver(id, Seq::empty()),
        forward_route(forward::link_message(channel_id, HdcCommand::ForwardFreeContext, id, Seq::empty()))
            == RouteView::Free(id),
{
    let m = forward::link_message(channel_id, HdcCommand::ForwardData, id, data);
    bytes::be32_read_back(m.payload, 0, id);
    assert(m.payload.skip(4) =~= data);
    let bare = bytes::be32(id) + Seq::<u8>::empty();
    bytes::be32_read_back(bare, 0, id);
}

/// How long the host waits until the daemon has connected, in seconds.
pub const ACTIVATION_PATIENCE: u64 = 10;

/// A connection of a forwarding.
pub struct Bridge {
    channel_id: u32,
    id: u32,
    active: bool,
}

/// A connection of a forwarding.
pub struct BridgeView {
    pub channel_id: u32,
    /// The number under which the two ends speak of it.
    pub id: u32,
    /// The daemon has connected.
    pub active: bool,
}

impl View for Bridge {
    type V = BridgeView;

    closed spec fn view(&self) -> BridgeView {
        BridgeView { channel_id: self.channel_id, id: self.id, active: self.active }
    }
}

/// What comes of bytes that were delivered to a connection.
#[derive(Debug, PartialEq, Eq)]
pub enum BridgeStep {
    /// They are written to the user's end.
    Write(Vec<u8>),
    /// The daemon has connected: bytes may flow.
    Open,
    /// They do not count.
    Pass,
}

/// What comes of bytes that were delivered to a connection.
pub enum BridgeStepView {
    Write(Seq<u8>),
    Open,
    Pass,
}

impl View for BridgeStep {
    type V = BridgeStepView;

    open spec fn view(&self) -> BridgeStepView {
        match *self {
            BridgeStep::Write(b) => BridgeStepView::Write(b@),
            BridgeStep::Open => BridgeStepView::Open,
            BridgeStep::Pass => BridgeStepView::Pass,
        }
    }
}

/// What comes of bytes that were delivered to a connection.
pub open spec fn on_delivery(v: BridgeView, data: Seq<u8>) -> (BridgeView, BridgeStepView) {
    if data.len() > 0 {
        (
            v,
            if v.active {
                BridgeStepView::Write(data)
            } else {
                BridgeStepView::Pass
            },
        )
    } else {
        (
            BridgeView { active: true, ..v },
            if v.active {
                BridgeStepView::Pass
            } else {
                BridgeStepView::Open
            },
        )
    }
}

impl Bridge {
    /// A connection that the user has made, under a number that the caller has drawn.
    pub fn new(channel_id: u32, id: u32) -> (r: Self)
        ensures
            r@ == (BridgeView { channel_id, id, active: false }),
    {
        Bridge { channel_id, id, active: false }
    }

    /// A connection that the user has made, under a number that chance gives.
    pub fn open(channel_id: u32) -> (r: Self)
        ensures
            r@.channel_id == channel_id,
            !r@.active,
    {
        let id: u32 = random_id();
        Bridge::new(channel_id, id)
    }

    /// The number under which the two ends speak of the connection.
    pub fn id(&self) -> (r: u32)
        ensures
            r == self@.id,
    {
        self.id
    }

    /// The request that the daemon connect to its node.
    pub fn request(&self, remote_spec: &str) -> (r: TaskMessage)
        ensures
            r@ == forward::open_request(self@.channel_id, self@.id, remote_spec@),
    {
        make_node_message(self.channel_id, HdcCommand::ForwardActiveSlave, self.id, remote_spec)
    }

    /// What comes of bytes that were delivered.
    pub fn delivered(&mut self, data: Vec<u8>) -> (r: BridgeStep)
        ensures
            (final(self)@, r@) == on_delivery(old(self)@, data@),
    {
        if data.len() > 0 {
            if self.active {
                BridgeStep::Write(data)
            } else {
                BridgeStep::Pass
            }
        } else if self.active {
            BridgeStep::Pass
        } else {
            self.active = true;
            BridgeStep::Open
        }
    }

    /// The message that carries what the user's end sent.
    pub fn outgoing(&self, data: &[u8]) -> (r: TaskMessage)
        ensures
            r@ == forward::carried(self@.channel_id, self@.id, data@),
    {
        make_link_message(self.channel_id, HdcCommand::ForwardData, self.id, data)
    }

    /// The message that gives the connection up.
    pub fn release(&self) -> (r: TaskMessage)
        ensures
            r@ == forward::given_up(self@.channel_id, self@.id),
    {
        let none: Vec<u8> = Vec::new();
        make_link_message(
            self.channel_id,
            HdcCommand::ForwardFreeContext,
            self.id,
            none.as_slice(),
        )
    }
}

/// Nothing is written before the daemon has connected.
pub proof fn nothing_before_connection(v: BridgeView, data: Seq<u8>)
    ensures
        on_delivery(v, data).1 is Write ==> v.active && on_delivery(v, data).1->Write_0 == data,
        v.active ==> on_delivery(v, data).0.active,
{
}

// ---------------------------------------------------------------------------
// From a device to the host
// ---------------------------------------------------------------------------

/// The two nodes of a reverse forwarding: the one on the device, then the one here.
pub open spec fn reverse_nodes(params: Seq<Seq<char>>) -> Result<
    (Seq<char>, Seq<char>),
    ForwardErrorView,
> {
    if params.len() < 3 {
        Err(ForwardErrorView::MissingReverseNodes)
    } else {
        match forward::forward_port(params[2]) {
            Err(e) => Err(e),
            Ok(_) => Ok((params[1], params[2])),
        }
    }
}

/// The two nodes of a reverse forwarding: the one on the device, then the one here.
pub fn parse_reverse_nodes(params: &[String]) -> (r: Result<(String, String), ForwardError>)
    ensures
        match r {
            Ok((a, b)) => reverse_nodes(text::texts(params@)) == Ok::<_, ForwardErrorView>((a@, b@)),
            Err(e) => reverse_nodes(text::texts(params@)) == Err::<(Seq<char>, Seq<char>), _>(e@),
        },
{
    if params.len() < 3 {
        return Err(ForwardError::MissingReverseNodes);
    }
    proof {
        assert(text::texts(params@)[1] == params@[1]@);
        assert(text::texts(params@)[2] == params@[2]@);
    }
    match parse_forward_port(params[2].as_str()) {
        Err(e) => Err(e),
        Ok(_) => Ok((copy_text(params[1].as_str()), copy_text(params[2].as_str()))),
    }
}

/// The node that a message of the daemon names: everything behind its number, but for
/// the zeros at the end.
pub open spec fn trailing_node(payload: Seq<u8>) -> Seq<char> {
    text::trimmed_end_of(text::utf8_lossy(payload.skip(12)), '\0')
}

/// A reverse forwarding as it is listed.
pub fn reverse_rule(remote: &str, local: &str) -> (r: String)
    ensures
        r@ == remote@ + " "@ + local@,
{
    concat3(remote, " ", local)
}

/// What the server keeps of a reverse forwarding: the daemon listens.
pub open spec fn kept_reverse(
    channel_id: u32,
    session_id: u32,
    connect_key: Seq<char>,
    remote: Seq<char>,
    local: Seq<char>,
) -> ForwardEntryView {
    ForwardEntryView {
        channel_id,
        session_id,
        connect_key,
        direction: ForwardDirection::Reverse,
        task_string: remote + " "@ + local,
        has_listener: false,
    }
}

/// What the server keeps of a reverse forwarding, once it stands: the daemon listens.
pub fn reverse_entry(
    channel_id: u32,
    session_id: u32,
    connect_key: &str,
    remote: &str,
    local: &str,
) -> (r: ForwardEntry)
    ensures
        r@ == kept_reverse(channel_id, session_id, connect_key@, remote@, local@),
{
    ForwardEntry {
        channel_id,
        session_id,
        connect_key: copy_text(connect_key),
        direction: ForwardDirection::Reverse,
        task_string: reverse_rule(remote, local),
        has_listener: false,
    }
}

/// What a message names that asks for a connection to a node.
#[derive(Debug, PartialEq, Eq)]
pub enum Named {
    /// The message is too short to name one.
    Nothing,
    /// A node that is no port of this host.
    Bad(u32),
    /// A port of this host.
    Port(u32, u16),
}

/// What a message names that asks for a connection to a node.
pub open spec fn named_port(payload: Seq<u8>) -> Named {
    if payload.len() < 13 {
        Named::Nothing
    } else {
        match forward::forward_port(trailing_node(payload)) {
            Ok(port) => Named::Port(bytes::be32_value(payload, 0), port),
            Err(_) => Named::Bad(bytes::be32_value(payload, 0)),
        }
    }
}

fn read_named_port(payload: &[u8]) -> (r: Named)
    ensures
        r == named_port(payload@),
{
    let n: usize = payload.len();
    if n < 13 {
        return Named::Nothing;
    }
    let id: u32 = read_be32(payload, 0);
    let rest = copy_range(payload, 12, n);
    assert(rest@ =~= payload@.skip(12));
    let node = trim_end_of(lossy_text(rest.as_slice()).as_str(), '\0');
    match parse_forward_port(node.as_str()) {
        Ok(port) => Named::Port(id, port),
        Err(_) => Named::Bad(id),
    }
}

/// What comes of a reply while a reverse forwarding comes about.
#[derive(Debug, PartialEq, Eq)]
pub enum ReverseStep {
    /// The reply does not count.
    Pass,
    /// A port of this host is tried, and the daemon is told whether it answers.
    Probe(u32, u16),
    /// A message goes out.
    Answer(TaskMessage),
    /// The user is told something.
    Tell(String),
    /// The forwarding stands, and the user is told so.
    Ready(String),
    /// The forwarding failed.
    Fail(String),
}

/// What comes of a reply while a reverse forwarding comes about.
pub enum ReverseStepView {
    Pass,
    Probe(u32, u16),
    Answer(TaskMessageView),
    Tell(Seq<char>),
    Ready(Seq<char>),
    Fail(Seq<char>),
}

impl View for ReverseStep {
    type V = ReverseStepView;

    open spec fn view(&self) -> ReverseStepView {
        match *self {
            ReverseStep::Pass => ReverseStepView::Pass,
            ReverseStep::Probe(id, port) => ReverseStepView::Probe(id, port),
            ReverseStep::Answer(m) => ReverseStepView::Answer(m@),
            ReverseStep::Tell(s) => ReverseStepView::Tell(s@),
            ReverseStep::Ready(s) => ReverseStepView::Ready(s@),
            ReverseStep::Fail(s) => ReverseStepView::Fail(s@),
        }
    }
}

/// What comes of the check of a daemon.
pub open spec fn on_reverse_check(channel_id: u32, payload: Seq<u8>) -> ReverseStepView {
    match named_port(payload) {
        Named::Nothing => ReverseStepView::Pass,
        Named::Bad(id) => ReverseStepView::Answer(forward::check_result(channel_id, id, false)),
        Named::Port(id, port) => ReverseStepView::Probe(id, port),
    }
}

/// What comes of a reply while a reverse forwarding comes about.
pub open spec fn on_reverse_reply(channel_id: u32, reply: ReplyView) -> ReverseStepView {
    match reply {
        ReplyView::Closed => ReverseStepView::Fail("Response channel closed"@),
        ReplyView::TimedOut => ReverseStepView::Fail("Timeout waiting for ForwardSuccess"@),
        ReplyView::Message(m) => match m.command {
            HdcCommand::ForwardCheck => on_reverse_check(channel_id, m.payload),
            HdcCommand::ForwardSuccess => ReverseStepView::Ready(FORWARD_OK@),
            HdcCommand::KernelEcho => ReverseStepView::Tell(text::utf8_lossy(m.payload)),
            HdcCommand::KernelEchoRaw => ReverseStepView::Tell(text::utf8_lossy(m.payload)),
            HdcCommand::KernelChannelClose => ReverseStepView::Fail("Channel closed by daemon"@),
            _ => ReverseStepView::Pass,
        },
    }
}

/// What comes of a reply while a reverse forwarding comes about.
pub fn reverse_step(channel_id: u32, reply: &Reply) -> (r: ReverseStep)
    ensures
        r@ == on_reverse_reply(channel_id, reply@),
{
    match reply {
        Reply::Closed => ReverseStep::Fail("Response channel closed".to_owned()),
        Reply::TimedOut => ReverseStep::Fail("Timeout waiting for ForwardSuccess".to_owned()),
        Reply::Message(m) => match m.command {
            HdcCommand::ForwardCheck => match read_named_port(m.payload.as_slice()) {
                Named::Nothing => ReverseStep::Pass,
                Named::Bad(id) => ReverseStep::Answer(make_check_result(channel_id, id, false)),
                Named::Port(id, port) => ReverseStep::Probe(id, port),
            },
            HdcCommand::ForwardSuccess => ReverseStep::Ready(FORWARD_OK.to_owned()),
            HdcCommand::KernelEcho | HdcCommand::KernelEchoRaw => ReverseStep::Tell(
                lossy_text(m.payload.as_slice()),
            ),
            HdcCommand::KernelChannelClose => ReverseStep::Fail(
                "Channel closed by daemon".to_owned(),
            ),
            _ => ReverseStep::Pass,
        },
    }
}

/// Where a message of the daemon for a reverse forwarding goes.
#[derive(Debug, PartialEq, Eq)]
pub enum ReverseRoute {
    /// The message does not count.
    Pass,
    /// A port of this host is tried, and the daemon is told whether it answers.
    Probe(u32, u16),
    /// A message goes out.
    Answer(TaskMessage),
    /// A connection to a port of this host is made.
    Connect(u32, u16),
    /// Bytes go to a connection.
    Deliver(u32, Vec<u8>),
    /// A connection is given up.
    Free(u32),
}

/// Where a message of the daemon for a reverse forwarding goes.
pub enum ReverseRouteView {
    Pass,
    Probe(u32, u16),
    Answer(TaskMessageView),
    Connect(u32, u16),
    Deliver(u32, Seq<u8>),
    Free(u32),
}

impl View for ReverseRoute {
    type V = ReverseRouteView;

    open spec fn view(&self) -> ReverseRouteView {
        match *self {
            ReverseRoute::Pass => ReverseRouteView::Pass,
            ReverseRoute::Probe(id, port) => ReverseRouteView::Probe(id, port),
            ReverseRoute::Answer(m) => ReverseRouteView::Answer(m@),
            ReverseRoute::Connect(id, port) => ReverseRouteView::Connect(id, port),
            ReverseRoute::Deliver(id, b) => ReverseRouteView::Deliver(id, b@),
            ReverseRoute::Free(id) => ReverseRouteView::Free(id),
        }
    }
}

/// Where a message of the daemon for a reverse forwarding goes.
pub open spec fn reverse_route(channel_id: u32, m: TaskMessageView) -> ReverseRouteView {
    match m.command {
        HdcCommand::ForwardCheck => match named_port(m.payload) {
            Named::Nothing => ReverseRouteView::Pass,
            Named::Bad(id) => ReverseRouteView::Answer(forward::check_result(channel_id, id, false)),
            Named::Port(id, port) => ReverseRouteView::Probe(id, port),
        },
        HdcCommand::ForwardActiveSlave => match named_port(m.payload) {
            Named::Port(id, port) => ReverseRouteView::Connect(id, port),
            _ => ReverseRouteView::Pass,
        },
        HdcCommand::ForwardData => if m.payload.len() >= 4 {
            ReverseRouteView::Deliver(bytes::be32_value(m.payload, 0), m.payload.skip(4))
        } else {
            ReverseRouteView::Pass
        },
        HdcCommand::ForwardFreeContext => if m.payload.len() >= 4 {
            ReverseRouteView::Free(bytes::be32_value(m.payload, 0))
        } else {
            ReverseRouteView::Pass
        },
        _ => ReverseRouteView::Pass,
    }
}

/// Where a message of the daemon for a reverse forwarding goes.
pub fn route_reverse(channel_id: u32, m: &TaskMessage) -> (r: ReverseRoute)
    ensures
        r@ == reverse_route(channel_id, m@),
{
    let n: usize = m.payload.len();
    match m.command {
        HdcCommand::ForwardCheck => match read_named_port(m.payload.as_slice()) {
            Named::Nothing => ReverseRoute::Pass,
            Named::Bad(id) => ReverseRoute::Answer(make_check_result(channel_id, id, false)),
            Named::Port(id, port) => ReverseRoute::Probe(id, port),
        },
        HdcCommand::ForwardActiveSlave => match read_named_port(m.payload.as_slice()) {
            Named::Port(id, port) => ReverseRoute::Connect(id, port),
            _ => ReverseRoute::Pass,
        },
        HdcCommand::ForwardData => {
            if n >= 4 {
                let data = copy_range(m.payload.as_slice(), 4, n);
                assert(data@ =~= m.payload@.skip(4));
                ReverseRoute::Deliver(read_be32(m.payload.as_slice(), 0), data)
            } else {
                ReverseRoute::Pass
            }
        },
        HdcCommand::ForwardFreeContext => {
            if n >= 4 {
                ReverseRoute::Free(read_be32(m.payload.as_slice(), 0))
            } else {
                ReverseRoute::Pass
            }
        },
        _ => ReverseRoute::Pass,
    }
}

/// What the daemon is told of the attempt to connect to a port of this host.
pub open spec fn connected_message(channel_id: u32, id: u32, connected: bool) -> TaskMessageView {
    forward::link_message(
        channel_id,
        if connected {
            HdcCommand::ForwardActiveMaster
        } else {
            HdcCommand::ForwardFreeContext
        },
        id,
        Seq::empty(),
    )
}

/// What the daemon is told of the attempt to connect to a port of this host: that the
/// connection stands, or that it is given up.
pub fn make_connected(channel_id: u32, id: u32, connected: bool) -> (r: TaskMessage)
    ensures
        r@ == connected_message(channel_id, id, connected),
{
    let none: Vec<u8> = Vec::new();
    let command = if connected {
        HdcCommand::ForwardActiveMaster
    } else {
        HdcCommand::ForwardFreeContext
    };
    make_link_message(channel_id, command, id, none.as_slice())
}

/// Once the daemon says that it has connected, bytes may flow on a connection.
pub proof fn connection_opens(v: BridgeView, spec: Seq<char>)
    requires
        !v.active,
    ensures
        forward_route(
            forward::node_message(v.channel_id, HdcCommand::ForwardActiveMaster, v.id, spec),
        ) == RouteView::Deliver(v.id, Seq::empty()),
        on_delivery(v, Seq::empty()).0.active,
        on_delivery(v, Seq::empty()).1 is Open,
{
    bytes::be32_read_back(forward::node_payload(v.id, spec), 0, v.id);
}

/// The host connects to the port that the device names, and tries no other. The name does
/// not end in a zero character, which would be taken off.
pub proof fn named_port_is_tried(channel_id: u32, id: u32, spec: Seq<char>)
    requires
        spec.len() > 0 ==> spec.last() != '\0',
    ensures
        reverse_route(
            channel_id,
            forward::node_message(channel_id, HdcCommand::ForwardActiveSlave, id, spec),
        ) == match forward::forward_port(spec) {
            Ok(port) => ReverseRouteView::Connect(id, port),
            Err(_) => ReverseRouteView::Pass,
        },
{
    let p = forward::node_payload(id, spec);
    let ended = spec.push('\0');
    bytes::be32_read_back(p, 0, id);
    assert(p.skip(12) =~= encode_utf8(spec) + seq![0u8]);
    assert(is_ascii_chars(seq!['\0']));
    is_ascii_chars_encode_utf8(seq!['\0']);
    assert(encode_utf8(seq!['\0']) =~= seq![0u8]);
    labeled::encode_of_concat(spec, seq!['\0']);
    assert(spec + seq!['\0'] =~= ended);
    text::text_of_its_bytes(ended);
    assert(ended.drop_last() =~= spec);
    assert(text::trimmed_end_of(ended, '\0') == spec) by {
        reveal_with_fuel(text::trimmed_end_of, 2);
    }
}

/// A reverse forwarding is read off its words: the node on the device first, then the port of
/// the host.
pub proof fn reverse_forwarding_is_read(params: Seq<Seq<char>>, port: u16)
    ensures
        params.len() >= 3 && params[2] == "tcp:"@ + text::decimal(port as nat) ==> reverse_nodes(
            params,
        ) == Ok::<_, ForwardErrorView>((params[1], params[2])),
        params.len() < 3 ==> reverse_nodes(params) == Err::<(Seq<char>, Seq<char>), _>(
            ForwardErrorView::MissingReverseNodes,
        ),
{
    let none = Seq::<char>::empty();
    forward::port_is_read(port, none, none);
}

/// A reverse forwarding is listed with its device, its two nodes and its direction.
pub proof fn reverse_forwarding_is_listed(
    channel_id: u32,
    session_id: u32,
    key: Seq<char>,
    remote: Seq<char>,
    local: Seq<char>,
)
    ensures
        ({
            let e = kept_reverse(channel_id, session_id, key, remote, local);
            &&& forward_map::rule_line(
                RuleView { rule: remote + " "@ + local, entry: e },
            ) == key + "    "@ + (remote + " "@ + local) + "    "@ + "[Reverse]"@
            &&& e.channel_id == channel_id
            &&& e.session_id == session_id
            &&& e.connect_key == key
            &&& !e.has_listener
        }),
{
}

/// While a reverse forwarding is set up, and later, the host tries the port that the device
/// names, and says no where none is named. What the device says is told to the user; its word
/// that it listens makes the forwarding stand; where it closes the channel or does not answer,
/// there is none.
pub proof fn device_sets_up(channel_id: u32, id: u32, port: u16, kind: Seq<char>, said: Seq<char>)
    requires
        !kind.contains(':'),
        kind != "tcp"@,
    ensures
        ({
            let named = forward::node_message(
                channel_id,
                HdcCommand::ForwardCheck,
                id,
                "tcp:"@ + text::decimal(port as nat),
            );
            let other = forward::node_message(
                channel_id,
                HdcCommand::ForwardCheck,
                id,
                kind + seq![':', 'x'],
            );
            let no = forward::link_message(
                channel_id,
                HdcCommand::ForwardCheckResult,
                id,
                seq![0u8],
            );
            &&& on_reverse_reply(channel_id, ReplyView::Message(named)) == ReverseStepView::Probe(
                id,
                port,
            )
            &&& reverse_route(channel_id, named) == ReverseRouteView::Probe(id, port)
            &&& on_reverse_reply(channel_id, ReplyView::Message(other)) == ReverseStepView::Answer(
                no,
            )
            &&& reverse_route(channel_id, other) == ReverseRouteView::Answer(no)
            &&& on_reverse_reply(
                channel_id,
                ReplyView::Message(
                    TaskMessageView {
                        channel_id,
                        command: HdcCommand::ForwardSuccess,
                        payload: encode_utf8(said),
                    },
                ),
            ) == ReverseStepView::Ready("Forwardport result:OK\r\n"@)
            &&& on_reverse_reply(
                channel_id,
                ReplyView::Message(
                    TaskMessageView {
                        channel_id,
                        command: HdcCommand::KernelEchoRaw,
                        payload: encode_utf8(said),
                    },
                ),
            ) == ReverseStepView::Tell(said)
            &&& on_reverse_reply(
                channel_id,
                ReplyView::Message(
                    TaskMessageView {
                        channel_id,
                        command: HdcCommand::KernelEcho,
                        payload: encode_utf8(said),
                    },
                ),
            ) == ReverseStepView::Tell(said)
            &&& on_reverse_reply(
                channel_id,
                ReplyView::Message(
                    TaskMessageView {
                        channel_id,
                        command: HdcCommand::KernelChannelClose,
                        payload: encode_utf8(said),
                    },
                ),
            ) is Fail
            &&& on_reverse_reply(channel_id, ReplyView::Closed) is Fail
            &&& on_reverse_reply(channel_id, ReplyView::TimedOut) is Fail
        }),
{
    let spec = "tcp:"@ + text::decimal(port as nat);
    text::decimal_denotes(port as nat);
    reveal_strlit("tcp:");
    assert(text::is_digit(spec.last())) by {
        let d = text::decimal(port as nat);
        assert(spec.last() == d[d.len() - 1]);
    }
    ended_node(id, spec);
    forward::port_is_read(port, kind, seq!['x']);
    let odd = kind + seq![':', 'x'];
    assert(odd =~= kind + seq![':'] + seq!['x']);
    ended_node(id, odd);
    text::text_of_its_bytes(said);
}

/// The node that a payload names is read to its end.
proof fn ended_node(id: u32, spec: Seq<char>)
    requires
        spec.len() > 0,
        spec.last() != '\0',
    ensures
        bytes::be32_value(forward::node_payload(id, spec), 0) == id,
        trailing_node(forward::node_payload(id, spec)) == spec,
        forward::node_payload(id, spec).len() >= 13,
{
    let p = forward::node_payload(id, spec);
    let ended = spec.push('\0');
    bytes::be32_read_back(p, 0, id);
    assert(p.skip(12) =~= encode_utf8(spec) + seq![0u8]);
    assert(is_ascii_chars(seq!['\0']));
    is_ascii_chars_encode_utf8(seq!['\0']);
    assert(encode_utf8(seq!['\0']) =~= seq![0u8]);
    labeled::encode_of_concat(spec, seq!['\0']);
    assert(spec + seq!['\0'] =~= ended);
    text::text_of_its_bytes(ended);
    assert(ended.drop_last() =~= spec);
    assert(text::trimmed_end_of(ended, '\0') == spec) by {
        reveal_with_fuel(text::trimmed_end_of, 2);
    }
}

/// What the device sends of a connection goes to that connection, and its end ends it.
pub proof fn device_bytes_are_delivered(channel_id: u32, id: u32, data: Seq<u8>)
    ensures
        reverse_route(
            channel_id,
            forward::link_message(channel_id, HdcCommand::ForwardData, id, data),
        ) == ReverseRouteView::Deliver(id, data),
        reverse_route(channel_id, connected_message(channel_id, id, false))
            == ReverseRouteView::Free(id),
        forward_route(connected_message(channel_id, id, true)) == RouteView::Deliver(
            id,
            Seq::empty(),
        ),
        forward_route(connected_message(channel_id, id, false)) == RouteView::Free(id),
{
    let p = bytes::be32(id) + data;
    let q = bytes::be32(id) + Seq::<u8>::empty();
    bytes::be32_read_back(p, 0, id);
    bytes::be32_read_back(q, 0, id);
    assert(p.skip(4) =~= data);
    assert(q.skip(4) =~= Seq::<u8>::empty());
}

/// What the device says of a connection that its listener has taken is understood: bytes go to
/// that connection and to no other, and a connection that is given up is freed.
pub proof fn taken_connections_are_spoken_of(channel_id: u32, id: u32, data: Seq<u8>)
    ensures
        reverse_route(channel_id, forward::carried(channel_id, id, data))
            == ReverseRouteView::Deliver(id, data),
        reverse_route(channel_id, forward::given_up(channel_id, id)) == ReverseRouteView::Free(id),
        forward_route(forward::carried(channel_id, id, data)) == RouteView::Deliver(id, data),
        forward_route(forward::given_up(channel_id, id)) == RouteView::Free(id),
{
    let p = bytes::be32(id) + data;
    let q = bytes::be32(id) + Seq::<u8>::empty();
    bytes::be32_read_back(p, 0, id);
    bytes::be32_read_back(q, 0, id);
    assert(p.skip(4) =~= data);
}

} // verus!
