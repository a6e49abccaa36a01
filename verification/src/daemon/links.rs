//! Forwarding of ports, on the device.

use crate::daemon::message;
use crate::daemon::message::make_echo;
use crate::host::channel;
use crate::host::channel::find_zero;
use crate::host::forward;
use crate::host::forward::{PortFault, make_node_message, parse_port};
use crate::host::forward_bridge;
use crate::host::forward_bridge::make_connected;
use crate::host::forward_setup;
use crate::host::forward_setup::{SetupPhase, SetupView};
use crate::host::session;
use crate::host::session::Transport;
use crate::host::transfer::ReplyView;
use crate::protocol::bytes;
use crate::protocol::bytes::{copy_range, push_be32, read_be32};
use crate::protocol::command::HdcCommand;
use crate::protocol::config::{MessageLevel, TaskMessage, TaskMessageView};
use crate::tables::{IdSet, Table};
use crate::text;
use crate::text::{chars_of, concat2, concat3, copy_text, find_first, lossy_text, same_text, slice_text, split_words};
use vstd::prelude::*;
use vstd::utf8::*;

verus! {

// ---------------------------------------------------------------------------
// Nodes
// ---------------------------------------------------------------------------

/// A node that the daemon connects to or listens on.
#[derive(Debug, PartialEq, Eq)]
pub enum Node {
    /// A port.
    Tcp(u16),
    /// A socket by its name.
    Abstract(String),
    /// A socket by its path.
    Path(String),
    /// A socket by its path, which is cleared first.
    Reserved(String),
}

/// A node that the daemon connects to or listens on.
pub enum NodeView {
    Tcp(u16),
    Abstract(Seq<char>),
    Path(Seq<char>),
    Reserved(Seq<char>),
}

impl View for Node {
    type V = NodeView;

    open spec fn view(&self) -> NodeView {
        match *self {
            Node::Tcp(p) => NodeView::Tcp(p),
            Node::Abstract(s) => NodeView::Abstract(s@),
            Node::Path(s) => NodeView::Path(s@),
            Node::Reserved(s) => NodeView::Reserved(s@),
        }
    }
}

/// Why a text names no node.
#[derive(Debug, PartialEq, Eq)]
pub enum NodeError {
    /// A node to connect to has no colon.
    BadRemote(String),
    /// A node to listen on has no colon.
    BadListener(String),
    /// The port cannot be read.
    BadPort(PortFault),
    /// Nothing of that kind can be connected to.
    NoConnection(String),
    /// Nothing of that kind can be listened on.
    NoListener(String),
}

/// Why a text names no node.
pub enum NodeErrorView {
    BadRemote(Seq<char>),
    BadListener(Seq<char>),
    BadPort(PortFault),
    NoConnection(Seq<char>),
    NoListener(Seq<char>),
}

impl View for NodeError {
    type V = NodeErrorView;

    open spec fn view(&self) -> NodeErrorView {
        match *self {
            NodeError::BadRemote(s) => NodeErrorView::BadRemote(s@),
            NodeError::BadListener(s) => NodeErrorView::BadListener(s@),
            NodeError::BadPort(f) => NodeErrorView::BadPort(f),
            NodeError::NoConnection(s) => NodeErrorView::NoConnection(s@),
            NodeError::NoListener(s) => NodeErrorView::NoListener(s@),
        }
    }
}

impl NodeErrorView {
    /// The sentence that reports the error.
    pub open spec fn text(self) -> Seq<char> {
        match self {
            NodeErrorView::BadRemote(s) => "Invalid remote spec: "@ + s,
            NodeErrorView::BadListener(s) => "Invalid forward spec: "@ + s,
            NodeErrorView::BadPort(f) => "Invalid port: "@ + f.text(),
            NodeErrorView::NoConnection(s) => "Unsupported forward proto: "@ + s,
            NodeErrorView::NoListener(s) => "Unsupported rport listener proto: "@ + s,
        }
    }
}

impl NodeError {
    /// The sentence that reports the error.
    pub fn message(&self) -> (r: String)
        ensures
            r@ == self@.text(),
    {
        match self {
            NodeError::BadRemote(s) => concat2("Invalid remote spec: ", s.as_str()),
            NodeError::BadListener(s) => concat2("Invalid forward spec: ", s.as_str()),
            NodeError::BadPort(f) => concat2("Invalid port: ", f.message().as_str()),
            NodeError::NoConnection(s) => concat2("Unsupported forward proto: ", s.as_str()),
            NodeError::NoListener(s) => concat2(
                "Unsupported rport listener proto: ",
                s.as_str(),
            ),
        }
    }
}

/// The node that a text names for a connection.
pub open spec fn remote_node(spec: Seq<char>) -> Result<NodeView, NodeErrorView> {
    let at = text::first_of(spec, ':');
    if at >= spec.len() {
        Err(NodeErrorView::BadRemote(spec))
    } else {
        let kind = spec.take(at);
        let target = spec.skip(at + 1);
        if kind == "tcp"@ {
            match forward::port_number(target) {
                Ok(p) => Ok(NodeView::Tcp(p as u16)),
                Err(f) => Err(NodeErrorView::BadPort(f)),
            }
        } else if kind == "localabstract"@ {
            Ok(NodeView::Abstract(target))
        } else {
            Err(NodeErrorView::NoConnection(kind))
        }
    }
}

/// The node that a text names for a listener.
pub open spec fn listener_node(spec: Seq<char>) -> Result<NodeView, NodeErrorView> {
    let at = text::first_of(spec, ':');
    if at >= spec.len() {
        Err(NodeErrorView::BadListener(spec))
    } else {
        let kind = spec.take(at);
        let target = spec.skip(at + 1);
        if kind == "tcp"@ {
            match forward::port_number(target) {
                Ok(p) => Ok(NodeView::Tcp(p as u16)),
                Err(f) => Err(NodeErrorView::BadPort(f)),
            }
        } else if kind == "localabstract"@ {
            Ok(NodeView::Abstract(target))
        } else if kind == "localfilesystem"@ {
            Ok(NodeView::Path(target))
        } else if kind == "localreserved"@ {
            Ok(NodeView::Reserved("/dev/unix/socket/"@ + target))
        } else {
            Err(NodeErrorView::NoListener(kind))
        }
    }
}

/// What stands before the first colon, and what stands behind it.
fn split_node(spec: &str) -> (r: Option<(String, String)>)
    ensures
        match r {
            Some((k, t)) => {
                let at = text::first_of(spec@, ':');
                at < spec@.len() && k@ == spec@.take(at) && t@ == spec@.skip(at + 1)
            },
            None => text::first_of(spec@, ':') >= spec@.len(),
        },
{
    let v = chars_of(spec);
    let at: usize = find_first(&v, ':');
    if at >= v.len() {
        return None;
    }
    proof {
        text::first_of_is_first(v@, ':');
    }
    let kind = slice_text(&v, 0, at);
    assert(kind@ =~= spec@.take(at as int));
    let target = slice_text(&v, at + 1, v.len());
    assert(target@ =~= spec@.skip(at + 1));
    Some((kind, target))
}

fn tcp_node(target: &str) -> (r: Result<Node, NodeError>)
    ensures
        match r {
            Ok(n) => forward::port_number(target@) is Ok && n@ == NodeView::Tcp(
                forward::port_number(target@)->Ok_0 as u16,
            ),
            Err(e) => forward::port_number(target@) is Err && e@ == NodeErrorView::BadPort(
                forward::port_number(target@)->Err_0,
            ),
        },
{
    match parse_port(target) {
        Ok(p) => Ok(Node::Tcp(p)),
        Err(f) => Err(NodeError::BadPort(f)),
    }
}

/// The node that a text names for a connection.
pub fn parse_remote_node(spec: &str) -> (r: Result<Node, NodeError>)
    ensures
        match r {
            Ok(n) => remote_node(spec@) == Ok::<_, NodeErrorView>(n@),
            Err(e) => remote_node(spec@) == Err::<NodeView, _>(e@),
        },
{
    match split_node(spec) {
        None => Err(NodeError::BadRemote(copy_text(spec))),
        Some((kind, target)) => {
            if same_text(kind.as_str(), "tcp") {
                tcp_node(target.as_str())
            } else if same_text(kind.as_str(), "localabstract") {
                Ok(Node::Abstract(target))
            } else {
                Err(NodeError::NoConnection(kind))
            }
        },
    }
}

/// The node that a text names for a listener.
pub fn parse_listener_node(spec: &str) -> (r: Result<Node, NodeError>)
    ensures
        match r {
            Ok(n) => listener_node(spec@) == Ok::<_, NodeErrorView>(n@),
            Err(e) => listener_node(spec@) == Err::<NodeView, _>(e@),
        },
{
    match split_node(spec) {
        None => Err(NodeError::BadListener(copy_text(spec))),
        Some((kind, target)) => {
            if same_text(kind.as_str(), "tcp") {
                tcp_node(target.as_str())
            } else if same_text(kind.as_str(), "localabstract") {
                Ok(Node::Abstract(target))
            } else if same_text(kind.as_str(), "localfilesystem") {
                Ok(Node::Path(target))
            } else if same_text(kind.as_str(), "localreserved") {
                Ok(Node::Reserved(concat2("/dev/unix/socket/", target.as_str())))
            } else {
                Err(NodeError::NoListener(kind))
            }
        },
    }
}

// ---------------------------------------------------------------------------
// The connections
// ---------------------------------------------------------------------------

/// The connections and the listeners of the device.
pub struct ForwardState {
    links: Table<u32>,
    listeners: IdSet,
}

/// The connections and the listeners of the device.
pub struct ForwardStateView {
    /// The connections that a host has asked for, each with its channel.
    pub links: Map<u32, u32>,
    /// The channels for which the device listens.
    pub listeners: Set<u32>,
}

impl View for ForwardState {
    type V = ForwardStateView;

    closed spec fn view(&self) -> ForwardStateView {
        ForwardStateView { links: self.links@, listeners: self.listeners@ }
    }
}

/// What the host is told of the outcome of a check: its number and a flag.
pub open spec fn daemon_check_result(channel_id: u32, id: u32, ok: bool) -> TaskMessageView {
    TaskMessageView {
        channel_id,
        command: HdcCommand::ForwardCheckResult,
        payload: bytes::be32(id) + seq![
            if ok {
                1u8
            } else {
                0u8
            },
        ],
    }
}

/// What the host is told of the outcome of a check.
pub fn make_daemon_check_result(channel_id: u32, id: u32, ok: bool) -> (r: TaskMessage)
    ensures
        r@ == daemon_check_result(channel_id, id, ok),
{
    let mut payload: Vec<u8> = Vec::new();
    push_be32(&mut payload, id);
    payload.push(
        if ok {
            1
        } else {
            0
        },
    );
    assert(payload@ =~= daemon_check_result(channel_id, id, ok).payload);
    TaskMessage { channel_id, command: HdcCommand::ForwardCheckResult, payload }
}

/// What the host is told of a node that cannot be listened at.
pub open spec fn unbound_told(channel_id: u32, spec: Seq<char>, reason: Seq<char>) -> TaskMessageView {
    message::echo(channel_id, "Failed to bind "@ + spec + ": "@ + reason, MessageLevel::Fail)
}

/// What the host is told where the device cannot listen on a node.
pub fn listen_failed(channel_id: u32, spec: &str, reason: &str) -> (r: TaskMessage)
    ensures
        r@ == unbound_told(channel_id, spec@, reason@),
{
    let mut text = concat3("Failed to bind ", spec, ": ");
    text.append(reason);
    make_echo(channel_id, text.as_str(), MessageLevel::Fail)
}

/// What a listener is told.
#[derive(Debug, PartialEq, Eq)]
pub enum ListenerNote {
    /// The outcome of the check of the host.
    CheckResult { id: u32, ok: bool },
    /// The host has connected.
    Active { id: u32 },
    /// The host has sent bytes.
    Data { id: u32, data: Vec<u8> },
    /// The host has given a connection up.
    Free { id: u32 },
    /// The channel has ended.
    Shutdown,
}

/// What a listener is told.
pub enum ListenerNoteView {
    CheckResult { id: u32, ok: bool },
    Active { id: u32 },
    Data { id: u32, data: Seq<u8> },
    Free { id: u32 },
    Shutdown,
}

impl View for ListenerNote {
    type V = ListenerNoteView;

    open spec fn view(&self) -> ListenerNoteView {
        match *self {
            ListenerNote::CheckResult { id, ok } => ListenerNoteView::CheckResult { id, ok },
            ListenerNote::Active { id } => ListenerNoteView::Active { id },
            ListenerNote::Data { id, data } => ListenerNoteView::Data { id, data: data@ },
            ListenerNote::Free { id } => ListenerNoteView::Free { id },
            ListenerNote::Shutdown => ListenerNoteView::Shutdown,
        }
    }
}

/// What is done for a forwarding command.
#[derive(Debug, PartialEq, Eq)]
pub enum ForwardStep {
    /// A message goes to the host.
    Send(TaskMessage),
    /// The listener of the channel is told something.
    Notify(ListenerNote),
    /// A listener is opened for two nodes: the one here, and the one on the host.
    Listen(String, String),
    /// A node is tried, and the host is told whether it answers.
    Probe(u32, String),
    /// A connection to a node is made.
    Connect(u32, String),
    /// Bytes go to a connection.
    Deliver(u32, Vec<u8>),
    /// A connection is given up.
    Free(u32),
    /// Nothing.
    Pass,
}

/// What is done for a forwarding command.
pub enum ForwardStepView {
    Send(TaskMessageView),
    Notify(ListenerNoteView),
    Listen(Seq<char>, Seq<char>),
    Probe(u32, Seq<char>),
    Connect(u32, Seq<char>),
    Deliver(u32, Seq<u8>),
    Free(u32),
    Pass,
}

impl View for ForwardStep {
    type V = ForwardStepView;

    open spec fn view(&self) -> ForwardStepView {
        match *self {
            ForwardStep::Send(m) => ForwardStepView::Send(m@),
            ForwardStep::Notify(n) => ForwardStepView::Notify(n@),
            ForwardStep::Listen(a, b) => ForwardStepView::Listen(a@, b@),
            ForwardStep::Probe(id, s) => ForwardStepView::Probe(id, s@),
            ForwardStep::Connect(id, s) => ForwardStepView::Connect(id, s@),
            ForwardStep::Deliver(id, b) => ForwardStepView::Deliver(id, b@),
            ForwardStep::Free(id) => ForwardStepView::Free(id),
            ForwardStep::Pass => ForwardStepView::Pass,
        }
    }
}

/// What a listener is told of a message of the host; nothing else is done for these
/// commands where the device listens for the channel.
pub open spec fn listener_step(m: TaskMessageView) -> Option<ForwardStepView> {
    let n = m.payload.len();
    let id = bytes::be32_value(m.payload, 0);
    match m.command {
        HdcCommand::ForwardCheckResult => Some(
            if n >= 5 {
                ForwardStepView::Notify(
                    ListenerNoteView::CheckResult { id, ok: m.payload[4] != 0 },
                )
            } else {
                ForwardStepView::Pass
            },
        ),
        HdcCommand::ForwardActiveMaster => Some(
            if n >= 4 {
                ForwardStepView::Notify(ListenerNoteView::Active { id })
            } else {
                ForwardStepView::Pass
            },
        ),
        HdcCommand::ForwardData => Some(
            if n >= 4 {
                ForwardStepView::Notify(ListenerNoteView::Data { id, data: m.payload.skip(4) })
            } else {
                ForwardStepView::Pass
            },
        ),
        HdcCommand::ForwardFreeContext => Some(
            if n >= 4 {
                ForwardStepView::Notify(ListenerNoteView::Free { id })
            } else {
                ForwardStepView::Pass
            },
        ),
        _ => None,
    }
}

/// What is done for the request to listen.
pub open spec fn on_init(m: TaskMessageView) -> ForwardStepView {
    let parts = text::words(text::utf8_lossy(m.payload));
    if parts.len() < 2 {
        ForwardStepView::Send(
            message::echo(
                m.channel_id,
                "Invalid rport parameters, expected: remote_spec local_spec"@,
                MessageLevel::Fail,
            ),
        )
    } else {
        ForwardStepView::Listen(parts[0], parts[1])
    }
}

/// What is done for a forwarding command of a channel for which the device does not
/// listen, or that no listener is told of.
pub open spec fn on_link_message(v: ForwardStateView, m: TaskMessageView) -> (
    ForwardStateView,
    ForwardStepView,
) {
    let id = bytes::be32_value(m.payload, 0);
    match m.command {
        HdcCommand::ForwardInit => (v, on_init(m)),
        HdcCommand::ForwardRportInit => (v, on_init(m)),
        HdcCommand::ForwardCheck => (
            v,
            if m.payload.len() < 13 {
                ForwardStepView::Pass
            } else {
                ForwardStepView::Probe(id, forward_setup::named_node(m.payload))
            },
        ),
        HdcCommand::ForwardActiveSlave => (
            v,
            if m.payload.len() < 13 {
                ForwardStepView::Pass
            } else {
                ForwardStepView::Connect(id, forward_setup::named_node(m.payload))
            },
        ),
        HdcCommand::ForwardData => (
            v,
            if m.payload.len() >= 4 && v.links.dom().contains(id) {
                ForwardStepView::Deliver(id, m.payload.skip(4))
            } else {
                ForwardStepView::Pass
            },
        ),
        HdcCommand::ForwardFreeContext => if m.payload.len() < 4 {
            (v, ForwardStepView::Pass)
        } else {
            (ForwardStateView { links: v.links.remove(id), ..v }, ForwardStepView::Free(id))
        },
        HdcCommand::ForwardList => (
            v,
            ForwardStepView::Send(message::echo(m.channel_id, Seq::empty(), MessageLevel::Success)),
        ),
        HdcCommand::ForwardRportList => (
            v,
            ForwardStepView::Send(message::echo(m.channel_id, Seq::empty(), MessageLevel::Success)),
        ),
        HdcCommand::ForwardRemove => (
            v,
            ForwardStepView::Send(message::echo(m.channel_id, "Forward removed"@, MessageLevel::Success)),
        ),
        HdcCommand::ForwardRportRemove => (
            v,
            ForwardStepView::Send(message::echo(m.channel_id, "Forward removed"@, MessageLevel::Success)),
        ),
        HdcCommand::ForwardSuccess => (v, ForwardStepView::Pass),
        _ => (
            v,
            ForwardStepView::Send(
                message::echo(m.channel_id, "Command not implemented"@, MessageLevel::Fail),
            ),
        ),
    }
}

/// What is done for a forwarding command.
pub open spec fn on_forward_message(v: ForwardStateView, m: TaskMessageView) -> (
    ForwardStateView,
    ForwardStepView,
) {
    if v.listeners.contains(m.channel_id) && listener_step(m) is Some {
        (v, listener_step(m)->Some_0)
    } else {
        on_link_message(v, m)
    }
}

fn tell_listener(msg: &TaskMessage) -> (r: Option<ForwardStep>)
    ensures
        r is Some == (listener_step(msg@) is Some),
        r is Some ==> r->Some_0@ == listener_step(msg@)->Some_0,
{
    let n: usize = msg.payload.len();
    match msg.command {
        HdcCommand::ForwardCheckResult => Some(
            if n >= 5 {
                ForwardStep::Notify(
                    ListenerNote::CheckResult {
                        id: read_be32(msg.payload.as_slice(), 0),
                        ok: msg.payload[4] != 0,
                    },
                )
            } else {
                ForwardStep::Pass
            },
        ),
        HdcCommand::ForwardActiveMaster => Some(
            if n >= 4 {
                ForwardStep::Notify(
                    ListenerNote::Active { id: read_be32(msg.payload.as_slice(), 0) },
                )
            } else {
                ForwardStep::Pass
            },
        ),
        HdcCommand::ForwardData => {
            if n >= 4 {
                let data = copy_range(msg.payload.as_slice(), 4, n);
                assert(data@ =~= msg.payload@.skip(4));
                Some(
                    ForwardStep::Notify(
                        ListenerNote::Data { id: read_be32(msg.payload.as_slice(), 0), data },
                    ),
                )
            } else {
                Some(ForwardStep::Pass)
            }
        },
        HdcCommand::ForwardFreeContext => Some(
            if n >= 4 {
                ForwardStep::Notify(
                    ListenerNote::Free { id: read_be32(msg.payload.as_slice(), 0) },
                )
            } else {
                ForwardStep::Pass
            },
        ),
        _ => None,
    }
}

/// The node that a message of the host names behind its number.
fn read_named_node(payload: &[u8]) -> (r: String)
    requires
        payload.len() >= 13,
    ensures
        r@ == forward_setup::named_node(payload@),
{
    let end: usize = find_zero(payload, 12);
    let name = copy_range(payload, 12, end);
    proof {
        let rest = payload@.skip(12);
        assert(name@ =~= rest.take(channel::first_zero(rest)));
    }
    lossy_text(name.as_slice())
}

/// What comes of the attempt to make a connection that the host has asked for.
pub open spec fn after_attempt(
    v: ForwardStateView,
    channel_id: u32,
    id: u32,
    spec: Seq<char>,
    made: bool,
) -> (ForwardStateView, TaskMessageView) {
    if made {
        (
            ForwardStateView { links: v.links.insert(id, channel_id), ..v },
            forward::node_message(channel_id, HdcCommand::ForwardActiveMaster, id, spec),
        )
    } else {
        (
            v,
            forward::link_message(
                channel_id,
                HdcCommand::ForwardFreeContext,
                id,
                Seq::empty(),
            ),
        )
    }
}

/// The state with a channel that is listened for.
pub open spec fn with_listener(v: ForwardStateView, channel_id: u32) -> ForwardStateView {
    ForwardStateView { listeners: v.listeners.insert(channel_id), ..v }
}

/// The state without a channel that was listened for.
pub open spec fn without_listener(v: ForwardStateView, channel_id: u32) -> ForwardStateView {
    ForwardStateView { listeners: v.listeners.remove(channel_id), ..v }
}

impl ForwardState {
    /// No connection and no listener is held twice.
    pub closed spec fn wf(self) -> bool {
        self.links.wf() && self.listeners.wf()
    }

    /// Nothing is forwarded.
    pub fn new() -> (r: Self)
        ensures
            r.wf(),
            r@ == (ForwardStateView { links: Map::empty(), listeners: Set::empty() }),
    {
        ForwardState { links: Table::new(), listeners: IdSet::new() }
    }

    /// What is done for a forwarding command.
    pub fn handle_forward_task(&mut self, msg: &TaskMessage) -> (r: ForwardStep)
        requires
            old(self).wf(),
        ensures
            final(self).wf(),
            (final(self)@, r@) == on_forward_message(old(self)@, msg@),
    {
        if self.listeners.contains(msg.channel_id) {
            match tell_listener(msg) {
                Some(step) => return step,
                None => {},
            }
        }
        let n: usize = msg.payload.len();
        match msg.command {
            HdcCommand::ForwardInit | HdcCommand::ForwardRportInit => {
                let parts = split_words(lossy_text(msg.payload.as_slice()).as_str());
                if parts.len() < 2 {
                    ForwardStep::Send(
                        make_echo(
                            msg.channel_id,
                            "Invalid rport parameters, expected: remote_spec local_spec",
                            MessageLevel::Fail,
                        ),
                    )
                } else {
                    proof {
                        assert(text::texts(parts@)[0] == parts@[0]@);
                        assert(text::texts(parts@)[1] == parts@[1]@);
                    }
                    ForwardStep::Listen(
                        copy_text(parts[0].as_str()),
                        copy_text(parts[1].as_str()),
                    )
                }
            },
            HdcCommand::ForwardCheck => {
                if n < 13 {
                    ForwardStep::Pass
                } else {
                    ForwardStep::Probe(
                        read_be32(msg.payload.as_slice(), 0),
                        read_named_node(msg.payload.as_slice()),
                    )
                }
            },
            HdcCommand::ForwardActiveSlave => {
                if n < 13 {
                    ForwardStep::Pass
                } else {
                    ForwardStep::Connect(
                        read_be32(msg.payload.as_slice(), 0),
                        read_named_node(msg.payload.as_slice()),
                    )
                }
            },
            HdcCommand::ForwardData => {
                if n >= 4 {
                    let id: u32 = read_be32(msg.payload.as_slice(), 0);
                    if self.links.contains(id) {
                        let data = copy_range(msg.payload.as_slice(), 4, n);
                        assert(data@ =~= msg.payload@.skip(4));
                        return ForwardStep::Deliver(id, data);
                    }
                }
                ForwardStep::Pass
            },
            HdcCommand::ForwardFreeContext => {
                if n < 4 {
                    ForwardStep::Pass
                } else {
                    let id: u32 = read_be32(msg.payload.as_slice(), 0);
                    let _ = self.links.remove(id);
                    ForwardStep::Free(id)
                }
            },
            HdcCommand::ForwardList | HdcCommand::ForwardRportList => {
                let empty = String::new();
                assert(empty@ =~= Seq::<char>::empty());
                ForwardStep::Send(
                    make_echo(msg.channel_id, empty.as_str(), MessageLevel::Success),
                )
            },
            HdcCommand::ForwardRemove | HdcCommand::ForwardRportRemove => ForwardStep::Send(
                make_echo(msg.channel_id, "Forward removed", MessageLevel::Success),
            ),
            HdcCommand::ForwardSuccess => ForwardStep::Pass,
            _ => ForwardStep::Send(
                make_echo(msg.channel_id, "Command not implemented", MessageLevel::Fail),
            ),
        }
    }

    /// A connection that the host has asked for stands, or could not be made. Gives the
    /// message for the host.
    pub fn connected(&mut self, channel_id: u32, id: u32, spec: &str, made: bool) -> (r:
        TaskMessage)
        requires
            old(self).wf(),
        ensures
            final(self).wf(),
            (final(self)@, r@) == after_attempt(old(self)@, channel_id, id, spec@, made),
    {
        if made {
            self.links.insert(id, channel_id);
            make_node_message(channel_id, HdcCommand::ForwardActiveMaster, id, spec)
        } else {
            make_connected(channel_id, id, false)
        }
    }

    /// The device listens for a channel.
    pub fn listening(&mut self, channel_id: u32)
        requires
            old(self).wf(),
        ensures
            final(self).wf(),
            final(self)@ == with_listener(old(self)@, channel_id),
    {
        self.listeners.insert(channel_id);
    }

    /// The device no longer listens for a channel.
    pub fn listener_ended(&mut self, channel_id: u32)
        requires
            old(self).wf(),
        ensures
            final(self).wf(),
            final(self)@ == without_listener(old(self)@, channel_id),
    {
        let _ = self.listeners.remove(channel_id);
    }

    /// The connections of a channel.
    fn links_of(&self, channel_id: u32) -> (r: Vec<u32>)
        requires
            self.wf(),
        ensures
            forall|id: u32|
                r@.contains(id) <==> self@.links.dom().contains(id) && self@.links[id]
                    == channel_id,
    {
        let ids = self.links.ids();
        let mut out: Vec<u32> = Vec::new();
        let mut i: usize = 0;
        while i < ids.len()
            invariant
                self.wf(),
                i <= ids.len(),
                forall|id: u32| ids@.contains(id) <==> self.links@.dom().contains(id),
                forall|id: u32|
                    out@.contains(id) <==> (exists|j: int| 0 <= j < i && ids@[j] == id)
                        && self.links@[id] == channel_id,
            decreases ids.len() - i,
        {
            let id: u32 = ids[i];
            assert(ids@.contains(id));
            let ghost before = out@;
            let belongs: bool = match self.links.get(id) {
                Some(c) => *c == channel_id,
                None => false,
            };
            if belongs {
                out.push(id);
            }
            proof {
                assert forall|k: u32|
                    out@.contains(k) <==> (exists|j: int| 0 <= j < i + 1 && ids@[j] == k)
                        && self.links@[k] == channel_id by {
                    if out@.contains(k) {
                        let j = choose|j: int| 0 <= j < out@.len() && out@[j] == k;
                        if j < before.len() {
                            assert(before[j] == k);
                            assert(before.contains(k));
                        } else {
                            assert(ids@[i as int] == k);
                        }
                    }
                    if (exists|j: int| 0 <= j < i + 1 && ids@[j] == k) && self.links@[k]
                        == channel_id {
                        let j = choose|j: int| 0 <= j < i + 1 && ids@[j] == k;
                        if j < i {
                            assert(before.contains(k));
                            let p = choose|p: int| 0 <= p < before.len() && before[p] == k;
                            assert(out@[p] == k);
                        } else {
                            assert(k == id);
                            assert(out@[out@.len() - 1] == k);
                        }
                    }
                }
            }
            i = i + 1;
        }
        proof {
            assert forall|id: u32|
                out@.contains(id) <==> self@.links.dom().contains(id) && self@.links[id]
                    == channel_id by {
                if self.links@.dom().contains(id) {
                    assert(ids@.contains(id));
                    let j = choose|j: int| 0 <= j < ids@.len() && ids@[j] == id;
                    assert(ids@[j] == id);
                }
                if out@.contains(id) {
                    let j = choose|j: int| 0 <= j < i && ids@[j] == id;
                    assert(ids@.contains(id));
                }
            }
        }
        out
    }

    /// A channel has ended: its listener and its connections are given up. Gives the
    /// connections, and whether there was a listener.
    pub fn handle_channel_close(&mut self, channel_id: u32) -> (r: ChannelEnd)
        requires
            old(self).wf(),
        ensures
            final(self).wf(),
            final(self)@ == without_forwardings(old(self)@, channel_id),
            r.had_listener == old(self)@.listeners.contains(channel_id),
            forall|id: u32|
                r.links@.contains(id) <==> old(self)@.links.dom().contains(id)
                    && old(self)@.links[id] == channel_id,
            r.handled == serves(old(self)@, channel_id),
    {
        let ghost before = self@;
        let had_listener = self.listeners.remove(channel_id);
        let links = self.links_of(channel_id);
        let mut i: usize = 0;
        while i < links.len()
            invariant
                self.wf(),
                i <= links.len(),
                self.listeners@ == before.listeners.remove(channel_id),
                forall|id: u32|
                    links@.contains(id) <==> before.links.dom().contains(id) && before.links[id]
                        == channel_id,
                forall|id: u32| #[trigger]
                    self.links@.dom().contains(id) <==> before.links.dom().contains(id) && !(exists|
                        j: int,
                    |
                        0 <= j < i && links@[j] == id),
                forall|id: u32| #[trigger]
                    self.links@.dom().contains(id) ==> self.links@[id] == before.links[id],
            decreases links.len() - i,
        {
            let ghost was = self.links@;
            let _ = self.links.remove(links[i]);
            proof {
                assert forall|id: u32| #[trigger]
                    self.links@.dom().contains(id) <==> before.links.dom().contains(id) && !(exists|
                        j: int,
                    |
                        0 <= j < i + 1 && links@[j] == id) by {
                    if self.links@.dom().contains(id) {
                        assert(was.dom().contains(id));
                        assert(links@[i as int] != id);
                    } else if before.links.dom().contains(id) {
                        if was.dom().contains(id) {
                            assert(links@[i as int] == id);
                        } else {
                            let j = choose|j: int| 0 <= j < i && links@[j] == id;
                            assert(links@[j] == id);
                        }
                    }
                }
            }
            i = i + 1;
        }
        let handled: bool = had_listener || links.len() > 0;
        proof {
            let after = without_forwardings(before, channel_id);
            assert forall|id: u32|
                self.links@.dom().contains(id) <==> #[trigger] after.links.dom().contains(id) by {
                if before.links.dom().contains(id) {
                    if before.links[id] == channel_id {
                        assert(links@.contains(id));
                        let j = choose|j: int| 0 <= j < links@.len() && links@[j] == id;
                        assert(links@[j] == id);
                    } else if !self.links@.dom().contains(id) {
                        let j = choose|j: int| 0 <= j < i && links@[j] == id;
                        assert(links@.contains(id));
                    }
                }
            }
            assert(self.links@ =~= after.links);
            if links@.len() > 0 {
                assert(links@.contains(links@[0]));
                assert(before.links.dom().contains(links@[0]));
            }
            if exists|id: u32| before.links.dom().contains(id) && before.links[id] == channel_id {
                let id = choose|id: u32|
                    before.links.dom().contains(id) && before.links[id] == channel_id;
                assert(links@.contains(id));
            }
        }
        ChannelEnd { had_listener, links, handled }
    }
}

/// What ended with a channel.
#[derive(Debug, PartialEq, Eq)]
pub struct ChannelEnd {
    /// The device listened for it.
    pub had_listener: bool,
    /// Its connections.
    pub links: Vec<u32>,
    /// The channel was that of a forwarding: the session goes on.
    pub handled: bool,
}

/// The channel is that of a forwarding.
pub open spec fn serves(v: ForwardStateView, channel_id: u32) -> bool {
    v.listeners.contains(channel_id) || exists|id: u32|
        v.links.dom().contains(id) && v.links[id] == channel_id
}

/// The connections and listeners without those of a channel.
pub open spec fn without_forwardings(v: ForwardStateView, channel_id: u32) -> ForwardStateView {
    ForwardStateView {
        links: Map::new(
            |id: u32| v.links.dom().contains(id) && v.links[id] != channel_id,
            |id: u32| v.links[id],
        ),
        listeners: v.listeners.remove(channel_id),
    }
}

/// After a channel has ended nothing is forwarded for it, and all else is as it was.
pub proof fn ended_channel_is_gone(v: ForwardStateView, channel_id: u32, other: u32)
    ensures
        !serves(without_forwardings(v, channel_id), channel_id),
        other != channel_id ==> serves(without_forwardings(v, channel_id), other) == serves(
            v,
            other,
        ),
{
    let w = without_forwardings(v, channel_id);
    if other != channel_id {
        if exists|id: u32| v.links.dom().contains(id) && v.links[id] == other {
            let id = choose|id: u32| v.links.dom().contains(id) && v.links[id] == other;
            assert(w.links.dom().contains(id) && w.links[id] == other);
        }
        if exists|id: u32| w.links.dom().contains(id) && w.links[id] == other {
            let id = choose|id: u32| w.links.dom().contains(id) && w.links[id] == other;
            assert(v.links.dom().contains(id) && v.links[id] == other);
        }
    }
}

/// The device connects to the node that the host names, where it does not listen for the
/// channel. The name holds no zero byte, which would end it.
pub proof fn asked_connection_is_made(v: ForwardStateView, channel_id: u32, id: u32, spec: Seq<char>)
    requires
        !encode_utf8(spec).contains(0u8),
        !v.listeners.contains(channel_id),
    ensures
        on_forward_message(
            v,
            forward::node_message(channel_id, HdcCommand::ForwardActiveSlave, id, spec),
        ) == (v, ForwardStepView::Connect(id, spec)),
        on_forward_message(
            v,
            forward::node_message(channel_id, HdcCommand::ForwardCheck, id, spec),
        ) == (v, ForwardStepView::Probe(id, spec)),
{
    forward::node_read_back(id, spec);
    text::text_of_its_bytes(spec);
}

/// What the host sends of a connection that it has asked for goes to that connection.
pub proof fn host_bytes_are_delivered(
    v: ForwardStateView,
    channel_id: u32,
    id: u32,
    data: Seq<u8>,
)
    requires
        v.links.dom().contains(id),
        !v.listeners.contains(channel_id),
    ensures
        on_forward_message(
            v,
            forward::link_message(channel_id, HdcCommand::ForwardData, id, data),
        ) == (v, ForwardStepView::Deliver(id, data)),
{
    let p = bytes::be32(id) + data;
    bytes::be32_read_back(p, 0, id);
    assert(p.skip(4) =~= data);
}

/// The host reads what the daemon tells of the outcome of a check, and goes on with the
/// forwarding where the node was reached, and with no other outcome.
pub proof fn check_is_understood(v: SetupView, ok: bool)
    requires
        v.phase == SetupPhase::Result,
    ensures
        ({
            let told = daemon_check_result(v.channel_id, v.ctx_id, ok);
            &&& forward::is_check_result(told, v.ctx_id)
            &&& (told.payload[4] != 0) == ok
            &&& forward_setup::on_setup_reply(v, ReplyView::Message(told)) == if ok {
                forward_setup::tell_ok(v, SetupPhase::Telling)
            } else {
                forward_setup::fall_back(v)
            }
        }),
{
    bytes::be32_read_back(daemon_check_result(v.channel_id, v.ctx_id, ok).payload, 0, v.ctx_id);
}

/// A request of the host for a forwarding from the device makes the device listen at the node
/// that is named first, for connections to the one that is named second. The names are not
/// empty and hold no white space, which would divide them.
pub proof fn request_opens_listener(
    v: ForwardStateView,
    channel_id: u32,
    first: Seq<char>,
    second: Seq<char>,
)
    requires
        first.len() > 0 && text::without_white(first),
        second.len() > 0 && text::without_white(second),
    ensures
        on_forward_message(v, forward::init_message(channel_id, first, second)) == (
            v,
            ForwardStepView::Listen(first, second),
        ),
{
    let nodes = seq![first, second];
    assert forall|i: int| 0 <= i < nodes.len() implies (#[trigger] nodes[i]).len() > 0
        && text::without_white(nodes[i]) by {
        assert(i == 0 || i == 1);
    }
    text::words_undo_join(nodes);
    assert(text::joined(nodes, seq![' ']) =~= first + " "@ + second) by {
        reveal_strlit(" ");
        reveal_with_fuel(text::joined, 3);
        assert(nodes.drop_last() =~= seq![first]);
    }
    text::text_of_its_bytes(first + " "@ + second);
    assert(nodes[0] == first && nodes[1] == second);
}

/// The nodes of a device: a port, a name, a file or a reserved name, as what stands before the
/// colon says. The device connects to the first two kinds, and listens at all of them.
pub proof fn nodes_are_read(port: u16, name: Seq<char>)
    ensures
        remote_node("tcp:"@ + text::decimal(port as nat)) == Ok::<_, NodeErrorView>(
            NodeView::Tcp(port),
        ),
        listener_node("tcp:"@ + text::decimal(port as nat)) == Ok::<_, NodeErrorView>(
            NodeView::Tcp(port),
        ),
        remote_node("localabstract:"@ + name) == Ok::<_, NodeErrorView>(NodeView::Abstract(name)),
        listener_node("localabstract:"@ + name) == Ok::<_, NodeErrorView>(NodeView::Abstract(name)),
        listener_node("localfilesystem:"@ + name) == Ok::<_, NodeErrorView>(NodeView::Path(name)),
        listener_node("localreserved:"@ + name) == Ok::<_, NodeErrorView>(
            NodeView::Reserved("/dev/unix/socket/"@ + name),
        ),
        remote_node("dev:"@ + name) == Err::<NodeView, _>(NodeErrorView::NoConnection("dev"@)),
        listener_node("dev:"@ + name) == Err::<NodeView, _>(NodeErrorView::NoListener("dev"@)),
        remote_node("localfilesystem:"@ + name) is Err,
        remote_node("localreserved:"@ + name) is Err,
{
    let d = text::decimal(port as nat);
    forward::port_is_read(port, Seq::empty(), Seq::empty());
    reveal_strlit("tcp");
    reveal_strlit("tcp:");
    reveal_strlit("localabstract");
    reveal_strlit("localabstract:");
    reveal_strlit("localfilesystem");
    reveal_strlit("localfilesystem:");
    reveal_strlit("localreserved");
    reveal_strlit("localreserved:");
    reveal_strlit("dev");
    reveal_strlit("dev:");
    assert("tcp:"@ + d =~= "tcp"@ + seq![':'] + d);
    assert("localabstract:"@ + name =~= "localabstract"@ + seq![':'] + name);
    assert("localfilesystem:"@ + name =~= "localfilesystem"@ + seq![':'] + name);
    assert("localreserved:"@ + name =~= "localreserved"@ + seq![':'] + name);
    assert("dev:"@ + name =~= "dev"@ + seq![':'] + name);
    assert(!"tcp"@.contains(':'));
    assert(!"localabstract"@.contains(':'));
    assert(!"localfilesystem"@.contains(':'));
    assert(!"localreserved"@.contains(':'));
    assert(!"dev"@.contains(':'));
    text::first_after("tcp"@, d, ':');
    text::first_after("localabstract"@, name, ':');
    text::first_after("localfilesystem"@, name, ':');
    text::first_after("localreserved"@, name, ':');
    text::first_after("dev"@, name, ':');
    assert("tcp"@.len() == 3 && "dev"@.len() == 3 && "tcp"@[0] == 't' && "dev"@[0] == 'd');
    assert("localabstract"@.len() == 13 && "localreserved"@.len() == 13);
    assert("localabstract"@[5] == 'a' && "localreserved"@[5] == 'r');
    assert("localfilesystem"@.len() == 15);
}

/// The host is told that a connection it has asked for stands, or that there is none: it then
/// lets bytes flow on the connection, or gives it up. Only a connection that stands is kept.
pub proof fn connection_is_told(v: ForwardStateView, channel_id: u32, id: u32, spec: Seq<char>)
    ensures
        ({
            let (w, m) = after_attempt(v, channel_id, id, spec, true);
            &&& forward_bridge::forward_route(m) == forward_bridge::RouteView::Deliver(
                id,
                Seq::empty(),
            )
            &&& m.channel_id == channel_id
            &&& w.links.dom().contains(id) && w.links[id] == channel_id
            &&& w.listeners == v.listeners
            &&& forall|other: u32|
                other != id ==> (#[trigger] w.links.dom().contains(other)
                    <==> v.links.dom().contains(other)) && (v.links.dom().contains(other)
                    ==> w.links[other] == v.links[other])
        }),
        ({
            let (w, m) = after_attempt(v, channel_id, id, spec, false);
            &&& forward_bridge::forward_route(m) == forward_bridge::RouteView::Free(id)
            &&& m.channel_id == channel_id
            &&& w == v
        }),
{
    bytes::be32_read_back(forward::node_payload(id, spec), 0, id);
    bytes::be32_read_back(bytes::be32(id) + Seq::<u8>::empty(), 0, id);
}

/// What the device answers by itself to requests about forwardings, and what it does when the
/// host gives a connection up.
pub proof fn other_forward_messages(v: ForwardStateView, channel_id: u32, id: u32, payload: Seq<u8>)
    requires
        !v.listeners.contains(channel_id),
    ensures
        on_forward_message(
            v,
            forward::link_message(channel_id, HdcCommand::ForwardFreeContext, id, payload),
        ) == (
            ForwardStateView { links: v.links.remove(id), ..v },
            ForwardStepView::Free(id),
        ),
        !v.links.dom().contains(id) ==> on_forward_message(
            v,
            forward::link_message(channel_id, HdcCommand::ForwardData, id, payload),
        ) == (v, ForwardStepView::Pass),
        forall|c: HdcCommand|
            c == HdcCommand::ForwardList || c == HdcCommand::ForwardRportList
                ==> #[trigger] on_forward_message(
                v,
                TaskMessageView { channel_id, command: c, payload },
            ) == (
                v,
                ForwardStepView::Send(
                    message::echo(channel_id, Seq::empty(), MessageLevel::Success),
                ),
            ),
        forall|c: HdcCommand|
            c == HdcCommand::ForwardRemove || c == HdcCommand::ForwardRportRemove
                ==> #[trigger] on_forward_message(
                v,
                TaskMessageView { channel_id, command: c, payload },
            ) == (
                v,
                ForwardStepView::Send(
                    message::echo(channel_id, "Forward removed"@, MessageLevel::Success),
                ),
            ),
{
    let p = bytes::be32(id) + payload;
    bytes::be32_read_back(p, 0, id);
}

/// What the host sends on the channel of a listener goes to the listener: the outcome of a
/// check, that a connection stands, its bytes, and its end.
pub proof fn listener_is_told(v: ForwardStateView, channel_id: u32, id: u32, data: Seq<u8>, ok: bool)
    requires
        v.listeners.contains(channel_id),
    ensures
        on_forward_message(v, forward::check_result(channel_id, id, ok)) == (
            v,
            ForwardStepView::Notify(ListenerNoteView::CheckResult { id, ok }),
        ),
        on_forward_message(v, forward_bridge::connected_message(channel_id, id, true)) == (
            v,
            ForwardStepView::Notify(ListenerNoteView::Active { id }),
        ),
        on_forward_message(v, forward_bridge::connected_message(channel_id, id, false)) == (
            v,
            ForwardStepView::Notify(ListenerNoteView::Free { id }),
        ),
        on_forward_message(
            v,
            forward::link_message(channel_id, HdcCommand::ForwardData, id, data),
        ) == (v, ForwardStepView::Notify(ListenerNoteView::Data { id, data })),
{
    forward::check_result_read_back(channel_id, id, ok);
    bytes::be32_read_back(forward::check_result(channel_id, id, ok).payload, 0, id);
    let p = bytes::be32(id) + data;
    let q = bytes::be32(id) + Seq::<u8>::empty();
    bytes::be32_read_back(p, 0, id);
    bytes::be32_read_back(q, 0, id);
    assert(p.skip(4) =~= data);
}

/// What the host says of a connection is understood: it asks the device to connect, it sends
/// bytes, it gives the connection up. A device that listens for the channel takes the same
/// words as news of the connections that it has taken.
pub proof fn connection_is_spoken_of(
    v: ForwardStateView,
    channel_id: u32,
    id: u32,
    spec: Seq<char>,
    data: Seq<u8>,
)
    requires
        !encode_utf8(spec).contains(0u8),
        v.links.dom().contains(id),
        !v.listeners.contains(channel_id),
    ensures
        ({
            let listens = with_listener(v, channel_id);
            &&& on_forward_message(v, forward::open_request(channel_id, id, spec)) == (
                v,
                ForwardStepView::Connect(id, spec),
            )
            &&& on_forward_message(v, forward::carried(channel_id, id, data)) == (
                v,
                ForwardStepView::Deliver(id, data),
            )
            &&& !on_forward_message(v, forward::given_up(channel_id, id)).0.links.dom().contains(id)
            &&& on_forward_message(listens, forward::carried(channel_id, id, data)) == (
                listens,
                ForwardStepView::Notify(ListenerNoteView::Data { id, data }),
            )
            &&& on_forward_message(listens, forward::given_up(channel_id, id)) == (
                listens,
                ForwardStepView::Notify(ListenerNoteView::Free { id }),
            )
            &&& listens.links == v.links
            &&& without_listener(listens, channel_id).listeners =~= v.listeners
            &&& forall|other: u32|
                other != channel_id ==> #[trigger] listens.listeners.contains(other)
                    == v.listeners.contains(other)
        }),
{
    asked_connection_is_made(v, channel_id, id, spec);
    host_bytes_are_delivered(v, channel_id, id, data);
    let p = bytes::be32(id) + data;
    let q = bytes::be32(id) + Seq::<u8>::empty();
    bytes::be32_read_back(p, 0, id);
    bytes::be32_read_back(q, 0, id);
    assert(p.skip(4) =~= data);
    assert(q.skip(4) =~= Seq::<u8>::empty());
}

/// The user reads which node cannot be listened at, and why.
pub proof fn unbound_node_is_told(
    transport: Transport,
    waiting: Set<(u32, u32)>,
    session_id: u32,
    channel_id: u32,
    spec: Seq<char>,
    reason: Seq<char>,
)
    requires
        !waiting.contains((session_id, channel_id)),
    ensures
        session::route(transport, waiting, session_id, unbound_told(channel_id, spec, reason))
            == session::RouteView::Client(
            channel_id,
            encode_utf8("[Fail]"@ + ("Failed to bind "@ + spec + ": "@ + reason) + "\r\n"@),
        ),
{
    message::user_is_told(
        transport,
        waiting,
        session_id,
        channel_id,
        "Failed to bind "@ + spec + ": "@ + reason,
        Seq::empty(),
    );
}

} // verus!
