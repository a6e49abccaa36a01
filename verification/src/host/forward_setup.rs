//! How a forwarding from the host to a device comes about.
//!
//! The host first opens its port and asks the daemon to check the other node. Where
//! that does not work out, and for debuggers from the start, the host has the daemon
//! begin instead, and answers the check of the daemon.

use crate::host::auth;
use crate::host::channel;
use crate::host::channel::find_zero;
use crate::host::forward;
use crate::host::forward::{ForwardError, check_result_in, is_known_remote, make_check_result, make_init_message, make_node_message, parse_forward_port};
use crate::host::forward_map;
use crate::host::forward_map::{ForwardDirection, ForwardEntry, ForwardEntryView, RuleView};
use crate::host::transfer::{Reply, ReplyView};
use crate::protocol::bytes;
use crate::protocol::bytes::{copy_range, read_be32};
use crate::protocol::command::HdcCommand;
use crate::protocol::config::{TaskMessage, TaskMessageView};
use crate::random::random_id;
use crate::text;
use crate::text::{concat3, contains_text, copy_text, decimal_text, lossy_text, starts_with};
use vstd::prelude::*;
use vstd::utf8::*;

verus! {

/// What the user is told when a forwarding stands.
pub const FORWARD_OK: &'static str = "Forwardport result:OK\r\n";

/// What is waited for.
#[derive(Debug, Clone, Copy, PartialEq, Eq, Structural)]
pub enum SetupPhase {
    /// The port of the host, before the daemon is asked.
    Binding,
    /// The sending of the request to check the other node.
    SendingCheck,
    /// The outcome of that check.
    Result,
    /// That the user is told.
    Telling,
    /// The sending of the request to begin.
    SendingInit,
    /// The check of the daemon.
    Check,
    /// The port of the host, after the check of the daemon.
    Rebinding,
    /// The sending of the answer to that check.
    SendingResult,
    /// The word of the daemon that the forwarding stands.
    Success,
    /// The sending of one more check, for a debugger.
    SendingFollowUp,
    /// The outcome of that check.
    FollowUp,
    /// That the user is told.
    TellingLast,
    /// Nothing: the forwarding stands.
    Established,
    /// Nothing: the forwarding failed.
    Failed,
}

/// A forwarding that is coming about.
pub struct ForwardSetup {
    channel_id: u32,
    listen_ip: String,
    port: u16,
    local_spec: String,
    remote_spec: String,
    ctx_id: u32,
    daemon_spec: String,
    phase: SetupPhase,
}

/// A forwarding that is coming about.
pub struct SetupView {
    pub channel_id: u32,
    /// The address and the port on which the host listens.
    pub listen_ip: Seq<char>,
    pub port: u16,
    /// The node of the host, as the user wrote it.
    pub local_spec: Seq<char>,
    /// The node of the device, as the user wrote it.
    pub remote_spec: Seq<char>,
    /// The number under which the two ends speak of the forwarding.
    pub ctx_id: u32,
    /// The node of the device, as the daemon names it.
    pub daemon_spec: Seq<char>,
    /// What is waited for.
    pub phase: SetupPhase,
}

impl View for ForwardSetup {
    type V = SetupView;

    closed spec fn view(&self) -> SetupView {
        SetupView {
            channel_id: self.channel_id,
            listen_ip: self.listen_ip@,
            port: self.port,
            local_spec: self.local_spec@,
            remote_spec: self.remote_spec@,
            ctx_id: self.ctx_id,
            daemon_spec: self.daemon_spec@,
            phase: self.phase,
        }
    }
}

/// What is to be done for a forwarding.
#[derive(Debug, PartialEq, Eq)]
pub enum SetupAction {
    /// Listen on an address.
    Bind(String),
    /// Wait for messages under one more number, then send a message.
    RegisterAndSend(u32, TaskMessage),
    /// Stop listening, where that has begun, then send a message.
    StartOver(TaskMessage),
    /// Send a message.
    Send(TaskMessage),
    /// Send a message, on a USB session.
    SendUsb(TaskMessage),
    /// Wait for messages, for at most so many seconds.
    Await(u64),
    /// Go on as before.
    Pass,
    /// Tell the user something, and say whether that worked.
    Tell(String),
    /// Send a message, on a USB session, whatever comes of it; no longer wait for
    /// messages; report the error.
    Refuse(TaskMessage, String),
    /// The forwarding stands.
    Establish,
    /// Report an error.
    Fail(String),
}

/// What is to be done for a forwarding.
pub enum SetupActionView {
    Bind(Seq<char>),
    RegisterAndSend(u32, TaskMessageView),
    StartOver(TaskMessageView),
    Send(TaskMessageView),
    SendUsb(TaskMessageView),
    Await(u64),
    Pass,
    Tell(Seq<char>),
    Refuse(TaskMessageView, Seq<char>),
    Establish,
    Fail(Seq<char>),
}

impl View for SetupAction {
    type V = SetupActionView;

    open spec fn view(&self) -> SetupActionView {
        match *self {
            SetupAction::Bind(s) => SetupActionView::Bind(s@),
            SetupAction::RegisterAndSend(id, m) => SetupActionView::RegisterAndSend(id, m@),
            SetupAction::StartOver(m) => SetupActionView::StartOver(m@),
            SetupAction::Send(m) => SetupActionView::Send(m@),
            SetupAction::SendUsb(m) => SetupActionView::SendUsb(m@),
            SetupAction::Await(t) => SetupActionView::Await(t),
            SetupAction::Pass => SetupActionView::Pass,
            SetupAction::Tell(s) => SetupActionView::Tell(s@),
            SetupAction::Refuse(m, s) => SetupActionView::Refuse(m@, s@),
            SetupAction::Establish => SetupActionView::Establish,
            SetupAction::Fail(s) => SetupActionView::Fail(s@),
        }
    }
}

/// The address on which the host listens.
pub open spec fn bind_address(v: SetupView) -> Seq<char> {
    v.listen_ip + ":"@ + text::decimal(v.port as nat)
}

/// The same forwarding, with something else waited for.
pub open spec fn at_phase(v: SetupView, phase: SetupPhase) -> SetupView {
    SetupView { phase, ..v }
}

/// The daemon is to begin.
pub open spec fn fall_back(v: SetupView) -> (SetupView, SetupActionView) {
    (
        at_phase(v, SetupPhase::SendingInit),
        SetupActionView::StartOver(forward::init_message(v.channel_id, v.local_spec, v.remote_spec)),
    )
}

/// The forwarding failed.
pub open spec fn setup_failed(v: SetupView, reason: Seq<char>) -> (SetupView, SetupActionView) {
    (at_phase(v, SetupPhase::Failed), SetupActionView::Fail(reason))
}

/// The forwarding stands.
pub open spec fn established(v: SetupView) -> (SetupView, SetupActionView) {
    (at_phase(v, SetupPhase::Established), SetupActionView::Establish)
}

/// How a forwarding begins: with the port of the host, but with the daemon for a
/// debugger.
pub open spec fn first_action(v: SetupView) -> (SetupView, SetupActionView) {
    if forward::is_debugger(v.remote_spec) {
        fall_back(v)
    } else {
        (at_phase(v, SetupPhase::Binding), SetupActionView::Bind(bind_address(v)))
    }
}

/// What comes of the attempt to listen: nothing is given where it worked, else the
/// reason.
pub open spec fn on_bound(v: SetupView, failure: Option<Seq<char>>) -> (SetupView, SetupActionView) {
    if v.phase == SetupPhase::Binding {
        match failure {
            None => (
                at_phase(v, SetupPhase::SendingCheck),
                SetupActionView::RegisterAndSend(
                    v.ctx_id,
                    forward::node_message(v.channel_id, HdcCommand::ForwardCheck, v.ctx_id, v.remote_spec),
                ),
            ),
            Some(_) => fall_back(v),
        }
    } else if v.phase == SetupPhase::Rebinding {
        match failure {
            None => (
                at_phase(v, SetupPhase::SendingResult),
                SetupActionView::SendUsb(forward::check_result(v.channel_id, v.ctx_id, true)),
            ),
            Some(e) => (
                at_phase(v, SetupPhase::Failed),
                SetupActionView::Refuse(
                    forward::check_result(v.channel_id, v.ctx_id, false),
                    "Failed to bind "@ + bind_address(v) + ": "@ + e,
                ),
            ),
        }
    } else {
        (v, SetupActionView::Pass)
    }
}

/// What comes of a message that was sent, or of what the user was told: nothing is
/// given where it worked, else the reason.
pub open spec fn on_sent(v: SetupView, failure: Option<Seq<char>>) -> (SetupView, SetupActionView) {
    match v.phase {
        SetupPhase::SendingCheck => match failure {
            None => (at_phase(v, SetupPhase::Result), SetupActionView::Await(5)),
            Some(_) => fall_back(v),
        },
        SetupPhase::Telling => match failure {
            None => established(v),
            Some(_) => fall_back(v),
        },
        SetupPhase::SendingInit => match failure {
            None => (at_phase(v, SetupPhase::Check), SetupActionView::Await(10)),
            Some(e) => setup_failed(v, e),
        },
        SetupPhase::SendingResult => match failure {
            None => (at_phase(v, SetupPhase::Success), SetupActionView::Await(5)),
            Some(e) => setup_failed(v, e),
        },
        SetupPhase::SendingFollowUp => match failure {
            None => (at_phase(v, SetupPhase::FollowUp), SetupActionView::Await(5)),
            Some(e) => setup_failed(v, e),
        },
        SetupPhase::TellingLast => match failure {
            None => established(v),
            Some(e) => setup_failed(v, e),
        },
        _ => (v, SetupActionView::Pass),
    }
}

/// The user is told that the forwarding stands.
pub open spec fn tell_ok(v: SetupView, phase: SetupPhase) -> (SetupView, SetupActionView) {
    (at_phase(v, phase), SetupActionView::Tell(FORWARD_OK@))
}

/// What follows the word of the daemon that the forwarding stands: one more check for
/// a debugger.
pub open spec fn after_success(v: SetupView) -> (SetupView, SetupActionView) {
    if forward::is_debugger(v.remote_spec) {
        (
            at_phase(v, SetupPhase::SendingFollowUp),
            SetupActionView::Send(
                forward::node_message(v.channel_id, HdcCommand::ForwardCheck, v.ctx_id, v.daemon_spec),
            ),
        )
    } else {
        tell_ok(v, SetupPhase::TellingLast)
    }
}

/// The node that the check of a daemon names.
pub open spec fn named_node(payload: Seq<u8>) -> Seq<char> {
    let rest = payload.skip(12);
    text::utf8_lossy(rest.take(channel::first_zero(rest)))
}

/// The message ends the wait for the word that the forwarding stands.
pub open spec fn says_success(m: TaskMessageView) -> bool {
    m.command == HdcCommand::ForwardSuccess || ((m.command == HdcCommand::KernelEcho || m.command
        == HdcCommand::KernelEchoRaw) && text::has_part(text::utf8_lossy(m.payload), "Forwardport result"@))
}

/// What comes of a reply to the request to check the other node.
pub open spec fn on_result(v: SetupView, reply: ReplyView) -> (SetupView, SetupActionView) {
    match reply {
        ReplyView::Message(m) => if forward::is_check_result(m, v.ctx_id) {
            if m.payload[4] != 0 {
                tell_ok(v, SetupPhase::Telling)
            } else {
                fall_back(v)
            }
        } else if m.command == HdcCommand::KernelChannelClose {
            fall_back(v)
        } else {
            (v, SetupActionView::Pass)
        },
        _ => fall_back(v),
    }
}

/// What comes of a reply to the request to begin.
pub open spec fn on_check(v: SetupView, reply: ReplyView) -> (SetupView, SetupActionView) {
    match reply {
        ReplyView::Closed => setup_failed(
            v,
            "Response channel closed while waiting for ForwardCheck"@,
        ),
        ReplyView::TimedOut => setup_failed(v, "Timeout waiting for ForwardCheck from daemon"@),
        ReplyView::Message(m) => if m.command == HdcCommand::ForwardCheck {
            if m.payload.len() < 13 {
                setup_failed(v, "ForwardCheck payload too short"@)
            } else {
                let w = SetupView {
                    ctx_id: bytes::be32_value(m.payload, 0),
                    daemon_spec: named_node(m.payload),
                    phase: SetupPhase::Rebinding,
                    ..v
                };
                (w, SetupActionView::Bind(bind_address(w)))
            }
        } else if m.command == HdcCommand::KernelChannelClose {
            setup_failed(v, "Channel closed by daemon during forward setup"@)
        } else {
            (v, SetupActionView::Pass)
        },
    }
}

/// What comes of a message, of the end of the session, or of none coming in time.
pub open spec fn on_setup_reply(v: SetupView, reply: ReplyView) -> (SetupView, SetupActionView) {
    match v.phase {
        SetupPhase::Result => on_result(v, reply),
        SetupPhase::Check => on_check(v, reply),
        SetupPhase::Success => match reply {
            ReplyView::Message(m) => if says_success(m) {
                after_success(v)
            } else {
                (v, SetupActionView::Pass)
            },
            _ => after_success(v),
        },
        SetupPhase::FollowUp => match reply {
            ReplyView::Message(m) => if forward::is_check_result(m, v.ctx_id) || m.command
                == HdcCommand::KernelChannelClose {
                tell_ok(v, SetupPhase::TellingLast)
            } else {
                (v, SetupActionView::Pass)
            },
            _ => tell_ok(v, SetupPhase::TellingLast),
        },
        _ => (v, SetupActionView::Pass),
    }
}

/// A forwarding as it begins.
pub open spec fn new_setup(
    channel_id: u32,
    listen_ip: Seq<char>,
    nodes: (Seq<char>, Seq<char>, u16),
    ctx_id: u32,
) -> SetupView {
    SetupView {
        channel_id,
        listen_ip,
        port: nodes.2,
        local_spec: nodes.0,
        remote_spec: nodes.1,
        ctx_id,
        daemon_spec: nodes.1,
        phase: SetupPhase::Binding,
    }
}

/// A forwarding as it is listed.
pub open spec fn rule_of(v: SetupView) -> Seq<char> {
    v.local_spec + " "@ + v.remote_spec
}

/// What the server keeps of a forwarding: the host listens.
pub open spec fn kept_forwarding(v: SetupView, session_id: u32, connect_key: Seq<char>) -> ForwardEntryView {
    ForwardEntryView {
        channel_id: v.channel_id,
        session_id,
        connect_key,
        direction: ForwardDirection::Forward,
        task_string: v.local_spec + " "@ + v.remote_spec,
        has_listener: true,
    }
}

impl ForwardSetup {
    /// Begins a forwarding, under a number that the caller has drawn.
    pub fn begin(channel_id: u32, listen_ip: &str, params: &[String], ctx_id: u32) -> (r: Result<
        (Self, SetupAction),
        ForwardError,
    >)
        ensures
            match r {
                Ok((s, a)) => forward::forward_nodes(text::texts(params@)) is Ok && (s@, a@) == first_action(
                    new_setup(
                        channel_id,
                        listen_ip@,
                        forward::forward_nodes(text::texts(params@))->Ok_0,
                        ctx_id,
                    ),
                ),
                Err(e) => forward::forward_nodes(text::texts(params@)) == Err::<(Seq<char>, Seq<char>, u16), _>(
                    e@,
                ),
            },
    {
        if params.len() < 3 {
            return Err(ForwardError::MissingNodes);
        }
        proof {
            assert(text::texts(params@)[1] == params@[1]@);
            assert(text::texts(params@)[2] == params@[2]@);
        }
        let local_spec = copy_text(params[1].as_str());
        let remote_spec = copy_text(params[2].as_str());
        if !starts_with(local_spec.as_str(), "tcp:") {
            return Err(ForwardError::LocalNotTcp);
        }
        let port: u16 = match parse_forward_port(local_spec.as_str()) {
            Ok(p) => p,
            Err(e) => return Err(e),
        };
        if !is_known_remote(remote_spec.as_str()) {
            return Err(ForwardError::UnknownRemote(remote_spec));
        }
        let daemon_spec = copy_text(remote_spec.as_str());
        let mut setup = ForwardSetup {
            channel_id,
            listen_ip: copy_text(listen_ip),
            port,
            local_spec,
            remote_spec,
            ctx_id,
            daemon_spec,
            phase: SetupPhase::Binding,
        };
        let action = if setup.for_debugger() {
            setup.begin_by_daemon()
        } else {
            SetupAction::Bind(setup.address())
        };
        Ok((setup, action))
    }

    /// Begins a forwarding, under a number that chance gives.
    pub fn start(channel_id: u32, listen_ip: &str, params: &[String]) -> (r: Result<
        (Self, SetupAction),
        ForwardError,
    >)
        ensures
            match r {
                Ok((s, a)) => forward::forward_nodes(text::texts(params@)) is Ok && exists|ctx_id: u32|
                    (s@, a@) == first_action(
                        #[trigger] new_setup(
                            channel_id,
                            listen_ip@,
                            forward::forward_nodes(text::texts(params@))->Ok_0,
                            ctx_id,
                        ),
                    ),
                Err(e) => forward::forward_nodes(text::texts(params@)) == Err::<(Seq<char>, Seq<char>, u16), _>(
                    e@,
                ),
            },
    {
        let ctx_id: u32 = random_id();
        ForwardSetup::begin(channel_id, listen_ip, params, ctx_id)
    }

    fn for_debugger(&self) -> (r: bool)
        ensures
            r == forward::is_debugger(self@.remote_spec),
    {
        let s = self.remote_spec.as_str();
        starts_with(s, "ark:") || starts_with(s, "jdwp:")
    }

    fn address(&self) -> (r: String)
        ensures
            r@ == bind_address(self@),
    {
        concat3(self.listen_ip.as_str(), ":", decimal_text(self.port as u64).as_str())
    }

    fn begin_by_daemon(&mut self) -> (r: SetupAction)
        ensures
            (final(self)@, r@) == fall_back(old(self)@),
    {
        self.phase = SetupPhase::SendingInit;
        SetupAction::StartOver(
            make_init_message(
                self.channel_id,
                self.local_spec.as_str(),
                self.remote_spec.as_str(),
            ),
        )
    }

    fn fail(&mut self, reason: String) -> (r: SetupAction)
        ensures
            (final(self)@, r@) == setup_failed(old(self)@, reason@),
    {
        self.phase = SetupPhase::Failed;
        SetupAction::Fail(reason)
    }

    fn establish(&mut self) -> (r: SetupAction)
        ensures
            (final(self)@, r@) == established(old(self)@),
    {
        self.phase = SetupPhase::Established;
        SetupAction::Establish
    }

    fn tell(&mut self, phase: SetupPhase) -> (r: SetupAction)
        ensures
            (final(self)@, r@) == tell_ok(old(self)@, phase),
    {
        self.phase = phase;
        SetupAction::Tell(FORWARD_OK.to_owned())
    }

    /// What comes of the attempt to listen: nothing is given where it worked, else the
    /// reason.
    pub fn bound(&mut self, failure: Option<String>) -> (r: SetupAction)
        ensures
            (final(self)@, r@) == on_bound(old(self)@, auth::opt_text(failure)),
    {
        match self.phase {
            SetupPhase::Binding => match failure {
                None => {
                    self.phase = SetupPhase::SendingCheck;
                    let m = make_node_message(
                        self.channel_id,
                        HdcCommand::ForwardCheck,
                        self.ctx_id,
                        self.remote_spec.as_str(),
                    );
                    SetupAction::RegisterAndSend(self.ctx_id, m)
                },
                Some(_) => self.begin_by_daemon(),
            },
            SetupPhase::Rebinding => match failure {
                None => {
                    self.phase = SetupPhase::SendingResult;
                    SetupAction::SendUsb(make_check_result(self.channel_id, self.ctx_id, true))
                },
                Some(e) => {
                    self.phase = SetupPhase::Failed;
                    let mut s = concat3("Failed to bind ", self.address().as_str(), ": ");
                    s.append(e.as_str());
                    SetupAction::Refuse(make_check_result(self.channel_id, self.ctx_id, false), s)
                },
            },
            _ => SetupAction::Pass,
        }
    }

    /// What comes of a message that was sent, or of what the user was told: nothing is
    /// given where it worked, else the reason.
    pub fn sent(&mut self, failure: Option<String>) -> (r: SetupAction)
        ensures
            (final(self)@, r@) == on_sent(old(self)@, auth::opt_text(failure)),
    {
        match self.phase {
            SetupPhase::SendingCheck => match failure {
                None => {
                    self.phase = SetupPhase::Result;
                    SetupAction::Await(5)
                },
                Some(_) => self.begin_by_daemon(),
            },
            SetupPhase::Telling => match failure {
                None => self.establish(),
                Some(_) => self.begin_by_daemon(),
            },
            SetupPhase::SendingInit => match failure {
                None => {
                    self.phase = SetupPhase::Check;
                    SetupAction::Await(10)
                },
                Some(e) => self.fail(e),
            },
            SetupPhase::SendingResult => match failure {
                None => {
                    self.phase = SetupPhase::Success;
                    SetupAction::Await(5)
                },
                Some(e) => self.fail(e),
            },
            SetupPhase::SendingFollowUp => match failure {
                None => {
                    self.phase = SetupPhase::FollowUp;
                    SetupAction::Await(5)
                },
                Some(e) => self.fail(e),
            },
            SetupPhase::TellingLast => match failure {
                None => self.establish(),
                Some(e) => self.fail(e),
            },
            _ => SetupAction::Pass,
        }
    }

    fn on_their_check(&mut self, reply: &Reply) -> (r: SetupAction)
        ensures
            (final(self)@, r@) == on_check(old(self)@, reply@),
    {
        match reply {
            Reply::Closed => self.fail(
                "Response channel closed while waiting for ForwardCheck".to_owned(),
            ),
            Reply::TimedOut => self.fail("Timeout waiting for ForwardCheck from daemon".to_owned()),
            Reply::Message(m) => match m.command {
                HdcCommand::ForwardCheck => {
                    if m.payload.len() < 13 {
                        return self.fail("ForwardCheck payload too short".to_owned());
                    }
                    self.ctx_id = read_be32(m.payload.as_slice(), 0);
                    let end: usize = find_zero(m.payload.as_slice(), 12);
                    let name = copy_range(m.payload.as_slice(), 12, end);
                    proof {
                        let rest = m.payload@.skip(12);
                        assert(name@ =~= rest.take(channel::first_zero(rest)));
                    }
                    self.daemon_spec = lossy_text(name.as_slice());
                    self.phase = SetupPhase::Rebinding;
                    SetupAction::Bind(self.address())
                },
                HdcCommand::KernelChannelClose => self.fail(
                    "Channel closed by daemon during forward setup".to_owned(),
                ),
                _ => SetupAction::Pass,
            },
        }
    }

    fn on_our_check(&mut self, reply: &Reply) -> (r: SetupAction)
        ensures
            (final(self)@, r@) == on_result(old(self)@, reply@),
    {
        match reply {
            Reply::Message(m) => match check_result_in(m, self.ctx_id) {
                Some(ok) => {
                    if ok {
                        self.tell(SetupPhase::Telling)
                    } else {
                        self.begin_by_daemon()
                    }
                },
                None => {
                    if m.command == HdcCommand::KernelChannelClose {
                        self.begin_by_daemon()
                    } else {
                        SetupAction::Pass
                    }
                },
            },
            _ => self.begin_by_daemon(),
        }
    }

    fn go_on(&mut self) -> (r: SetupAction)
        ensures
            (final(self)@, r@) == after_success(old(self)@),
    {
        if self.for_debugger() {
            self.phase = SetupPhase::SendingFollowUp;
            SetupAction::Send(
                make_node_message(
                    self.channel_id,
                    HdcCommand::ForwardCheck,
                    self.ctx_id,
                    self.daemon_spec.as_str(),
                ),
            )
        } else {
            self.tell(SetupPhase::TellingLast)
        }
    }

    /// What comes of a message, of the end of the session, or of none coming in time.
    pub fn replied(&mut self, reply: &Reply) -> (r: SetupAction)
        ensures
            (final(self)@, r@) == on_setup_reply(old(self)@, reply@),
    {
        match self.phase {
            SetupPhase::Result => self.on_our_check(reply),
            SetupPhase::Check => self.on_their_check(reply),
            SetupPhase::Success => {
                let stands: bool = match reply {
                    Reply::Message(m) => m.command == HdcCommand::ForwardSuccess || ((m.command
                        == HdcCommand::KernelEcho || m.command == HdcCommand::KernelEchoRaw)
                        && contains_text(
                        lossy_text(m.payload.as_slice()).as_str(),
                        "Forwardport result",
                    )),
                    _ => true,
                };
                if stands {
                    self.go_on()
                } else {
                    SetupAction::Pass
                }
            },
            SetupPhase::FollowUp => {
                let over: bool = match reply {
                    Reply::Message(m) => check_result_in(m, self.ctx_id).is_some() || m.command
                        == HdcCommand::KernelChannelClose,
                    _ => true,
                };
                if over {
                    self.tell(SetupPhase::TellingLast)
                } else {
                    SetupAction::Pass
                }
            },
            _ => SetupAction::Pass,
        }
    }

    /// The node of the device, as the daemon names it.
    pub fn daemon_spec(&self) -> (r: String)
        ensures
            r@ == self@.daemon_spec,
    {
        copy_text(self.daemon_spec.as_str())
    }

    /// The forwarding as it is listed, once it stands.
    pub fn rule(&self) -> (r: String)
        ensures
            r@ == rule_of(self@),
    {
        concat3(self.local_spec.as_str(), " ", self.remote_spec.as_str())
    }

    /// What the server keeps of the forwarding, once it stands: the host listens.
    pub fn entry(&self, session_id: u32, connect_key: &str) -> (r: ForwardEntry)
        ensures
            r@ == kept_forwarding(self@, session_id, connect_key@),
    {
        ForwardEntry {
            channel_id: self.channel_id,
            session_id,
            connect_key: copy_text(connect_key),
            direction: ForwardDirection::Forward,
            task_string: self.rule(),
            has_listener: true,
        }
    }
}

/// How far a forwarding has come.
pub open spec fn setup_rank(phase: SetupPhase) -> nat {
    match phase {
        SetupPhase::Binding => 0,
        SetupPhase::SendingCheck => 1,
        SetupPhase::Result => 2,
        SetupPhase::Telling => 3,
        SetupPhase::SendingInit => 4,
        SetupPhase::Check => 5,
        SetupPhase::Rebinding => 6,
        SetupPhase::SendingResult => 7,
        SetupPhase::Success => 8,
        SetupPhase::SendingFollowUp => 9,
        SetupPhase::FollowUp => 10,
        SetupPhase::TellingLast => 11,
        SetupPhase::Established => 12,
        SetupPhase::Failed => 12,
    }
}

/// The attempt to make a forwarding ends: every step that does something brings it
/// further, and there are twelve at most.
pub proof fn setup_advances(v: SetupView, failure: Option<Seq<char>>, reply: ReplyView)
    ensures
        on_bound(v, failure).1 is Pass || setup_rank(on_bound(v, failure).0.phase) > setup_rank(
            v.phase,
        ),
        on_sent(v, failure).1 is Pass || setup_rank(on_sent(v, failure).0.phase) > setup_rank(
            v.phase,
        ),
        on_setup_reply(v, reply).1 is Pass || setup_rank(on_setup_reply(v, reply).0.phase)
            > setup_rank(v.phase),
        setup_rank(v.phase) <= 12,
{
}

/// No message and no delay makes a forwarding stand: the user has been told of it before.
pub proof fn established_only_when_told(v: SetupView, failure: Option<Seq<char>>, reply: ReplyView)
    ensures
        !(on_bound(v, failure).1 is Establish),
        !(on_setup_reply(v, reply).1 is Establish),
        on_sent(v, failure).1 is Establish ==> failure is None && (v.phase == SetupPhase::Telling
            || v.phase == SetupPhase::TellingLast),
{
}

/// What is waited for leaves the two nodes as the user wrote them.
pub proof fn setup_keeps_nodes(v: SetupView, failure: Option<Seq<char>>, reply: ReplyView)
    ensures
        on_bound(v, failure).0.local_spec == v.local_spec,
        on_bound(v, failure).0.remote_spec == v.remote_spec,
        on_sent(v, failure).0.local_spec == v.local_spec,
        on_sent(v, failure).0.remote_spec == v.remote_spec,
        on_setup_reply(v, reply).0.local_spec == v.local_spec,
        on_setup_reply(v, reply).0.remote_spec == v.remote_spec,
{
}

/// A forwarding to a node that is not that of a debugger: the host listens on its port, asks
/// the device under a number whether the node answers, waits five seconds for the result, tells
/// the user that it stands, and then it does.
pub proof fn forwarding_is_set_up(
    channel_id: u32,
    listen_ip: Seq<char>,
    local: Seq<char>,
    remote: Seq<char>,
    port: u16,
    ctx_id: u32,
)
    requires
        !forward::is_debugger(remote),
    ensures
        ({
            let v0 = new_setup(channel_id, listen_ip, (local, remote, port), ctx_id);
            let (v1, a1) = first_action(v0);
            let (v2, a2) = on_bound(v1, None);
            let (v3, a3) = on_sent(v2, None);
            let answer = forward::link_message(
                channel_id,
                HdcCommand::ForwardCheckResult,
                ctx_id,
                seq![1u8],
            );
            let (v4, a4) = on_setup_reply(v3, ReplyView::Message(answer));
            let (v5, a5) = on_sent(v4, None);
            &&& a1 == SetupActionView::Bind(listen_ip + ":"@ + text::decimal(port as nat))
            &&& a2 == SetupActionView::RegisterAndSend(
                ctx_id,
                forward::node_message(channel_id, HdcCommand::ForwardCheck, ctx_id, remote),
            )
            &&& a3 == SetupActionView::Await(5)
            &&& a4 == SetupActionView::Tell("Forwardport result:OK\r\n"@)
            &&& a5 is Establish
            &&& v5.local_spec == local && v5.remote_spec == remote && v5.daemon_spec == remote
        }),
{
    let p = bytes::be32(ctx_id) + seq![1u8];
    bytes::be32_read_back(p, 0, ctx_id);
    assert(p[4] == 1);
}

/// Where the node is that of a debugger, or the first attempt comes to nothing, the device is
/// told the two nodes in the order in which the user gave them, and waited for ten seconds.
pub proof fn device_is_told_the_nodes(
    v: SetupView,
    channel_id: u32,
    listen_ip: Seq<char>,
    local: Seq<char>,
    remote: Seq<char>,
    port: u16,
    ctx_id: u32,
    reason: Seq<char>,
    reply: ReplyView,
)
    ensures
        forward::is_debugger(remote) ==> first_action(
            new_setup(channel_id, listen_ip, (local, remote, port), ctx_id),
        ).1 == SetupActionView::StartOver(
            TaskMessageView {
                channel_id,
                command: HdcCommand::ForwardInit,
                payload: encode_utf8(local) + seq![32u8] + encode_utf8(remote),
            },
        ),
        v.phase == SetupPhase::Binding || v.phase == SetupPhase::SendingCheck || v.phase
            == SetupPhase::Telling || v.phase == SetupPhase::Result ==> {
            let told = SetupActionView::StartOver(
                TaskMessageView {
                    channel_id: v.channel_id,
                    command: HdcCommand::ForwardInit,
                    payload: encode_utf8(v.local_spec) + seq![32u8] + encode_utf8(v.remote_spec),
                },
            );
            &&& v.phase == SetupPhase::Binding ==> on_bound(v, Some(reason)).1 == told
            &&& v.phase == SetupPhase::SendingCheck || v.phase == SetupPhase::Telling ==> on_sent(
                v,
                Some(reason),
            ).1 == told
            &&& v.phase == SetupPhase::Result && !(reply is Message) ==> on_setup_reply(
                v,
                reply,
            ).1 == told
        },
        v.phase == SetupPhase::SendingInit ==> on_sent(v, None).1 == SetupActionView::Await(10)
            && on_sent(v, None).0.phase == SetupPhase::Check,
{
    forward::nodes_keep_their_order(channel_id, local, remote);
    forward::nodes_keep_their_order(v.channel_id, v.local_spec, v.remote_spec);
}

/// Where the device asks back for a node, the host listens on its port and says under the number
/// of the device that it does. Then the forwarding stands, for a debugger after the device has
/// been asked for the node that it named itself. Where the host cannot listen, the device and
/// the user are told.
pub proof fn device_asks_back(v: SetupView, channel_id: u32, id: u32, spec: Seq<char>, e: Seq<char>)
    requires
        v.phase == SetupPhase::Check,
        !encode_utf8(spec).contains(0u8),
    ensures
        ({
            let asked = forward::node_message(channel_id, HdcCommand::ForwardCheck, id, spec);
            let (v1, a1) = on_setup_reply(v, ReplyView::Message(asked));
            let (v2, a2) = on_bound(v1, None);
            let (v3, a3) = on_sent(v2, None);
            let (v4, a4) = on_setup_reply(
                v3,
                ReplyView::Message(
                    TaskMessageView {
                        channel_id,
                        command: HdcCommand::ForwardSuccess,
                        payload: Seq::empty(),
                    },
                ),
            );
            &&& a1 == SetupActionView::Bind(v.listen_ip + ":"@ + text::decimal(v.port as nat))
            &&& v1.ctx_id == id && v1.daemon_spec == spec
            &&& a2 == SetupActionView::SendUsb(
                forward::link_message(
                    v.channel_id,
                    HdcCommand::ForwardCheckResult,
                    id,
                    seq![1u8],
                ),
            )
            &&& on_bound(v1, Some(e)).1 == SetupActionView::Refuse(
                forward::link_message(
                    v.channel_id,
                    HdcCommand::ForwardCheckResult,
                    id,
                    seq![0u8],
                ),
                "Failed to bind "@ + (v.listen_ip + ":"@ + text::decimal(v.port as nat)) + ": "@
                    + e,
            )
            &&& a3 == SetupActionView::Await(5)
            &&& !forward::is_debugger(v.remote_spec) ==> a4 == SetupActionView::Tell(
                "Forwardport result:OK\r\n"@,
            ) && on_sent(v4, None).1 is Establish
            &&& forward::is_debugger(v.remote_spec) ==> a4 == SetupActionView::Send(
                forward::node_message(v.channel_id, HdcCommand::ForwardCheck, id, spec),
            ) && on_sent(v4, None).1 == SetupActionView::Await(5) && on_setup_reply(
                on_sent(v4, None).0,
                ReplyView::TimedOut,
            ).1 == SetupActionView::Tell("Forwardport result:OK\r\n"@)
        }),
{
    forward::node_read_back(id, spec);
    text::text_of_its_bytes(spec);
}

/// A forwarding from the host is listed with its device, its two nodes and its direction.
pub proof fn forwarding_is_listed(v: SetupView, session_id: u32, key: Seq<char>)
    ensures
        ({
            let e = kept_forwarding(v, session_id, key);
            &&& forward_map::rule_line(RuleView { rule: rule_of(v), entry: e }) == key + "    "@ + (
            v.local_spec + " "@ + v.remote_spec) + "    "@ + "[Forward]"@
            &&& rule_of(v) == v.local_spec + " "@ + v.remote_spec
            &&& e.channel_id == v.channel_id
            &&& e.session_id == session_id
            &&& e.connect_key == key
            &&& e.has_listener
        }),
{
}

/// Each word of a setup is waited for once the one before it has gone. Before the daemon has
/// been asked to begin, a failure has it asked with both nodes; after that a failure ends the
/// setup with its reason.
pub proof fn setup_goes_through_its_phases(v: SetupView, e: Seq<char>)
    ensures
        ({
            let begin = SetupActionView::StartOver(
                TaskMessageView {
                    channel_id: v.channel_id,
                    command: HdcCommand::ForwardInit,
                    payload: encode_utf8(v.local_spec + " "@ + v.remote_spec),
                },
            );
            let (well, action) = on_sent(v, None);
            let (ill, failure) = on_sent(v, Some(e));
            &&& v.phase == SetupPhase::SendingCheck ==> action == SetupActionView::Await(5)
                && well.phase == SetupPhase::Result && failure == begin && ill.phase
                == SetupPhase::SendingInit
            &&& v.phase == SetupPhase::Telling ==> action is Establish && well.phase
                == SetupPhase::Established && failure == begin && ill.phase
                == SetupPhase::SendingInit
            &&& v.phase == SetupPhase::SendingInit ==> action == SetupActionView::Await(10)
                && well.phase == SetupPhase::Check && failure == SetupActionView::Fail(e)
                && ill.phase == SetupPhase::Failed
            &&& v.phase == SetupPhase::SendingResult ==> action == SetupActionView::Await(5)
                && well.phase == SetupPhase::Success && failure == SetupActionView::Fail(e)
            &&& v.phase == SetupPhase::SendingFollowUp ==> action == SetupActionView::Await(5)
                && well.phase == SetupPhase::FollowUp && failure == SetupActionView::Fail(e)
            &&& v.phase == SetupPhase::TellingLast ==> action is Establish && well.phase
                == SetupPhase::Established && failure == SetupActionView::Fail(e)
            &&& v.phase == SetupPhase::Binding ==> on_bound(v, Some(e)).1 == begin && on_bound(
                v,
                Some(e),
            ).0.phase == SetupPhase::SendingInit
            &&& v.phase == SetupPhase::Binding ==> on_bound(v, None).0.phase
                == SetupPhase::SendingCheck
        }),
{
}

/// Silence of the daemon is no failure once it has been told the outcome: the user is told that
/// the forwarding stands. Before that it has the daemon asked to begin, or ends the setup.
pub proof fn silence_is_answered(v: SetupView, m: TaskMessageView, said: Seq<char>)
    requires
        !forward::is_debugger(v.remote_spec),
        m.command == HdcCommand::KernelChannelClose,
    ensures
        ({
            let ok = SetupActionView::Tell("Forwardport result:OK\r\n"@);
            let success = TaskMessageView {
                channel_id: v.channel_id,
                command: HdcCommand::ForwardSuccess,
                payload: encode_utf8(said),
            };
            &&& v.phase == SetupPhase::Result ==> {
                &&& on_setup_reply(v, ReplyView::TimedOut).1 is StartOver
                &&& on_setup_reply(v, ReplyView::Closed).1 is StartOver
                &&& on_setup_reply(v, ReplyView::Message(m)).1 is StartOver
            }
            &&& v.phase == SetupPhase::Check ==> {
                &&& on_setup_reply(v, ReplyView::TimedOut).1 == SetupActionView::Fail(
                    "Timeout waiting for ForwardCheck from daemon"@,
                )
                &&& on_setup_reply(v, ReplyView::Closed).1 == SetupActionView::Fail(
                    "Response channel closed while waiting for ForwardCheck"@,
                )
                &&& on_setup_reply(v, ReplyView::Message(m)).1 == SetupActionView::Fail(
                    "Channel closed by daemon during forward setup"@,
                )
            }
            &&& v.phase == SetupPhase::Success ==> {
                &&& on_setup_reply(v, ReplyView::TimedOut).1 == ok
                &&& on_setup_reply(v, ReplyView::Closed).1 == ok
                &&& on_setup_reply(v, ReplyView::Message(success)).1 == ok
                &&& on_setup_reply(v, ReplyView::Message(m)) == (v, SetupActionView::Pass)
            }
            &&& v.phase == SetupPhase::FollowUp ==> {
                &&& on_setup_reply(v, ReplyView::TimedOut).1 == ok
                &&& on_setup_reply(v, ReplyView::Closed).1 == ok
                &&& on_setup_reply(v, ReplyView::Message(m)).1 == ok
            }
        }),
{
}

/// A debugger is set up from the device: the host has it begin at once, and asks once more
/// after its nodes before the user is told.
pub proof fn debuggers_begin_at_the_device(v: SetupView, m: TaskMessageView)
    requires
        forward::is_debugger(v.remote_spec),
        m.command == HdcCommand::ForwardSuccess,
    ensures
        first_action(v).1 == SetupActionView::StartOver(
            TaskMessageView {
                channel_id: v.channel_id,
                command: HdcCommand::ForwardInit,
                payload: encode_utf8(v.local_spec + " "@ + v.remote_spec),
            },
        ),
        first_action(v).0.phase == SetupPhase::SendingInit,
        v.phase == SetupPhase::Success ==> {
            let (w, action) = on_setup_reply(v, ReplyView::Message(m));
            &&& action == SetupActionView::Send(
                forward::node_message(
                    v.channel_id,
                    HdcCommand::ForwardCheck,
                    v.ctx_id,
                    v.daemon_spec,
                ),
            )
            &&& w.phase == SetupPhase::SendingFollowUp
            &&& on_sent(w, None).1 == SetupActionView::Await(5)
            &&& on_sent(w, None).0.phase == SetupPhase::FollowUp
        },
{
}

/// The daemon says that a forwarding stands with a word of its own, or in a text for the user
/// that speaks of the result; no other message says so.
pub proof fn success_is_heard(channel_id: u32, c: HdcCommand, said: Seq<char>)
    ensures
        ({
            let m = TaskMessageView { channel_id, command: c, payload: encode_utf8(said) };
            &&& c == HdcCommand::ForwardSuccess ==> says_success(m)
            &&& c == HdcCommand::KernelEcho || c == HdcCommand::KernelEchoRaw ==> (says_success(m)
                <==> text::has_part(said, "Forwardport result"@))
            &&& c != HdcCommand::ForwardSuccess && c != HdcCommand::KernelEcho && c
                != HdcCommand::KernelEchoRaw ==> !says_success(m)
        }),
{
    text::text_of_its_bytes(said);
}

} // verus!
