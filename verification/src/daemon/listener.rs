//! A listener on the device whose connections go to the host.

use crate::daemon::links;
use crate::daemon::links::{ForwardStepView, ListenerNote, ListenerNoteView};
use crate::host::dispatch::text_bytes;
use crate::host::forward;
use crate::host::forward::{make_link_message, make_node_message};
use crate::host::forward_bridge;
use crate::host::forward_bridge::make_connected;
use crate::host::transfer::ReplyView;
use crate::protocol::bytes;
use crate::protocol::command::HdcCommand;
use crate::protocol::config::{TaskMessage, TaskMessageView};
use crate::random::random_id;
use crate::text::{concat3, copy_text};
use vstd::prelude::*;
use vstd::utf8::*;

verus! {

/// A listener on the device.
pub struct Listener {
    channel_id: u32,
    id: u32,
    remote_spec: String,
    local_spec: String,
}

/// A listener on the device.
pub struct ListenerView {
    pub channel_id: u32,
    /// The number under which the host is asked.
    pub id: u32,
    /// The node on which the device listens.
    pub remote_spec: Seq<char>,
    /// The node on the host.
    pub local_spec: Seq<char>,
}

impl View for Listener {
    type V = ListenerView;

    closed spec fn view(&self) -> ListenerView {
        ListenerView {
            channel_id: self.channel_id,
            id: self.id,
            remote_spec: self.remote_spec@,
            local_spec: self.local_spec@,
        }
    }
}

/// What comes of a note while the host is asked whether its node answers.
#[derive(Debug, PartialEq, Eq)]
pub enum AskedStep {
    /// The note does not count.
    Pass,
    /// The listener may take connections; the host is told so.
    Ready(TaskMessage),
    /// The listener is given up.
    End,
}

/// What comes of a note while the host is asked whether its node answers.
pub enum AskedStepView {
    Pass,
    Ready(TaskMessageView),
    End,
}

impl View for AskedStep {
    type V = AskedStepView;

    open spec fn view(&self) -> AskedStepView {
        match *self {
            AskedStep::Pass => AskedStepView::Pass,
            AskedStep::Ready(m) => AskedStepView::Ready(m@),
            AskedStep::End => AskedStepView::End,
        }
    }
}

/// The word that the listener takes connections.
pub open spec fn ready_message(v: ListenerView) -> TaskMessageView {
    TaskMessageView {
        channel_id: v.channel_id,
        command: HdcCommand::ForwardSuccess,
        payload: encode_utf8("0|"@ + v.remote_spec + " "@ + v.local_spec),
    }
}

/// What comes of a note while the host is asked; no note comes once the session has
/// ended.
pub open spec fn on_asked(v: ListenerView, note: Option<ListenerNoteView>) -> AskedStepView {
    match note {
        None => AskedStepView::End,
        Some(ListenerNoteView::Shutdown) => AskedStepView::End,
        Some(ListenerNoteView::CheckResult { id, ok }) => if id != v.id {
            AskedStepView::Pass
        } else if ok {
            AskedStepView::Ready(ready_message(v))
        } else {
            AskedStepView::End
        },
        Some(_) => AskedStepView::Pass,
    }
}

/// The note that stands there, if one does.
pub open spec fn opt_note(note: Option<ListenerNote>) -> Option<ListenerNoteView> {
    match note {
        Some(n) => Some(n@),
        None => None,
    }
}

impl Listener {
    /// A listener for two nodes, under a number that the caller has drawn.
    pub fn new(channel_id: u32, id: u32, remote_spec: &str, local_spec: &str) -> (r: Self)
        ensures
            r@ == (ListenerView {
                channel_id,
                id,
                remote_spec: remote_spec@,
                local_spec: local_spec@,
            }),
    {
        Listener {
            channel_id,
            id,
            remote_spec: copy_text(remote_spec),
            local_spec: copy_text(local_spec),
        }
    }

    /// A listener for two nodes, under a number that chance gives.
    pub fn open(channel_id: u32, remote_spec: &str, local_spec: &str) -> (r: Self)
        ensures
            r@.channel_id == channel_id,
            r@.remote_spec == remote_spec@,
            r@.local_spec == local_spec@,
    {
        let id: u32 = random_id();
        Listener::new(channel_id, id, remote_spec, local_spec)
    }

    /// The question whether the node on the host answers.
    pub fn question(&self) -> (r: TaskMessage)
        ensures
            r@ == forward::node_message(
                self@.channel_id,
                HdcCommand::ForwardCheck,
                self@.id,
                self@.local_spec,
            ),
    {
        make_node_message(
            self.channel_id,
            HdcCommand::ForwardCheck,
            self.id,
            self.local_spec.as_str(),
        )
    }

    /// What comes of a note while the host is asked.
    pub fn asked(&self, note: &Option<ListenerNote>) -> (r: AskedStep)
        ensures
            r@ == on_asked(self@, opt_note(*note)),
    {
        match note {
            None => AskedStep::End,
            Some(ListenerNote::Shutdown) => AskedStep::End,
            Some(ListenerNote::CheckResult { id, ok }) => {
                if *id != self.id {
                    AskedStep::Pass
                } else if *ok {
                    let mut s = concat3("0|", self.remote_spec.as_str(), " ");
                    s.append(self.local_spec.as_str());
                    AskedStep::Ready(
                        TaskMessage {
                            channel_id: self.channel_id,
                            command: HdcCommand::ForwardSuccess,
                            payload: text_bytes(s.as_str()),
                        },
                    )
                } else {
                    AskedStep::End
                }
            },
            Some(_) => AskedStep::Pass,
        }
    }
}

/// The host answers the question of a listener, and the listener takes the answer.
pub proof fn question_is_answered(v: ListenerView, ok: bool)
    ensures
        ({
            let answer = forward::check_result(v.channel_id, v.id, ok);
            &&& links::listener_step(answer) == Some(
                ForwardStepView::Notify(ListenerNoteView::CheckResult { id: v.id, ok }),
            )
            &&& on_asked(v, Some(ListenerNoteView::CheckResult { id: v.id, ok })) is Ready == ok
        }),
{
    forward::check_result_read_back(v.channel_id, v.id, ok);
}

// ---------------------------------------------------------------------------
// Connections of a listener
// ---------------------------------------------------------------------------

/// What a connection of a listener is told.
#[derive(Debug, PartialEq, Eq)]
pub enum LinkNote {
    /// The host has connected.
    Active,
    /// The host has sent bytes.
    Data(Vec<u8>),
    /// The listener has ended.
    Shutdown,
}

/// What a connection of a listener is told.
pub enum LinkNoteView {
    Active,
    Data(Seq<u8>),
    Shutdown,
}

impl View for LinkNote {
    type V = LinkNoteView;

    open spec fn view(&self) -> LinkNoteView {
        match *self {
            LinkNote::Active => LinkNoteView::Active,
            LinkNote::Data(b) => LinkNoteView::Data(b@),
            LinkNote::Shutdown => LinkNoteView::Shutdown,
        }
    }
}

/// Where a note goes that comes while connections are taken.
#[derive(Debug, PartialEq, Eq)]
pub enum NoteRoute {
    /// A connection is told something.
    Tell(u32, LinkNote),
    /// A connection is given up.
    Free(u32),
    /// The listener ends.
    End,
    /// Nowhere.
    Pass,
}

/// Where a note goes that comes while connections are taken.
pub enum NoteRouteView {
    Tell(u32, LinkNoteView),
    Free(u32),
    End,
    Pass,
}

impl View for NoteRoute {
    type V = NoteRouteView;

    open spec fn view(&self) -> NoteRouteView {
        match *self {
            NoteRoute::Tell(id, n) => NoteRouteView::Tell(id, n@),
            NoteRoute::Free(id) => NoteRouteView::Free(id),
            NoteRoute::End => NoteRouteView::End,
            NoteRoute::Pass => NoteRouteView::Pass,
        }
    }
}

/// Where a note goes that comes while connections are taken; no note comes once the
/// session has ended.
pub open spec fn note_route(note: Option<ListenerNoteView>) -> NoteRouteView {
    match note {
        None => NoteRouteView::End,
        Some(ListenerNoteView::Shutdown) => NoteRouteView::End,
        Some(ListenerNoteView::Active { id }) => NoteRouteView::Tell(id, LinkNoteView::Active),
        Some(ListenerNoteView::Data { id, data }) => NoteRouteView::Tell(
            id,
            LinkNoteView::Data(data),
        ),
        Some(ListenerNoteView::Free { id }) => NoteRouteView::Free(id),
        Some(ListenerNoteView::CheckResult { .. }) => NoteRouteView::Pass,
    }
}

/// Where a note goes that comes while connections are taken.
pub fn route_note(note: Option<ListenerNote>) -> (r: NoteRoute)
    ensures
        r@ == note_route(opt_note(note)),
{
    match note {
        None => NoteRoute::End,
        Some(n) => match n {
            ListenerNote::Shutdown => NoteRoute::End,
            ListenerNote::Active { id } => NoteRoute::Tell(id, LinkNote::Active),
            ListenerNote::Data { id, data } => NoteRoute::Tell(id, LinkNote::Data(data)),
            ListenerNote::Free { id } => NoteRoute::Free(id),
            ListenerNote::CheckResult { .. } => NoteRoute::Pass,
        },
    }
}

/// A connection that a listener has taken.
pub struct Link {
    channel_id: u32,
    id: u32,
    active: bool,
}

/// A connection that a listener has taken.
pub struct LinkView {
    pub channel_id: u32,
    /// The number under which the two ends speak of it.
    pub id: u32,
    /// The host has connected.
    pub active: bool,
}

impl View for Link {
    type V = LinkView;

    closed spec fn view(&self) -> LinkView {
        LinkView { channel_id: self.channel_id, id: self.id, active: self.active }
    }
}

/// What comes of a note for a connection.
#[derive(Debug, PartialEq, Eq)]
pub enum LinkStep {
    /// Bytes are written.
    Write(Vec<u8>),
    /// The host has connected: bytes may flow.
    Open,
    /// The connection ends.
    End,
    /// Nothing.
    Pass,
}

/// What comes of a note for a connection.
pub enum LinkStepView {
    Write(Seq<u8>),
    Open,
    End,
    Pass,
}

impl View for LinkStep {
    type V = LinkStepView;

    open spec fn view(&self) -> LinkStepView {
        match *self {
            LinkStep::Write(b) => LinkStepView::Write(b@),
            LinkStep::Open => LinkStepView::Open,
            LinkStep::End => LinkStepView::End,
            LinkStep::Pass => LinkStepView::Pass,
        }
    }
}

/// What comes of a note for a connection; no note comes once the listener is gone.
pub open spec fn on_link_note(v: LinkView, note: Option<LinkNoteView>) -> (LinkView, LinkStepView) {
    match note {
        None => (v, LinkStepView::End),
        Some(LinkNoteView::Shutdown) => (v, LinkStepView::End),
        Some(LinkNoteView::Active) => if v.active {
            (v, LinkStepView::Pass)
        } else {
            (LinkView { active: true, ..v }, LinkStepView::Open)
        },
        Some(LinkNoteView::Data(data)) => if v.active {
            (v, LinkStepView::Write(data))
        } else {
            (v, LinkStepView::Pass)
        },
    }
}

impl Link {
    /// A connection under a number that the caller has drawn.
    pub fn new(channel_id: u32, id: u32) -> (r: Self)
        ensures
            r@ == (LinkView { channel_id, id, active: false }),
    {
        Link { channel_id, id, active: false }
    }

    /// A connection under a number that chance gives.
    pub fn open(channel_id: u32) -> (r: Self)
        ensures
            r@.channel_id == channel_id,
            !r@.active,
    {
        let id: u32 = random_id();
        Link::new(channel_id, id)
    }

    /// The number under which the two ends speak of the connection.
    pub fn id(&self) -> (r: u32)
        ensures
            r == self@.id,
    {
        self.id
    }

    /// The request that the host connect to its node.
    pub fn request(&self, local_spec: &str) -> (r: TaskMessage)
        ensures
            r@ == forward::open_request(self@.channel_id, self@.id, local_spec@),
    {
        make_node_message(self.channel_id, HdcCommand::ForwardActiveSlave, self.id, local_spec)
    }

    /// What comes of a note.
    pub fn noted(&mut self, note: Option<LinkNote>) -> (r: LinkStep)
        ensures
            (final(self)@, r@) == on_link_note(
                old(self)@,
                match note {
                    Some(n) => Some(n@),
                    None => None,
                },
            ),
    {
        match note {
            None => LinkStep::End,
            Some(n) => match n {
                LinkNote::Shutdown => LinkStep::End,
                LinkNote::Active => {
                    if self.active {
                        LinkStep::Pass
                    } else {
                        self.active = true;
                        LinkStep::Open
                    }
                },
                LinkNote::Data(data) => {
                    if self.active {
                        LinkStep::Write(data)
                    } else {
                        LinkStep::Pass
                    }
                },
            },
        }
    }

    /// The message that carries what was read.
    pub fn outgoing(&self, data: &[u8]) -> (r: TaskMessage)
        ensures
            r@ == forward::carried(self@.channel_id, self@.id, data@),
    {
        make_link_message(self.channel_id, HdcCommand::ForwardData, self.id, data)
    }

    /// The message that gives the connection up.
    pub fn release(&self) -> (r: TaskMessage)
        ensures
            r@ == forward::given_up(self@.channel_id, self@.id),
    {
        make_connected(self.channel_id, self.id, false)
    }
}

/// Nothing is written to a connection before the host has connected.
pub proof fn nothing_before_the_host(v: LinkView, note: Option<LinkNoteView>)
    ensures
        on_link_note(v, note).1 is Write ==> v.active,
        v.active ==> on_link_note(v, note).0.active,
{
}

/// Once the host says that it has connected, bytes may flow on a connection that a listener
/// has taken; what the host sends of it is then written.
pub proof fn taken_connection_opens(v: LinkView, data: Seq<u8>)
    requires
        !v.active,
    ensures
        ({
            let connected = forward::link_message(
                v.channel_id,
                HdcCommand::ForwardActiveMaster,
                v.id,
                Seq::empty(),
            );
            let sent = forward::link_message(v.channel_id, HdcCommand::ForwardData, v.id, data);
            let (open, step) = on_link_note(v, Some(LinkNoteView::Active));
            &&& links::listener_step(connected) == Some(
                ForwardStepView::Notify(ListenerNoteView::Active { id: v.id }),
            )
            &&& note_route(Some(ListenerNoteView::Active { id: v.id })) == NoteRouteView::Tell(
                v.id,
                LinkNoteView::Active,
            )
            &&& step is Open
            &&& links::listener_step(sent) == Some(
                ForwardStepView::Notify(ListenerNoteView::Data { id: v.id, data }),
            )
            &&& note_route(Some(ListenerNoteView::Data { id: v.id, data })) == NoteRouteView::Tell(
                v.id,
                LinkNoteView::Data(data),
            )
            &&& on_link_note(open, Some(LinkNoteView::Data(data))).1 == LinkStepView::Write(data)
        }),
{
    let connected = bytes::be32(v.id) + Seq::<u8>::empty();
    let sent = bytes::be32(v.id) + data;
    bytes::be32_read_back(connected, 0, v.id);
    bytes::be32_read_back(sent, 0, v.id);
    assert(sent.skip(4) =~= data);
}

/// The host takes the word of a listener that it is ready.
pub proof fn ready_is_understood(v: ListenerView)
    ensures
        forward_bridge::on_reverse_reply(v.channel_id, ReplyView::Message(ready_message(v))) is Ready,
{
}

/// A listener is ready once the host says that it can connect, and tells then both nodes, the
/// one it listens at first. It ends where the host cannot, where the session ends or where it
/// is told to; words about another number change nothing.
pub proof fn listener_waits_for_the_host(v: ListenerView, other: u32, ok: bool, data: Seq<u8>)
    requires
        other != v.id,
    ensures
        on_asked(v, Some(ListenerNoteView::CheckResult { id: v.id, ok: true }))
            == AskedStepView::Ready(
            TaskMessageView {
                channel_id: v.channel_id,
                command: HdcCommand::ForwardSuccess,
                payload: encode_utf8("0|"@ + v.remote_spec + " "@ + v.local_spec),
            },
        ),
        on_asked(v, Some(ListenerNoteView::CheckResult { id: v.id, ok: false })) is End,
        on_asked(v, Some(ListenerNoteView::CheckResult { id: other, ok })) is Pass,
        on_asked(v, Some(ListenerNoteView::Active { id: v.id })) is Pass,
        on_asked(v, Some(ListenerNoteView::Data { id: v.id, data })) is Pass,
        on_asked(v, Some(ListenerNoteView::Free { id: v.id })) is Pass,
        on_asked(v, Some(ListenerNoteView::Shutdown)) is End,
        on_asked(v, None) is End,
{
}

/// Notes that come while connections are taken go to the connection with their number; the
/// listener ends with the session or where it is told to.
pub proof fn notes_go_to_their_connection(v: LinkView, id: u32, ok: bool, data: Seq<u8>)
    ensures
        note_route(Some(ListenerNoteView::Active { id })) == NoteRouteView::Tell(
            id,
            LinkNoteView::Active,
        ),
        note_route(Some(ListenerNoteView::Data { id, data })) == NoteRouteView::Tell(
            id,
            LinkNoteView::Data(data),
        ),
        note_route(Some(ListenerNoteView::Free { id })) == NoteRouteView::Free(id),
        note_route(Some(ListenerNoteView::CheckResult { id, ok })) is Pass,
        note_route(Some(ListenerNoteView::Shutdown)) is End,
        note_route(None) is End,
        on_link_note(v, None) == (v, LinkStepView::End),
        on_link_note(v, Some(LinkNoteView::Shutdown)) == (v, LinkStepView::End),
        v.active ==> on_link_note(v, Some(LinkNoteView::Active)) == (v, LinkStepView::Pass),
        v.active ==> on_link_note(v, Some(LinkNoteView::Data(data))) == (
            v,
            LinkStepView::Write(data),
        ),
        !v.active ==> on_link_note(v, Some(LinkNoteView::Data(data))) == (v, LinkStepView::Pass),
        !v.active ==> on_link_note(v, Some(LinkNoteView::Active)).0 == (LinkView {
            channel_id: v.channel_id,
            id: v.id,
            active: true,
        }),
{
}

} // verus!
