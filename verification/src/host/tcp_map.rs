//! The TCP connections of the server: those to daemons, which are sessions, and
//! those from clients, which are channels.
//!
//! The table says which of them have a writer. Whoever owns the writers keeps them
//! under the same numbers.

use crate::ciphers;
use crate::ciphers::Ciphers;
use crate::protocol::bytes;
use crate::protocol::bytes::{push_be32, push_bytes};
use crate::protocol::encrypt;
use crate::protocol::encrypt::{CipherError, PskCipher, PskCipherView};
use crate::tables::{IdSet, Table};
use vstd::prelude::*;

verus! {

/// Why nothing was sent.
#[derive(Debug, Clone, Copy, PartialEq, Eq, Structural)]
pub enum SendError {
    /// There is no TCP session with the number.
    NoSession,
    /// There is no channel with the number.
    NoChannel,
    /// There is no USB session with the number.
    NoUsbSession,
    /// The session is encrypted and the message could not be.
    Cipher(CipherError),
}

impl SendError {
    /// The sentence that reports the error.
    pub open spec fn text(self) -> Seq<char> {
        match self {
            SendError::NoSession => "session not found"@,
            SendError::NoChannel => "channel not found"@,
            SendError::NoUsbSession => "usb session not found"@,
            SendError::Cipher(e) => e.text(),
        }
    }

    /// The sentence that reports the error.
    pub fn message(&self) -> (r: String)
        ensures
            r@ == self.text(),
    {
        match *self {
            SendError::NoSession => "session not found".to_owned(),
            SendError::NoChannel => "channel not found".to_owned(),
            SendError::NoUsbSession => "usb session not found".to_owned(),
            SendError::Cipher(e) => e.message(),
        }
    }
}

/// A message to a client, or an encrypted frame, behind its length in four bytes.
/// Of the length 32 bits are written.
pub open spec fn framed(data: Seq<u8>) -> Seq<u8> {
    bytes::be32((data.len() % 0x1_0000_0000) as u32) + data
}

/// Puts the length of `data` before it.
pub fn frame(data: &[u8]) -> (r: Vec<u8>)
    ensures
        r@ == framed(data@),
{
    let mut out: Vec<u8> = Vec::new();
    push_be32(&mut out, (data.len() as u64 % 0x1_0000_0000) as u32);
    push_bytes(&mut out, data);
    assert(out@ =~= framed(data@));
    out
}

/// The length before a message is that of the message.
pub proof fn framed_length(data: Seq<u8>)
    requires
        data.len() < 0x1_0000_0000,
    ensures
        bytes::be32_value(framed(data), 0) == data.len(),
        framed(data).skip(4) == data,
{
    bytes::be32_read_back(framed(data), 0, data.len() as u32);
    assert(framed(data).skip(4) =~= data);
}

/// The sessions and channels that have a writer, and what is known of them.
pub struct TcpMap {
    session_writers: IdSet,
    session_ciphers: Ciphers,
    channel_writers: IdSet,
    channel_sessions: Table<u32>,
    keep_alive_channels: IdSet,
}

/// What the table says.
pub struct TcpMapView {
    /// The sessions that have a writer.
    pub sessions: Set<u32>,
    /// The ciphers of the encrypted sessions.
    pub ciphers: Map<u32, PskCipherView>,
    /// The channels that have a writer.
    pub channels: Set<u32>,
    /// The sessions that channels belong to.
    pub channel_sessions: Map<u32, u32>,
    /// The channels that are not closed after a command.
    pub kept_alive: Set<u32>,
}

impl View for TcpMap {
    type V = TcpMapView;

    closed spec fn view(&self) -> TcpMapView {
        TcpMapView {
            sessions: self.session_writers@,
            ciphers: self.session_ciphers@,
            channels: self.channel_writers@,
            channel_sessions: self.channel_sessions@,
            kept_alive: self.keep_alive_channels@,
        }
    }
}

/// The table with a session that has a writer.
pub open spec fn with_session(m: TcpMapView, id: u32) -> TcpMapView {
    TcpMapView { sessions: m.sessions.insert(id), ..m }
}

/// The table without a session.
pub open spec fn without_session(m: TcpMapView, id: u32) -> TcpMapView {
    TcpMapView { sessions: m.sessions.remove(id), ..m }
}

/// The table with a channel that has a writer.
pub open spec fn with_channel(m: TcpMapView, id: u32) -> TcpMapView {
    TcpMapView { channels: m.channels.insert(id), ..m }
}

/// The table with a channel that is kept alive.
pub open spec fn with_kept_channel(m: TcpMapView, id: u32) -> TcpMapView {
    TcpMapView { kept_alive: m.kept_alive.insert(id), ..m }
}

/// The table with a session that is encrypted.
pub open spec fn with_cipher(m: TcpMapView, id: u32, cipher: PskCipherView) -> TcpMapView {
    TcpMapView { ciphers: m.ciphers.insert(id, cipher), ..m }
}

/// The table with a channel that belongs to a session.
pub open spec fn with_owner(m: TcpMapView, channel_id: u32, session_id: u32) -> TcpMapView {
    TcpMapView { channel_sessions: m.channel_sessions.insert(channel_id, session_id), ..m }
}

/// The table once somebody has taken a channel over.
pub open spec fn without_taken_channel(m: TcpMapView, id: u32) -> TcpMapView {
    TcpMapView {
        channels: m.channels.remove(id),
        channel_sessions: m.channel_sessions.remove(id),
        ..m
    }
}

/// The table without the channels that belong to a session.
pub open spec fn without_channels_of(m: TcpMapView, session_id: u32) -> TcpMapView {
    TcpMapView {
        channels: m.channels.difference(channels_of(m, session_id)),
        channel_sessions: m.channel_sessions.remove_keys(channels_of(m, session_id)),
        ..m
    }
}

/// The table without a channel, which is then neither kept alive.
pub open spec fn without_channel(m: TcpMapView, id: u32) -> TcpMapView {
    TcpMapView { channels: m.channels.remove(id), kept_alive: m.kept_alive.remove(id), ..m }
}

/// The table once a channel was closed, unless it is kept alive.
pub open spec fn after_command(m: TcpMapView, id: u32) -> TcpMapView {
    if m.kept_alive.contains(id) {
        m
    } else {
        without_channel(m, id)
    }
}

/// The channels that belong to a session.
pub open spec fn channels_of(m: TcpMapView, session_id: u32) -> Set<u32> {
    Set::new(
        |id: u32|
            m.channel_sessions.dom().contains(id) && m.channel_sessions[id] == session_id,
    )
}

impl TcpMap {
    /// No number is held twice.
    pub closed spec fn wf(self) -> bool {
        &&& self.session_writers.wf()
        &&& self.session_ciphers.wf()
        &&& self.channel_writers.wf()
        &&& self.channel_sessions.wf()
        &&& self.keep_alive_channels.wf()
    }

    /// No connections.
    pub fn new() -> (r: Self)
        ensures
            r.wf(),
            r@ == (TcpMapView {
                sessions: Set::empty(),
                ciphers: Map::empty(),
                channels: Set::empty(),
                channel_sessions: Map::empty(),
                kept_alive: Set::empty(),
            }),
    {
        TcpMap {
            session_writers: IdSet::new(),
            session_ciphers: Ciphers::new(),
            channel_writers: IdSet::new(),
            channel_sessions: Table::new(),
            keep_alive_channels: IdSet::new(),
        }
    }

    /// A session has a writer.
    pub fn start_session(&mut self, id: u32)
        requires
            old(self).wf(),
        ensures
            final(self).wf(),
            final(self)@ == with_session(old(self)@, id),
    {
        self.session_writers.insert(id);
    }

    /// A channel has a writer.
    pub fn start_channel(&mut self, id: u32)
        requires
            old(self).wf(),
        ensures
            final(self).wf(),
            final(self)@ == with_channel(old(self)@, id),
    {
        self.channel_writers.insert(id);
    }

    /// A session ends; says whether there is a writer to shut down.
    pub fn end_session(&mut self, id: u32) -> (r: bool)
        requires
            old(self).wf(),
        ensures
            final(self).wf(),
            final(self)@ == without_session(old(self)@, id),
            r == old(self)@.sessions.contains(id),
    {
        self.session_writers.remove(id)
    }

    /// A channel ends; says whether there is a writer to shut down.
    pub fn end_channel(&mut self, id: u32) -> (r: bool)
        requires
            old(self).wf(),
        ensures
            final(self).wf(),
            final(self)@ == without_channel(old(self)@, id),
            r == old(self)@.channels.contains(id),
    {
        let _ = self.keep_alive_channels.remove(id);
        self.channel_writers.remove(id)
    }

    /// A channel is not to be closed after a command.
    pub fn set_keep_alive(&mut self, channel_id: u32)
        requires
            old(self).wf(),
        ensures
            final(self).wf(),
            final(self)@ == with_kept_channel(old(self)@, channel_id),
    {
        self.keep_alive_channels.insert(channel_id);
    }

    /// Whether a channel is not to be closed after a command.
    pub fn is_keep_alive(&self, channel_id: u32) -> (r: bool)
        requires
            self.wf(),
        ensures
            r == self@.kept_alive.contains(channel_id),
    {
        self.keep_alive_channels.contains(channel_id)
    }

    /// The bytes that carry a packet to a session: the packet itself, or, for an
    /// encrypted session, its encrypted form behind its length.
    pub fn send_to_session(&mut self, session_id: u32, data: &[u8]) -> (r: Result<
        Vec<u8>,
        SendError,
    >)
        requires
            old(self).wf(),
        ensures
            final(self).wf(),
            !old(self)@.sessions.contains(session_id) ==> r == Err::<Vec<u8>, _>(
                SendError::NoSession,
            ) && final(self)@ == old(self)@,
            old(self)@.sessions.contains(session_id) ==> {
                &&& final(self)@ == (TcpMapView {
                    ciphers: ciphers::after_sealing(old(self)@.ciphers, session_id, data@),
                    ..old(self)@
                })
                &&& match r {
                    Ok(b) => ciphers::sealed_for(old(self)@.ciphers, session_id, data@) == Ok::<
                        _,
                        CipherError,
                    >(b@),
                    Err(e) => e is Cipher && ciphers::sealed_for(old(self)@.ciphers, session_id, data@)
                        == Err::<Seq<u8>, _>(e->Cipher_0),
                }
            },
            r is Ok && old(self)@.ciphers.dom().contains(session_id) ==> encrypt::opened_frame(
                old(self)@.ciphers[session_id].send_key,
                r->Ok_0@.skip(4),
            ) == Ok::<_, CipherError>(data@),
    {
        if !self.session_writers.contains(session_id) {
            return Err(SendError::NoSession);
        }
        match self.session_ciphers.seal(session_id, data) {
            Ok(b) => Ok(b),
            Err(e) => Err(SendError::Cipher(e)),
        }
    }

    /// A session is encrypted from now on.
    pub fn set_session_cipher(&mut self, session_id: u32, cipher: PskCipher)
        requires
            old(self).wf(),
        ensures
            final(self).wf(),
            final(self)@ == with_cipher(old(self)@, session_id, cipher@),
    {
        self.session_ciphers.set(session_id, cipher);
    }

    /// The cipher of a session.
    pub fn get_session_cipher(&self, session_id: u32) -> (r: Option<&PskCipher>)
        requires
            self.wf(),
        ensures
            match r {
                Some(c) => self@.ciphers.dom().contains(session_id) && c@
                    == self@.ciphers[session_id],
                None => !self@.ciphers.dom().contains(session_id),
            },
    {
        self.session_ciphers.get(session_id)
    }

    /// The plain packet in a frame that an encrypted session received.
    pub fn decrypt_from_session(&mut self, session_id: u32, data: &[u8]) -> (r: Option<
        Result<Vec<u8>, CipherError>,
    >)
        requires
            old(self).wf(),
        ensures
            final(self).wf(),
            final(self)@ == (TcpMapView {
                ciphers: ciphers::after_opening(old(self)@.ciphers, session_id, data@),
                ..old(self)@
            }),
            r is Some == old(self)@.ciphers.dom().contains(session_id),
            r is Some ==> match r->Some_0 {
                Ok(b) => encrypt::opened_frame(old(self)@.ciphers[session_id].recv_key, data@) == Ok::<
                    _,
                    CipherError,
                >(b@),
                Err(e) => encrypt::opened_frame(old(self)@.ciphers[session_id].recv_key, data@) == Err::<
                    Seq<u8>,
                    _,
                >(e),
            },
    {
        self.session_ciphers.open(session_id, data)
    }

    /// The bytes that carry a message to a client.
    pub fn send_channel_message(&self, channel_id: u32, data: &[u8]) -> (r: Result<
        Vec<u8>,
        SendError,
    >)
        requires
            self.wf(),
        ensures
            match r {
                Ok(bytes) => self@.channels.contains(channel_id) && bytes@ == framed(data@),
                Err(e) => !self@.channels.contains(channel_id) && e == SendError::NoChannel,
            },
    {
        if self.channel_writers.contains(channel_id) {
            Ok(frame(data))
        } else {
            Err(SendError::NoChannel)
        }
    }

    /// A channel is handed over; says whether there is a writer to hand over.
    pub fn take_channel_writer(&mut self, channel_id: u32) -> (r: bool)
        requires
            old(self).wf(),
        ensures
            final(self).wf(),
            final(self)@ == without_taken_channel(old(self)@, channel_id),
            r == old(self)@.channels.contains(channel_id),
    {
        let _ = self.channel_sessions.remove(channel_id);
        self.channel_writers.remove(channel_id)
    }

    /// A channel belongs to a session, and is closed when the device goes away.
    pub fn associate_channel_with_session(&mut self, channel_id: u32, session_id: u32)
        requires
            old(self).wf(),
        ensures
            final(self).wf(),
            final(self)@ == with_owner(old(self)@, channel_id, session_id),
    {
        self.channel_sessions.insert(channel_id, session_id);
    }

    /// Closes the channels that belong to a session; tells those that have a writer
    /// to shut down.
    pub fn close_session_channels(&mut self, session_id: u32) -> (r: Vec<u32>)
        requires
            old(self).wf(),
        ensures
            final(self).wf(),
            final(self)@ == without_channels_of(old(self)@, session_id),
            r@.no_duplicates(),
            forall|id: u32|
                r@.contains(id) <==> channels_of(old(self)@, session_id).contains(id) && old(
                    self,
                )@.channels.contains(id),
    {
        let ids = self.channel_sessions.ids();
        let ghost before = self@;
        let ghost mine = channels_of(before, session_id);
        let ghost mut seen: Set<u32> = Set::empty();
        let mut closed: Vec<u32> = Vec::new();
        let mut i: usize = 0;
        assert(self@.channels =~= before.channels.difference(mine.intersect(seen)));
        assert(self@.channel_sessions =~= before.channel_sessions.remove_keys(
            mine.intersect(seen),
        ));
        while i < ids.len()
            invariant
                self.wf(),
                i <= ids@.len(),
                ids@.no_duplicates(),
                before == old(self)@,
                mine == channels_of(before, session_id),
                forall|id: u32| ids@.contains(id) <==> before.channel_sessions.dom().contains(id),
                forall|id: u32| seen.contains(id) <==> ids@.take(i as int).contains(id),
                self@ == (TcpMapView {
                    channels: before.channels.difference(mine.intersect(seen)),
                    channel_sessions: before.channel_sessions.remove_keys(mine.intersect(seen)),
                    ..before
                }),
                closed@.no_duplicates(),
                forall|id: u32|
                    closed@.contains(id) <==> seen.contains(id) && mine.contains(id)
                        && before.channels.contains(id),
            decreases ids@.len() - i,
        {
            let id: u32 = ids[i];
            let ghost seen0 = seen;
            let ghost closed0 = closed@;
            proof {
                seen = seen.insert(id);
                assert(ids@.contains(id));
                assert(!seen0.contains(id)) by {
                    let then = ids@.take(i as int);
                    if then.contains(id) {
                        let k = choose|k: int| 0 <= k < then.len() && then[k] == id;
                        assert(ids@[k] == ids@[i as int]);
                    }
                }
                let now = ids@.take(i + 1);
                let then = ids@.take(i as int);
                assert(now =~= then.push(id));
                assert forall|x: u32| seen.contains(x) <==> now.contains(x) by {
                    if now.contains(x) {
                        let k = choose|k: int| 0 <= k < now.len() && now[k] == x;
                        if k < i {
                            assert(then[k] == x);
                        }
                    }
                    if seen0.contains(x) {
                        let k = choose|k: int| 0 <= k < then.len() && then[k] == x;
                        assert(now[k] == x);
                    }
                    assert(now[i as int] == id);
                }
            }
            let belongs: bool = match self.channel_sessions.get(id) {
                Some(s) => *s == session_id,
                None => false,
            };
            assert(self@.channel_sessions.dom().contains(id));
            assert(belongs == mine.contains(id));
            assert(self@.channels.contains(id) == before.channels.contains(id));
            if belongs {
                let _ = self.channel_sessions.remove(id);
                if self.channel_writers.remove(id) {
                    closed.push(id);
                    proof {
                        assert forall|x: u32| closed@.contains(x) <==> closed0.contains(x) || x
                            == id by {
                            if closed@.contains(x) {
                                let k = choose|k: int| 0 <= k < closed@.len() && closed@[k] == x;
                                if k < closed0.len() {
                                    assert(closed0[k] == x);
                                }
                            }
                            if closed0.contains(x) {
                                let k = choose|k: int| 0 <= k < closed0.len() && closed0[k] == x;
                                assert(closed@[k] == x);
                            }
                            assert(closed@[closed0.len() as int] == id);
                        }
                        assert(!closed0.contains(id));
                        assert(closed@.no_duplicates());
                    }
                }
            }
            assert(self@.channels =~= before.channels.difference(mine.intersect(seen)));
            assert(self@.channel_sessions =~= before.channel_sessions.remove_keys(
                mine.intersect(seen),
            ));
            proof {
                assert forall|x: u32| closed@.contains(x) <==> seen.contains(x) && mine.contains(x)
                    && before.channels.contains(x) by {
                    if x != id {
                        assert(closed@.contains(x) <==> closed0.contains(x));
                        assert(seen.contains(x) <==> seen0.contains(x));
                    } else {
                        assert(!closed0.contains(id));
                    }
                }
            }
            i += 1;
        }
        proof {
            assert(ids@.take(i as int) =~= ids@);
            assert(mine.intersect(seen) =~= mine);
        }
        closed
    }
}

/// Closes a channel after a command, unless it is kept alive; says whether there is
/// a writer to shut down.
pub fn maybe_end_channel(tcp_map: &mut TcpMap, channel_id: u32) -> (r: bool)
    requires
        old(tcp_map).wf(),
    ensures
        final(tcp_map).wf(),
        final(tcp_map)@ == after_command(old(tcp_map)@, channel_id),
        r == (!old(tcp_map)@.kept_alive.contains(channel_id) && old(tcp_map)@.channels.contains(
            channel_id,
        )),
{
    if tcp_map.is_keep_alive(channel_id) {
        false
    } else {
        tcp_map.end_channel(channel_id)
    }
}

/// A channel that is kept alive survives a command; any other does not.
pub proof fn only_kept_channels_survive(m: TcpMapView, id: u32)
    ensures
        after_command(m, id).channels.contains(id) <==> m.channels.contains(id)
            && m.kept_alive.contains(id),
        forall|other: u32|
            other != id ==> (after_command(m, id).channels.contains(other)
                <==> m.channels.contains(other)),
{
}

/// What was started is there until it ends, and nothing else changes with it.
pub proof fn started_is_there(m: TcpMapView, id: u32, other: u32, cipher: PskCipherView)
    requires
        other != id,
    ensures
        ({
            let begun = with_session(m, id);
            let ended = without_session(m, id);
            let open = with_channel(m, id);
            let shut = without_channel(m, id);
            let kept = with_kept_channel(m, id);
            let coded = with_cipher(m, id, cipher);
            &&& begun.sessions.contains(id) && !ended.sessions.contains(id)
            &&& begun.sessions.contains(other) == m.sessions.contains(other)
            &&& ended.sessions.contains(other) == m.sessions.contains(other)
            &&& open.channels.contains(id) && !shut.channels.contains(id)
            &&& open.channels.contains(other) == m.channels.contains(other)
            &&& shut.channels.contains(other) == m.channels.contains(other)
            &&& kept.kept_alive.contains(id) && !shut.kept_alive.contains(id)
            &&& kept.kept_alive.contains(other) == m.kept_alive.contains(other)
            &&& shut.kept_alive.contains(other) == m.kept_alive.contains(other)
            &&& coded.ciphers.dom().contains(id) && coded.ciphers[id] == cipher
            &&& coded.ciphers.dom().contains(other) == m.ciphers.dom().contains(other)
            &&& coded.ciphers[other] == m.ciphers[other]
            &&& begun.channels == m.channels && ended.channels == m.channels
            &&& open.sessions == m.sessions && shut.sessions == m.sessions
            &&& kept.channels == m.channels && coded.sessions == m.sessions
            &&& begun.ciphers == m.ciphers && ended.ciphers == m.ciphers
            &&& begun.channel_sessions == m.channel_sessions && ended.channel_sessions
                == m.channel_sessions
            &&& open.channel_sessions == m.channel_sessions && shut.channel_sessions
                == m.channel_sessions
            &&& open.kept_alive == m.kept_alive && begun.kept_alive == m.kept_alive
        }),
{
}

/// A channel that was given to a session closes with it, unless somebody has taken the
/// channel over. The channels of other sessions and those of none stay open.
pub proof fn channels_close_with_their_session(m: TcpMapView, c: u32, session_id: u32, other: u32)
    requires
        other != session_id,
    ensures
        ({
            let owned = with_owner(m, c, session_id);
            let closed = without_channels_of(owned, session_id);
            let elsewhere = without_channels_of(owned, other);
            let taken = without_taken_channel(owned, c);
            &&& !closed.channels.contains(c)
            &&& !closed.channel_sessions.dom().contains(c)
            &&& elsewhere.channels.contains(c) == m.channels.contains(c)
            &&& elsewhere.channel_sessions.dom().contains(c)
            &&& elsewhere.channel_sessions[c] == session_id
            &&& !taken.channels.contains(c)
            &&& !channels_of(taken, session_id).contains(c)
            &&& owned.channels == m.channels
            &&& closed.sessions == m.sessions && closed.ciphers == m.ciphers && closed.kept_alive
                == m.kept_alive
            &&& taken.sessions == m.sessions && taken.kept_alive == m.kept_alive
            &&& forall|d: u32|
                !m.channel_sessions.dom().contains(d) && d != c
                    ==> #[trigger] closed.channels.contains(d) == m.channels.contains(d)
            &&& forall|d: u32|
                d != c ==> #[trigger] taken.channels.contains(d) == m.channels.contains(d)
        }),
{
}

} // verus!
