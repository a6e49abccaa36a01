//! The USB sessions of the server, and the tasks that wait for messages of a daemon.
//!
//! The table says which sessions have a sender and which tasks have a receiver.
//! Whoever owns them keeps them under the same numbers.

use crate::host::tcp_map::SendError;
use crate::tables::IdSet;
use vstd::prelude::*;

verus! {

/// The sessions that have a sender, and the pairs of a session and a channel whose
/// messages go to a task.
pub struct UsbMap {
    session_senders: IdSet,
    response_channels: Vec<(u32, u32)>,
}

/// What the table says.
pub struct UsbMapView {
    pub sessions: Set<u32>,
    pub waiting: Set<(u32, u32)>,
}

impl View for UsbMap {
    type V = UsbMapView;

    closed spec fn view(&self) -> UsbMapView {
        UsbMapView { sessions: self.session_senders@, waiting: self.response_channels@.to_set() }
    }
}

/// The table with a session that has a sender.
pub open spec fn with_session(m: UsbMapView, id: u32) -> UsbMapView {
    UsbMapView { sessions: m.sessions.insert(id), ..m }
}

/// The table without a session, whose tasks may go on waiting.
pub open spec fn without_session(m: UsbMapView, id: u32) -> UsbMapView {
    UsbMapView { sessions: m.sessions.remove(id), ..m }
}

/// The table without a session and its tasks.
pub open spec fn without_session_and_tasks(m: UsbMapView, id: u32) -> UsbMapView {
    UsbMapView { sessions: m.sessions.remove(id), waiting: waiting_elsewhere(m.waiting, id) }
}

/// The table with a task that waits for the messages of a channel.
pub open spec fn with_task(m: UsbMapView, session_id: u32, channel_id: u32) -> UsbMapView {
    UsbMapView { waiting: m.waiting.insert((session_id, channel_id)), ..m }
}

/// The table without a task.
pub open spec fn without_task(m: UsbMapView, session_id: u32, channel_id: u32) -> UsbMapView {
    UsbMapView { waiting: m.waiting.remove((session_id, channel_id)), ..m }
}

/// Whether a message can be sent in a session.
pub open spec fn sendable(m: UsbMapView, session_id: u32) -> Result<(), SendError> {
    if m.sessions.contains(session_id) {
        Ok(())
    } else {
        Err(SendError::NoUsbSession)
    }
}

/// The pairs of other sessions.
pub open spec fn waiting_elsewhere(waiting: Set<(u32, u32)>, session_id: u32) -> Set<(u32, u32)> {
    waiting.filter(|p: (u32, u32)| p.0 != session_id)
}

/// Whether a pair is the given one, or, without one, belongs to the session.
spec fn covers(pair: Option<(u32, u32)>, session_id: u32, p: (u32, u32)) -> bool {
    match pair {
        Some(q) => p == q,
        None => p.0 == session_id,
    }
}

impl UsbMap {
    /// No session is held twice.
    pub closed spec fn wf(self) -> bool {
        self.session_senders.wf()
    }

    /// No sessions.
    pub fn new() -> (r: Self)
        ensures
            r.wf(),
            r@ == (UsbMapView { sessions: Set::empty(), waiting: Set::empty() }),
    {
        let r = UsbMap { session_senders: IdSet::new(), response_channels: Vec::new() };
        assert(r@.waiting =~= Set::<(u32, u32)>::empty());
        r
    }

    /// A session has a sender.
    pub fn start_session(&mut self, id: u32)
        requires
            old(self).wf(),
        ensures
            final(self).wf(),
            final(self)@ == with_session(old(self)@, id),
    {
        self.session_senders.insert(id);
    }

    /// A session ends.
    pub fn end_session(&mut self, id: u32)
        requires
            old(self).wf(),
        ensures
            final(self).wf(),
            final(self)@ == without_session(old(self)@, id),
    {
        let _ = self.session_senders.remove(id);
    }

    /// Removes the pairs that are equal to `pair`, or, without a pair, those of a
    /// session.
    fn drop_waiting(&mut self, pair: Option<(u32, u32)>, session_id: u32)
        ensures
            final(self).session_senders == old(self).session_senders,
            match pair {
                Some(p) => final(self)@.waiting == old(self)@.waiting.remove(p),
                None => final(self)@.waiting == waiting_elsewhere(old(self)@.waiting, session_id),
            },
    {
        let ghost before = self.response_channels@;
        let mut kept: Vec<(u32, u32)> = Vec::new();
        let mut i: usize = 0;
        while i < self.response_channels.len()
            invariant
                self.response_channels@ == before,
                self.session_senders == old(self).session_senders,
                i <= before.len(),
                forall|p: (u32, u32)|
                    kept@.contains(p) <==> before.take(i as int).contains(p) && !covers(pair, session_id, p),
            decreases before.len() - i,
        {
            let p: (u32, u32) = self.response_channels[i];
            let dropped: bool = match pair {
                Some(q) => p.0 == q.0 && p.1 == q.1,
                None => p.0 == session_id,
            };
            assert(dropped == covers(pair, session_id, p));
            let ghost kept0 = kept@;
            let ghost then = before.take(i as int);
            let ghost now = before.take(i + 1);
            assert(now =~= then.push(p));
            if !dropped {
                kept.push(p);
            }
            proof {
                assert forall|x: (u32, u32)| now.contains(x) <==> then.contains(x) || x == p by {
                    if now.contains(x) {
                        let k = choose|k: int| 0 <= k < now.len() && now[k] == x;
                        if k < i {
                            assert(then[k] == x);
                        }
                    }
                    if then.contains(x) {
                        let k = choose|k: int| 0 <= k < then.len() && then[k] == x;
                        assert(now[k] == x);
                    }
                    assert(now[i as int] == p);
                }
                assert forall|x: (u32, u32)| kept@.contains(x) <==> kept0.contains(x) || (!dropped
                    && x == p) by {
                    if kept@.contains(x) {
                        let k = choose|k: int| 0 <= k < kept@.len() && kept@[k] == x;
                        if k < kept0.len() {
                            assert(kept0[k] == x);
                        }
                    }
                    if kept0.contains(x) {
                        let k = choose|k: int| 0 <= k < kept0.len() && kept0[k] == x;
                        assert(kept@[k] == x);
                    }
                    if !dropped {
                        assert(kept@[kept0.len() as int] == p);
                    }
                }
                assert forall|x: (u32, u32)| kept@.contains(x) <==> now.contains(x) && !covers(pair, session_id, x) by {
                    assert(kept0.contains(x) <==> then.contains(x) && !covers(pair, session_id, x));
                }
            }
            i += 1;
        }
        assert(before.take(i as int) =~= before);
        self.response_channels = kept;
        proof {
            match pair {
                Some(p) => {
                    assert(self@.waiting =~= old(self)@.waiting.remove(p));
                },
                None => {
                    assert(self@.waiting =~= waiting_elsewhere(old(self)@.waiting, session_id));
                },
            }
        }
    }

    /// A session ends, and no task waits for its messages any longer.
    pub fn end_session_with_cleanup(&mut self, id: u32)
        requires
            old(self).wf(),
        ensures
            final(self).wf(),
            final(self)@ == without_session_and_tasks(old(self)@, id),
    {
        let _ = self.session_senders.remove(id);
        self.drop_waiting(None, id);
    }

    /// Whether a packet can be handed to a session.
    pub fn send_to_session(&self, session_id: u32) -> (r: Result<(), SendError>)
        requires
            self.wf(),
        ensures
            r == sendable(self@, session_id),
    {
        if self.session_senders.contains(session_id) {
            Ok(())
        } else {
            Err(SendError::NoUsbSession)
        }
    }

    /// A task waits for the messages of a channel.
    pub fn register_response_channel(&mut self, session_id: u32, channel_id: u32)
        requires
            old(self).wf(),
        ensures
            final(self).wf(),
            final(self)@ == with_task(old(self)@, session_id, channel_id),
    {
        let ghost before = self.response_channels@;
        self.response_channels.push((session_id, channel_id));
        proof {
            let now = self.response_channels@;
            assert forall|x: (u32, u32)| now.contains(x) <==> before.contains(x) || x == (
                session_id,
                channel_id,
            ) by {
                if now.contains(x) {
                    let k = choose|k: int| 0 <= k < now.len() && now[k] == x;
                    if k < before.len() {
                        assert(before[k] == x);
                    }
                }
                if before.contains(x) {
                    let k = choose|k: int| 0 <= k < before.len() && before[k] == x;
                    assert(now[k] == x);
                }
                assert(now[before.len() as int] == (session_id, channel_id));
            }
            assert(self@.waiting =~= old(self)@.waiting.insert((session_id, channel_id)));
        }
    }

    /// No task waits for the messages of a channel any longer.
    pub fn unregister_response_channel(&mut self, session_id: u32, channel_id: u32)
        requires
            old(self).wf(),
        ensures
            final(self).wf(),
            final(self)@ == without_task(old(self)@, session_id, channel_id),
    {
        self.drop_waiting(Some((session_id, channel_id)), session_id);
    }

    /// Whether a message goes to a task rather than to a client.
    pub fn route_response(&self, session_id: u32, channel_id: u32) -> (r: bool)
        ensures
            r == self@.waiting.contains((session_id, channel_id)),
    {
        let mut i: usize = 0;
        while i < self.response_channels.len()
            invariant
                i <= self.response_channels@.len(),
                forall|j: int|
                    0 <= j < i ==> self.response_channels@[j] != (session_id, channel_id),
            decreases self.response_channels@.len() - i,
        {
            let p: (u32, u32) = self.response_channels[i];
            if p.0 == session_id && p.1 == channel_id {
                assert(self.response_channels@[i as int] == (session_id, channel_id));
                return true;
            }
            i += 1;
        }
        false
    }
}

/// After a session has ended no message of it goes to a task, and the tasks of other
/// sessions go on waiting.
pub proof fn cleanup_frees_only_its_tasks(waiting: Set<(u32, u32)>, session_id: u32, p: (u32, u32))
    ensures
        waiting_elsewhere(waiting, session_id).contains(p) <==> waiting.contains(p) && p.0
            != session_id,
{
}

/// A session can be sent to from its start to its end. A task waits for its own channel of
/// its own session, until it is done or the session is cleaned up.
pub proof fn sessions_and_their_tasks(m: UsbMapView, id: u32, channel_id: u32, p: (u32, u32))
    requires
        p != (id, channel_id),
    ensures
        sendable(with_session(m, id), id) is Ok,
        sendable(without_session(m, id), id) == Err::<(), SendError>(SendError::NoUsbSession),
        sendable(without_session_and_tasks(m, id), id) == Err::<(), SendError>(
            SendError::NoUsbSession,
        ),
        forall|other: u32|
            other != id ==> #[trigger] sendable(m, other) == sendable(with_session(m, id), other)
                && sendable(m, other) == sendable(without_session(m, id), other) && sendable(
                m,
                other,
            ) == sendable(without_session_and_tasks(m, id), other),
        with_session(m, id).waiting == m.waiting && without_session(m, id).waiting == m.waiting,
        with_task(m, id, channel_id).sessions == m.sessions,
        without_task(m, id, channel_id).sessions == m.sessions,
        with_task(m, id, channel_id).waiting.contains((id, channel_id)),
        !without_task(m, id, channel_id).waiting.contains((id, channel_id)),
        with_task(m, id, channel_id).waiting.contains(p) == m.waiting.contains(p),
        without_task(m, id, channel_id).waiting.contains(p) == m.waiting.contains(p),
        !without_session_and_tasks(m, id).waiting.contains((id, channel_id)),
        p.0 != id ==> without_session_and_tasks(m, id).waiting.contains(p) == m.waiting.contains(p),
{
}

} // verus!
