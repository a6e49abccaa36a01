//! Packets between the daemon and a host, encrypted where the session is.

use crate::ciphers;
use crate::ciphers::Ciphers;
use crate::protocol::config::{TaskMessage, TaskMessageView};
use crate::protocol::encrypt;
use crate::protocol::encrypt::{CipherError, PskCipher, PskCipherView};
use crate::protocol::error::CodecError;
use crate::protocol::packet;
use crate::protocol::packet::{concat_pack, unpack_task_message};
use vstd::prelude::*;

verus! {

/// A session is encrypted from now on.
pub fn set_session_cipher(ciphers: &mut Ciphers, session_id: u32, cipher: PskCipher)
    requires
        old(ciphers).wf(),
    ensures
        final(ciphers).wf(),
        final(ciphers)@ == old(ciphers)@.insert(session_id, cipher@),
{
    ciphers.set(session_id, cipher);
}

/// A session is no longer encrypted.
pub fn remove_session_cipher(ciphers: &mut Ciphers, session_id: u32)
    requires
        old(ciphers).wf(),
    ensures
        final(ciphers).wf(),
        final(ciphers)@ == old(ciphers)@.remove(session_id),
{
    ciphers.remove(session_id);
}

/// Tells whether a session is encrypted.
pub fn is_encrypted(ciphers: &Ciphers, session_id: u32) -> (r: bool)
    requires
        ciphers.wf(),
    ensures
        r == ciphers@.dom().contains(session_id),
{
    ciphers.get(session_id).is_some()
}

/// The bytes that carry a message to the host. Where the session is encrypted, a host
/// that receives with the key that the daemon sends with finds the packet again.
pub fn pack_message(ciphers: &mut Ciphers, session_id: u32, msg: &TaskMessage) -> (r: Result<
    Vec<u8>,
    CipherError,
>)
    requires
        old(ciphers).wf(),
    ensures
        final(ciphers).wf(),
        final(ciphers)@ == ciphers::after_sealing(old(ciphers)@, session_id, packet::packet(msg@)),
        match r {
            Ok(b) => ciphers::sealed_for(old(ciphers)@, session_id, packet::packet(msg@)) == Ok::<_, CipherError>(
                b@,
            ),
            Err(e) => ciphers::sealed_for(old(ciphers)@, session_id, packet::packet(msg@)) == Err::<Seq<u8>, _>(e),
        },
{
    let data = concat_pack(msg);
    ciphers.seal(session_id, data.as_slice())
}

/// Why a frame of the host is not taken.
#[derive(Debug, Clone, Copy, PartialEq, Eq, Structural)]
pub enum FrameError {
    /// It cannot be decrypted.
    Cipher(CipherError),
    /// It holds no message.
    Codec(CodecError),
}

impl FrameError {
    /// The sentence that reports the error.
    pub open spec fn text(self) -> Seq<char> {
        match self {
            FrameError::Cipher(e) => e.text(),
            FrameError::Codec(e) => e.text(),
        }
    }

    /// The sentence that reports the error.
    pub fn message(&self) -> (r: String)
        ensures
            r@ == self.text(),
    {
        match *self {
            FrameError::Cipher(e) => e.message(),
            FrameError::Codec(e) => e.message(),
        }
    }
}

/// The message in a frame of the host.
pub open spec fn message_from(
    ciphers: Map<u32, PskCipherView>,
    session_id: u32,
    frame: Seq<u8>,
) -> Result<TaskMessageView, FrameError> {
    if ciphers.dom().contains(session_id) {
        match encrypt::opened_frame(ciphers[session_id].recv_key, frame) {
            Err(e) => Err(FrameError::Cipher(e)),
            Ok(plain) => match packet::message_in(plain) {
                Err(e) => Err(FrameError::Codec(e)),
                Ok(m) => Ok(m),
            },
        }
    } else {
        match packet::message_in(frame) {
            Err(e) => Err(FrameError::Codec(e)),
            Ok(m) => Ok(m),
        }
    }
}

/// The message in a frame of the host.
pub fn unpack_message(ciphers: &mut Ciphers, session_id: u32, frame: &[u8]) -> (r: Result<
    TaskMessage,
    FrameError,
>)
    requires
        old(ciphers).wf(),
    ensures
        final(ciphers).wf(),
        final(ciphers)@ == ciphers::after_opening(old(ciphers)@, session_id, frame@),
        match r {
            Ok(m) => message_from(old(ciphers)@, session_id, frame@) == Ok::<_, FrameError>(m@),
            Err(e) => message_from(old(ciphers)@, session_id, frame@) == Err::<TaskMessageView, _>(
                e,
            ),
        },
{
    match ciphers.open(session_id, frame) {
        None => match unpack_task_message(frame) {
            Ok(m) => Ok(m),
            Err(e) => Err(FrameError::Codec(e)),
        },
        Some(Err(e)) => Err(FrameError::Cipher(e)),
        Some(Ok(plain)) => match unpack_task_message(plain.as_slice()) {
            Ok(m) => Ok(m),
            Err(e) => Err(FrameError::Codec(e)),
        },
    }
}

/// A session that is not encrypted carries a message to the other end unchanged.
pub proof fn plain_message_arrives(
    ours: Map<u32, PskCipherView>,
    theirs: Map<u32, PskCipherView>,
    session_id: u32,
    msg: TaskMessageView,
)
    requires
        packet::fits(msg),
        !ours.dom().contains(session_id),
        !theirs.dom().contains(session_id),
    ensures
        ciphers::sealed_for(ours, session_id, packet::packet(msg)) is Ok,
        message_from(theirs, session_id, ciphers::sealed_for(ours, session_id, packet::packet(msg))->Ok_0) == Ok::<
            _,
            FrameError,
        >(msg),
{
    packet::packet_round_trip(msg, Seq::empty());
    assert(packet::packet(msg) + Seq::<u8>::empty() =~= packet::packet(msg));
}

/// A message whose packet the other end finds again arrives unchanged, encrypted as the
/// session is.
pub proof fn encrypted_message_arrives(
    theirs: Map<u32, PskCipherView>,
    session_id: u32,
    frame: Seq<u8>,
    msg: TaskMessageView,
)
    requires
        packet::fits(msg),
        theirs.dom().contains(session_id),
        encrypt::opened_frame(theirs[session_id].recv_key, frame) == Ok::<_, CipherError>(packet::packet(msg)),
    ensures
        message_from(theirs, session_id, frame) == Ok::<_, FrameError>(msg),
{
    packet::packet_round_trip(msg, Seq::empty());
    assert(packet::packet(msg) + Seq::<u8>::empty() =~= packet::packet(msg));
}

} // verus!
