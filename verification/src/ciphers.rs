//! The ciphers of the encrypted sessions.

use crate::host::tcp_map;
use crate::host::tcp_map::frame;
use crate::protocol::bytes;
use crate::protocol::bytes::copy_bytes;
use crate::protocol::encrypt;
use crate::protocol::encrypt::{CipherError, PLAIN_MAX, PskCipher, PskCipherView};
use crate::tables::Table;
use vstd::prelude::*;

verus! {

/// The ciphers of the encrypted sessions.
pub struct Ciphers {
    table: Table<PskCipher>,
}

impl View for Ciphers {
    type V = Map<u32, PskCipherView>;

    closed spec fn view(&self) -> Map<u32, PskCipherView> {
        Map::new(|id: u32| self.table@.dom().contains(id), |id: u32| self.table@[id]@)
    }
}

/// What a session sends for a packet: the packet itself, or, where the session is
/// encrypted, its encrypted form.
pub open spec fn sealed_for(ciphers: Map<u32, PskCipherView>, id: u32, data: Seq<u8>) -> Result<
    Seq<u8>,
    CipherError,
> {
    if !ciphers.dom().contains(id) {
        Ok(data)
    } else if data.len() > PLAIN_MAX {
        Err(CipherError::Encrypt)
    } else {
        Ok(tcp_map::framed(encrypt::sealed_frame(ciphers[id].send_key, ciphers[id].send_counter, data)))
    }
}

/// The ciphers once a session has sent a packet.
pub open spec fn after_sealing(ciphers: Map<u32, PskCipherView>, id: u32, data: Seq<u8>) -> Map<
    u32,
    PskCipherView,
> {
    if !ciphers.dom().contains(id) || data.len() > PLAIN_MAX {
        ciphers
    } else {
        ciphers.insert(
            id,
            PskCipherView { send_counter: encrypt::next_counter(ciphers[id].send_counter), ..ciphers[id] },
        )
    }
}

/// The ciphers once a session has received an encrypted packet.
pub open spec fn after_opening(ciphers: Map<u32, PskCipherView>, id: u32, data: Seq<u8>) -> Map<
    u32,
    PskCipherView,
> {
    if !ciphers.dom().contains(id) || encrypt::opened_frame(ciphers[id].recv_key, data) is Err {
        ciphers
    } else {
        ciphers.insert(
            id,
            PskCipherView { recv_counter: encrypt::next_counter(bytes::be64_value(data, 0)), ..ciphers[id] },
        )
    }
}

impl Ciphers {
    /// No session has two ciphers.
    pub closed spec fn wf(self) -> bool {
        self.table.wf()
    }

    /// No session is encrypted.
    pub fn new() -> (r: Self)
        ensures
            r.wf(),
            r@ == Map::<u32, PskCipherView>::empty(),
    {
        let r = Ciphers { table: Table::new() };
        assert(r@ =~= Map::<u32, PskCipherView>::empty());
        r
    }

    /// A session is encrypted from now on.
    pub fn set(&mut self, id: u32, cipher: PskCipher)
        requires
            old(self).wf(),
        ensures
            final(self).wf(),
            final(self)@ == old(self)@.insert(id, cipher@),
    {
        let ghost before = self@;
        self.table.insert(id, cipher);
        assert(self@ =~= before.insert(id, cipher@));
    }

    /// A session is no longer encrypted.
    pub fn remove(&mut self, id: u32)
        requires
            old(self).wf(),
        ensures
            final(self).wf(),
            final(self)@ == old(self)@.remove(id),
    {
        let ghost before = self@;
        let _ = self.table.remove(id);
        assert(self@ =~= before.remove(id));
    }

    /// The cipher of a session.
    pub fn get(&self, id: u32) -> (r: Option<&PskCipher>)
        requires
            self.wf(),
        ensures
            match r {
                Some(c) => self@.dom().contains(id) && c@ == self@[id],
                None => !self@.dom().contains(id),
            },
    {
        self.table.get(id)
    }

    /// What a session sends for a packet. Whoever receives with the key that an encrypted
    /// session sends with finds the packet again behind the length.
    pub fn seal(&mut self, id: u32, data: &[u8]) -> (r: Result<Vec<u8>, CipherError>)
        requires
            old(self).wf(),
        ensures
            final(self).wf(),
            final(self)@ == after_sealing(old(self)@, id, data@),
            match r {
                Ok(b) => sealed_for(old(self)@, id, data@) == Ok::<_, CipherError>(b@),
                Err(e) => sealed_for(old(self)@, id, data@) == Err::<Seq<u8>, _>(e),
            },
            r is Ok && old(self)@.dom().contains(id) ==> encrypt::opened_frame(
                old(self)@[id].send_key,
                r->Ok_0@.skip(4),
            ) == Ok::<_, CipherError>(data@),
    {
        let ghost before = self@;
        match self.table.remove(id) {
            None => {
                assert(self@ =~= before);
                Ok(copy_bytes(data))
            },
            Some(mut cipher) => {
                assert(cipher@ == before[id]);
                let sealed = cipher.encrypt(data);
                self.table.insert(id, cipher);
                assert(self@ =~= after_sealing(before, id, data@));
                match sealed {
                    Ok(ct) => {
                        let out = frame(ct.as_slice());
                        assert(out@.skip(4) =~= ct@);
                        Ok(out)
                    },
                    Err(e) => Err(e),
                }
            },
        }
    }

    /// The packet in an encrypted frame that a session received; nothing, where the
    /// session is not encrypted.
    pub fn open(&mut self, id: u32, data: &[u8]) -> (r: Option<Result<Vec<u8>, CipherError>>)
        requires
            old(self).wf(),
        ensures
            final(self).wf(),
            final(self)@ == after_opening(old(self)@, id, data@),
            r is Some == old(self)@.dom().contains(id),
            r is Some ==> match r->Some_0 {
                Ok(b) => encrypt::opened_frame(old(self)@[id].recv_key, data@) == Ok::<_, CipherError>(b@),
                Err(e) => encrypt::opened_frame(old(self)@[id].recv_key, data@) == Err::<Seq<u8>, _>(e),
            },
    {
        let ghost before = self@;
        match self.table.remove(id) {
            None => {
                assert(self@ =~= before);
                None
            },
            Some(mut cipher) => {
                assert(cipher@ == before[id]);
                let opened = cipher.decrypt(data);
                self.table.insert(id, cipher);
                assert(self@ =~= after_opening(before, id, data@));
                Some(opened)
            },
        }
    }
}

/// A session without a cipher sends its packets as they are, of any size. A session with one
/// sends them sealed under its key and counter, and the next packet is sealed under another
/// counter. A packet that is too large is not sent. No other session is touched.
pub proof fn packets_are_sealed(
    ciphers: Map<u32, PskCipherView>,
    id: u32,
    other: u32,
    data: Seq<u8>,
)
    requires
        other != id,
    ensures
        ({
            let after = after_sealing(ciphers, id, data);
            &&& !ciphers.dom().contains(id) ==> sealed_for(ciphers, id, data) == Ok::<
                Seq<u8>,
                CipherError,
            >(data) && after == ciphers
            &&& ciphers.dom().contains(id) && data.len() > PLAIN_MAX ==> sealed_for(
                ciphers,
                id,
                data,
            ) == Err::<Seq<u8>, CipherError>(CipherError::Encrypt) && after == ciphers
            &&& ciphers.dom().contains(id) && data.len() <= PLAIN_MAX ==> {
                let sealed = encrypt::sealed_frame(
                    ciphers[id].send_key,
                    ciphers[id].send_counter,
                    data,
                );
                &&& sealed_for(ciphers, id, data) is Ok
                &&& sealed_for(ciphers, id, data)->Ok_0.skip(4) == sealed
                &&& after[id].send_counter != ciphers[id].send_counter
                &&& after[id].send_key == ciphers[id].send_key
                &&& after[id].recv_key == ciphers[id].recv_key
                &&& after[id].recv_counter == ciphers[id].recv_counter
                &&& after.dom() =~= ciphers.dom()
            }
            &&& after.dom().contains(other) == ciphers.dom().contains(other)
            &&& after[other] == ciphers[other]
        }),
{
    let sealed = encrypt::sealed_frame(ciphers[id].send_key, ciphers[id].send_counter, data);
    assert(tcp_map::framed(sealed).skip(4) =~= sealed);
}

/// A packet that opens moves on the counter of what was received, and nothing else. One that
/// does not, or comes in a session without a cipher, changes nothing.
pub proof fn packets_are_opened(
    ciphers: Map<u32, PskCipherView>,
    id: u32,
    other: u32,
    data: Seq<u8>,
)
    requires
        other != id,
    ensures
        ({
            let after = after_opening(ciphers, id, data);
            let opens = ciphers.dom().contains(id) && encrypt::opened_frame(
                ciphers[id].recv_key,
                data,
            ) is Ok;
            &&& !opens ==> after == ciphers
            &&& opens ==> {
                &&& after[id].recv_counter != bytes::be64_value(data, 0)
                &&& after[id].send_counter == ciphers[id].send_counter
                &&& after[id].send_key == ciphers[id].send_key
                &&& after[id].recv_key == ciphers[id].recv_key
                &&& after.dom() =~= ciphers.dom()
            }
            &&& after.dom().contains(other) == ciphers.dom().contains(other)
            &&& after[other] == ciphers[other]
        }),
{
}

} // verus!
