//! Encrypted frames, for sessions whose two ends share a key.
//!
//! A frame is the number of the frame, in eight bytes with the most significant
//! first, and the AES-128-GCM ciphertext of the plain frame with its tag of
//! sixteen bytes at the end. The number is the nonce.

use aes_gcm::aead::generic_array::GenericArray;
use aes_gcm::aead::Aead;
use aes_gcm::{Aes128Gcm, KeyInit};
use rand::RngCore;
use crate::protocol::bytes;
use crate::protocol::bytes::{push_be64, push_bytes, read_be64};
use vstd::prelude::*;
use vstd::slice::slice_subrange;

verus! {

/// The ciphertext, with its tag, that AES-128-GCM makes of a plain text without
/// associated data.
pub uninterp spec fn aes128_gcm_sealed(key: Seq<u8>, nonce: Seq<u8>, plain: Seq<u8>) -> Seq<u8>;

/// The plain text that AES-128-GCM finds in a ciphertext, if the tag is right.
pub uninterp spec fn aes128_gcm_opened(key: Seq<u8>, nonce: Seq<u8>, data: Seq<u8>) -> Option<
    Seq<u8>,
>;

/// The longest plain text that AES-GCM takes.
pub const PLAIN_MAX: u64 = 0x10_0000_0000;

/// The size of the tag of a ciphertext.
pub const TAG_LEN: usize = 16;

/// `Aead::encrypt` of `Aes128Gcm`: a key of 16 bytes is always accepted, and a plain
/// text of at most 2^36 bytes is always encrypted. The ciphertext has 16 bytes more
/// than the plain text, and decrypting it under the same key and nonce gives the
/// plain text back.
#[verifier::external_body]
fn aes128_gcm_seal(key: &[u8; 16], nonce: &[u8; 12], plain: &[u8]) -> (r: Option<Vec<u8>>)
    requires
        plain.len() <= PLAIN_MAX,
    ensures
        r is Some,
        r->Some_0@ == aes128_gcm_sealed(key@, nonce@, plain@),
        r->Some_0@.len() == plain@.len() + 16,
        aes128_gcm_opened(key@, nonce@, r->Some_0@) == Some(plain@),
{
    let cipher = Aes128Gcm::new_from_slice(key).ok()?;
    cipher.encrypt(GenericArray::from_slice(nonce), plain).ok()
}

/// `Aead::decrypt` of `Aes128Gcm`: a plain text if the tag at the end of the data is
/// right, and nothing otherwise. The plain text has 16 bytes less than the data.
#[verifier::external_body]
fn aes128_gcm_open(key: &[u8; 16], nonce: &[u8; 12], data: &[u8]) -> (r: Option<Vec<u8>>)
    ensures
        r is Some <==> aes128_gcm_opened(key@, nonce@, data@) is Some,
        r is Some ==> aes128_gcm_opened(key@, nonce@, data@) == Some(r->Some_0@),
        r is Some ==> r->Some_0@.len() + 16 == data@.len(),
{
    let cipher = Aes128Gcm::new_from_slice(key).ok()?;
    cipher.decrypt(GenericArray::from_slice(nonce), data).ok()
}

/// `RngCore::fill_bytes` of the random number generator of the thread: 32 random
/// bytes, of which nothing is known.
#[verifier::external_body]
fn random_key() -> (r: [u8; 32]) {
    let mut psk = [0u8; 32];
    rand::thread_rng().fill_bytes(&mut psk);
    psk
}

/// Why a frame was not encrypted or decrypted.
#[derive(Debug, Clone, Copy, PartialEq, Eq, Structural)]
pub enum CipherError {
    /// The plain frame is too long for AES-GCM.
    Encrypt,
    /// The frame has no room for a number and a tag.
    TooShort,
    /// The tag is not that of the ciphertext.
    Decrypt,
}

impl CipherError {
    /// The sentence that reports the error.
    pub open spec fn text(self) -> Seq<char> {
        match self {
            CipherError::Encrypt => "AES-GCM encrypt: Error"@,
            CipherError::TooShort => "encrypted frame too short"@,
            CipherError::Decrypt => "AES-GCM decrypt: Error"@,
        }
    }

    /// The sentence that reports the error.
    pub fn message(&self) -> (r: String)
        ensures
            r@ == self.text(),
    {
        match *self {
            CipherError::Encrypt => "AES-GCM encrypt: Error".to_owned(),
            CipherError::TooShort => "encrypted frame too short".to_owned(),
            CipherError::Decrypt => "AES-GCM decrypt: Error".to_owned(),
        }
    }
}

/// The two keys of one end of a session, and the numbers of the next frames.
#[derive(Clone)]
pub struct PskCipher {
    send_key: [u8; 16],
    recv_key: [u8; 16],
    send_counter: u64,
    recv_counter: u64,
}

/// What a cipher holds.
pub struct PskCipherView {
    pub send_key: Seq<u8>,
    pub recv_key: Seq<u8>,
    pub send_counter: u64,
    pub recv_counter: u64,
}

impl View for PskCipher {
    type V = PskCipherView;

    closed spec fn view(&self) -> PskCipherView {
        PskCipherView {
            send_key: self.send_key@,
            recv_key: self.recv_key@,
            send_counter: self.send_counter,
            recv_counter: self.recv_counter,
        }
    }
}

/// The nonce of a frame: four zero bytes and its number.
pub open spec fn frame_nonce(counter: u64) -> Seq<u8> {
    bytes::zeros(4) + bytes::be64(counter)
}

/// The number after a number; the last is followed by zero.
pub open spec fn next_counter(counter: u64) -> u64 {
    if counter == u64::MAX {
        0
    } else {
        (counter + 1) as u64
    }
}

/// The frame with a number that carries a plain frame.
pub open spec fn sealed_frame(key: Seq<u8>, counter: u64, plain: Seq<u8>) -> Seq<u8> {
    bytes::be64(counter) + aes128_gcm_sealed(key, frame_nonce(counter), plain)
}

/// The plain frame in a frame.
pub open spec fn opened_frame(key: Seq<u8>, data: Seq<u8>) -> Result<Seq<u8>, CipherError> {
    if data.len() < 8 + TAG_LEN {
        Err(CipherError::TooShort)
    } else {
        match aes128_gcm_opened(
            key,
            frame_nonce(bytes::be64_value(data, 0)),
            data.subrange(8, data.len() as int),
        ) {
            Some(p) => Ok(p),
            None => Err(CipherError::Decrypt),
        }
    }
}

/// The cipher of an end that has not sent or received anything. The host sends
/// with the first half of the shared key and receives with the second, the daemon
/// the other way round.
pub open spec fn fresh_cipher(psk: Seq<u8>, is_host: bool) -> PskCipherView {
    let first = psk.subrange(0, 16);
    let second = psk.subrange(16, 32);
    PskCipherView {
        send_key: if is_host {
            first
        } else {
            second
        },
        recv_key: if is_host {
            second
        } else {
            first
        },
        send_counter: 0,
        recv_counter: 0,
    }
}

/// Each end receives with the key that the other sends with.
pub proof fn fresh_ciphers_match(psk: Seq<u8>, is_host: bool)
    ensures
        fresh_cipher(psk, is_host).send_key == fresh_cipher(psk, !is_host).recv_key,
        fresh_cipher(psk, is_host).recv_key == fresh_cipher(psk, !is_host).send_key,
{
}

fn half(psk: &[u8; 32], from: usize) -> (r: [u8; 16])
    requires
        from == 0 || from == 16,
    ensures
        r@ == psk@.subrange(from as int, from + 16),
{
    let r: [u8; 16] = [
        psk[from],
        psk[from + 1],
        psk[from + 2],
        psk[from + 3],
        psk[from + 4],
        psk[from + 5],
        psk[from + 6],
        psk[from + 7],
        psk[from + 8],
        psk[from + 9],
        psk[from + 10],
        psk[from + 11],
        psk[from + 12],
        psk[from + 13],
        psk[from + 14],
        psk[from + 15],
    ];
    assert(r@ =~= psk@.subrange(from as int, from + 16));
    r
}

fn counter_to_nonce(counter: u64) -> (r: [u8; 12])
    ensures
        r@ == frame_nonce(counter),
{
    let mut b: Vec<u8> = Vec::new();
    push_be64(&mut b, counter);
    let r: [u8; 12] = [0, 0, 0, 0, b[0], b[1], b[2], b[3], b[4], b[5], b[6], b[7]];
    assert(r@ =~= frame_nonce(counter));
    r
}

fn after(counter: u64) -> (r: u64)
    ensures
        r == next_counter(counter),
{
    if counter == u64::MAX {
        0
    } else {
        counter + 1
    }
}

impl PskCipher {
    /// The cipher of one end of a session that shares a key.
    pub fn new(psk: &[u8; 32], is_host: bool) -> (r: Self)
        ensures
            r@ == fresh_cipher(psk@, is_host),
    {
        let first = half(psk, 0);
        let second = half(psk, 16);
        if is_host {
            PskCipher { send_key: first, recv_key: second, send_counter: 0, recv_counter: 0 }
        } else {
            PskCipher { send_key: second, recv_key: first, send_counter: 0, recv_counter: 0 }
        }
    }

    /// A random shared key.
    pub fn generate_psk() -> (r: [u8; 32]) {
        random_key()
    }

    /// Encrypts a plain frame under the number of the next frame, and moves on to
    /// the number after it. Whoever receives with the key that this end sends with
    /// finds the plain frame again.
    pub fn encrypt(&mut self, plaintext: &[u8]) -> (r: Result<Vec<u8>, CipherError>)
        ensures
            r is Ok <==> plaintext.len() <= PLAIN_MAX,
            r matches Ok(frame) ==> {
                &&& frame@ == sealed_frame(
                    old(self)@.send_key,
                    old(self)@.send_counter,
                    plaintext@,
                )
                &&& frame@.len() == plaintext@.len() + 24
                &&& opened_frame(old(self)@.send_key, frame@) == Ok::<_, CipherError>(plaintext@)
                &&& final(self)@ == (PskCipherView {
                    send_counter: next_counter(old(self)@.send_counter),
                    ..old(self)@
                })
            },
            r matches Err(e) ==> e == CipherError::Encrypt && final(self)@ == old(self)@,
    {
        if plaintext.len() as u64 > PLAIN_MAX {
            return Err(CipherError::Encrypt);
        }
        let nonce = counter_to_nonce(self.send_counter);
        match aes128_gcm_seal(&self.send_key, &nonce, plaintext) {
            None => Err(CipherError::Encrypt),
            Some(ciphertext) => {
                let mut out: Vec<u8> = Vec::new();
                push_be64(&mut out, self.send_counter);
                push_bytes(&mut out, &ciphertext);
                proof {
                    assert(out@.subrange(8, out@.len() as int) =~= ciphertext@);
                    bytes::be64_read_back(out@, 0, self.send_counter);
                }
                self.send_counter = after(self.send_counter);
                Ok(out)
            },
        }
    }

    /// Decrypts a frame, and notes the number after that of the frame as the next.
    pub fn decrypt(&mut self, data: &[u8]) -> (r: Result<Vec<u8>, CipherError>)
        ensures
            match r {
                Ok(plain) => {
                    &&& opened_frame(old(self)@.recv_key, data@) == Ok::<_, CipherError>(plain@)
                    &&& plain@.len() == data@.len() - 24
                    &&& final(self)@ == (PskCipherView {
                        recv_counter: next_counter(bytes::be64_value(data@, 0)),
                        ..old(self)@
                    })
                },
                Err(e) => {
                    &&& opened_frame(old(self)@.recv_key, data@) == Err::<Seq<u8>, _>(e)
                    &&& final(self)@ == old(self)@
                },
            },
    {
        if data.len() < 8 + TAG_LEN {
            return Err(CipherError::TooShort);
        }
        let counter: u64 = read_be64(data, 0);
        let nonce = counter_to_nonce(counter);
        match aes128_gcm_open(&self.recv_key, &nonce, slice_subrange(data, 8, data.len())) {
            None => Err(CipherError::Decrypt),
            Some(plain) => {
                self.recv_counter = after(counter);
                Ok(plain)
            },
        }
    }
}

/// The host sends with the first half of the shared key and receives with the second, the daemon
/// the other way round; both begin to count at zero.
pub proof fn halves_of_the_key(psk: Seq<u8>)
    requires
        psk.len() == 32,
    ensures
        fresh_cipher(psk, true).send_key + fresh_cipher(psk, true).recv_key == psk,
        fresh_cipher(psk, false).recv_key + fresh_cipher(psk, false).send_key == psk,
        fresh_cipher(psk, true).send_key.len() == 16,
        fresh_cipher(psk, false).send_key.len() == 16,
        fresh_cipher(psk, true).send_counter == 0 && fresh_cipher(psk, true).recv_counter == 0,
        fresh_cipher(psk, false).send_counter == 0 && fresh_cipher(psk, false).recv_counter == 0,
{
    assert(fresh_cipher(psk, true).send_key + fresh_cipher(psk, true).recv_key =~= psk);
    assert(fresh_cipher(psk, false).recv_key + fresh_cipher(psk, false).send_key =~= psk);
}

/// Two frames with different numbers are sealed with different nonces of twelve bytes, and each
/// frame tells its number before the ciphertext. After a frame the number is another one.
pub proof fn nonces_are_not_used_twice(key: Seq<u8>, a: u64, b: u64, plain: Seq<u8>)
    ensures
        frame_nonce(a).len() == 12,
        frame_nonce(a) == frame_nonce(b) ==> a == b,
        frame_nonce(a) == seq![0u8, 0, 0, 0] + sealed_frame(key, a, plain).take(8),
        bytes::be64_value(sealed_frame(key, a, plain), 0) == a,
        sealed_frame(key, a, plain).skip(8) == aes128_gcm_sealed(key, frame_nonce(a), plain),
        next_counter(a) != a,
        a < u64::MAX ==> next_counter(a) == a + 1,
{
    let f = sealed_frame(key, a, plain);
    bytes::be64_read_back(f, 0, a);
    bytes::be64_read_back(frame_nonce(a), 4, a);
    bytes::be64_read_back(frame_nonce(b), 4, b);
    assert(f.skip(8) =~= aes128_gcm_sealed(key, frame_nonce(a), plain));
    assert(frame_nonce(a) =~= seq![0u8, 0, 0, 0] + f.take(8));
}

} // verus!
