//! The handshake between the server and its clients.
//!
//! The server greets a client with a banner of twelve bytes and the number of the
//! channel, padded to 32 bytes. The client answers with the banner and the key of
//! the device that it means, padded likewise.

use crate::protocol::bytes;
use crate::protocol::bytes::{copy_bytes, copy_range, push_bytes, push_le32, push_zeros};
use crate::protocol::config::{BANNER_SIZE, HANDSHAKE_MESSAGE, KEY_MAX_SIZE};
use crate::text;
use crate::text::{Utf8Fault, concat2, read_utf8, same_bytes, text_of_utf8};
use vstd::prelude::*;
use vstd::slice::slice_subrange;
use vstd::utf8::*;

verus! {

/// The banner, in twelve bytes.
pub open spec fn banner_bytes() -> Seq<u8> {
    encode_utf8(HANDSHAKE_MESSAGE@) + bytes::zeros(4)
}

/// The greeting of the server.
pub open spec fn greeting(channel_id: u32) -> Seq<u8> {
    banner_bytes() + bytes::le32(channel_id) + bytes::zeros(28)
}

/// The answer of a client.
pub open spec fn answer(connect_key: Seq<char>) -> Seq<u8> {
    banner_bytes() + encode_utf8(connect_key) + bytes::zeros(
        (KEY_MAX_SIZE - encode_utf8(connect_key).len()) as nat,
    )
}

/// The bytes of the banner text.
pub proof fn banner_is_ascii()
    ensures
        encode_utf8(HANDSHAKE_MESSAGE@) == seq![
            0x4fu8,
            0x48u8,
            0x4fu8,
            0x53u8,
            0x20u8,
            0x48u8,
            0x44u8,
            0x43u8,
        ],
        HANDSHAKE_MESSAGE@.len() == 8,
{
    reveal_strlit("OHOS HDC");
    let s = HANDSHAKE_MESSAGE@;
    assert(is_ascii_chars(s));
    is_ascii_chars_encode_utf8(s);
    assert(encode_utf8(s) =~= seq![
        0x4fu8,
        0x48u8,
        0x4fu8,
        0x53u8,
        0x20u8,
        0x48u8,
        0x44u8,
        0x43u8,
    ]);
}

fn push_banner(buf: &mut Vec<u8>)
    ensures
        final(buf)@ == old(buf)@ + banner_bytes(),
{
    let ghost before = buf@;
    push_bytes(buf, HANDSHAKE_MESSAGE.as_bytes());
    push_zeros(buf, 4);
    assert(buf@ =~= before + banner_bytes());
}

/// The greeting of the server.
pub fn server_greeting(channel_id: u32) -> (r: Vec<u8>)
    ensures
        r@ == greeting(channel_id),
        r@.len() == BANNER_SIZE + KEY_MAX_SIZE,
{
    let mut buf: Vec<u8> = Vec::new();
    push_banner(&mut buf);
    push_le32(&mut buf, channel_id);
    push_zeros(&mut buf, 28);
    proof {
        banner_is_ascii();
        assert(buf@ =~= greeting(channel_id));
    }
    buf
}

/// The answer of a client. The key has at most 32 bytes.
pub fn client_answer(connect_key: &str) -> (r: Vec<u8>)
    requires
        encode_utf8(connect_key@).len() <= KEY_MAX_SIZE,
    ensures
        r@ == answer(connect_key@),
        r@.len() == BANNER_SIZE + KEY_MAX_SIZE,
{
    let mut buf: Vec<u8> = Vec::new();
    push_banner(&mut buf);
    let key = connect_key.as_bytes();
    push_bytes(&mut buf, key);
    push_zeros(&mut buf, KEY_MAX_SIZE - key.len());
    proof {
        banner_is_ascii();
        assert(buf@ =~= answer(connect_key@));
    }
    buf
}

/// Why a handshake was refused.
#[derive(Debug, Clone, Copy, PartialEq, Eq, Structural)]
pub enum HandshakeError {
    /// The banner of a client is no text.
    NotUtf8,
    /// The greeting of the server is no text.
    Greeting(Utf8Fault),
    /// The banner is another one.
    BadBanner,
    /// The key is no text.
    BadKey,
}

impl HandshakeError {
    /// The sentence that reports the error.
    pub open spec fn text(self) -> Seq<char> {
        match self {
            HandshakeError::NotUtf8 => "not utf-8 chars"@,
            HandshakeError::Greeting(e) => "handshake from_utf8 error: "@ + e.text(),
            HandshakeError::BadBanner => "Recv server-hello failed"@,
            HandshakeError::BadKey => "unpack connect key failed"@,
        }
    }

    /// The sentence that reports the error.
    pub fn message(&self) -> (r: String)
        ensures
            r@ == self.text(),
    {
        match *self {
            HandshakeError::NotUtf8 => "not utf-8 chars".to_owned(),
            HandshakeError::Greeting(e) => {
                concat2("handshake from_utf8 error: ", e.message().as_str())
            },
            HandshakeError::BadBanner => "Recv server-hello failed".to_owned(),
            HandshakeError::BadKey => "unpack connect key failed".to_owned(),
        }
    }
}

/// What is wrong with the banner at the beginning of `recv`.
pub open spec fn banner_error(recv: Seq<u8>) -> Option<HandshakeError> {
    if !valid_utf8(recv.take(8)) {
        Some(HandshakeError::NotUtf8)
    } else if recv.take(8) != encode_utf8(HANDSHAKE_MESSAGE@) {
        Some(HandshakeError::BadBanner)
    } else {
        None
    }
}

/// What is wrong with the greeting of a server.
pub open spec fn greeting_error(recv: Seq<u8>) -> Option<HandshakeError> {
    match banner_error(recv) {
        Some(HandshakeError::NotUtf8) => Some(
            HandshakeError::Greeting(text::utf8_fault(recv.take(8))),
        ),
        other => other,
    }
}

/// Looks at the banner at the beginning of the greeting of a server, which has at least
/// eight bytes.
pub fn check_banner(recv: &[u8]) -> (r: Result<(), HandshakeError>)
    requires
        recv.len() >= 8,
    ensures
        match r {
            Ok(()) => greeting_error(recv@) is None,
            Err(e) => greeting_error(recv@) == Some(e),
        },
{
    let head = slice_subrange(recv, 0, 8);
    assert(head@ =~= recv@.take(8));
    match read_utf8(copy_bytes(head)) {
        Err(e) => Err(HandshakeError::Greeting(e)),
        Ok(_) => {
            if same_bytes(head, HANDSHAKE_MESSAGE.as_bytes()) {
                Ok(())
            } else {
                Err(HandshakeError::BadBanner)
            }
        },
    }
}

/// Where the leading zeros end, or the length of bytes that are all zero.
pub open spec fn zeros_end(b: Seq<u8>) -> int
    decreases b.len(),
{
    if b.len() == 0 || b[0] != 0 {
        0
    } else {
        1 + zeros_end(b.drop_first())
    }
}

/// The place of the first zero, or the length of bytes without one.
pub open spec fn first_zero(b: Seq<u8>) -> int
    decreases b.len(),
{
    if b.len() == 0 || b[0] == 0 {
        0
    } else {
        1 + first_zero(b.drop_first())
    }
}

/// The first run of bytes that are not zero.
pub open spec fn key_bytes(b: Seq<u8>) -> Seq<u8> {
    let rest = b.skip(zeros_end(b));
    rest.take(first_zero(rest))
}

/// The key in an answer.
pub open spec fn key_in(recv: Seq<u8>) -> Result<Seq<char>, HandshakeError> {
    match banner_error(recv) {
        Some(e) => Err(e),
        None => if valid_utf8(key_bytes(recv.skip(12))) {
            Ok(decode_utf8(key_bytes(recv.skip(12))))
        } else {
            Err(HandshakeError::BadKey)
        },
    }
}

proof fn zeros_end_bounds(b: Seq<u8>)
    ensures
        0 <= zeros_end(b) <= b.len(),
        zeros_end(b) < b.len() ==> b[zeros_end(b)] != 0,
        forall|i: int| 0 <= i < zeros_end(b) ==> b[i] == 0,
    decreases b.len(),
{
    if b.len() > 0 && b[0] == 0 {
        let t = b.drop_first();
        zeros_end_bounds(t);
        if zeros_end(t) < t.len() {
            assert(b[zeros_end(b)] == t[zeros_end(t)]);
        }
        assert forall|i: int| 0 <= i < zeros_end(b) implies b[i] == 0 by {
            if i > 0 {
                assert(b[i] == t[i - 1]);
            }
        }
    }
}

proof fn first_zero_bounds(b: Seq<u8>)
    ensures
        0 <= first_zero(b) <= b.len(),
        first_zero(b) < b.len() ==> b[first_zero(b)] == 0,
        forall|i: int| 0 <= i < first_zero(b) ==> b[i] != 0,
    decreases b.len(),
{
    if b.len() > 0 && b[0] != 0 {
        let t = b.drop_first();
        first_zero_bounds(t);
        if first_zero(t) < t.len() {
            assert(b[first_zero(b)] == t[first_zero(t)]);
        }
        assert forall|i: int| 0 <= i < first_zero(b) implies b[i] != 0 by {
            if i > 0 {
                assert(b[i] == t[i - 1]);
            }
        }
    }
}

/// The place of the first zero from `from` on, or the length.
pub fn find_zero(b: &[u8], from: usize) -> (r: usize)
    requires
        from <= b.len(),
    ensures
        from <= r <= b.len(),
        r == from + first_zero(b@.skip(from as int)),
{
    let ghost rest = b@.skip(from as int);
    proof {
        first_zero_bounds(rest);
    }
    let mut i: usize = from;
    while i < b.len()
        invariant
            from <= i <= b.len(),
            rest == b@.skip(from as int),
            0 <= first_zero(rest) <= rest.len(),
            first_zero(rest) < rest.len() ==> rest[first_zero(rest)] == 0,
            forall|j: int| 0 <= j < first_zero(rest) ==> rest[j] != 0,
            forall|j: int| 0 <= j < i - from ==> rest[j] != 0,
        decreases b.len() - i,
    {
        assert(rest[i - from] == b@[i as int]);
        if b[i] == 0 {
            return i;
        }
        i += 1;
    }
    i
}

/// The key in an answer of a client, which has at least twelve bytes.
pub fn unpack_channel_handshake(recv: &[u8]) -> (r: Result<String, HandshakeError>)
    requires
        recv.len() >= BANNER_SIZE,
    ensures
        match r {
            Ok(key) => key_in(recv@) == Ok::<_, HandshakeError>(key@),
            Err(e) => key_in(recv@) == Err::<Seq<char>, _>(e),
        },
{
    match check_banner(recv) {
        Err(HandshakeError::Greeting(_)) => {
            return Err(HandshakeError::NotUtf8);
        },
        Err(e) => {
            return Err(e);
        },
        Ok(()) => {},
    }
    let ghost b = recv@.skip(12);
    proof {
        zeros_end_bounds(b);
    }
    let mut start: usize = BANNER_SIZE;
    while start < recv.len() && recv[start] == 0
        invariant
            BANNER_SIZE <= start <= recv.len(),
            b == recv@.skip(12),
            0 <= zeros_end(b) <= b.len(),
            zeros_end(b) < b.len() ==> b[zeros_end(b)] != 0,
            forall|i: int| 0 <= i < zeros_end(b) ==> b[i] == 0,
            forall|i: int| 0 <= i < start - 12 ==> b[i] == 0,
        ensures
            BANNER_SIZE <= start <= recv.len(),
            forall|i: int| 0 <= i < start - 12 ==> b[i] == 0,
            start == recv.len() || recv@[start as int] != 0,
        decreases recv.len() - start,
    {
        assert(b[start - 12] == recv@[start as int]);
        start += 1;
    }
    proof {
        if start < recv.len() {
            assert(b[start - 12] == recv@[start as int]);
        }
        assert(zeros_end(b) == start - 12);
    }
    let ghost rest = b.skip(zeros_end(b));
    assert(rest =~= recv@.skip(start as int));
    let end: usize = find_zero(recv, start);
    assert(recv@.subrange(start as int, end as int) =~= key_bytes(b));
    match text_of_utf8(copy_range(recv, start, end)) {
        None => Err(HandshakeError::BadKey),
        Some(key) => Ok(key),
    }
}

/// A key that a client sends is the key that the server reads. A key does not hold
/// zero characters, and has at most 32 bytes.
pub proof fn key_read_back(key: Seq<char>)
    requires
        encode_utf8(key).len() <= KEY_MAX_SIZE,
        forall|i: int| 0 <= i < encode_utf8(key).len() ==> encode_utf8(key)[i] != 0,
    ensures
        key_in(answer(key)) == Ok::<_, HandshakeError>(key),
{
    let k = encode_utf8(key);
    let recv = answer(key);
    banner_is_ascii();
    assert(recv.take(8) =~= encode_utf8(HANDSHAKE_MESSAGE@));
    encode_utf8_valid_utf8(HANDSHAKE_MESSAGE@);
    let b = recv.skip(12);
    let pad = bytes::zeros((KEY_MAX_SIZE - k.len()) as nat);
    assert(b =~= k + pad);
    zeros_end_bounds(b);
    let z = zeros_end(b);
    let rest = b.skip(z);
    first_zero_bounds(rest);
    if k.len() == 0 {
        if z < b.len() {
            assert(b[z] == 0);
        }
        assert(rest =~= Seq::<u8>::empty());
        assert(key_bytes(b) =~= k);
    } else {
        assert(b[0] == k[0]);
        assert(z == 0);
        assert(rest =~= b);
        let f = first_zero(rest);
        if f < k.len() {
            assert(rest[f] == k[f]);
        }
        if f > k.len() {
            assert(rest[k.len() as int] == 0);
        }
        assert(f == k.len());
        assert(key_bytes(b) =~= k);
    }
    encode_utf8_valid_utf8(key);
    encode_utf8_decode_utf8(key);
}

/// What the first message of a client is.
#[derive(Debug, PartialEq, Eq)]
pub enum FirstMessage {
    /// An answer to the greeting: the client means the device under a key.
    Answer(String),
    /// A command.
    Command,
}

/// Whether a message begins with the banner.
pub open spec fn begins_with_banner(recv: Seq<u8>) -> bool {
    recv.len() >= 8 && recv.take(8) == encode_utf8(HANDSHAKE_MESSAGE@)
}

/// The key that the first message of a client answers with; nothing, if it is a command.
pub open spec fn first_said(recv: Seq<u8>) -> Option<Seq<char>> {
    if begins_with_banner(recv) && key_in(recv) is Ok {
        Some(
            if key_in(recv)->Ok_0.len() == 0 {
                "any"@
            } else {
                key_in(recv)->Ok_0
            },
        )
    } else {
        None
    }
}

/// What the first message of a client is: an answer, if it begins with the banner and
/// its key is a text, and a command otherwise. An empty key stands for any device.
/// A message that begins with the banner has at least twelve bytes.
pub fn read_first_message(recv: &[u8]) -> (r: FirstMessage)
    requires
        begins_with_banner(recv@) ==> recv.len() >= BANNER_SIZE,
    ensures
        match r {
            FirstMessage::Answer(key) => first_said(recv@) == Some(key@),
            FirstMessage::Command => first_said(recv@) is None,
        },
{
    if recv.len() < 8 {
        return FirstMessage::Command;
    }
    let head = slice_subrange(recv, 0, 8);
    assert(head@ =~= recv@.take(8));
    if !same_bytes(head, HANDSHAKE_MESSAGE.as_bytes()) {
        return FirstMessage::Command;
    }
    match unpack_channel_handshake(recv) {
        Err(_) => FirstMessage::Command,
        Ok(key) => {
            if key.as_str().is_empty() {
                FirstMessage::Answer("any".to_owned())
            } else {
                FirstMessage::Answer(key)
            }
        },
    }
}

/// Whether the first 48 bytes of a connection are those of a development
/// environment: four bytes for the length 44, which is a comma, and the banner behind
/// them. The comma may be the first byte or the last of the four.
pub open spec fn from_ide(peeked: Seq<u8>) -> bool {
    peeked.len() == 48 && (peeked[0] == 0x2c || peeked[3] == 0x2c) && ide_banner(peeked)
}

/// Whether the banner stands at the fifth place.
pub open spec fn ide_banner(head: Seq<u8>) -> bool {
    head.subrange(4, 12) == encode_utf8(HANDSHAKE_MESSAGE@)
}

/// Whether the banner stands at the fifth place of a head.
pub fn check_ide_banner(head: &[u8]) -> (r: bool)
    requires
        head.len() >= 12,
    ensures
        r == ide_banner(head@),
{
    same_bytes(slice_subrange(head, 4, 12), HANDSHAKE_MESSAGE.as_bytes())
}

/// Whether a connection comes from a development environment, by what was read of it
/// in advance.
pub fn is_deveco(peeked: &[u8]) -> (r: bool)
    ensures
        r == from_ide(peeked@),
{
    peeked.len() == 48 && (peeked[0] == 0x2c || peeked[3] == 0x2c) && check_ide_banner(peeked)
}

/// The client takes the greeting of the server, in which the number of the channel stands behind
/// the banner; and the server takes the answer of the client, in which the key of the device
/// stands there. Without a key the client means any device.
pub proof fn ends_greet_each_other(channel_id: u32, key: Seq<char>)
    requires
        encode_utf8(key).len() <= 32,
        forall|i: int| 0 <= i < encode_utf8(key).len() ==> encode_utf8(key)[i] != 0,
    ensures
        greeting_error(greeting(channel_id)) is None,
        greeting(channel_id).len() == 44,
        greeting(channel_id).subrange(12, 16) == bytes::le32(channel_id),
        answer(key).len() == 44,
        first_said(answer(key)) == Some(
            if key == Seq::<char>::empty() {
                "any"@
            } else {
                key
            },
        ),
{
    banner_is_ascii();
    encode_utf8_valid_utf8(HANDSHAKE_MESSAGE@);
    let g = greeting(channel_id);
    assert(g.take(8) =~= encode_utf8(HANDSHAKE_MESSAGE@));
    assert(g.subrange(12, 16) =~= bytes::le32(channel_id));
    key_read_back(key);
    assert(answer(key).take(8) =~= encode_utf8(HANDSHAKE_MESSAGE@));
    assert(key.len() == 0 <==> key =~= Seq::<char>::empty());
}

/// What does not begin with the banner is no greeting, and a first message without it is a
/// command.
pub proof fn others_are_not_greeted(recv: Seq<u8>)
    requires
        recv.len() >= 8,
        recv.take(8) != encode_utf8("OHOS HDC"@),
    ensures
        greeting_error(recv) is Some,
        key_in(recv) is Err,
        first_said(recv) is None,
{
}

/// A connection comes from a development environment if the length 44 stands before the banner,
/// in either byte order, and 48 bytes are there.
pub proof fn environment_is_known(head: Seq<u8>, rest: Seq<u8>)
    requires
        head.len() == 4,
        rest.len() == 36,
    ensures
        from_ide(head + encode_utf8("OHOS HDC"@) + rest) == (head[0] == 44 || head[3] == 44),
        !from_ide(head + encode_utf8("OHOS HDC"@) + rest.push(0)),
{
    banner_is_ascii();
    let p = head + encode_utf8("OHOS HDC"@) + rest;
    assert(p.subrange(4, 12) =~= encode_utf8("OHOS HDC"@));
    assert(p[0] == head[0] && p[3] == head[3]);
}

} // verus!
