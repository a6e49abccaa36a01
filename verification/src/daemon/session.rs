//! How a session with a host begins.

use crate::host::auth;
use crate::host::dispatch::contains_word;
use crate::host::session;
use crate::host::session::{AuthActionView, AuthView, Phase, Transport, make_handshake};
use crate::protocol::command::HdcCommand;
use crate::protocol::config::{AUTH_TYPE_OK, AUTH_TYPE_SSL_TLS_PSK, DAEMON_PORT, FEATURE_ENCRYPT_TCP, FEATURE_HEARTBEAT, HDC_HOST_DAEMON_BUF_SEPARATOR, TaskMessage, TaskMessageView};
use crate::protocol::encrypt;
use crate::protocol::encrypt::{PskCipher, PskCipherView};
use crate::protocol::keys;
use crate::protocol::keys::{encode_base64, public_fault, seal_oaep};
use crate::protocol::labeled;
use crate::protocol::labeled::{LabeledView, check_tlv, get_value, make_tlv, parse_tlv};
use crate::protocol::serializer;
use crate::protocol::serializer::{HdcDeserialize, SessionHandShake, SessionHandShakeView};
use crate::protocol::tlv;
use crate::random::random_id;
use crate::text;
use crate::text::{concat2, concat3, copy_text, parse_up_to, split};
use vstd::prelude::*;
use vstd::utf8::*;

verus! {

// ---------------------------------------------------------------------------
// What the two ends tell of themselves
// ---------------------------------------------------------------------------

/// The host says that it can encrypt.
pub open spec fn supports_encrypt(buf: Seq<char>) -> bool {
    match labeled::value_of(labeled::entries_of(buf), "supportfeatures"@) {
        Some(v) => text::split_parts(v, ',').contains(FEATURE_ENCRYPT_TCP@),
        None => false,
    }
}

/// Tells whether the host says that it can encrypt.
pub fn host_supports_encrypt(buf: &str) -> (r: bool)
    requires
        labeled::tlv_readable(buf@),
    ensures
        r == supports_encrypt(buf@),
{
    let entries = parse_tlv(buf);
    match get_value(entries.as_slice(), "supportfeatures") {
        Some(v) => {
            let parts = split(v.as_str(), ',');
            contains_word(parts.as_slice(), FEATURE_ENCRYPT_TCP)
        },
        None => false,
    }
}

/// The public key that the host tells.
pub fn extract_host_pubkey(buf: &str) -> (r: Option<String>)
    requires
        labeled::tlv_readable(buf@),
    ensures
        auth::opt_text(r) == labeled::value_of(labeled::entries_of(buf@), "pubkey"@),
{
    let entries = parse_tlv(buf);
    get_value(entries.as_slice(), "pubkey")
}

/// What the daemon tells of itself: its name, and what it can do.
pub open spec fn daemon_labels(hostname: Seq<char>, encrypt: bool) -> Seq<char> {
    labeled::labeled("devname"@, hostname) + labeled::labeled(
        "supportfeatures"@,
        if encrypt {
            FEATURE_HEARTBEAT@ + ","@ + FEATURE_ENCRYPT_TCP@
        } else {
            FEATURE_HEARTBEAT@
        },
    )
}

/// What the daemon tells of itself.
pub fn build_daemon_auth_buf(hostname: &str, encrypt: bool) -> (r: String)
    ensures
        r@ == daemon_labels(hostname@, encrypt),
{
    let mut buf = make_tlv("devname", hostname);
    let features: String = if encrypt {
        concat3(FEATURE_HEARTBEAT, ",", FEATURE_ENCRYPT_TCP)
    } else {
        FEATURE_HEARTBEAT.to_owned()
    };
    buf.append(make_tlv("supportfeatures", features.as_str()).as_str());
    buf
}

/// The labels that the two ends use can be read back.
proof fn labels_are_plain()
    ensures
        labeled::plain_label("devname"@),
        labeled::plain_label("supportfeatures"@),
        labeled::plain_label("pubkey"@),
        labeled::plain_label("authtype"@),
        "devname"@ != "supportfeatures"@,
        "pubkey"@ != "supportfeatures"@,
        "pubkey"@ != "authtype"@,
        "authtype"@ != "supportfeatures"@,
{
    reveal_strlit("devname");
    reveal_strlit("supportfeatures");
    reveal_strlit("pubkey");
    reveal_strlit("authtype");
    assert("devname"@.len() == 7 && "supportfeatures"@.len() == 15 && "pubkey"@.len() == 6
        && "authtype"@.len() == 8);
}

/// The features are short.
proof fn features_are_short()
    ensures
        encode_utf8(FEATURE_HEARTBEAT@).len() < 100,
        encode_utf8(FEATURE_HEARTBEAT@ + ","@ + FEATURE_ENCRYPT_TCP@).len() < 100,
{
    reveal_strlit("heartbeat");
    reveal_strlit(",");
    reveal_strlit("encrypt_tcp");
    let s = FEATURE_HEARTBEAT@ + ","@ + FEATURE_ENCRYPT_TCP@;
    assert(is_ascii_chars(FEATURE_HEARTBEAT@));
    assert(is_ascii_chars(s));
    is_ascii_chars_encode_utf8(FEATURE_HEARTBEAT@);
    is_ascii_chars_encode_utf8(s);
}

/// Nothing follows the last entry.
proof fn nothing_follows()
    ensures
        labeled::entries_of(Seq::<char>::empty()) == Seq::<LabeledView>::empty(),
        labeled::tlv_readable(Seq::<char>::empty()),
{
    assert(encode_utf8(Seq::<char>::empty()).len() == 0);
}

/// The host learns the name of the device from what the daemon tells.
pub proof fn device_name_is_told(hostname: Seq<char>, encrypt: bool)
    requires
        encode_utf8(hostname).len() < 10_000_000_000_000_000,
    ensures
        labeled::tlv_readable(daemon_labels(hostname, encrypt)),
        session::device_name(daemon_labels(hostname, encrypt)) == hostname,
{
    labels_are_plain();
    features_are_short();
    nothing_follows();
    let features = if encrypt {
        FEATURE_HEARTBEAT@ + ","@ + FEATURE_ENCRYPT_TCP@
    } else {
        FEATURE_HEARTBEAT@
    };
    let none = Seq::<char>::empty();
    let second = labeled::labeled("supportfeatures"@, features);
    labeled::labeled_read_back("devname"@, hostname, second);
    labeled::labeled_read_back("supportfeatures"@, features, none);
    assert(second + none =~= second);
    let e1 = LabeledView { label: "devname"@, value: hostname };
    let e2 = LabeledView { label: "supportfeatures"@, value: features };
    assert(labeled::entries_of(second) =~= seq![e2]);
    let all = labeled::entries_of(daemon_labels(hostname, encrypt));
    assert(all =~= seq![e1, e2]);
    assert(all.drop_last() =~= seq![e1]);
    assert(labeled::value_of(seq![e1], "devname"@) == Some(hostname));
}

/// The daemon learns from what the host tells whether it can encrypt, and its key.
pub proof fn host_is_understood(pubkey_info: Option<Seq<char>>, encrypt: bool)
    requires
        pubkey_info is Some ==> encode_utf8(pubkey_info->Some_0).len() < 10_000_000_000_000_000,
    ensures
        labeled::tlv_readable(session::host_labels(pubkey_info, encrypt)),
        supports_encrypt(session::host_labels(pubkey_info, encrypt)) == encrypt,
        labeled::value_of(labeled::entries_of(session::host_labels(pubkey_info, encrypt)), "pubkey"@) == pubkey_info,
{
    labels_are_plain();
    features_are_short();
    nothing_follows();
    let features = if encrypt {
        FEATURE_HEARTBEAT@ + ","@ + FEATURE_ENCRYPT_TCP@
    } else {
        FEATURE_HEARTBEAT@
    };
    let none = Seq::<char>::empty();
    let last = labeled::labeled("supportfeatures"@, features);
    labeled::labeled_read_back("supportfeatures"@, features, none);
    assert(last + none =~= last);
    let e0 = LabeledView { label: "authtype"@, value: "1"@ };
    let e2 = LabeledView { label: "supportfeatures"@, value: features };
    assert(labeled::entries_of(last) =~= seq![e2]);
    reveal_strlit("1");
    assert(is_ascii_chars("1"@));
    is_ascii_chars_encode_utf8("1"@);
    let all = labeled::entries_of(session::host_labels(pubkey_info, encrypt));
    match pubkey_info {
        Some(info) => {
            let e1 = LabeledView { label: "pubkey"@, value: info };
            let middle = labeled::labeled("pubkey"@, info) + last;
            labeled::labeled_read_back("pubkey"@, info, last);
            labeled::labeled_read_back("authtype"@, "1"@, middle);
            assert(session::host_labels(pubkey_info, encrypt) =~= labeled::labeled("authtype"@, "1"@) + middle);
            assert(labeled::entries_of(middle) =~= seq![e1, e2]);
            assert(all =~= seq![e0, e1, e2]);
            assert(all.drop_last() =~= seq![e0, e1]);
            assert(labeled::value_of(all.drop_last(), "pubkey"@) == Some(info));
        },
        None => {
            labeled::labeled_read_back("authtype"@, "1"@, last);
            assert(session::host_labels(pubkey_info, encrypt) =~= labeled::labeled("authtype"@, "1"@) + last);
            assert(all =~= seq![e0, e2]);
            assert(all.drop_last() =~= seq![e0]);
            assert(seq![e0].drop_last() =~= Seq::<LabeledView>::empty());
            assert(labeled::value_of(Seq::<LabeledView>::empty(), "pubkey"@) is None);
            assert(seq![e0].last() == e0);
            assert(labeled::value_of(seq![e0], "pubkey"@) is None);
        },
    }
    assert(labeled::value_of(all, "supportfeatures"@) == Some(features));
    features_are_split(encrypt);
}

/// The list of features holds the one for encryption where it should.
proof fn features_are_split(encrypt: bool)
    ensures
        text::split_parts(
            if encrypt {
                FEATURE_HEARTBEAT@ + ","@ + FEATURE_ENCRYPT_TCP@
            } else {
                FEATURE_HEARTBEAT@
            },
            ',',
        ).contains(FEATURE_ENCRYPT_TCP@) == encrypt,
{
    reveal_strlit("heartbeat");
    reveal_strlit(",");
    reveal_strlit("encrypt_tcp");
    let a = FEATURE_HEARTBEAT@;
    let b = FEATURE_ENCRYPT_TCP@;
    part_without(a, ',');
    assert(text::split_parts(a, ',') =~= seq![a]);
    if encrypt {
        let s = a + ","@;
        assert(s.drop_last() =~= a);
        assert(text::split_parts(s, ',') =~= seq![a, Seq::<char>::empty()]);
        part_after(s, b, ',');
        assert(s + b =~= a + ","@ + b);
        let parts = text::split_parts(s + b, ',');
        assert(parts =~= seq![a, Seq::<char>::empty() + b]);
        assert(Seq::<char>::empty() + b =~= b);
        assert(parts[1] == b);
        assert(parts.contains(b));
    } else {
        assert(a.len() == 9 && b.len() == 11);
        assert(seq![a][0] == a);
        assert(!seq![a].contains(b));
    }
}

/// A text without the dividing character is one part.
proof fn part_without(s: Seq<char>, c: char)
    requires
        !s.contains(c),
    ensures
        text::split_parts(s, c) == seq![s],
    decreases s.len(),
{
    if s.len() > 0 {
        assert(s[s.len() - 1] != c) by {
            if s[s.len() - 1] == c {
                assert(s.contains(c));
            }
        }
        assert(!s.drop_last().contains(c)) by {
            if s.drop_last().contains(c) {
                let i = choose|i: int| 0 <= i < s.drop_last().len() && s.drop_last()[i] == c;
                assert(s[i] == c);
            }
        }
        part_without(s.drop_last(), c);
        assert(s.drop_last().push(s.last()) =~= s);
        assert(text::split_parts(s, c) =~= seq![s]);
    } else {
        assert(s =~= Seq::<char>::empty());
        assert(text::split_parts(s, c) =~= seq![s]);
    }
}

/// What has no dividing character goes to the last part.
proof fn part_after(s: Seq<char>, t: Seq<char>, c: char)
    requires
        !t.contains(c),
    ensures
        text::split_parts(s + t, c) == text::split_parts(s, c).drop_last().push(
            text::split_parts(s, c).last() + t,
        ),
    decreases t.len(),
{
    text::split_parts_not_empty(s, c);
    if t.len() == 0 {
        assert(s + t =~= s);
        assert(text::split_parts(s, c).last() + t =~= text::split_parts(s, c).last());
        assert(text::split_parts(s, c).drop_last().push(text::split_parts(s, c).last()) =~= text::split_parts(s, c));
    } else {
        let u = t.drop_last();
        assert(t[t.len() - 1] != c) by {
            if t[t.len() - 1] == c {
                assert(t.contains(c));
            }
        }
        assert(!u.contains(c)) by {
            if u.contains(c) {
                let i = choose|i: int| 0 <= i < u.len() && u[i] == c;
                assert(t[i] == c);
            }
        }
        part_after(s, u, c);
        assert((s + t).drop_last() =~= s + u);
        assert((s + t).last() == t.last());
        let before = text::split_parts(s + u, c);
        let first = text::split_parts(s, c);
        assert(before.last() == first.last() + u);
        assert(before.drop_last() =~= first.drop_last());
        assert((first.last() + u).push(t.last()) =~= first.last() + t);
    }
}

// ---------------------------------------------------------------------------
// The answer to the first message
// ---------------------------------------------------------------------------

/// What the first message of a host says.
pub struct HelloView {
    pub session_id: u32,
    pub connect_key: Seq<char>,
    pub buf: Seq<char>,
}

/// What the first message of a host says. Where it cannot be read, the session gets a
/// number of its own, and nothing is known of the host.
pub open spec fn hello_of(payload: Seq<u8>, fallback_id: u32) -> HelloView {
    match SessionHandShakeView::parsed(payload) {
        Ok(hs) => HelloView {
            session_id: hs.session_id,
            connect_key: hs.connect_key,
            buf: hs.buf,
        },
        Err(_) => HelloView {
            session_id: fallback_id,
            connect_key: Seq::empty(),
            buf: Seq::empty(),
        },
    }
}

/// The answer of the daemon.
pub open spec fn answer_message(
    channel_id: u32,
    auth_type: u8,
    hello: HelloView,
    buf: Seq<char>,
) -> TaskMessageView {
    TaskMessageView {
        channel_id,
        command: HdcCommand::KernelHandshake,
        payload: tlv::slots_bytes(
            session::handshake_of(auth_type, hello.session_id, hello.connect_key, buf).slots(),
        ),
    }
}

fn make_answer(channel_id: u32, auth_type: u8, session_id: u32, connect_key: &str, buf: &str) -> (r:
    TaskMessage)
    ensures
        forall|b: Seq<char>|
            r@ == #[trigger] answer_message(
                channel_id,
                auth_type,
                HelloView { session_id, connect_key: connect_key@, buf: b },
                buf@,
            ),
{
    let m = make_handshake(auth_type, session_id, connect_key, buf);
    TaskMessage { channel_id, command: HdcCommand::KernelHandshake, payload: m.payload }
}

/// The key in what the host tells of it: what stands behind the name of the host, if
/// there is a name.
pub open spec fn key_told(info: Seq<char>) -> Seq<char> {
    let parts = text::split_parts(info, HDC_HOST_DAEMON_BUF_SEPARATOR);
    if parts.len() >= 2 {
        parts[1]
    } else {
        info
    }
}

/// Why a session does not begin.
#[derive(Debug, Clone, PartialEq, Eq)]
pub enum GreetError {
    /// The public key of the host cannot be read, for a reason.
    BadKey(String),
    /// The shared key cannot be encrypted, for a reason.
    Seal(String),
}

/// Why a session does not begin.
pub enum GreetErrorView {
    BadKey(Seq<char>),
    Seal(Seq<char>),
}

impl View for GreetError {
    type V = GreetErrorView;

    open spec fn view(&self) -> GreetErrorView {
        match *self {
            GreetError::BadKey(e) => GreetErrorView::BadKey(e@),
            GreetError::Seal(e) => GreetErrorView::Seal(e@),
        }
    }
}

impl GreetErrorView {
    /// The sentence that reports the error.
    pub open spec fn text(self) -> Seq<char> {
        match self {
            GreetErrorView::BadKey(e) => "Invalid host public key: "@ + e,
            GreetErrorView::Seal(e) => "RSA encrypt PSK failed: "@ + e,
        }
    }
}

impl GreetError {
    /// The sentence that reports the error.
    pub fn message(&self) -> (r: String)
        ensures
            r@ == self@.text(),
    {
        match self {
            GreetError::BadKey(e) => concat2("Invalid host public key: ", e.as_str()),
            GreetError::Seal(e) => concat2("RSA encrypt PSK failed: ", e.as_str()),
        }
    }
}

/// What can come of encrypting a shared key, with some seed.
pub open spec fn seals_to(pem: Seq<char>, psk: Seq<u8>, r: Result<Seq<u8>, Seq<char>>) -> bool {
    exists|seed: Seq<u8>| #[trigger] keys::rsa_oaep_sealed(pem, psk, seed) == r
}

/// Encrypts the shared key for a host, under the public key that the host told. The seed
/// of the ciphertext is random.
pub fn encrypt_psk_with_pubkey(info: &str, psk: &[u8; 32]) -> (r: Result<Vec<u8>, GreetError>)
    ensures
        match keys::rsa_public_fault(key_told(info@)) {
            Some(e) => r is Err && r->Err_0@ == GreetErrorView::BadKey(e),
            None => match r {
                Ok(sealed) => seals_to(key_told(info@), psk@, Ok(sealed@)),
                Err(GreetError::Seal(e)) => seals_to(key_told(info@), psk@, Err(e@)),
                Err(GreetError::BadKey(_)) => false,
            },
        },
{
    let parts = split(info, HDC_HOST_DAEMON_BUF_SEPARATOR);
    let key: String = if parts.len() >= 2 {
        assert(text::texts(parts@)[1] == parts@[1]@);
        copy_text(parts[1].as_str())
    } else {
        copy_text(info)
    };
    match public_fault(key.as_str()) {
        Some(e) => Err(GreetError::BadKey(e)),
        None => match seal_oaep(key.as_str(), psk) {
            Ok(sealed) => Ok(sealed),
            Err(e) => Err(GreetError::Seal(e)),
        },
    }
}

/// How a session begins.
pub struct Greeting {
    /// The number of the session.
    pub session_id: u32,
    /// The answer to the host, which is sent as it is.
    pub response: TaskMessage,
    /// The cipher of the session, once the answer is sent.
    pub cipher: Option<PskCipher>,
    /// The host has to confirm the encryption.
    pub awaits_ack: bool,
}

/// The session is to be encrypted.
pub open spec fn wants_cipher(hello: HelloView, encrypt_on: bool) -> bool {
    encrypt_on && supports_encrypt(hello.buf)
}

/// The answer that carries an encrypted shared key.
pub fn make_psk_answer(channel_id: u32, session_id: u32, connect_key: &str, sealed: &[u8]) -> (r:
    TaskMessage)
    ensures
        forall|b: Seq<char>|
            r@ == #[trigger] answer_message(
                channel_id,
                AUTH_TYPE_SSL_TLS_PSK,
                HelloView { session_id, connect_key: connect_key@, buf: b },
                keys::base64_encoded(sealed@),
            ),
        keys::base64_decoded(keys::base64_encoded(sealed@)) == Ok::<_, Seq<char>>(sealed@),
{
    let text = encode_base64(sealed);
    make_answer(channel_id, AUTH_TYPE_SSL_TLS_PSK, session_id, connect_key, text.as_str())
}

/// The first message tells what the host can do in a form that can be read.
pub open spec fn hello_readable(payload: Seq<u8>) -> bool {
    SessionHandShakeView::parsed(payload) is Ok ==> labeled::tlv_readable(
        SessionHandShakeView::parsed(payload)->Ok_0.buf,
    )
}

/// Tells whether the first message tells what the host can do in a form that can be read.
pub fn can_greet(first: &TaskMessage) -> (r: bool)
    ensures
        r == hello_readable(first@.payload),
{
    match SessionHandShake::deserialize(first.payload.as_slice()) {
        Ok(hs) => check_tlv(hs.buf.as_str()),
        Err(_) => true,
    }
}

/// A daemon tells a host a shared key, which is encrypted under the public key of the
/// host, and encrypts with that key itself.
pub open spec fn key_handed_over(
    response: TaskMessageView,
    cipher: PskCipherView,
    channel_id: u32,
    hello: HelloView,
    pem: Seq<char>,
    psk: Seq<u8>,
    seed: Seq<u8>,
) -> bool {
    &&& psk.len() == 32
    &&& cipher == encrypt::fresh_cipher(psk, false)
    &&& keys::rsa_oaep_sealed(pem, psk, seed) is Ok
    &&& keys::base64_decoded(keys::base64_encoded(keys::rsa_oaep_sealed(pem, psk, seed)->Ok_0))
        == keys::rsa_oaep_sealed(pem, psk, seed)
    &&& response == answer_message(
        channel_id,
        AUTH_TYPE_SSL_TLS_PSK,
        hello,
        keys::base64_encoded(keys::rsa_oaep_sealed(pem, psk, seed)->Ok_0),
    )
}

/// Answers the first message of a host. `encrypt_on` says whether this daemon encrypts,
/// `hostname` is its name.
pub fn greet(first: &TaskMessage, encrypt_on: bool, hostname: &str) -> (r: Result<
    Greeting,
    GreetError,
>)
    requires
        encrypt_on ==> hello_readable(first@.payload),
    ensures
        match r {
            Ok(g) => {
                let hello = hello_of(first@.payload, g.session_id);
                let key = labeled::value_of(labeled::entries_of(hello.buf), "pubkey"@);
                &&& g.session_id == hello.session_id
                &&& g.awaits_ack == wants_cipher(hello, encrypt_on)
                &&& g.cipher is Some == (wants_cipher(hello, encrypt_on) && key is Some)
                &&& g.cipher is None ==> g.response@ == answer_message(
                    first@.channel_id,
                    AUTH_TYPE_OK,
                    hello,
                    daemon_labels(hostname@, encrypt_on),
                )
                &&& g.cipher is Some ==> {
                    &&& keys::rsa_public_fault(key_told(key->Some_0)) is None
                    &&& exists|psk: Seq<u8>, seed: Seq<u8>|
                        key_handed_over(
                            g.response@,
                            g.cipher->Some_0@,
                            first@.channel_id,
                            hello,
                            key_told(key->Some_0),
                            psk,
                            seed,
                        )
                }
            },
            Err(e) => {
                let hello = hello_of(first@.payload, 0);
                let key = labeled::value_of(labeled::entries_of(hello.buf), "pubkey"@);
                &&& wants_cipher(hello, encrypt_on)
                &&& key is Some
                &&& match (keys::rsa_public_fault(key_told(key->Some_0)), e@) {
                    (Some(reason), _) => e@ == GreetErrorView::BadKey(reason),
                    (None, GreetErrorView::Seal(reason)) => exists|psk: Seq<u8>|
                        psk.len() == 32 && #[trigger] seals_to(
                            key_told(key->Some_0),
                            psk,
                            Err(reason),
                        ),
                    _ => false,
                }
            },
        },
{
    let (session_id, connect_key, buf): (u32, String, String) = match SessionHandShake::deserialize(
        first.payload.as_slice(),
    ) {
        Ok(hs) => (hs.session_id, hs.connect_key, hs.buf),
        Err(_) => (random_id(), String::new(), String::new()),
    };
    proof {
        nothing_follows();
        assert(hello_of(first@.payload, session_id).connect_key =~= connect_key@);
        assert(hello_of(first@.payload, session_id).buf =~= buf@);
        assert(hello_of(first@.payload, 0).buf =~= buf@);
        assert(hello_of(first@.payload, session_id) == (HelloView {
            session_id,
            connect_key: connect_key@,
            buf: buf@,
        }));
    }
    let awaits_ack: bool = encrypt_on && host_supports_encrypt(buf.as_str());
    if awaits_ack {
        match extract_host_pubkey(buf.as_str()) {
            Some(info) => {
                let psk = PskCipher::generate_psk();
                return match encrypt_psk_with_pubkey(info.as_str(), &psk) {
                    Err(e) => {
                        proof {
                            assert(psk@.len() == 32);
                            if keys::rsa_public_fault(key_told(info@)) is None {
                                assert(e@ is Seal);
                                assert(seals_to(key_told(info@), psk@, Err(e@->Seal_0)));
                            }
                        }
                        Err(e)
                    },
                    Ok(sealed) => {
                        let response = make_psk_answer(
                            first.channel_id,
                            session_id,
                            connect_key.as_str(),
                            sealed.as_slice(),
                        );
                        let cipher = PskCipher::new(&psk, false);
                        proof {
                            assert(psk@.len() == 32);
                            assert(response@ == answer_message(
                                first@.channel_id,
                                AUTH_TYPE_SSL_TLS_PSK,
                                hello_of(first@.payload, session_id),
                                keys::base64_encoded(sealed@),
                            ));
                            assert(cipher@ == encrypt::fresh_cipher(psk@, false));
                            let seed = choose|seed: Seq<u8>| #[trigger]
                                keys::rsa_oaep_sealed(key_told(info@), psk@, seed) == Ok::<_, Seq<char>>(sealed@);
                            assert(key_handed_over(
                                response@,
                                cipher@,
                                first@.channel_id,
                                hello_of(first@.payload, session_id),
                                key_told(info@),
                                psk@,
                                seed,
                            ));
                        }
                        let g = Greeting {
                            session_id,
                            response,
                            cipher: Some(cipher),
                            awaits_ack,
                        };
                        proof {
                            assert(g.cipher->Some_0@ == cipher@);
                            let hello = hello_of(first@.payload, g.session_id);
                            assert(labeled::value_of(labeled::entries_of(hello.buf), "pubkey"@)
                                == Some(info@));
                        }
                        Ok(g)
                    },
                };
            },
            None => {},
        }
    }
    let told = build_daemon_auth_buf(hostname, encrypt_on);
    let response = make_answer(
        first.channel_id,
        AUTH_TYPE_OK,
        session_id,
        connect_key.as_str(),
        told.as_str(),
    );
    proof {
        assert(response@ == answer_message(
            first@.channel_id,
            AUTH_TYPE_OK,
            hello_of(first@.payload, session_id),
            daemon_labels(hostname@, encrypt_on),
        ));
    }
    Ok(Greeting { session_id, response, cipher: None, awaits_ack })
}

/// What came of waiting for the word of a host.
#[derive(Debug, PartialEq, Eq)]
pub enum Awaited {
    /// A message.
    Message(TaskMessage),
    /// Nothing that can be read, for a reason.
    Failed(String),
    /// Nothing in time.
    TimedOut,
}

/// Why a host has not confirmed the encryption.
#[derive(Debug, Clone, PartialEq, Eq)]
pub enum AckError {
    /// It sent something else.
    Other,
    /// It sent nothing in time.
    TimedOut,
    /// It closed the connection, or sent nothing that can be read, for a reason.
    Broken(String),
}

/// Why a host has not confirmed the encryption.
pub enum AckErrorView {
    Other,
    TimedOut,
    Broken(Seq<char>),
}

impl View for AckError {
    type V = AckErrorView;

    open spec fn view(&self) -> AckErrorView {
        match *self {
            AckError::Other => AckErrorView::Other,
            AckError::TimedOut => AckErrorView::TimedOut,
            AckError::Broken(e) => AckErrorView::Broken(e@),
        }
    }
}

impl AckErrorView {
    /// The sentence that reports the error.
    pub open spec fn text(self) -> Seq<char> {
        match self {
            AckErrorView::Other => "PSK-ACK expected"@,
            AckErrorView::TimedOut => "PSK-ACK timeout"@,
            AckErrorView::Broken(e) => e,
        }
    }
}

impl AckError {
    /// The sentence that reports the error.
    pub fn message(&self) -> (r: String)
        ensures
            r@ == self@.text(),
    {
        match self {
            AckError::Other => "PSK-ACK expected".to_owned(),
            AckError::TimedOut => "PSK-ACK timeout".to_owned(),
            AckError::Broken(e) => copy_text(e.as_str()),
        }
    }
}

/// What comes of the word of a host: any handshake confirms the encryption.
pub open spec fn acknowledged(awaited: Awaited) -> Result<(), AckErrorView> {
    match awaited {
        Awaited::Message(m) => if m.command == HdcCommand::KernelHandshake {
            Ok(())
        } else {
            Err(AckErrorView::Other)
        },
        Awaited::Failed(e) => Err(AckErrorView::Broken(e@)),
        Awaited::TimedOut => Err(AckErrorView::TimedOut),
    }
}

/// Tells whether a host has confirmed the encryption: with any handshake.
pub fn check_ack(awaited: Awaited) -> (r: Result<(), AckError>)
    ensures
        match r {
            Ok(()) => acknowledged(awaited) is Ok,
            Err(e) => acknowledged(awaited) == Err::<(), _>(e@),
        },
{
    match awaited {
        Awaited::Message(m) => {
            if m.command == HdcCommand::KernelHandshake {
                Ok(())
            } else {
                Err(AckError::Other)
            }
        },
        Awaited::Failed(e) => Err(AckError::Broken(e)),
        Awaited::TimedOut => Err(AckError::TimedOut),
    }
}

/// The daemon reads in the first message what the host put there.
pub proof fn hello_is_understood(
    auth_type: u8,
    session_id: u32,
    connect_key: Seq<char>,
    buf: Seq<char>,
    fallback_id: u32,
)
    requires
        session::handshake_of(auth_type, session_id, connect_key, buf).readable(),
    ensures
        hello_of(
            session::handshake_message(auth_type, session_id, connect_key, buf).payload,
            fallback_id,
        ) == (HelloView { session_id, connect_key, buf }),
{
    serializer::session_handshake_round_trip(
        session::handshake_of(auth_type, session_id, connect_key, buf),
    );
}

/// Where the daemon does not encrypt, its answer makes the session stand for the host, which
/// learns the name of the device from it.
pub proof fn plain_session_stands(
    v: AuthView,
    their_session: u32,
    encrypt: bool,
    channel_id: u32,
    hello: HelloView,
    hostname: Seq<char>,
    encrypt_on: bool,
)
    requires
        v.phase == Phase::Receiving,
        encode_utf8(hostname).len() < 10_000_000_000_000_000,
        session::handshake_of(
            AUTH_TYPE_OK,
            hello.session_id,
            hello.connect_key,
            daemon_labels(hostname, encrypt_on),
        ).readable(),
    ensures
        ({
            let answer = answer_message(
                channel_id,
                AUTH_TYPE_OK,
                hello,
                daemon_labels(hostname, encrypt_on),
            );
            let (after, action) = session::on_message(v, their_session, answer, encrypt);
            action is Accept && session::device_name(after.last_buf) == hostname
        }),
{
    serializer::session_handshake_round_trip(
        session::handshake_of(
            AUTH_TYPE_OK,
            hello.session_id,
            hello.connect_key,
            daemon_labels(hostname, encrypt_on),
        ),
    );
    device_name_is_told(hostname, encrypt_on);
}

/// Where the daemon encrypts, a host that encrypts too finds in the answer what the daemon
/// has sealed; with the key in it, either end receives as the other sends.
pub proof fn encrypted_session_stands(
    v: AuthView,
    their_session: u32,
    response: TaskMessageView,
    cipher: PskCipherView,
    channel_id: u32,
    hello: HelloView,
    pem: Seq<char>,
    psk: Seq<u8>,
    seed: Seq<u8>,
)
    requires
        key_handed_over(response, cipher, channel_id, hello, pem, psk, seed),
        v.phase == Phase::Receiving,
        v.transport == Transport::Tcp,
        session::handshake_of(
            AUTH_TYPE_SSL_TLS_PSK,
            hello.session_id,
            hello.connect_key,
            keys::base64_encoded(keys::rsa_oaep_sealed(pem, psk, seed)->Ok_0),
        ).readable(),
    ensures
        session::on_message(v, their_session, response, true).1 == AuthActionView::AskPsk(
            keys::rsa_oaep_sealed(pem, psk, seed)->Ok_0,
        ),
        encrypt::fresh_cipher(psk, true).send_key == cipher.recv_key,
        encrypt::fresh_cipher(psk, true).recv_key == cipher.send_key,
{
    serializer::session_handshake_round_trip(
        session::handshake_of(
            AUTH_TYPE_SSL_TLS_PSK,
            hello.session_id,
            hello.connect_key,
            keys::base64_encoded(keys::rsa_oaep_sealed(pem, psk, seed)->Ok_0),
        ),
    );
    encrypt::fresh_ciphers_match(psk, true);
}

/// The port on which the daemon listens: the one that is set, if it is one.
pub open spec fn daemon_port(setting: Option<Seq<char>>) -> nat {
    match setting {
        None => DAEMON_PORT as nat,
        Some(s) => match text::parsed_up_to(s, 65535) {
            Some(n) => n,
            None => DAEMON_PORT as nat,
        },
    }
}

/// The port on which the daemon listens.
pub fn get_daemon_port(setting: &Option<String>) -> (r: u16)
    ensures
        r == daemon_port(auth::opt_text(*setting)),
{
    match setting {
        None => DAEMON_PORT,
        Some(s) => match parse_up_to(s.as_str(), 65535) {
            Some(n) => n as u16,
            None => DAEMON_PORT,
        },
    }
}

/// The daemon finds the key of the host behind the name of the host.
pub proof fn key_is_found_behind_the_name(hostname: Seq<char>, pem: Seq<char>)
    requires
        !hostname.contains('\x0C'),
        !pem.contains('\x0C'),
    ensures
        key_told(auth::host_and_key(hostname, pem)) == pem,
        key_told(pem) == pem,
{
    let parts = seq![hostname, pem];
    assert forall|i: int| 0 <= i < parts.len() implies !(#[trigger] parts[i]).contains('\x0C') by {
        assert(i == 0 || i == 1);
    }
    text::split_undoes_join(parts, '\x0C');
    assert(text::joined(parts, seq!['\x0C']) =~= auth::host_and_key(hostname, pem)) by {
        reveal_with_fuel(text::joined, 3);
        assert(parts.drop_last() =~= seq![hostname]);
    }
    text::undivided(pem, '\x0C');
}

/// Once it has handed over a key, the daemon goes on only with a host that answers with a
/// handshake.
pub proof fn only_a_handshake_acknowledges(awaited: Awaited)
    ensures
        acknowledged(awaited) is Ok <==> awaited is Message && awaited->Message_0.command
            == HdcCommand::KernelHandshake,
        awaited is TimedOut ==> acknowledged(awaited) == Err::<(), _>(AckErrorView::TimedOut),
        awaited is Failed ==> acknowledged(awaited) == Err::<(), _>(
            AckErrorView::Broken(awaited->Failed_0@),
        ),
        awaited is Message && awaited->Message_0.command != HdcCommand::KernelHandshake
            ==> acknowledged(awaited) == Err::<(), _>(AckErrorView::Other),
{
}

/// The daemon listens on the port that is set, and on one of its own where none is, or where
/// what is set is no port.
pub proof fn set_port_is_listened_on(port: u16)
    ensures
        daemon_port(Some(text::decimal(port as nat))) == port,
        daemon_port(None) == 0,
        daemon_port(Some(Seq::empty())) == 0,
{
    text::decimal_denotes(port as nat);
}

/// A daemon seals a key for a host only where it wants to and the host can.
pub proof fn encryption_takes_two(
    pubkey_info: Option<Seq<char>>,
    host_can: bool,
    encrypt_on: bool,
    session_id: u32,
    connect_key: Seq<char>,
)
    requires
        pubkey_info is Some ==> encode_utf8(pubkey_info->Some_0).len() < 10_000_000_000_000_000,
    ensures
        wants_cipher(
            HelloView {
                session_id,
                connect_key,
                buf: session::host_labels(pubkey_info, host_can),
            },
            encrypt_on,
        ) == (encrypt_on && host_can),
{
    host_is_understood(pubkey_info, host_can);
}

/// A key that is handed over has 32 bytes, and what the host is sent in a handshake of that
/// kind, once decoded, is that key sealed for the host's public key and nothing else.
pub proof fn sealed_key_is_sent(
    response: TaskMessageView,
    cipher: PskCipherView,
    channel_id: u32,
    hello: HelloView,
    pem: Seq<char>,
    psk: Seq<u8>,
    seed: Seq<u8>,
)
    requires
        key_handed_over(response, cipher, channel_id, hello, pem, psk, seed),
    ensures
        psk.len() == 32,
        cipher == encrypt::fresh_cipher(psk, false),
        keys::rsa_oaep_sealed(pem, psk, seed) is Ok,
        exists|said: Seq<char>|
            {
                &&& keys::base64_decoded(said) == keys::rsa_oaep_sealed(pem, psk, seed)
                &&& response == #[trigger] answer_message(
                    channel_id,
                    AUTH_TYPE_SSL_TLS_PSK,
                    hello,
                    said,
                )
            },
{
    let said = keys::base64_encoded(keys::rsa_oaep_sealed(pem, psk, seed)->Ok_0);
    assert(response == answer_message(channel_id, AUTH_TYPE_SSL_TLS_PSK, hello, said));
}

} // verus!
