//! Sessions between the server and a daemon: how the two ends come to trust each
//! other, and where the messages of the daemon go.

use crate::host::auth;
use crate::host::connect_map;
use crate::host::connect_map::{ConnectMap, DaemonInfo, DaemonInfoView, DeviceView, ResolveErrorView};
use crate::host::forward_map;
use crate::host::forward_map::{ForwardMap, Rule, RuleView, remove_forward_entry};
use crate::host::tcp_map;
use crate::host::tcp_map::{TcpMap, TcpMapView};
use crate::host::usb_map;
use crate::host::usb_map::{UsbMap, UsbMapView};
use crate::protocol::bytes::{copy_bytes, copy_range};
use crate::protocol::command::HdcCommand;
use crate::protocol::config;
use crate::protocol::config::{AUTH_TYPE_FAIL, AUTH_TYPE_NONE, AUTH_TYPE_OK, AUTH_TYPE_PUBLICKEY, AUTH_TYPE_SIGNATURE, AUTH_TYPE_SSL_TLS_PSK, AUTH_TYPE_TOKEN, ConnStatus, ConnectType, ConnectTypeView, FEATURE_ENCRYPT_TCP, FEATURE_HEARTBEAT, HANDSHAKE_MESSAGE, HDC_VERSION_NUMBER, TaskMessage, TaskMessageView, get_version};
use crate::protocol::encrypt;
use crate::protocol::encrypt::{PskCipher, PskCipherView};
use crate::protocol::error::CodecError;
use crate::protocol::keys;
use crate::protocol::keys::decode_base64;
use crate::protocol::labeled;
use crate::protocol::labeled::{get_value, make_tlv, parse_tlv};
use crate::protocol::serializer;
use crate::protocol::serializer::{HdcDeserialize, HdcSerialize, SessionHandShake, SessionHandShakeView};
use crate::protocol::tlv;
use crate::text;
use crate::text::{concat2, concat3, copy_text, decimal_text};
use vstd::prelude::*;
use vstd::utf8::*;

verus! {

/// What follows the version in a handshake.
pub const VERSION_HASH: &'static str = "47d583e40754ffe6";

/// How many messages of a daemon are read before it has to have decided.
pub const MAX_AUTH_ATTEMPTS: u32 = 10;

/// How a daemon is reached.
#[derive(Debug, Clone, Copy, PartialEq, Eq, Structural)]
pub enum Transport {
    Tcp,
    Usb,
}

// ---------------------------------------------------------------------------
// Handshake messages
// ---------------------------------------------------------------------------

/// What the host says in a handshake.
pub open spec fn handshake_of(
    auth_type: u8,
    session_id: u32,
    connect_key: Seq<char>,
    buf: Seq<char>,
) -> SessionHandShakeView {
    SessionHandShakeView {
        banner: HANDSHAKE_MESSAGE@,
        auth_type,
        session_id,
        connect_key,
        buf,
        version: config::version_text(HDC_VERSION_NUMBER) + VERSION_HASH@,
    }
}

/// The message that carries a handshake of the host.
pub open spec fn handshake_message(
    auth_type: u8,
    session_id: u32,
    connect_key: Seq<char>,
    buf: Seq<char>,
) -> TaskMessageView {
    TaskMessageView {
        channel_id: 0,
        command: HdcCommand::KernelHandshake,
        payload: tlv::slots_bytes(handshake_of(auth_type, session_id, connect_key, buf).slots()),
    }
}

/// The message that carries a handshake of the host.
pub fn make_handshake(auth_type: u8, session_id: u32, connect_key: &str, buf: &str) -> (r:
    TaskMessage)
    ensures
        r@ == handshake_message(auth_type, session_id, connect_key@, buf@),
{
    let handshake = SessionHandShake {
        banner: HANDSHAKE_MESSAGE.to_owned(),
        auth_type,
        session_id,
        connect_key: copy_text(connect_key),
        buf: copy_text(buf),
        version: concat2(get_version().as_str(), VERSION_HASH),
    };
    assert(handshake@ == handshake_of(auth_type, session_id, connect_key@, buf@));
    TaskMessage {
        channel_id: 0,
        command: HdcCommand::KernelHandshake,
        payload: handshake.serialize(),
    }
}

/// What the host tells of itself first over TCP: how it authenticates, its public
/// key if it has one, and what it can do.
pub open spec fn host_labels(pubkey_info: Option<Seq<char>>, encrypt: bool) -> Seq<char> {
    labeled::labeled("authtype"@, "1"@) + (match pubkey_info {
        Some(info) => labeled::labeled("pubkey"@, info),
        None => Seq::empty(),
    }) + labeled::labeled(
        "supportfeatures"@,
        if encrypt {
            FEATURE_HEARTBEAT@ + ","@ + FEATURE_ENCRYPT_TCP@
        } else {
            FEATURE_HEARTBEAT@
        },
    )
}

/// What the host tells of itself first over TCP.
pub fn build_host_auth_buf(pubkey_info: &Option<String>, encrypt: bool) -> (r: String)
    ensures
        r@ == host_labels(auth::opt_text(*pubkey_info), encrypt),
{
    let mut buf = make_tlv("authtype", "1");
    match pubkey_info {
        Some(info) => {
            buf.append(make_tlv("pubkey", info.as_str()).as_str());
        },
        None => {
            assert(buf@ + Seq::<char>::empty() =~= buf@);
        },
    }
    let features: String = if encrypt {
        concat3(FEATURE_HEARTBEAT, ",", FEATURE_ENCRYPT_TCP)
    } else {
        FEATURE_HEARTBEAT.to_owned()
    };
    buf.append(make_tlv("supportfeatures", features.as_str()).as_str());
    buf
}

/// What the host tells of itself first over USB.
pub open spec fn usb_labels() -> Seq<char> {
    labeled::labeled("authtype"@, "1"@)
}

/// What the host tells of itself first over USB.
pub fn build_usb_auth_buf() -> (r: String)
    ensures
        r@ == usb_labels(),
{
    make_tlv("authtype", "1")
}

// ---------------------------------------------------------------------------
// Authentication
// ---------------------------------------------------------------------------

/// Why a session did not come about.
#[derive(Debug, Clone, PartialEq, Eq)]
pub enum AuthError {
    /// Nothing could be read; the reason is told.
    ReceiveFailed(String),
    /// The daemon did not answer in time.
    TimedOut,
    /// The handshake of the daemon cannot be read.
    BadHandshake(CodecError),
    /// The daemon refuses the host.
    Rejected,
    /// The daemon wants encryption and the host does not.
    EncryptionOff,
    /// The shared key of the daemon is not in the base64 form.
    BadPskText(String),
    /// The shared key of the daemon cannot be decrypted; the reason is told.
    PskDecrypt(String),
    /// The shared key of the daemon has a wrong length.
    PskLength(usize),
    /// The public key of the host cannot be had; the reason is told.
    KeyInfo(String),
    /// The challenge cannot be signed; the reason is told.
    Sign(String),
    /// The daemon wants a token, which the host has not.
    Token,
    /// The daemon wants something that the host does not know.
    UnknownType(u8),
    /// The daemon has not decided after the last message.
    Undecided,
    /// Nothing could be sent; the reason is told.
    SendFailed(String),
}

/// Why a session did not come about.
pub enum AuthErrorView {
    ReceiveFailed(Seq<char>),
    TimedOut,
    BadHandshake(CodecError),
    Rejected,
    EncryptionOff,
    BadPskText(Seq<char>),
    PskDecrypt(Seq<char>),
    PskLength(usize),
    KeyInfo(Seq<char>),
    Sign(Seq<char>),
    Token,
    UnknownType(u8),
    Undecided,
    SendFailed(Seq<char>),
}

impl View for AuthError {
    type V = AuthErrorView;

    open spec fn view(&self) -> AuthErrorView {
        match *self {
            AuthError::ReceiveFailed(e) => AuthErrorView::ReceiveFailed(e@),
            AuthError::TimedOut => AuthErrorView::TimedOut,
            AuthError::BadHandshake(e) => AuthErrorView::BadHandshake(e),
            AuthError::Rejected => AuthErrorView::Rejected,
            AuthError::EncryptionOff => AuthErrorView::EncryptionOff,
            AuthError::BadPskText(e) => AuthErrorView::BadPskText(e@),
            AuthError::PskDecrypt(e) => AuthErrorView::PskDecrypt(e@),
            AuthError::PskLength(n) => AuthErrorView::PskLength(n),
            AuthError::KeyInfo(e) => AuthErrorView::KeyInfo(e@),
            AuthError::Sign(e) => AuthErrorView::Sign(e@),
            AuthError::Token => AuthErrorView::Token,
            AuthError::UnknownType(t) => AuthErrorView::UnknownType(t),
            AuthError::Undecided => AuthErrorView::Undecided,
            AuthError::SendFailed(e) => AuthErrorView::SendFailed(e@),
        }
    }
}

impl AuthErrorView {
    /// The sentence that reports the error.
    pub open spec fn text(self) -> Seq<char> {
        match self {
            AuthErrorView::ReceiveFailed(e) => e,
            AuthErrorView::TimedOut => "TCP authentication timeout"@,
            AuthErrorView::BadHandshake(e) => "Failed to deserialize daemon handshake: "@
                + e.text(),
            AuthErrorView::Rejected => "TCP authentication rejected by daemon"@,
            AuthErrorView::EncryptionOff =>
                "Daemon requested encrypted TCP channel but OHOS_HDC_ENCRYPT_CHANNEL is not set to 1"@,
            AuthErrorView::BadPskText(e) => "Failed to base64-decode daemon PSK: "@ + e,
            AuthErrorView::PskDecrypt(e) => "Failed to decrypt daemon PSK: "@ + e,
            AuthErrorView::PskLength(n) => "Daemon PSK length is "@ + text::decimal(n as nat)
                + ", expected 32"@,
            AuthErrorView::KeyInfo(e) => "Failed to get public key info: "@ + e,
            AuthErrorView::Sign(e) => "Failed to sign challenge: "@ + e,
            AuthErrorView::Token => "Token auth not supported"@,
            AuthErrorView::UnknownType(t) => "Unknown auth type from daemon: "@ + text::decimal(t as nat),
            AuthErrorView::Undecided => "TCP authentication failed"@,
            AuthErrorView::SendFailed(e) => e,
        }
    }
}

impl AuthError {
    /// The sentence that reports the error.
    pub fn message(&self) -> (r: String)
        ensures
            r@ == self@.text(),
    {
        match self {
            AuthError::ReceiveFailed(e) => copy_text(e.as_str()),
            AuthError::TimedOut => "TCP authentication timeout".to_owned(),
            AuthError::BadHandshake(e) => concat2(
                "Failed to deserialize daemon handshake: ",
                e.message().as_str(),
            ),
            AuthError::Rejected => "TCP authentication rejected by daemon".to_owned(),
            AuthError::EncryptionOff =>
                "Daemon requested encrypted TCP channel but OHOS_HDC_ENCRYPT_CHANNEL is not set to 1".to_owned(),
            AuthError::BadPskText(e) => concat2("Failed to base64-decode daemon PSK: ", e.as_str()),
            AuthError::PskDecrypt(e) => concat2("Failed to decrypt daemon PSK: ", e.as_str()),
            AuthError::PskLength(n) => concat3(
                "Daemon PSK length is ",
                decimal_text(*n as u64).as_str(),
                ", expected 32",
            ),
            AuthError::KeyInfo(e) => concat2("Failed to get public key info: ", e.as_str()),
            AuthError::Sign(e) => concat2("Failed to sign challenge: ", e.as_str()),
            AuthError::Token => "Token auth not supported".to_owned(),
            AuthError::UnknownType(t) => concat2(
                "Unknown auth type from daemon: ",
                decimal_text(*t as u64).as_str(),
            ),
            AuthError::Undecided => "TCP authentication failed".to_owned(),
            AuthError::SendFailed(e) => copy_text(e.as_str()),
        }
    }
}

/// What an authentication waits for.
#[derive(Debug, Clone, Copy, PartialEq, Eq, Structural)]
pub enum Phase {
    /// A message of the daemon.
    Receiving,
    /// The public key of the host.
    Key,
    /// A signature of the challenge.
    Signature,
    /// The decrypted shared key.
    Psk,
    /// The sending of a message, after which the daemon has to answer.
    Sending,
    /// The sending of the last message, after which the session stands.
    Confirming,
    /// Nothing: the daemon trusts the host.
    Accepted,
    /// Nothing: the session did not come about.
    Refused,
}

/// What is to be done for an authentication.
pub enum AuthAction {
    /// Read a message of the daemon, for at most so many seconds.
    Receive(u64),
    /// Find out the public key of the host.
    AskKey,
    /// Sign a challenge.
    AskSignature(String),
    /// Decrypt a shared key.
    AskPsk(Vec<u8>),
    /// Send a message.
    Send(TaskMessage),
    /// Encrypt the session with a shared key, then send a message.
    EncryptAndSend(PskCipher, TaskMessage),
    /// The session stands.
    Accept,
    /// The session did not come about.
    Refuse(AuthError),
}

/// What is to be done for an authentication.
pub enum AuthActionView {
    Receive(u64),
    AskKey,
    AskSignature(Seq<char>),
    AskPsk(Seq<u8>),
    Send(TaskMessageView),
    EncryptAndSend(PskCipherView, TaskMessageView),
    Accept,
    Refuse(AuthErrorView),
}

impl View for AuthAction {
    type V = AuthActionView;

    open spec fn view(&self) -> AuthActionView {
        match *self {
            AuthAction::Receive(t) => AuthActionView::Receive(t),
            AuthAction::AskKey => AuthActionView::AskKey,
            AuthAction::AskSignature(c) => AuthActionView::AskSignature(c@),
            AuthAction::AskPsk(b) => AuthActionView::AskPsk(b@),
            AuthAction::Send(m) => AuthActionView::Send(m@),
            AuthAction::EncryptAndSend(c, m) => AuthActionView::EncryptAndSend(c@, m@),
            AuthAction::Accept => AuthActionView::Accept,
            AuthAction::Refuse(e) => AuthActionView::Refuse(e@),
        }
    }
}

/// An authentication in progress.
pub struct AuthSession {
    transport: Transport,
    session_id: u32,
    connect_key: String,
    attempts: u32,
    last_buf: String,
    phase: Phase,
}

/// An authentication in progress.
pub struct AuthView {
    pub transport: Transport,
    /// The number of the session; a daemon on USB may change it.
    pub session_id: u32,
    /// The key of the device.
    pub connect_key: Seq<char>,
    /// How many messages of the daemon have been waited for.
    pub attempts: u32,
    /// What the last handshake of the daemon said.
    pub last_buf: Seq<char>,
    /// What is waited for.
    pub phase: Phase,
}

impl View for AuthSession {
    type V = AuthView;

    closed spec fn view(&self) -> AuthView {
        AuthView {
            transport: self.transport,
            session_id: self.session_id,
            connect_key: self.connect_key@,
            attempts: self.attempts,
            last_buf: self.last_buf@,
            phase: self.phase,
        }
    }
}

/// How long a message is waited for: longer for the second, since the user may have
/// to confirm on the device.
pub open spec fn patience(attempt: u32) -> u64 {
    if attempt == 2 {
        60
    } else {
        10
    }
}

/// The next message is waited for, if there may be one more.
pub open spec fn next_message(v: AuthView) -> (AuthView, AuthActionView) {
    if v.attempts < MAX_AUTH_ATTEMPTS {
        (
            AuthView { attempts: (v.attempts + 1) as u32, phase: Phase::Receiving, ..v },
            AuthActionView::Receive(patience((v.attempts + 1) as u32)),
        )
    } else {
        (
            AuthView { phase: Phase::Refused, ..v },
            AuthActionView::Refuse(AuthErrorView::Undecided),
        )
    }
}

/// The session did not come about.
pub open spec fn refused(v: AuthView, e: AuthErrorView) -> (AuthView, AuthActionView) {
    (AuthView { phase: Phase::Refused, ..v }, AuthActionView::Refuse(e))
}

/// What follows once a message was handed over, or could not be.
pub open spec fn after_sending(v: AuthView, failure: Option<Seq<char>>) -> (
    AuthView,
    AuthActionView,
) {
    match failure {
        Some(e) => refused(v, AuthErrorView::SendFailed(e)),
        None => if v.phase == Phase::Confirming {
            (AuthView { phase: Phase::Accepted, ..v }, AuthActionView::Accept)
        } else {
            next_message(v)
        },
    }
}

/// What follows where no message came: there was a failure, or the time is up.
pub open spec fn after_silence(v: AuthView, failure: Option<Seq<char>>) -> (
    AuthView,
    AuthActionView,
) {
    match failure {
        Some(e) => refused(v, AuthErrorView::ReceiveFailed(e)),
        None => refused(v, AuthErrorView::TimedOut),
    }
}

/// What comes of a handshake of the daemon.
pub open spec fn on_handshake(v: AuthView, hs: SessionHandShakeView, encrypt: bool) -> (
    AuthView,
    AuthActionView,
) {
    if hs.auth_type == AUTH_TYPE_OK {
        (AuthView { phase: Phase::Accepted, ..v }, AuthActionView::Accept)
    } else if hs.auth_type == AUTH_TYPE_FAIL {
        refused(v, AuthErrorView::Rejected)
    } else if hs.auth_type == AUTH_TYPE_SSL_TLS_PSK && v.transport == Transport::Tcp {
        if !encrypt {
            refused(v, AuthErrorView::EncryptionOff)
        } else {
            match keys::base64_decoded(hs.buf) {
                Err(e) => refused(v, AuthErrorView::BadPskText(e)),
                Ok(b) => (AuthView { phase: Phase::Psk, ..v }, AuthActionView::AskPsk(b)),
            }
        }
    } else if hs.auth_type == AUTH_TYPE_PUBLICKEY {
        (AuthView { phase: Phase::Key, ..v }, AuthActionView::AskKey)
    } else if hs.auth_type == AUTH_TYPE_SIGNATURE {
        (AuthView { phase: Phase::Signature, ..v }, AuthActionView::AskSignature(hs.buf))
    } else if hs.auth_type == AUTH_TYPE_TOKEN {
        refused(v, AuthErrorView::Token)
    } else {
        refused(v, AuthErrorView::UnknownType(hs.auth_type))
    }
}

/// The number of the session after a message: a daemon on USB may give it a new one.
pub open spec fn renumbered(v: AuthView, their_session: u32) -> u32 {
    if v.transport == Transport::Usb && their_session != 0 {
        their_session
    } else {
        v.session_id
    }
}

/// What comes of a message of the daemon.
pub open spec fn on_message(
    v: AuthView,
    their_session: u32,
    msg: TaskMessageView,
    encrypt: bool,
) -> (AuthView, AuthActionView) {
    if msg.command != HdcCommand::KernelHandshake {
        next_message(v)
    } else {
        match SessionHandShakeView::parsed(msg.payload) {
            Err(e) => refused(v, AuthErrorView::BadHandshake(e)),
            Ok(hs) => on_handshake(
                AuthView { last_buf: hs.buf, session_id: renumbered(v, their_session), ..v },
                hs,
                encrypt,
            ),
        }
    }
}

/// What comes of the answer to a request for a key or a signature: it is sent.
pub open spec fn on_answer(v: AuthView, auth_type: u8, buf: Seq<char>) -> (
    AuthView,
    AuthActionView,
) {
    (
        AuthView { phase: Phase::Sending, ..v },
        AuthActionView::Send(handshake_message(auth_type, v.session_id, v.connect_key, buf)),
    )
}

/// The host begins with a message that a daemon reads as a handshake without authentication,
/// with the number of the session, the key of the device and what the host tells of itself.
pub open spec fn first_message(
    action: AuthActionView,
    session_id: u32,
    connect_key: Seq<char>,
    buf: Seq<char>,
) -> bool {
    &&& action is Send
    &&& says(action->Send_0, 0, session_id, connect_key, buf)
}

/// A message is a handshake in which a daemon reads these things, unless one of them is too
/// long to be written.
pub open spec fn says(
    m: TaskMessageView,
    auth_type: u8,
    session_id: u32,
    connect_key: Seq<char>,
    buf: Seq<char>,
) -> bool {
    &&& m.channel_id == 0
    &&& m.command == HdcCommand::KernelHandshake
    &&& encode_utf8(connect_key).len() < 0x1_0000_0000 && encode_utf8(buf).len() < 0x1_0000_0000
        ==> {
        let read = SessionHandShakeView::parsed(m.payload);
        &&& read is Ok
        &&& read->Ok_0.banner == "OHOS HDC"@
        &&& read->Ok_0.auth_type == auth_type
        &&& read->Ok_0.session_id == session_id
        &&& read->Ok_0.connect_key == connect_key
        &&& read->Ok_0.buf == buf
    }
}

/// A daemon reads in a handshake of the host what the host says.
pub proof fn handshake_is_understood(
    auth_type: u8,
    session_id: u32,
    connect_key: Seq<char>,
    buf: Seq<char>,
)
    requires
        auth_type < 128,
    ensures
        says(
            handshake_message(auth_type, session_id, connect_key, buf),
            auth_type,
            session_id,
            connect_key,
            buf,
        ),
{
    let hs = handshake_of(auth_type, session_id, connect_key, buf);
    assert(encode_utf8(hs.banner).len() < 0x1_0000_0000) by {
        reveal_strlit("OHOS HDC");
        is_ascii_chars_encode_utf8("OHOS HDC"@);
    }
    assert(encode_utf8(hs.version).len() < 0x1_0000_0000) by {
        config::version_is_told();
        reveal_strlit("Ver: 3.2.0e");
        reveal_strlit("47d583e40754ffe6");
        let all = "Ver: 3.2.0e"@ + "47d583e40754ffe6"@;
        assert(is_ascii_chars(all));
        is_ascii_chars_encode_utf8(all);
    }
    if hs.readable() {
        serializer::session_handshake_round_trip(hs);
    }
}

proof fn first_message_is_said(session_id: u32, connect_key: Seq<char>, buf: Seq<char>)
    ensures
        first_message(
            AuthActionView::Send(handshake_message(AUTH_TYPE_NONE, session_id, connect_key, buf)),
            session_id,
            connect_key,
            buf,
        ),
{
    handshake_is_understood(AUTH_TYPE_NONE, session_id, connect_key, buf);
}

impl AuthSession {
    /// Begins an authentication with the first handshake of the host.
    pub fn start(transport: Transport, session_id: u32, connect_key: &str, buf: &str) -> (r: (
        Self,
        AuthAction,
    ))
        ensures
            r.0@ == (AuthView {
                transport,
                session_id,
                connect_key: connect_key@,
                attempts: 0,
                last_buf: Seq::empty(),
                phase: Phase::Sending,
            }),
            r.1@ == AuthActionView::Send(
                handshake_message(AUTH_TYPE_NONE, session_id, connect_key@, buf@),
            ),
            first_message(r.1@, session_id, connect_key@, buf@),
    {
        proof {
            first_message_is_said(session_id, connect_key@, buf@);
        }
        let session = AuthSession {
            transport,
            session_id,
            connect_key: copy_text(connect_key),
            attempts: 0,
            last_buf: String::new(),
            phase: Phase::Sending,
        };
        (session, AuthAction::Send(make_handshake(AUTH_TYPE_NONE, session_id, connect_key, buf)))
    }

    fn next(&mut self) -> (r: AuthAction)
        ensures
            (final(self)@, r@) == next_message(old(self)@),
    {
        if self.attempts < MAX_AUTH_ATTEMPTS {
            self.attempts = self.attempts + 1;
            self.phase = Phase::Receiving;
            AuthAction::Receive(
                if self.attempts == 2 {
                    60
                } else {
                    10
                },
            )
        } else {
            self.phase = Phase::Refused;
            AuthAction::Refuse(AuthError::Undecided)
        }
    }

    fn refuse(&mut self, e: AuthError) -> (r: AuthAction)
        ensures
            (final(self)@, r@) == refused(old(self)@, e@),
    {
        self.phase = Phase::Refused;
        AuthAction::Refuse(e)
    }

    /// A message was sent, or could not be.
    pub fn sent(&mut self, result: Result<(), String>) -> (r: AuthAction)
        requires
            old(self)@.phase == Phase::Sending || old(self)@.phase == Phase::Confirming,
        ensures
            (final(self)@, r@) == after_sending(
                old(self)@,
                match result {
                    Err(e) => Some(e@),
                    Ok(()) => None,
                },
            ),
    {
        match result {
            Err(e) => self.refuse(AuthError::SendFailed(e)),
            Ok(()) => {
                if self.phase == Phase::Confirming {
                    self.phase = Phase::Accepted;
                    AuthAction::Accept
                } else {
                    self.next()
                }
            },
        }
    }

    /// No message came: in time, or at all.
    pub fn not_received(&mut self, reason: Option<String>) -> (r: AuthAction)
        requires
            old(self)@.phase == Phase::Receiving,
        ensures
            (final(self)@, r@) == after_silence(old(self)@, auth::opt_text(reason)),
    {
        match reason {
            Some(e) => self.refuse(AuthError::ReceiveFailed(e)),
            None => self.refuse(AuthError::TimedOut),
        }
    }

    fn handshake(&mut self, hs: SessionHandShake, encrypt: bool) -> (r: AuthAction)
        ensures
            (final(self)@, r@) == on_handshake(old(self)@, hs@, encrypt),
    {
        if hs.auth_type == AUTH_TYPE_OK {
            self.phase = Phase::Accepted;
            AuthAction::Accept
        } else if hs.auth_type == AUTH_TYPE_FAIL {
            self.refuse(AuthError::Rejected)
        } else if hs.auth_type == AUTH_TYPE_SSL_TLS_PSK && self.transport == Transport::Tcp {
            if !encrypt {
                return self.refuse(AuthError::EncryptionOff);
            }
            match decode_base64(hs.buf.as_str()) {
                Err(e) => self.refuse(AuthError::BadPskText(e)),
                Ok(b) => {
                    self.phase = Phase::Psk;
                    AuthAction::AskPsk(b)
                },
            }
        } else if hs.auth_type == AUTH_TYPE_PUBLICKEY {
            self.phase = Phase::Key;
            AuthAction::AskKey
        } else if hs.auth_type == AUTH_TYPE_SIGNATURE {
            self.phase = Phase::Signature;
            AuthAction::AskSignature(hs.buf)
        } else if hs.auth_type == AUTH_TYPE_TOKEN {
            self.refuse(AuthError::Token)
        } else {
            self.refuse(AuthError::UnknownType(hs.auth_type))
        }
    }

    /// A message of the daemon came. `encrypt` says whether the host wants encryption.
    pub fn received(&mut self, their_session: u32, msg: &TaskMessage, encrypt: bool) -> (r:
        AuthAction)
        requires
            old(self)@.phase == Phase::Receiving,
        ensures
            (final(self)@, r@) == on_message(old(self)@, their_session, msg@, encrypt),
    {
        if msg.command != HdcCommand::KernelHandshake {
            return self.next();
        }
        match SessionHandShake::deserialize(&msg.payload) {
            Err(e) => self.refuse(AuthError::BadHandshake(e)),
            Ok(hs) => {
                self.last_buf = copy_text(hs.buf.as_str());
                if self.transport == Transport::Usb && their_session != 0 {
                    self.session_id = their_session;
                }
                self.handshake(hs, encrypt)
            },
        }
    }

    /// The public key of the host was found out, or could not be.
    pub fn key_found(&mut self, key: Result<String, String>) -> (r: AuthAction)
        requires
            old(self)@.phase == Phase::Key,
        ensures
            (final(self)@, r@) == match key {
                Ok(info) => on_answer(old(self)@, AUTH_TYPE_PUBLICKEY, info@),
                Err(e) => refused(old(self)@, AuthErrorView::KeyInfo(e@)),
            },
            key is Ok ==> r@ is Send && says(
                r@->Send_0,
                3,
                old(self)@.session_id,
                old(self)@.connect_key,
                key->Ok_0@,
            ),
    {
        proof {
            handshake_is_understood(3, self@.session_id, self@.connect_key, key->Ok_0@);
        }
        match key {
            Err(e) => self.refuse(AuthError::KeyInfo(e)),
            Ok(info) => {
                self.phase = Phase::Sending;
                AuthAction::Send(
                    make_handshake(
                        AUTH_TYPE_PUBLICKEY,
                        self.session_id,
                        self.connect_key.as_str(),
                        info.as_str(),
                    ),
                )
            },
        }
    }

    /// The challenge was signed, or could not be.
    pub fn signed(&mut self, signature: Result<String, String>) -> (r: AuthAction)
        requires
            old(self)@.phase == Phase::Signature,
        ensures
            (final(self)@, r@) == match signature {
                Ok(s) => on_answer(old(self)@, AUTH_TYPE_SIGNATURE, s@),
                Err(e) => refused(old(self)@, AuthErrorView::Sign(e@)),
            },
            signature is Ok ==> r@ is Send && says(
                r@->Send_0,
                2,
                old(self)@.session_id,
                old(self)@.connect_key,
                signature->Ok_0@,
            ),
    {
        proof {
            handshake_is_understood(2, self@.session_id, self@.connect_key, signature->Ok_0@);
        }
        match signature {
            Err(e) => self.refuse(AuthError::Sign(e)),
            Ok(s) => {
                self.phase = Phase::Sending;
                AuthAction::Send(
                    make_handshake(
                        AUTH_TYPE_SIGNATURE,
                        self.session_id,
                        self.connect_key.as_str(),
                        s.as_str(),
                    ),
                )
            },
        }
    }

    /// The shared key was decrypted, or could not be. The host encrypts from now on,
    /// and says so with the last message, which is already encrypted.
    pub fn psk_opened(&mut self, psk: Result<Vec<u8>, String>) -> (r: AuthAction)
        requires
            old(self)@.phase == Phase::Psk,
        ensures
            match psk {
                Err(e) => (final(self)@, r@) == refused(
                    old(self)@,
                    AuthErrorView::PskDecrypt(e@),
                ),
                Ok(key) => if key@.len() != 32 {
                    (final(self)@, r@) == refused(
                        old(self)@,
                        AuthErrorView::PskLength(key@.len() as usize),
                    )
                } else {
                    &&& final(self)@ == (AuthView { phase: Phase::Confirming, ..old(self)@ })
                    &&& r@ == AuthActionView::EncryptAndSend(
                        encrypt::fresh_cipher(key@, true),
                        handshake_message(
                            AUTH_TYPE_SSL_TLS_PSK,
                            old(self)@.session_id,
                            old(self)@.connect_key,
                            Seq::empty(),
                        ),
                    )
                },
            },
            psk is Ok && psk->Ok_0@.len() == 32 ==> r@ is EncryptAndSend && says(
                r@->EncryptAndSend_1,
                6,
                old(self)@.session_id,
                old(self)@.connect_key,
                Seq::empty(),
            ),
    {
        proof {
            handshake_is_understood(6, self@.session_id, self@.connect_key, Seq::empty());
        }
        match psk {
            Err(e) => self.refuse(AuthError::PskDecrypt(e)),
            Ok(key) => {
                if key.len() != 32 {
                    return self.refuse(AuthError::PskLength(key.len()));
                }
                let shared = key_array(&key);
                self.phase = Phase::Confirming;
                let none = String::new();
                AuthAction::EncryptAndSend(
                    PskCipher::new(&shared, true),
                    make_handshake(
                        AUTH_TYPE_SSL_TLS_PSK,
                        self.session_id,
                        self.connect_key.as_str(),
                        none.as_str(),
                    ),
                )
            },
        }
    }

    /// The number of the session.
    pub fn session_id(&self) -> (r: u32)
        ensures
            r == self@.session_id,
    {
        self.session_id
    }

    /// What the last handshake of the daemon said.
    pub fn last_buf(&self) -> (r: &str)
        ensures
            r@ == self@.last_buf,
    {
        self.last_buf.as_str()
    }
}

/// Thirty-two bytes as an array.
pub fn key_array(key: &[u8]) -> (r: [u8; 32])
    requires
        key.len() == 32,
    ensures
        r@ == key@,
{
    let r: [u8; 32] = [
        key[0], key[1], key[2], key[3], key[4], key[5], key[6], key[7], key[8], key[9], key[10],
        key[11], key[12], key[13], key[14], key[15], key[16], key[17], key[18], key[19], key[20],
        key[21], key[22], key[23], key[24], key[25], key[26], key[27], key[28], key[29], key[30],
        key[31],
    ];
    assert(r@ =~= key@);
    r
}

/// Whether a TCP session that did not come about has to be ended. Where nothing
/// could be sent it stays.
pub open spec fn ends_tcp_session(e: AuthErrorView) -> bool {
    !(e is SendFailed)
}

/// Whether a TCP session that did not come about has to be ended.
pub fn must_end_session(e: &AuthError) -> (r: bool)
    ensures
        r == ends_tcp_session(e@),
{
    match e {
        AuthError::SendFailed(_) => false,
        _ => true,
    }
}

/// An authentication reads at most ten messages: a message that is waited for is
/// counted, and after the tenth the session is refused. The second is waited for a minute, any
/// other ten seconds.
pub proof fn authentication_ends(v: AuthView)
    requires
        v.attempts <= MAX_AUTH_ATTEMPTS,
    ensures
        next_message(v).0.attempts <= 10,
        v.attempts < 10 ==> next_message(v).1 == AuthActionView::Receive(
            if v.attempts == 1 {
                60
            } else {
                10
            },
        ) && next_message(v).0.phase == Phase::Receiving,
        next_message(v).1 is Receive ==> next_message(v).0.attempts == v.attempts + 1,
        v.attempts == MAX_AUTH_ATTEMPTS ==> next_message(v).1 is Refuse,
{
}

/// A session is accepted only because the daemon said so in a handshake. An answer
/// that refuses, wants a token or is not known is never accepted.
pub proof fn only_the_daemon_accepts(
    v: AuthView,
    their_session: u32,
    msg: TaskMessageView,
    encrypt: bool,
)
    requires
        v.phase == Phase::Receiving,
    ensures
        on_message(v, their_session, msg, encrypt).1 is Accept <==> (msg.command
            == HdcCommand::KernelHandshake && SessionHandShakeView::parsed(msg.payload) is Ok
            && SessionHandShakeView::parsed(msg.payload)->Ok_0.auth_type == AUTH_TYPE_OK),
        on_message(v, their_session, msg, encrypt).0.attempts >= v.attempts,
{
}

/// The host does what a handshake of the daemon asks for: it takes the word that it is trusted,
/// or that it is not; it gives its public key; it signs the challenge; over TCP it takes a
/// shared key, if it wants to encrypt. It has no token, and refuses what it does not know.
pub proof fn daemon_is_answered(
    v: AuthView,
    their_session: u32,
    channel_id: u32,
    hs: SessionHandShakeView,
    encrypt: bool,
)
    requires
        hs.readable(),
    ensures
        ({
            let m = TaskMessageView {
                channel_id,
                command: HdcCommand::KernelHandshake,
                payload: tlv::slots_bytes(hs.slots()),
            };
            let (after, action) = on_message(v, their_session, m, encrypt);
            let tcp = v.transport == Transport::Tcp;
            &&& hs.auth_type == 4 ==> action is Accept && after.phase == Phase::Accepted
            &&& hs.auth_type == 5 ==> action == AuthActionView::Refuse(AuthErrorView::Rejected)
            &&& hs.auth_type == 3 ==> action is AskKey && after.phase == Phase::Key
            &&& hs.auth_type == 2 ==> action == AuthActionView::AskSignature(hs.buf) && after.phase
                == Phase::Signature
            &&& hs.auth_type == 1 ==> action == AuthActionView::Refuse(AuthErrorView::Token)
            &&& hs.auth_type == 6 && tcp && !encrypt ==> action == AuthActionView::Refuse(
                AuthErrorView::EncryptionOff,
            )
            &&& hs.auth_type == 6 && tcp && encrypt && keys::base64_decoded(hs.buf) is Ok ==> action
                == AuthActionView::AskPsk(keys::base64_decoded(hs.buf)->Ok_0) && after.phase
                == Phase::Psk
            &&& hs.auth_type == 6 && tcp && encrypt && keys::base64_decoded(hs.buf) is Err
                ==> action == AuthActionView::Refuse(
                AuthErrorView::BadPskText(keys::base64_decoded(hs.buf)->Err_0),
            )
            &&& hs.auth_type == 0 || hs.auth_type > 6 || (hs.auth_type == 6 && !tcp) ==> action
                == AuthActionView::Refuse(AuthErrorView::UnknownType(hs.auth_type))
            &&& action is Refuse ==> after.phase == Phase::Refused
            &&& after.last_buf == hs.buf
            &&& after.connect_key == v.connect_key
            &&& after.transport == v.transport
            &&& after.attempts == v.attempts
            &&& after.session_id == (if !tcp && their_session != 0 {
                their_session
            } else {
                v.session_id
            })
        }),
{
    serializer::session_handshake_round_trip(hs);
}

// ---------------------------------------------------------------------------
// Devices that come and go
// ---------------------------------------------------------------------------

/// The name that a daemon gave its device.
pub open spec fn device_name(buf: Seq<char>) -> Seq<char> {
    match labeled::value_of(labeled::entries_of(buf), "devname"@) {
        Some(name) => name,
        None => Seq::empty(),
    }
}

/// The name that a daemon gave its device.
pub fn find_device_name(buf: &str) -> (r: String)
    requires
        labeled::tlv_readable(buf@),
    ensures
        r@ == device_name(buf@),
{
    let entries = parse_tlv(buf);
    match get_value(&entries, "devname") {
        Some(name) => name,
        None => String::new(),
    }
}

/// A device whose session stands.
pub open spec fn connected_device(
    session_id: u32,
    conn_type: ConnectTypeView,
    buf: Seq<char>,
) -> DaemonInfoView {
    DaemonInfoView {
        session_id,
        conn_type,
        conn_status: ConnStatus::Connected,
        dev_name: device_name(buf),
        version: Seq::empty(),
    }
}

/// Among `now` a device can be used that has come to `before`: it is listed as connected, under
/// its key a command finds its session, and where no other device is connected it is the one
/// that `any` stands for. The full list tells the way to it, that it is connected, and its name.
pub open spec fn usable(
    before: Seq<DeviceView>,
    now: Seq<DeviceView>,
    key: Seq<char>,
    session_id: u32,
    way: ConnectTypeView,
    name: Seq<char>,
) -> bool {
    &&& connect_map::device_list(now, false).contains(key)
    &&& key != "any"@ ==> connect_map::resolved_session(now, key) == Ok::<u32, ResolveErrorView>(
        session_id,
    )
    &&& (forall|j: int|
        0 <= j < before.len() && (#[trigger] before[j]).info.conn_status == ConnStatus::Connected
            ==> before[j].key == key) ==> {
        &&& connect_map::device_list(now, false) == seq![key]
        &&& connect_map::resolved_key(now, "any"@) == Ok::<Seq<char>, ResolveErrorView>(key)
        &&& connect_map::resolved_session(now, "any"@) == Ok::<u32, ResolveErrorView>(session_id)
    }
    &&& connect_map::device_list(now, true).contains(
        key + "\t\t"@ + connect_map::way_name(way) + "\t"@ + "Connected"@ + "\t"@ + (if name
            == Seq::<char>::empty() {
            "unknown..."@
        } else {
            name
        }),
    )
}

/// Once a session stands, its device can be used: it is listed, and commands find it.
pub proof fn standing_session_is_usable(
    before: Seq<DeviceView>,
    v: AuthView,
    conn_type: ConnectTypeView,
)
    requires
        connect_map::distinct(before),
    ensures
        usable(
            before,
            connect_map::with_device(
                before,
                v.connect_key,
                connected_device(v.session_id, conn_type, v.last_buf),
            ),
            v.connect_key,
            v.session_id,
            conn_type,
            device_name(v.last_buf),
        ),
{
    let info = connected_device(v.session_id, conn_type, v.last_buf);
    let now = connect_map::with_device(before, v.connect_key, info);
    connect_map::connected_can_be_used(before, v.connect_key, info);
    connect_map::put_is_found(before, v.connect_key, info, v.connect_key);
    let i = connect_map::place_of(now, v.connect_key);
    connect_map::place_is_first(now, v.connect_key);
    connect_map::every_device_is_listed(now, i);
    assert(connect_map::device_list(now, true)[i] == connect_map::device_line(now[i])) by {
        assert(now[i].info.dev_name.len() == 0 <==> now[i].info.dev_name =~= Seq::<char>::empty());
    }
}

/// A device that was found can be seen in the full list, as one that is ready; until its session
/// stands it is not among the connected ones, and no command goes to it unasked.
pub proof fn found_device_waits(before: Seq<DeviceView>, key: Seq<char>, conn_type: ConnectTypeView)
    requires
        connect_map::distinct(before),
    ensures
        ({
            let now = connect_map::with_device(before, key, found_device(conn_type));
            &&& !connect_map::device_list(now, false).contains(key)
            &&& connect_map::resolved_key(now, "any"@) != Ok::<Seq<char>, ResolveErrorView>(key)
            &&& connect_map::device_list(now, true).contains(
                key + "\t\t"@ + connect_map::way_name(conn_type) + "\t"@ + "Ready"@ + "\t"@
                    + "unknown..."@,
            )
            &&& connect_map::lookup(now, key) is Some
            &&& connect_map::lookup(now, key)->Some_0.session_id == 0
        }),
{
    let info = found_device(conn_type);
    let now = connect_map::with_device(before, key, info);
    connect_map::unconnected_is_not_chosen(before, key, info);
    connect_map::put_is_found(before, key, info, key);
    let i = connect_map::place_of(now, key);
    connect_map::place_is_first(now, key);
    connect_map::every_device_is_listed(now, i);
}

/// A device is connected: its session stands.
pub fn session_stands(connect_map: &mut ConnectMap, auth: &AuthSession, conn_type: ConnectType)
    requires
        old(connect_map).wf(),
        labeled::tlv_readable(auth@.last_buf),
    ensures
        final(connect_map).wf(),
        final(connect_map)@ == connect_map::with_device(
            old(connect_map)@,
            auth@.connect_key,
            connected_device(auth@.session_id, conn_type@, auth@.last_buf),
        ),
        usable(
            old(connect_map)@,
            final(connect_map)@,
            auth@.connect_key,
            auth@.session_id,
            conn_type@,
            device_name(auth@.last_buf),
        ),
{
    proof {
        standing_session_is_usable(connect_map@, auth@, conn_type@);
    }
    let dev_name = find_device_name(auth.last_buf.as_str());
    connect_map.put(
        copy_text(auth.connect_key.as_str()),
        DaemonInfo {
            session_id: auth.session_id,
            conn_type,
            conn_status: ConnStatus::Connected,
            dev_name,
            version: String::new(),
        },
    );
}

/// A device that was found and is not connected yet.
pub open spec fn found_device(conn_type: ConnectTypeView) -> DaemonInfoView {
    DaemonInfoView {
        session_id: 0,
        conn_type,
        conn_status: ConnStatus::Ready,
        dev_name: Seq::empty(),
        version: Seq::empty(),
    }
}

/// A device was found.
pub fn device_found(connect_map: &mut ConnectMap, connect_key: &str, conn_type: ConnectType)
    requires
        old(connect_map).wf(),
    ensures
        final(connect_map).wf(),
        final(connect_map)@ == connect_map::with_device(
            old(connect_map)@,
            connect_key@,
            found_device(conn_type@),
        ),
{
    connect_map.put(
        copy_text(connect_key),
        DaemonInfo {
            session_id: 0,
            conn_type,
            conn_status: ConnStatus::Ready,
            dev_name: String::new(),
            version: String::new(),
        },
    );
}

/// The devices and the sessions once a session over TCP is lost.
pub open spec fn after_tcp_loss(
    devs: Seq<DeviceView>,
    tcp: TcpMapView,
    key: Seq<char>,
    session_id: u32,
) -> (Seq<DeviceView>, TcpMapView) {
    (connect_map::without_device(devs, key), tcp_map::without_session(tcp, session_id))
}

/// The devices, the channels, the sessions and the forwardings once a session over USB is
/// lost.
pub open spec fn after_usb_loss(
    devs: Seq<DeviceView>,
    tcp: TcpMapView,
    usb: UsbMapView,
    rules: Seq<RuleView>,
    serial: Seq<char>,
    session_id: u32,
) -> (Seq<DeviceView>, TcpMapView, UsbMapView, Seq<RuleView>) {
    (
        connect_map::without_device(devs, serial),
        tcp_map::without_channels_of(tcp, session_id),
        usb_map::without_session_and_tasks(usb, session_id),
        forward_map::rules_concerned(rules, serial, false),
    )
}

/// A TCP session is over: the device is forgotten and the session ends. Says whether
/// there is a writer to shut down.
pub fn tcp_session_lost(
    connect_map: &mut ConnectMap,
    tcp_map: &mut TcpMap,
    connect_key: &str,
    session_id: u32,
) -> (r: bool)
    requires
        old(connect_map).wf(),
        old(tcp_map).wf(),
    ensures
        final(connect_map).wf(),
        final(tcp_map).wf(),
        (final(connect_map)@, final(tcp_map)@) == after_tcp_loss(
            old(connect_map)@,
            old(tcp_map)@,
            connect_key@,
            session_id,
        ),
        r == old(tcp_map)@.sessions.contains(session_id),
{
    connect_map.remove(connect_key);
    tcp_map.end_session(session_id)
}

/// What has to be shut down when a USB session is over: the channels of clients, and
/// the forwardings of the device.
#[derive(Debug, PartialEq, Eq)]
pub struct UsbFarewell {
    pub channels: Vec<u32>,
    pub forwardings: Vec<Rule>,
}

/// A USB session is over: the device is forgotten, no task waits for its messages, the
/// channels of its clients are closed, and its forwardings are removed.
pub fn usb_session_lost(
    connect_map: &mut ConnectMap,
    tcp_map: &mut TcpMap,
    usb_map: &mut UsbMap,
    forward_map: &mut ForwardMap,
    serial: &str,
    session_id: u32,
) -> (r: UsbFarewell)
    requires
        old(connect_map).wf(),
        old(tcp_map).wf(),
        old(usb_map).wf(),
    ensures
        final(connect_map).wf(),
        final(tcp_map).wf(),
        final(usb_map).wf(),
        (final(connect_map)@, final(tcp_map)@, final(usb_map)@, final(forward_map)@) == after_usb_loss(
            old(connect_map)@,
            old(tcp_map)@,
            old(usb_map)@,
            old(forward_map)@,
            serial@,
            session_id,
        ),
        forall|id: u32|
            r.channels@.contains(id) <==> tcp_map::channels_of(old(tcp_map)@, session_id).contains(id)
                && old(tcp_map)@.channels.contains(id),
        forward_map::rule_views(r.forwardings@) == forward_map::rules_concerned(
            old(forward_map)@,
            serial@,
            true,
        ),
{
    connect_map.remove(serial);
    usb_map.end_session_with_cleanup(session_id);
    let channels = tcp_map.close_session_channels(session_id);
    let none = String::new();
    let removal = remove_forward_entry(forward_map, serial, none.as_str());
    UsbFarewell { channels, forwardings: removal.removed }
}

// ---------------------------------------------------------------------------
// The messages of a daemon
// ---------------------------------------------------------------------------

/// Where a message of a daemon goes.
#[derive(Debug, PartialEq, Eq)]
pub enum Route {
    /// Nowhere.
    Nowhere,
    /// To the task that waits for it.
    Task,
    /// A challenge is to be signed, and the signature sent back.
    Challenge(String),
    /// Bytes go to the client of a channel.
    Client(u32, Vec<u8>),
    /// The channel of a client is closed.
    Close(u32),
}

/// Where a message of a daemon goes.
pub enum RouteView {
    Nowhere,
    Task,
    Challenge(Seq<char>),
    Client(u32, Seq<u8>),
    Close(u32),
}

impl View for Route {
    type V = RouteView;

    open spec fn view(&self) -> RouteView {
        match *self {
            Route::Nowhere => RouteView::Nowhere,
            Route::Task => RouteView::Task,
            Route::Challenge(c) => RouteView::Challenge(c@),
            Route::Client(id, b) => RouteView::Client(id, b@),
            Route::Close(id) => RouteView::Close(id),
        }
    }
}

/// What a message says without the byte before it that tells how it is meant.
pub open spec fn without_level(payload: Seq<u8>) -> Seq<u8> {
    if payload.len() == 0 {
        payload
    } else {
        payload.skip(1)
    }
}

/// Where a handshake of a daemon whose session stands goes: a challenge is signed, the
/// rest is passed over.
pub open spec fn late_handshake(payload: Seq<u8>) -> RouteView {
    match SessionHandShakeView::parsed(payload) {
        Ok(hs) => if hs.auth_type == AUTH_TYPE_SIGNATURE {
            RouteView::Challenge(hs.buf)
        } else {
            RouteView::Nowhere
        },
        Err(_) => RouteView::Nowhere,
    }
}

/// Where a message goes for which no task waits: to the client of its channel.
pub open spec fn client_route(msg: TaskMessageView) -> RouteView {
    if msg.command == HdcCommand::KernelEcho {
        RouteView::Client(msg.channel_id, without_level(msg.payload))
    } else if msg.command == HdcCommand::KernelChannelClose {
        RouteView::Close(msg.channel_id)
    } else {
        RouteView::Client(msg.channel_id, msg.payload)
    }
}

/// Where a message of a daemon goes. Over TCP heartbeats are passed over, and a task
/// that waits comes before everything else; over USB handshakes come first.
pub open spec fn route(
    transport: Transport,
    waiting: Set<(u32, u32)>,
    session_id: u32,
    msg: TaskMessageView,
) -> RouteView {
    let waits = waiting.contains((session_id, msg.channel_id));
    match transport {
        Transport::Tcp => if msg.command == HdcCommand::HeartbeatMsg {
            RouteView::Nowhere
        } else if waits {
            RouteView::Task
        } else if msg.command == HdcCommand::KernelHandshake {
            late_handshake(msg.payload)
        } else {
            client_route(msg)
        },
        Transport::Usb => if msg.command == HdcCommand::KernelHandshake {
            late_handshake(msg.payload)
        } else if waits {
            RouteView::Task
        } else {
            client_route(msg)
        },
    }
}

/// What a message says without the byte before it.
pub fn strip_level(payload: &[u8]) -> (r: Vec<u8>)
    ensures
        r@ == without_level(payload@),
{
    if payload.len() == 0 {
        copy_bytes(payload)
    } else {
        assert(payload@.subrange(1, payload@.len() as int) =~= payload@.skip(1));
        copy_range(payload, 1, payload.len())
    }
}

fn route_handshake(payload: &[u8]) -> (r: Route)
    ensures
        r@ == late_handshake(payload@),
{
    match SessionHandShake::deserialize(payload) {
        Ok(hs) => {
            if hs.auth_type == AUTH_TYPE_SIGNATURE {
                Route::Challenge(hs.buf)
            } else {
                Route::Nowhere
            }
        },
        Err(_) => Route::Nowhere,
    }
}

/// Where a message of a daemon goes.
pub fn route_message(
    transport: Transport,
    usb_map: &UsbMap,
    session_id: u32,
    msg: &TaskMessage,
) -> (r: Route)
    ensures
        r@ == route(transport, usb_map@.waiting, session_id, msg@),
{
    let waits = usb_map.route_response(session_id, msg.channel_id);
    if transport == Transport::Tcp && msg.command == HdcCommand::HeartbeatMsg {
        return Route::Nowhere;
    }
    if transport == Transport::Tcp && waits {
        return Route::Task;
    }
    if msg.command == HdcCommand::KernelHandshake {
        return route_handshake(&msg.payload);
    }
    if waits {
        return Route::Task;
    }
    if msg.command == HdcCommand::KernelEcho {
        Route::Client(msg.channel_id, strip_level(&msg.payload))
    } else if msg.command == HdcCommand::KernelChannelClose {
        Route::Close(msg.channel_id)
    } else {
        Route::Client(msg.channel_id, copy_bytes(&msg.payload))
    }
}

/// The heartbeat of the host.
pub open spec fn heartbeat_message() -> TaskMessageView {
    TaskMessageView { channel_id: 0, command: HdcCommand::HeartbeatMsg, payload: Seq::empty() }
}

/// The heartbeat of the host.
pub fn make_heartbeat() -> (r: TaskMessage)
    ensures
        r@ == heartbeat_message(),
{
    let payload: Vec<u8> = Vec::new();
    TaskMessage { channel_id: 0, command: HdcCommand::HeartbeatMsg, payload }
}

/// A message for which no task waits goes to the client of its channel: its bytes, without the
/// byte before the text of an echo, or the end of the channel. A late challenge is signed. A
/// heartbeat over TCP goes nowhere.
pub proof fn messages_reach_their_client(
    transport: Transport,
    waiting: Set<(u32, u32)>,
    session_id: u32,
    channel_id: u32,
    command: HdcCommand,
    payload: Seq<u8>,
    level: u8,
)
    requires
        !waiting.contains((session_id, channel_id)),
    ensures
        command != HdcCommand::KernelEcho && command != HdcCommand::KernelChannelClose && command
            != HdcCommand::KernelHandshake && command != HdcCommand::HeartbeatMsg ==> route(
            transport,
            waiting,
            session_id,
            TaskMessageView { channel_id, command, payload },
        ) == RouteView::Client(channel_id, payload),
        route(
            transport,
            waiting,
            session_id,
            TaskMessageView {
                channel_id,
                command: HdcCommand::KernelEcho,
                payload: seq![level] + payload,
            },
        ) == RouteView::Client(channel_id, payload),
        route(
            transport,
            waiting,
            session_id,
            TaskMessageView { channel_id, command: HdcCommand::KernelChannelClose, payload },
        ) == RouteView::Close(channel_id),
        route(
            Transport::Tcp,
            waiting,
            session_id,
            TaskMessageView { channel_id, command: HdcCommand::HeartbeatMsg, payload },
        ) == RouteView::Nowhere,
{
    assert((seq![level] + payload).skip(1) =~= payload);
}

/// A challenge that a daemon sends once the session stands is signed, if no task waits for it;
/// any other handshake is passed over.
pub proof fn late_challenge_is_signed(
    transport: Transport,
    waiting: Set<(u32, u32)>,
    session_id: u32,
    channel_id: u32,
    hs: SessionHandShakeView,
)
    requires
        hs.readable(),
        transport == Transport::Usb || !waiting.contains((session_id, channel_id)),
    ensures
        route(
            transport,
            waiting,
            session_id,
            TaskMessageView {
                channel_id,
                command: HdcCommand::KernelHandshake,
                payload: tlv::slots_bytes(hs.slots()),
            },
        ) == if hs.auth_type == 2 {
            RouteView::Challenge(hs.buf)
        } else {
            RouteView::Nowhere
        },
{
    serializer::session_handshake_round_trip(hs);
}

/// Over either transport, a message for which a task waits goes to that task and
/// to no client, unless it is a heartbeat over TCP or a handshake over USB.
pub proof fn waiting_tasks_come_first(
    transport: Transport,
    waiting: Set<(u32, u32)>,
    session_id: u32,
    msg: TaskMessageView,
)
    requires
        waiting.contains((session_id, msg.channel_id)),
        msg.command != HdcCommand::HeartbeatMsg,
        msg.command != HdcCommand::KernelHandshake,
    ensures
        route(transport, waiting, session_id, msg) == RouteView::Task,
{
}

/// A device whose session is lost is not known any more, and its session cannot be sent to.
/// Over USB its tasks stop waiting, its channels close and its forwardings end. Other devices,
/// sessions and channels stay.
pub proof fn lost_device_is_gone(
    devs: Seq<DeviceView>,
    tcp: TcpMapView,
    usb: UsbMapView,
    rules: Seq<RuleView>,
    key: Seq<char>,
    session_id: u32,
    other: Seq<char>,
    c: u32,
)
    requires
        connect_map::distinct(devs),
        other != key,
    ensures
        ({
            let (d, t) = after_tcp_loss(devs, tcp, key, session_id);
            let (e, u, v, w) = after_usb_loss(devs, tcp, usb, rules, key, session_id);
            &&& connect_map::lookup(d, key) is None && connect_map::lookup(e, key) is None
            &&& connect_map::lookup(d, other) == connect_map::lookup(devs, other)
            &&& connect_map::lookup(e, other) == connect_map::lookup(devs, other)
            &&& !t.sessions.contains(session_id)
            &&& forall|x: u32|
                x != session_id ==> #[trigger] t.sessions.contains(x) == tcp.sessions.contains(x)
            &&& t.channels == tcp.channels
            &&& u.sessions == tcp.sessions
            &&& tcp.channel_sessions.dom().contains(c) && tcp.channel_sessions[c] == session_id
                ==> !u.channels.contains(c)
            &&& !(tcp.channel_sessions.dom().contains(c) && tcp.channel_sessions[c] == session_id)
                ==> u.channels.contains(c) == tcp.channels.contains(c)
            &&& usb_map::sendable(v, session_id) is Err
            &&& !v.waiting.contains((session_id, c))
            &&& forall|x: u32|
                x != session_id ==> #[trigger] usb_map::sendable(v, x) == usb_map::sendable(usb, x)
            &&& forall|i: int|
                0 <= i < w.len() ==> (#[trigger] w[i]).entry.connect_key != key
        }),
{
    connect_map::removed_is_gone(devs, key, key);
    connect_map::removed_is_gone(devs, key, other);
    let w = forward_map::rules_concerned(rules, key, false);
    assert forall|i: int| 0 <= i < w.len() implies (#[trigger] w[i]).entry.connect_key != key by {
        forward_map::all_of_a_device_are_removed(rules, key, w[i]);
        assert(w.contains(w[i]));
    }
}

/// Once the last word was handed over the session is accepted; before that the next message is
/// waited for. A failure at either end refuses the session, and so does silence.
pub proof fn sending_goes_on(v: AuthView, reason: Seq<char>)
    ensures
        after_sending(v, Some(reason)).1 == AuthActionView::Refuse(
            AuthErrorView::SendFailed(reason),
        ),
        after_sending(v, Some(reason)).0.phase == Phase::Refused,
        v.phase == Phase::Confirming ==> after_sending(v, None).1 is Accept && after_sending(
            v,
            None,
        ).0.phase == Phase::Accepted,
        v.phase == Phase::Sending && v.attempts < 10 ==> after_sending(v, None).1 is Receive
            && after_sending(v, None).0.phase == Phase::Receiving,
        v.phase == Phase::Sending && v.attempts >= 10 ==> after_sending(v, None).1 is Refuse,
        after_silence(v, Some(reason)).1 == AuthActionView::Refuse(
            AuthErrorView::ReceiveFailed(reason),
        ),
        after_silence(v, None).1 == AuthActionView::Refuse(AuthErrorView::TimedOut),
        after_silence(v, None).0.phase == Phase::Refused,
{
}

/// The host's heartbeat belongs to no channel and says nothing. A session over TCP that did not
/// come about is ended, unless nothing could be sent in it. Over USB a session takes the number
/// that the daemon gives it; over TCP it keeps its own.
pub proof fn sessions_keep_their_number(v: AuthView, their_session: u32, e: AuthErrorView)
    ensures
        heartbeat_message() == (TaskMessageView {
            channel_id: 0,
            command: HdcCommand::HeartbeatMsg,
            payload: Seq::empty(),
        }),
        ends_tcp_session(e) <==> e !is SendFailed,
        v.transport == Transport::Tcp ==> renumbered(v, their_session) == v.session_id,
        v.transport == Transport::Usb && their_session != 0 ==> renumbered(v, their_session)
            == their_session,
        renumbered(v, 0) == v.session_id,
        usb_labels() == labeled::labeled("authtype"@, "1"@),
{
}

/// A device that was found is ready, with no session, no name and no version yet.
pub proof fn found_device_is_blank(conn_type: ConnectTypeView)
    ensures
        ({
            let info = found_device(conn_type);
            &&& info.session_id == 0
            &&& info.conn_type == conn_type
            &&& info.conn_status == ConnStatus::Ready
            &&& info.dev_name == Seq::<char>::empty()
            &&& info.version == Seq::<char>::empty()
        }),
{
}

} // verus!
