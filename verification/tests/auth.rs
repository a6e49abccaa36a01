use base64::Engine;
use hdc::ciphers::Ciphers;
use hdc::daemon::session::{
    build_daemon_auth_buf, can_greet, check_ack, encrypt_psk_with_pubkey, extract_host_pubkey,
    get_daemon_port, greet, host_supports_encrypt, AckError, Awaited, GreetError,
};
use hdc::daemon::transport::{
    is_encrypted, pack_message, remove_session_cipher, set_session_cipher, unpack_message,
    FrameError,
};
use hdc::host::auth::{
    complete_pair, decrypt_psk, find_key_form, get_private_key_path, get_public_key_info,
    get_public_key_path, load_keys, private_key_bits, public_key_text,
    rsa_sign_challenge, signature_text, KeyError, KeyForm,
};
use hdc::host::session::{
    build_host_auth_buf, build_usb_auth_buf, find_device_name, make_handshake, must_end_session, AuthAction,
    AuthError, AuthSession, Transport,
};
use hdc::host::transfer::Reply;
use hdc::protocol::command::HdcCommand;
use hdc::protocol::config::TaskMessage;
use hdc::path::join_path;
use hdc::protocol::encrypt::{CipherError, PskCipher};
use hdc::protocol::keys::NewKey;
use hdc::protocol::serializer::{HdcDeserialize, HdcSerialize, SessionHandShake};
use rsa::pkcs1::EncodeRsaPrivateKey;
use rsa::pkcs8::{DecodePrivateKey, DecodePublicKey, EncodePrivateKey, EncodePublicKey, LineEnding};
use rsa::signature::Verifier;
use rsa::{BigUint, RsaPrivateKey, RsaPublicKey};

const P: &str = "d99720ff13cb9bd303640a80c7563fbb1b85e7ba1aab4a87e207d47d29838c6ba050ec000d888cde7dbb89874e3d855c89dc05eea961e4946126b07156b925fb0b09551b3bb4c64d";
const Q: &str = "c6578f66c67c4677fed44cb31ee4187a1cbb0cc6ce611ab4a8bb3151ebe077d5275c0a2427549e75e9ded111a22622e69a4eb10d3200335cd404de2bb50aa5486a60e6516cfe44f9";
const SMALL_P: &str = "de7d6b377936d536243d35702c1eea1f265974a7cc966f46c6aa7d550101b811";
const SMALL_Q: &str = "f711b7573b16494331a59c4ad1ebd086c40f36094fcc9a5c334e51aff848a957";

fn key_of(p: &str, q: &str) -> RsaPrivateKey {
    let p = BigUint::parse_bytes(p.as_bytes(), 16).unwrap();
    let q = BigUint::parse_bytes(q.as_bytes(), 16).unwrap();
    RsaPrivateKey::from_p_q(p, q, BigUint::from(65537u32)).unwrap()
}

fn pems(p: &str, q: &str) -> (String, String) {
    let key = key_of(p, q);
    let private = key.to_pkcs1_pem(LineEnding::LF).unwrap().to_string();
    let public = RsaPublicKey::from(&key).to_public_key_pem(LineEnding::LF).unwrap();
    (private, public)
}

fn no_private_key() -> KeyError {
    KeyError::PrivateKey(RsaPrivateKey::from_pkcs8_pem("no key").unwrap_err().to_string())
}

fn public_reason(pem: &str) -> String {
    RsaPublicKey::from_public_key_pem(pem).unwrap_err().to_string()
}

#[test]
fn a_private_key_is_completed_to_a_pair() {
    let (private, public) = pems(P, Q);
    assert_eq!(complete_pair(NewKey::Made(private.clone())), Ok((private, public)));
    let reason = "x".to_string();
    assert_eq!(
        complete_pair(NewKey::NotMade(reason.clone())),
        Err(KeyError::Generate(reason.clone()))
    );
    assert_eq!(
        complete_pair(NewKey::NotWritten(reason.clone())),
        Err(KeyError::WritePrivate(reason))
    );
    assert!(matches!(
        complete_pair(NewKey::Made("no key".to_string())),
        Err(KeyError::WritePublic(_))
    ));
}

#[test]
fn keys_that_can_and_cannot_be_read() {
    let (private, public) = pems(P, Q);
    assert_eq!(load_keys(&private, &public), Ok(()));
    assert_eq!(load_keys("no key", &public), Err(no_private_key()));
    assert_eq!(
        load_keys(&private, "no key"),
        Err(KeyError::PublicKey(public_reason("no key")))
    );
}

#[test]
fn private_keys_have_two_forms() {
    let (first, public) = pems(P, Q);
    let second = key_of(P, Q).to_pkcs8_pem(LineEnding::LF).unwrap().to_string();
    assert_eq!(find_key_form(&first), Ok(KeyForm::Pkcs1));
    assert_eq!(find_key_form(&second), Ok(KeyForm::Pkcs8));
    assert_eq!(find_key_form("no key"), Err(no_private_key()));
    assert_eq!(load_keys(&second, &public), Ok(()));
    assert_eq!(private_key_bits(&first), Some(1152));
    assert_eq!(private_key_bits(&second), None);
    assert!(rsa_sign_challenge(&second, "challenge").is_ok());
    let sealed = encrypt_psk_with_pubkey(&public, &[7; 32]).unwrap();
    assert_eq!(decrypt_psk(&second, &sealed), Ok(vec![7; 32]));
}

#[test]
fn a_key_with_uneven_primes_is_computed_with() {
    for (p, q) in [("3", Q), (Q, "3")] {
        let (uneven, public) = pems(p, q);
        assert_eq!(load_keys(&uneven, &public), Ok(()));
        let key = RsaPublicKey::from_public_key_pem(&public).unwrap();
        let padding = rsa::Oaep::new_with_mgf_hash::<sha2::Sha256, sha2::Sha256>();
        let sealed = key.encrypt(&mut rand::rngs::OsRng, padding, b"abc").unwrap();
        assert_eq!(decrypt_psk(&uneven, &sealed), Ok(b"abc".to_vec()));
        assert_eq!(rsa_sign_challenge(&uneven, "c"), Err(KeyError::Sign));
    }
}

#[test]
fn what_the_host_tells_of_its_key() {
    let (private, public) = pems(P, Q);
    let returned = public.replace('\n', "\r\n");
    assert_eq!(
        get_public_key_info("pc", &private, &returned),
        Ok(format!("pc\u{c}{}", public))
    );
    assert_eq!(get_public_key_info("pc", "no key", &public), Err(no_private_key()));
    assert_eq!(
        get_public_key_info("pc", &private, ""),
        Err(KeyError::PublicKey(public_reason("")))
    );
    assert_eq!(public_key_text("pc", "key"), "pc\u{c}key");
}

#[test]
fn a_signature_is_that_of_the_challenge() {
    let (private, _) = pems(P, Q);
    let text = rsa_sign_challenge(&private, "challenge").unwrap();
    let bytes = base64::engine::general_purpose::STANDARD.decode(&text).unwrap();
    let verifying =
        rsa::pss::VerifyingKey::<sha2::Sha512>::new(RsaPublicKey::from(&key_of(P, Q)));
    let signature = rsa::pss::Signature::try_from(bytes.as_slice()).unwrap();
    assert!(verifying.verify(b"challenge", &signature).is_ok());
    assert!(verifying.verify(b"another", &signature).is_err());
}

#[test]
fn challenges_that_are_not_signed() {
    let (small, _) = pems(SMALL_P, SMALL_Q);
    assert_eq!(rsa_sign_challenge("no key", "c"), Err(no_private_key()));
    assert_eq!(rsa_sign_challenge(&small, "c"), Err(KeyError::Sign));
}

#[test]
fn signatures_in_base64() {
    assert_eq!(signature_text(&[]), "");
    assert_eq!(signature_text(b"f"), "Zg==");
    assert_eq!(signature_text(&[0xfb, 0xff, 0xfe]), "+//+");
}

#[test]
fn a_shared_key_for_the_host() {
    let (private, public) = pems(P, Q);
    let psk = [7u8; 32];
    let sealed = encrypt_psk_with_pubkey(&public_key_text("pc", &public), &psk).unwrap();
    assert_ne!(sealed, psk.to_vec());
    assert_eq!(decrypt_psk(&private, &sealed), Ok(psk.to_vec()));
    let plain = encrypt_psk_with_pubkey(&public, &psk).unwrap();
    assert_eq!(decrypt_psk(&private, &plain), Ok(psk.to_vec()));
}

#[test]
fn shared_keys_that_fail() {
    let (private, _) = pems(P, Q);
    let (_, small) = pems(SMALL_P, SMALL_Q);
    let psk = [7u8; 32];
    assert_eq!(
        encrypt_psk_with_pubkey("no key", &psk),
        Err(GreetError::BadKey(public_reason("no key")))
    );
    assert_eq!(
        encrypt_psk_with_pubkey(&small, &psk),
        Err(GreetError::Seal(rsa::Error::MessageTooLong.to_string()))
    );
    assert_eq!(
        decrypt_psk(&private, &[1, 2, 3]),
        Err(KeyError::Decrypt(rsa::Error::Decryption.to_string()))
    );
    assert_eq!(decrypt_psk("no key", &[1, 2, 3]), Err(no_private_key()));
    assert_eq!(GreetError::BadKey("x".to_string()).message(), "Invalid host public key: x");
    assert_eq!(GreetError::Seal("x".to_string()).message(), "RSA encrypt PSK failed: x");
}

#[test]
fn where_keys_are_kept() {
    let home = Some("/home/u".to_string());
    let profile = Some("C:\\Users\\u".to_string());
    assert_eq!(get_private_key_path(&home, &profile, '/').unwrap(), "/home/u/.harmony/hdckey");
    assert_eq!(
        get_public_key_path(&None, &profile, '\\').unwrap(),
        "C:\\Users\\u\\.harmony\\hdckey.pub"
    );
    assert_eq!(get_private_key_path(&None, &None, '/'), Err(KeyError::NoHome));
    assert_eq!(get_public_key_path(&None, &None, '/'), Err(KeyError::NoHome));
    assert_eq!(join_path("", '/', "a"), "a");
    assert_eq!(join_path("d/", '/', "a"), "d/a");
    assert_eq!(join_path("C:", '\\', "a"), "C:a");
    assert_eq!(join_path("C:", '/', "a"), "C:/a");
    assert_eq!(join_path("C:/u", '\\', "a"), "C:/u\\a");
    assert_eq!(join_path("\\\\?\\C:\\u\\\\v", '\\', "a"), "\\\\?\\C:\\u\\v\\a");
}

#[test]
fn the_words_of_key_faults() {
    assert_eq!(KeyError::NoHome.message(), "cannot determine home directory");
    let x = || "x".to_string();
    assert_eq!(KeyError::PrivateKey(x()).message(), "Failed to load private key: x");
    assert_eq!(KeyError::PublicKey(x()).message(), "Failed to load public key: x");
    assert_eq!(KeyError::Generate(x()).message(), "RSA key generation failed: x");
    assert_eq!(KeyError::WritePrivate(x()).message(), "PEM encode private key failed: x");
    assert_eq!(KeyError::WritePublic(x()).message(), "PEM encode public key failed: x");
    assert_eq!(KeyError::Sign.message(), "signature operation failed");
    assert_eq!(KeyError::Decrypt(x()).message(), "RSA decrypt PSK failed: x");
}

fn hello(buf: &str) -> TaskMessage {
    make_handshake(0, 77, "127.0.0.1:5555", buf)
}

#[test]
fn what_a_handshake_says() {
    let m = hello("buf");
    assert_eq!(m.channel_id, 0);
    assert_eq!(m.command, HdcCommand::KernelHandshake);
    let hs = SessionHandShake::deserialize(&m.payload).unwrap();
    assert_eq!(hs.banner, "OHOS HDC");
    assert_eq!(hs.auth_type, 0);
    assert_eq!(hs.session_id, 77);
    assert_eq!(hs.connect_key, "127.0.0.1:5555");
    assert_eq!(hs.buf, "buf");
    assert_eq!(hs.version, "Ver: 3.2.0e47d583e40754ffe6");
}

#[test]
fn what_the_two_ends_tell_of_themselves() {
    let plain = build_host_auth_buf(&None, false);
    assert!(!host_supports_encrypt(&plain));
    assert_eq!(extract_host_pubkey(&plain), None);
    let full = build_host_auth_buf(&Some("pc\u{c}key".to_string()), true);
    assert!(host_supports_encrypt(&full));
    assert_eq!(extract_host_pubkey(&full), Some("pc\u{c}key".to_string()));
    assert_eq!(find_device_name(&build_daemon_auth_buf("phone", true)), "phone");
    assert_eq!(find_device_name(""), "");
    assert_eq!(build_usb_auth_buf(), "authtype        1               1");
}

#[test]
fn a_plain_session() {
    let (mut auth, first) = AuthSession::start(
        Transport::Tcp,
        77,
        "127.0.0.1:5555",
        &build_host_auth_buf(&None, false),
    );
    let first = match first {
        AuthAction::Send(m) => m,
        _ => panic!("the host speaks first"),
    };
    assert!(can_greet(&first));
    let greeting = match greet(&first, false, "phone") {
        Ok(g) => g,
        Err(_) => panic!("the daemon answers"),
    };
    assert_eq!(greeting.session_id, 77);
    assert!(!greeting.awaits_ack);
    assert!(greeting.cipher.is_none());
    assert!(matches!(auth.sent(Ok(())), AuthAction::Receive(10)));
    assert!(matches!(auth.received(0, &greeting.response, false), AuthAction::Accept));
    assert_eq!(find_device_name(auth.last_buf()), "phone");
    assert_eq!(auth.session_id(), 77);
}

#[test]
fn an_encrypted_session() {
    let (private, public) = pems(P, Q);
    let info = get_public_key_info("pc", &private, &public).unwrap();
    let (mut auth, first) = AuthSession::start(
        Transport::Tcp,
        77,
        "127.0.0.1:5555",
        &build_host_auth_buf(&Some(info), true),
    );
    let first = match first {
        AuthAction::Send(m) => m,
        _ => panic!("the host speaks first"),
    };
    let greeting = match greet(&first, true, "phone") {
        Ok(g) => g,
        Err(_) => panic!("the daemon answers"),
    };
    assert!(greeting.awaits_ack);
    assert!(matches!(auth.sent(Ok(())), AuthAction::Receive(10)));
    let sealed = match auth.received(0, &greeting.response, true) {
        AuthAction::AskPsk(b) => b,
        _ => panic!("the daemon sends a shared key"),
    };
    let psk = decrypt_psk(&private, &sealed).unwrap();
    let (cipher, confirmation) = match auth.psk_opened(Ok(psk)) {
        AuthAction::EncryptAndSend(c, m) => (c, m),
        _ => panic!("the host confirms"),
    };
    assert!(matches!(auth.sent(Ok(())), AuthAction::Accept));

    let mut host = Ciphers::new();
    let mut daemon = Ciphers::new();
    set_session_cipher(&mut host, 77, cipher);
    set_session_cipher(&mut daemon, 77, greeting.cipher.unwrap());
    let frame = pack_message(&mut host, 77, &confirmation).unwrap();
    let arrived = unpack_message(&mut daemon, 77, &frame[4..]).unwrap();
    assert_eq!(arrived, confirmation);
    assert_eq!(check_ack(Awaited::Message(arrived)), Ok(()));
    let back = pack_message(&mut daemon, 77, &confirmation).unwrap();
    assert_eq!(unpack_message(&mut host, 77, &back[4..]), Ok(confirmation));
}

#[test]
fn confirmations_that_are_none() {
    let other = TaskMessage {
        channel_id: 0,
        command: HdcCommand::KernelEcho,
        payload: Vec::new(),
    };
    assert_eq!(check_ack(Awaited::Message(other)), Err(AckError::Other));
    assert_eq!(check_ack(Awaited::TimedOut), Err(AckError::TimedOut));
    assert_eq!(
        check_ack(Awaited::Failed("peer shutdown".to_string())),
        Err(AckError::Broken("peer shutdown".to_string()))
    );
    assert_eq!(AckError::Other.message(), "PSK-ACK expected");
    assert_eq!(AckError::TimedOut.message(), "PSK-ACK timeout");
    assert_eq!(AckError::Broken("peer shutdown".to_string()).message(), "peer shutdown");
}

#[test]
fn a_greeting_without_a_handshake_still_gets_an_answer() {
    let odd = TaskMessage {
        channel_id: 3,
        command: HdcCommand::KernelHandshake,
        payload: vec![0xff],
    };
    assert!(can_greet(&odd));
    let g = match greet(&odd, true, "phone") {
        Ok(g) => g,
        Err(_) => panic!("the daemon answers"),
    };
    let hs = SessionHandShake::deserialize(&g.response.payload).unwrap();
    assert_eq!(hs.session_id, g.session_id);
    assert_eq!(hs.auth_type, 4);
    assert_eq!(g.response.channel_id, 3);
}

#[test]
fn a_bad_public_key_ends_the_greeting() {
    let first = hello(&build_host_auth_buf(&Some("pc\u{c}no key".to_string()), true));
    assert!(matches!(greet(&first, true, "phone"), Err(GreetError::BadKey(_))));
    assert!(greet(&first, false, "phone").is_ok());
}

fn daemon_says(auth_type: u8, buf: &str) -> TaskMessage {
    let hs = SessionHandShake {
        banner: "OHOS HDC".to_string(),
        auth_type,
        session_id: 5,
        connect_key: String::new(),
        buf: buf.to_string(),
        version: String::new(),
    };
    TaskMessage {
        channel_id: 0,
        command: HdcCommand::KernelHandshake,
        payload: hs.serialize(),
    }
}

fn refusal(transport: Transport, m: &TaskMessage, encrypt: bool) -> AuthError {
    let (mut auth, _) = AuthSession::start(transport, 1, "k", "");
    auth.sent(Ok(()));
    match auth.received(0, m, encrypt) {
        AuthAction::Refuse(e) => e,
        _ => panic!("the session is refused"),
    }
}

#[test]
fn every_refusal_of_a_session() {
    assert_eq!(refusal(Transport::Tcp, &daemon_says(5, ""), true), AuthError::Rejected);
    assert_eq!(refusal(Transport::Tcp, &daemon_says(6, "AA=="), false), AuthError::EncryptionOff);
    let reason = base64::engine::general_purpose::STANDARD.decode("!").unwrap_err().to_string();
    assert_eq!(
        refusal(Transport::Tcp, &daemon_says(6, "!"), true).message(),
        format!("Failed to base64-decode daemon PSK: {reason}")
    );
    assert_eq!(refusal(Transport::Usb, &daemon_says(6, "AA=="), true), AuthError::UnknownType(6));
    assert_eq!(refusal(Transport::Tcp, &daemon_says(1, ""), true), AuthError::Token);
    assert_eq!(refusal(Transport::Tcp, &daemon_says(9, ""), true), AuthError::UnknownType(9));
    let bad = TaskMessage {
        channel_id: 0,
        command: HdcCommand::KernelHandshake,
        payload: vec![0x80],
    };
    let e = refusal(Transport::Tcp, &bad, true);
    assert!(matches!(e, AuthError::BadHandshake(_)));
    assert!(e.message().starts_with("Failed to deserialize daemon handshake: "));
}

#[test]
fn faults_on_the_way_to_a_session() {
    let start = || {
        let (mut auth, _) = AuthSession::start(Transport::Tcp, 1, "k", "");
        auth.sent(Ok(()));
        auth
    };
    let reason = |a: AuthAction| match a {
        AuthAction::Refuse(e) => e,
        _ => panic!("the session is refused"),
    };
    assert_eq!(reason(start().not_received(None)), AuthError::TimedOut);
    assert_eq!(
        reason(start().not_received(Some("gone".to_string()))),
        AuthError::ReceiveFailed("gone".to_string())
    );
    let mut key = start();
    assert!(matches!(key.received(0, &daemon_says(3, ""), false), AuthAction::AskKey));
    assert_eq!(
        reason(key.key_found(Err("none".to_string()))).message(),
        "Failed to get public key info: none"
    );
    let mut sign = start();
    assert!(matches!(
        sign.received(0, &daemon_says(2, "challenge"), false),
        AuthAction::AskSignature(c) if c == "challenge"
    ));
    assert_eq!(
        reason(sign.signed(Err("none".to_string()))).message(),
        "Failed to sign challenge: none"
    );
    let mut psk = start();
    psk.received(0, &daemon_says(6, "AA=="), true);
    assert_eq!(
        reason(psk.psk_opened(Ok(vec![1, 2]))).message(),
        "Daemon PSK length is 2, expected 32"
    );
    let mut shut = start();
    shut.received(0, &daemon_says(6, "AA=="), true);
    assert_eq!(
        reason(shut.psk_opened(Err("x".to_string()))).message(),
        "Failed to decrypt daemon PSK: x"
    );
    let (mut unsent, _) = AuthSession::start(Transport::Tcp, 1, "k", "");
    let e = reason(unsent.sent(Err("broken".to_string())));
    assert_eq!(e, AuthError::SendFailed("broken".to_string()));
    assert!(!must_end_session(&e));
    assert!(must_end_session(&AuthError::Rejected));
}

#[test]
fn keys_and_signatures_are_sent() {
    let (mut auth, _) = AuthSession::start(Transport::Usb, 1, "k", "");
    auth.sent(Ok(()));
    auth.received(42, &daemon_says(3, ""), false);
    assert_eq!(auth.session_id(), 42);
    let m = match auth.key_found(Ok("info".to_string())) {
        AuthAction::Send(m) => m,
        _ => panic!("the key is sent"),
    };
    let hs = SessionHandShake::deserialize(&m.payload).unwrap();
    assert_eq!((hs.auth_type, hs.session_id, hs.buf.as_str()), (3, 42, "info"));
    assert!(matches!(auth.sent(Ok(())), AuthAction::Receive(60)));
    auth.received(0, &daemon_says(2, "c"), false);
    let m = match auth.signed(Ok("s".to_string())) {
        AuthAction::Send(m) => m,
        _ => panic!("the signature is sent"),
    };
    let hs = SessionHandShake::deserialize(&m.payload).unwrap();
    assert_eq!((hs.auth_type, hs.session_id, hs.buf.as_str()), (2, 42, "s"));
}

#[test]
fn a_daemon_has_ten_messages_to_decide() {
    let echo = TaskMessage {
        channel_id: 0,
        command: HdcCommand::KernelEcho,
        payload: Vec::new(),
    };
    let (mut auth, _) = AuthSession::start(Transport::Tcp, 1, "k", "");
    auth.sent(Ok(()));
    for _ in 0..9 {
        assert!(matches!(auth.received(0, &echo, false), AuthAction::Receive(_)));
    }
    assert!(matches!(
        auth.received(0, &echo, false),
        AuthAction::Refuse(AuthError::Undecided)
    ));
}

#[test]
fn frames_without_a_cipher() {
    let mut ciphers = Ciphers::new();
    let m = hello("x");
    assert!(!is_encrypted(&ciphers, 1));
    let frame = pack_message(&mut ciphers, 1, &m).unwrap();
    assert_eq!(unpack_message(&mut ciphers, 1, &frame), Ok(m));
    assert!(matches!(
        unpack_message(&mut ciphers, 1, &[1, 2, 3]),
        Err(FrameError::Codec(_))
    ));
}

#[test]
fn frames_that_were_changed() {
    let psk = [9u8; 32];
    let mut host = PskCipher::new(&psk, true);
    let mut daemon = Ciphers::new();
    set_session_cipher(&mut daemon, 1, PskCipher::new(&psk, false));
    assert!(is_encrypted(&daemon, 1));
    let mut frame = host.encrypt(b"hello").unwrap();
    assert_eq!(frame.len(), 8 + 5 + 16);
    let last = frame.len() - 1;
    frame[last] ^= 1;
    assert_eq!(
        unpack_message(&mut daemon, 1, &frame),
        Err(FrameError::Cipher(CipherError::Decrypt))
    );
    assert_eq!(
        unpack_message(&mut daemon, 1, &[0; 23]),
        Err(FrameError::Cipher(CipherError::TooShort))
    );
    remove_session_cipher(&mut daemon, 1);
    assert!(!is_encrypted(&daemon, 1));
}

#[test]
fn the_port_of_the_daemon() {
    assert_eq!(get_daemon_port(&None), 0);
    assert_eq!(get_daemon_port(&Some("6000".to_string())), 6000);
    assert_eq!(get_daemon_port(&Some("x".to_string())), 0);
}
