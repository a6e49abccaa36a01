use hdc::protocol::encrypt::PskCipher;

#[test]
fn psk_roundtrip() {
    let psk = PskCipher::generate_psk();
    let mut host = PskCipher::new(&psk, true);
    let mut daemon = PskCipher::new(&psk, false);
    let plain = b"hello hdc encrypted world";
    let ct = host.encrypt(plain).unwrap();
    let out = daemon.decrypt(&ct).unwrap();
    assert_eq!(out, plain);
}

#[test]
fn a_frame_has_a_number_and_a_tag() {
    let mut host = PskCipher::new(&[3; 32], true);
    let mut daemon = PskCipher::new(&[3; 32], false);
    let first = host.encrypt(b"abc").unwrap();
    let second = host.encrypt(b"").unwrap();
    assert_eq!((first.len(), second.len()), (27, 24));
    assert_eq!(first[..8], [0; 8]);
    assert_eq!(second[..8], [0, 0, 0, 0, 0, 0, 0, 1]);
    assert_eq!(daemon.decrypt(&first).unwrap().len(), 3);
    assert_eq!(daemon.decrypt(&second).unwrap().len(), 0);
}
