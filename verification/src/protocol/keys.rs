//! RSA keys in their textual form, what is computed with them, and base64.

use base64::Engine;
use rand::rngs::OsRng;
use rsa::pkcs1::{DecodeRsaPrivateKey, EncodeRsaPrivateKey};
use rsa::pkcs8::{DecodePrivateKey, DecodePublicKey, EncodePublicKey, LineEnding};
use rsa::signature::{RandomizedSigner, SignatureEncoding};
use rsa::traits::{PrivateKeyParts, PublicKeyParts};
use rsa::{Oaep, RsaPrivateKey, RsaPublicKey};
use vstd::prelude::*;

verus! {

/// The sizes in bits of the first and the second prime of a private key in the PKCS#1
/// form; nothing if the text is none.
pub uninterp spec fn rsa_pkcs1_primes(pem: Seq<char>) -> Option<(nat, nat)>;

/// The sizes in bits of the first and the second prime of a private key in the PKCS#8
/// form; the text of the error if the text is none.
pub uninterp spec fn rsa_pkcs8_primes(pem: Seq<char>) -> Result<(nat, nat), Seq<char>>;

/// The size in bits of the modulus of a private key in the PKCS#1 form; nothing if the
/// text is none.
pub uninterp spec fn rsa_private_bits(pem: Seq<char>) -> Option<nat>;

/// The text of the public key that belongs to a private key in the PKCS#1 form, or the text
/// of the error.
pub uninterp spec fn rsa_public_of(private_pem: Seq<char>) -> Result<Seq<char>, Seq<char>>;

/// The text of the error of reading a public key; nothing if the text is one.
pub uninterp spec fn rsa_public_fault(pem: Seq<char>) -> Option<Seq<char>>;

/// The plain form of a text that is a public key, or the text of the error.
pub uninterp spec fn rsa_public_pem(pem: Seq<char>) -> Result<Seq<char>, Seq<char>>;

/// The signature that RSA-PSS with SHA-512 makes of a message under a private key in the
/// PKCS#1 form with a given salt.
pub uninterp spec fn rsa_pkcs1_signed(
    private_pem: Seq<char>,
    message: Seq<u8>,
    salt: Seq<u8>,
) -> Option<Seq<u8>>;

/// The signature that RSA-PSS with SHA-512 makes of a message under a private key in the
/// PKCS#8 form with a given salt.
pub uninterp spec fn rsa_pkcs8_signed(
    private_pem: Seq<char>,
    message: Seq<u8>,
    salt: Seq<u8>,
) -> Option<Seq<u8>>;

/// The ciphertext that RSA-OAEP with SHA-256 makes of data under a public key with a given
/// seed, or the text of the error.
pub uninterp spec fn rsa_oaep_sealed(pem: Seq<char>, data: Seq<u8>, seed: Seq<u8>) -> Result<
    Seq<u8>,
    Seq<char>,
>;

/// What RSA-OAEP with SHA-256 finds in a ciphertext under a private key in the PKCS#1
/// form, or the text of the error.
pub uninterp spec fn rsa_pkcs1_opened(private_pem: Seq<char>, data: Seq<u8>) -> Result<
    Seq<u8>,
    Seq<char>,
>;

/// What RSA-OAEP with SHA-256 finds in a ciphertext under a private key in the PKCS#8
/// form, or the text of the error.
pub uninterp spec fn rsa_pkcs8_opened(private_pem: Seq<char>, data: Seq<u8>) -> Result<
    Seq<u8>,
    Seq<char>,
>;

/// The base64 form of bytes, with the standard alphabet and padding.
pub uninterp spec fn base64_encoded(bytes: Seq<u8>) -> Seq<char>;

/// The bytes that a text in the standard base64 form stands for, or the text of the error.
pub uninterp spec fn base64_decoded(text: Seq<char>) -> Result<Seq<u8>, Seq<char>>;

/// What is computed with a private key takes the first prime about as often as it goes into
/// the second. An order of the primes, by their numbers, in which the second is not longer
/// than the first keeps that short.
pub open spec fn longer_first(primes: (nat, nat), order: (usize, usize)) -> bool {
    ||| order == (0usize, 1usize) && primes.1 <= primes.0
    ||| order == (1usize, 0usize) && primes.0 <= primes.1
}

/// `RsaPrivateKey::from_pkcs1_pem`: whether it reads the text, and the sizes of the two
/// primes of the key, `BigUint::bits` of each of `PrivateKeyParts::primes`. A key that is
/// read from a text always has two.
#[verifier::external_body]
pub(crate) fn pkcs1_primes(pem: &str) -> (r: Option<(usize, usize)>)
    ensures
        r is Some <==> rsa_pkcs1_primes(pem@) is Some,
        r matches Some(sizes) ==> rsa_pkcs1_primes(pem@) == Some(
            (sizes.0 as nat, sizes.1 as nat),
        ),
{
    let key = RsaPrivateKey::from_pkcs1_pem(pem).ok()?;
    Some((key.primes()[0].bits(), key.primes()[1].bits()))
}

/// `RsaPrivateKey::from_pkcs8_pem`: the text of its error, or the sizes of the two primes of
/// the key that it reads, `BigUint::bits` of each of `PrivateKeyParts::primes`. A key that
/// is read from a text always has two.
#[verifier::external_body]
pub(crate) fn pkcs8_primes(pem: &str) -> (r: Result<(usize, usize), String>)
    ensures
        match r {
            Ok(sizes) => rsa_pkcs8_primes(pem@) == Ok::<_, Seq<char>>(
                (sizes.0 as nat, sizes.1 as nat),
            ),
            Err(e) => rsa_pkcs8_primes(pem@) == Err::<(nat, nat), _>(e@),
        },
{
    let key = RsaPrivateKey::from_pkcs8_pem(pem).map_err(|e| e.to_string())?;
    Ok((key.primes()[0].bits(), key.primes()[1].bits()))
}

/// `RsaPrivateKey::from_pkcs1_pem` and `BigUint::bits` of `PublicKeyParts::n`: the size of
/// the modulus of the key, if the text is one.
#[verifier::external_body]
pub(crate) fn private_bits(pem: &str) -> (r: Option<usize>)
    ensures
        r is Some <==> rsa_private_bits(pem@) is Some,
        r matches Some(bits) ==> rsa_private_bits(pem@) == Some(bits as nat),
{
    Some(RsaPrivateKey::from_pkcs1_pem(pem).ok()?.n().bits())
}

/// `RsaPublicKey::from_public_key_pem`: the text of its error, if it does not read the text.
#[verifier::external_body]
pub(crate) fn public_fault(pem: &str) -> (r: Option<String>)
    ensures
        r is Some <==> rsa_public_fault(pem@) is Some,
        r matches Some(e) ==> rsa_public_fault(pem@) == Some(e@),
{
    RsaPublicKey::from_public_key_pem(pem).err().map(|e| e.to_string())
}

/// `EncodePublicKey::to_public_key_pem` of a key that `RsaPublicKey::from_public_key_pem`
/// reads: the text of the key in its plain form, with line feeds, or the text of the error.
#[verifier::external_body]
pub(crate) fn public_pem(pem: &str) -> (r: Result<String, String>)
    requires
        rsa_public_fault(pem@) is None,
    ensures
        match r {
            Ok(plain) => rsa_public_pem(pem@) == Ok::<_, Seq<char>>(plain@),
            Err(e) => rsa_public_pem(pem@) == Err::<Seq<char>, _>(e@),
        },
{
    let key = RsaPublicKey::from_public_key_pem(pem).map_err(|e| e.to_string())?;
    key.to_public_key_pem(LineEnding::LF).map_err(|e| e.to_string())
}

/// `RsaPublicKey::from` a private key and `EncodePublicKey::to_public_key_pem`: the
/// text of the public key that belongs to a private key in the PKCS#1 form, or the text of
/// the error.
#[verifier::external_body]
pub(crate) fn public_of(private_pem: &str) -> (r: Result<String, String>)
    ensures
        match r {
            Ok(public) => rsa_public_of(private_pem@) == Ok::<_, Seq<char>>(public@),
            Err(e) => rsa_public_of(private_pem@) == Err::<Seq<char>, _>(e@),
        },
{
    let key = RsaPrivateKey::from_pkcs1_pem(private_pem).map_err(|e| e.to_string())?;
    RsaPublicKey::from(&key).to_public_key_pem(LineEnding::LF).map_err(|e| e.to_string())
}

/// What came of making a private key.
#[derive(Debug, Clone, PartialEq, Eq)]
pub enum NewKey {
    /// There is none, for a reason.
    NotMade(String),
    /// It has no textual form, for a reason.
    NotWritten(String),
    /// It is there, in the PKCS#1 form.
    Made(String),
}

/// `RsaPrivateKey::new` with the random numbers of the system and
/// `EncodeRsaPrivateKey::to_pkcs1_pem`: a new private key in the PKCS#1 form, or the text of
/// the error of either. The modulus has the size that was asked for, the first prime half of
/// that, the second the rest. Which key it is, is random.
#[verifier::external_body]
pub(crate) fn new_private_pem(bits: usize) -> (r: NewKey)
    requires
        512 <= bits <= 16384,
    ensures
        r matches NewKey::Made(pem) ==> rsa_private_bits(pem@) == Some(bits as nat),
        r matches NewKey::Made(pem) ==> rsa_pkcs1_primes(pem@) == Some(
            ((bits / 2) as nat, (bits - bits / 2) as nat),
        ),
{
    match RsaPrivateKey::new(&mut OsRng, bits) {
        Err(e) => NewKey::NotMade(e.to_string()),
        Ok(key) => match key.to_pkcs1_pem(LineEnding::LF) {
            Err(e) => NewKey::NotWritten(e.to_string()),
            Ok(pem) => NewKey::Made(pem.to_string()),
        },
    }
}

/// `RandomizedSigner::try_sign_with_rng` of `rsa::pss::SigningKey` with SHA-512 and the
/// random numbers of the system, for a key that `RsaPrivateKey::from_pkcs1_pem` reads: the
/// signature of the message with some salt. The salt is random, and nothing is known of it.
/// `RsaPrivateKey::from_components` takes the primes in the order that is asked for, which
/// does not change what is computed with them.
#[verifier::external_body]
pub(crate) fn pkcs1_sign(private_pem: &str, message: &[u8], order: (usize, usize)) -> (r: Option<
    Vec<u8>,
>)
    requires
        rsa_pkcs1_primes(private_pem@) is Some,
        longer_first(rsa_pkcs1_primes(private_pem@)->Some_0, order),
    ensures
        r is Some ==> exists|salt: Seq<u8>| #[trigger]
            rsa_pkcs1_signed(private_pem@, message@, salt) == Some(r->Some_0@),
        r is None ==> exists|salt: Seq<u8>| #[trigger]
            rsa_pkcs1_signed(private_pem@, message@, salt) is None,
{
    let k = RsaPrivateKey::from_pkcs1_pem(private_pem).ok()?;
    let primes = vec![k.primes()[order.0].clone(), k.primes()[order.1].clone()];
    let key = RsaPrivateKey::from_components(k.n().clone(), k.e().clone(), k.d().clone(), primes);
    let signing = rsa::pss::SigningKey::<sha2::Sha512>::new(key.ok()?);
    Some(signing.try_sign_with_rng(&mut OsRng, message).ok()?.to_bytes().to_vec())
}

/// `RandomizedSigner::try_sign_with_rng` of `rsa::pss::SigningKey` with SHA-512 and the
/// random numbers of the system, for a key that `RsaPrivateKey::from_pkcs8_pem` reads: the
/// signature of the message with some salt. The salt is random, and nothing is known of it.
/// `RsaPrivateKey::from_components` takes the primes in the order that is asked for, which
/// does not change what is computed with them.
#[verifier::external_body]
pub(crate) fn pkcs8_sign(private_pem: &str, message: &[u8], order: (usize, usize)) -> (r: Option<
    Vec<u8>,
>)
    requires
        rsa_pkcs8_primes(private_pem@) is Ok,
        longer_first(rsa_pkcs8_primes(private_pem@)->Ok_0, order),
    ensures
        r is Some ==> exists|salt: Seq<u8>| #[trigger]
            rsa_pkcs8_signed(private_pem@, message@, salt) == Some(r->Some_0@),
        r is None ==> exists|salt: Seq<u8>| #[trigger]
            rsa_pkcs8_signed(private_pem@, message@, salt) is None,
{
    let k = RsaPrivateKey::from_pkcs8_pem(private_pem).ok()?;
    let primes = vec![k.primes()[order.0].clone(), k.primes()[order.1].clone()];
    let key = RsaPrivateKey::from_components(k.n().clone(), k.e().clone(), k.d().clone(), primes);
    let signing = rsa::pss::SigningKey::<sha2::Sha512>::new(key.ok()?);
    Some(signing.try_sign_with_rng(&mut OsRng, message).ok()?.to_bytes().to_vec())
}

/// `RsaPrivateKey::decrypt` with `Oaep` over SHA-256, for a key that
/// `RsaPrivateKey::from_pkcs1_pem` reads: the plain text in the data, if they were made for
/// the key, else the text of the error. `RsaPrivateKey::from_components` takes the primes in
/// the order that is asked for, which does not change what is computed with them.
#[verifier::external_body]
pub(crate) fn pkcs1_open(private_pem: &str, data: &[u8], order: (usize, usize)) -> (r: Result<
    Vec<u8>,
    String,
>)
    requires
        rsa_pkcs1_primes(private_pem@) is Some,
        longer_first(rsa_pkcs1_primes(private_pem@)->Some_0, order),
    ensures
        match r {
            Ok(plain) => rsa_pkcs1_opened(private_pem@, data@) == Ok::<_, Seq<char>>(plain@),
            Err(e) => rsa_pkcs1_opened(private_pem@, data@) == Err::<Seq<u8>, _>(e@),
        },
{
    let k = RsaPrivateKey::from_pkcs1_pem(private_pem).map_err(|e| e.to_string())?;
    let primes = vec![k.primes()[order.0].clone(), k.primes()[order.1].clone()];
    let key = RsaPrivateKey::from_components(k.n().clone(), k.e().clone(), k.d().clone(), primes);
    let padding = Oaep::new_with_mgf_hash::<sha2::Sha256, sha2::Sha256>();
    key.map_err(|e| e.to_string())?.decrypt(padding, data).map_err(|e| e.to_string())
}

/// `RsaPrivateKey::decrypt` with `Oaep` over SHA-256, for a key that
/// `RsaPrivateKey::from_pkcs8_pem` reads: the plain text in the data, if they were made for
/// the key, else the text of the error. `RsaPrivateKey::from_components` takes the primes in
/// the order that is asked for, which does not change what is computed with them.
#[verifier::external_body]
pub(crate) fn pkcs8_open(private_pem: &str, data: &[u8], order: (usize, usize)) -> (r: Result<
    Vec<u8>,
    String,
>)
    requires
        rsa_pkcs8_primes(private_pem@) is Ok,
        longer_first(rsa_pkcs8_primes(private_pem@)->Ok_0, order),
    ensures
        match r {
            Ok(plain) => rsa_pkcs8_opened(private_pem@, data@) == Ok::<_, Seq<char>>(plain@),
            Err(e) => rsa_pkcs8_opened(private_pem@, data@) == Err::<Seq<u8>, _>(e@),
        },
{
    let k = RsaPrivateKey::from_pkcs8_pem(private_pem).map_err(|e| e.to_string())?;
    let primes = vec![k.primes()[order.0].clone(), k.primes()[order.1].clone()];
    let key = RsaPrivateKey::from_components(k.n().clone(), k.e().clone(), k.d().clone(), primes);
    let padding = Oaep::new_with_mgf_hash::<sha2::Sha256, sha2::Sha256>();
    key.map_err(|e| e.to_string())?.decrypt(padding, data).map_err(|e| e.to_string())
}

/// `RsaPublicKey::encrypt` with `Oaep` over SHA-256 and the random numbers of the
/// system, for a key that `RsaPublicKey::from_public_key_pem` reads: the ciphertext of the
/// data with some seed, or the text of the error. The seed is random, and nothing is known
/// of it. That the private key opens the ciphertext again is not said: private keys are
/// read without a test that their factors are prime.
#[verifier::external_body]
pub(crate) fn seal_oaep(pem: &str, data: &[u8]) -> (r: Result<Vec<u8>, String>)
    requires
        rsa_public_fault(pem@) is None,
    ensures
        match r {
            Ok(sealed) => exists|seed: Seq<u8>| #[trigger]
                rsa_oaep_sealed(pem@, data@, seed) == Ok::<_, Seq<char>>(sealed@),
            Err(e) => exists|seed: Seq<u8>| #[trigger]
                rsa_oaep_sealed(pem@, data@, seed) == Err::<Seq<u8>, _>(e@),
        },
{
    let key = RsaPublicKey::from_public_key_pem(pem).map_err(|e| e.to_string())?;
    let padding = Oaep::new_with_mgf_hash::<sha2::Sha256, sha2::Sha256>();
    key.encrypt(&mut OsRng, padding, data).map_err(|e| e.to_string())
}

/// `Engine::encode` of `base64::engine::general_purpose::STANDARD`: the base64 form,
/// from which decoding gives the bytes back.
#[verifier::external_body]
pub(crate) fn encode_base64(bytes: &[u8]) -> (r: String)
    ensures
        r@ == base64_encoded(bytes@),
        base64_decoded(r@) is Ok,
        base64_decoded(r@)->Ok_0 == bytes@,
{
    base64::engine::general_purpose::STANDARD.encode(bytes)
}

/// `Engine::decode` of `base64::engine::general_purpose::STANDARD`: the bytes that a
/// text stands for, if it is in the base64 form, else the text of the error.
#[verifier::external_body]
pub(crate) fn decode_base64(text: &str) -> (r: Result<Vec<u8>, String>)
    ensures
        match r {
            Ok(bytes) => base64_decoded(text@) == Ok::<_, Seq<char>>(bytes@),
            Err(e) => base64_decoded(text@) == Err::<Seq<u8>, _>(e@),
        },
{
    base64::engine::general_purpose::STANDARD.decode(text).map_err(|e| e.to_string())
}

/// Of two sizes there is always an order, and only one where they differ: it names both, the
/// greater first.
pub proof fn longer_prime_is_first(primes: (nat, nat), order: (usize, usize))
    ensures
        longer_first(primes, (0usize, 1usize)) || longer_first(primes, (1usize, 0usize)),
        primes.0 > primes.1 ==> (longer_first(primes, order) <==> order == (0usize, 1usize)),
        primes.0 < primes.1 ==> (longer_first(primes, order) <==> order == (1usize, 0usize)),
        longer_first(primes, order) ==> order.0 != order.1 && order.0 <= 1 && order.1 <= 1,
{
}

} // verus!
