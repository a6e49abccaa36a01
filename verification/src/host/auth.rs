//! The key pair of the host, by which daemons know it.

use crate::path;
use crate::path::join_path;
use crate::protocol::config::{HDC_HOST_DAEMON_BUF_SEPARATOR, RSA_BIT_NUM, RSA_PRIKEY_NAME, RSA_PRIKEY_PATH};
use crate::protocol::keys;
use crate::protocol::keys::{NewKey, encode_base64, new_private_pem, pkcs1_open, pkcs1_primes, pkcs1_sign, pkcs8_open, pkcs8_primes, pkcs8_sign, private_bits, public_fault, public_of, public_pem};
use crate::text::{concat2, copy_text};
use vstd::prelude::*;
use vstd::utf8::*;

verus! {

/// Why a key could not be used.
#[derive(Debug, Clone, PartialEq, Eq)]
pub enum KeyError {
    /// There is no home directory to keep keys in.
    NoHome,
    /// The private key cannot be read, for a reason.
    PrivateKey(String),
    /// The public key cannot be read, for a reason.
    PublicKey(String),
    /// No private key could be made, for a reason.
    Generate(String),
    /// The private key has no textual form, for a reason.
    WritePrivate(String),
    /// The public key has no textual form, for a reason.
    WritePublic(String),
    /// The private key cannot sign.
    Sign,
    /// The data were not made for the private key, for a reason.
    Decrypt(String),
}

/// Why a key could not be used.
pub enum KeyErrorView {
    NoHome,
    PrivateKey(Seq<char>),
    PublicKey(Seq<char>),
    Generate(Seq<char>),
    WritePrivate(Seq<char>),
    WritePublic(Seq<char>),
    Sign,
    Decrypt(Seq<char>),
}

impl View for KeyError {
    type V = KeyErrorView;

    open spec fn view(&self) -> KeyErrorView {
        match *self {
            KeyError::NoHome => KeyErrorView::NoHome,
            KeyError::PrivateKey(e) => KeyErrorView::PrivateKey(e@),
            KeyError::PublicKey(e) => KeyErrorView::PublicKey(e@),
            KeyError::Generate(e) => KeyErrorView::Generate(e@),
            KeyError::WritePrivate(e) => KeyErrorView::WritePrivate(e@),
            KeyError::WritePublic(e) => KeyErrorView::WritePublic(e@),
            KeyError::Sign => KeyErrorView::Sign,
            KeyError::Decrypt(e) => KeyErrorView::Decrypt(e@),
        }
    }
}

impl KeyErrorView {
    /// The sentence that reports the error.
    pub open spec fn text(self) -> Seq<char> {
        match self {
            KeyErrorView::NoHome => "cannot determine home directory"@,
            KeyErrorView::PrivateKey(e) => "Failed to load private key: "@ + e,
            KeyErrorView::PublicKey(e) => "Failed to load public key: "@ + e,
            KeyErrorView::Generate(e) => "RSA key generation failed: "@ + e,
            KeyErrorView::WritePrivate(e) => "PEM encode private key failed: "@ + e,
            KeyErrorView::WritePublic(e) => "PEM encode public key failed: "@ + e,
            KeyErrorView::Sign => "signature operation failed"@,
            KeyErrorView::Decrypt(e) => "RSA decrypt PSK failed: "@ + e,
        }
    }
}

impl KeyError {
    /// The sentence that reports the error.
    pub fn message(&self) -> (r: String)
        ensures
            r@ == self@.text(),
    {
        match self {
            KeyError::NoHome => "cannot determine home directory".to_owned(),
            KeyError::PrivateKey(e) => concat2("Failed to load private key: ", e.as_str()),
            KeyError::PublicKey(e) => concat2("Failed to load public key: ", e.as_str()),
            KeyError::Generate(e) => concat2("RSA key generation failed: ", e.as_str()),
            KeyError::WritePrivate(e) => concat2("PEM encode private key failed: ", e.as_str()),
            KeyError::WritePublic(e) => concat2("PEM encode public key failed: ", e.as_str()),
            KeyError::Sign => "signature operation failed".to_owned(),
            KeyError::Decrypt(e) => concat2("RSA decrypt PSK failed: ", e.as_str()),
        }
    }
}

/// The directory of the keys: below the home directory, or below the profile of the
/// user where there is no home directory.
pub open spec fn key_dir(
    home: Option<Seq<char>>,
    profile: Option<Seq<char>>,
    separator: char,
) -> Option<Seq<char>> {
    match (home, profile) {
        (Some(h), _) => Some(path::path_below(h, separator, RSA_PRIKEY_PATH@)),
        (None, Some(p)) => Some(path::path_below(p, separator, RSA_PRIKEY_PATH@)),
        (None, None) => None,
    }
}

/// Where the private key of the user is.
pub open spec fn private_path(
    home: Option<Seq<char>>,
    profile: Option<Seq<char>>,
    separator: char,
) -> Option<Seq<char>> {
    match key_dir(home, profile, separator) {
        Some(dir) => Some(path::path_below(dir, separator, RSA_PRIKEY_NAME@)),
        None => None,
    }
}

/// Where the public key of the user is.
pub open spec fn public_path(
    home: Option<Seq<char>>,
    profile: Option<Seq<char>>,
    separator: char,
) -> Option<Seq<char>> {
    match key_dir(home, profile, separator) {
        Some(dir) => Some(path::path_below(dir, separator, RSA_PRIKEY_NAME@ + ".pub"@)),
        None => None,
    }
}

/// What an optional text holds.
pub open spec fn opt_text(s: Option<String>) -> Option<Seq<char>> {
    match s {
        Some(t) => Some(t@),
        None => None,
    }
}

fn get_user_key_dir(home: &Option<String>, profile: &Option<String>, separator: char) -> (r: Result<
    String,
    KeyError,
>)
    ensures
        match r {
            Ok(d) => key_dir(opt_text(*home), opt_text(*profile), separator) == Some(d@),
            Err(e) => key_dir(opt_text(*home), opt_text(*profile), separator) is None && e@
                == KeyErrorView::NoHome,
        },
{
    match (home, profile) {
        (Some(h), _) => Ok(join_path(h.as_str(), separator, RSA_PRIKEY_PATH)),
        (None, Some(p)) => Ok(join_path(p.as_str(), separator, RSA_PRIKEY_PATH)),
        (None, None) => Err(KeyError::NoHome),
    }
}

/// Where the private key is kept, for the values of the environment that name the
/// home directory and the profile of the user.
pub fn get_private_key_path(
    home: &Option<String>,
    profile: &Option<String>,
    separator: char,
) -> (r: Result<String, KeyError>)
    ensures
        match r {
            Ok(p) => private_path(opt_text(*home), opt_text(*profile), separator) == Some(p@),
            Err(e) => home is None && profile is None && e@ == KeyErrorView::NoHome,
        },
{
    match get_user_key_dir(home, profile, separator) {
        Err(e) => Err(e),
        Ok(dir) => Ok(join_path(dir.as_str(), separator, RSA_PRIKEY_NAME)),
    }
}

/// Where the public key is kept.
pub fn get_public_key_path(
    home: &Option<String>,
    profile: &Option<String>,
    separator: char,
) -> (r: Result<String, KeyError>)
    ensures
        match r {
            Ok(p) => public_path(opt_text(*home), opt_text(*profile), separator) == Some(p@),
            Err(e) => home is None && profile is None && e@ == KeyErrorView::NoHome,
        },
{
    match get_user_key_dir(home, profile, separator) {
        Err(e) => Err(e),
        Ok(dir) => Ok(
            join_path(dir.as_str(), separator, concat2(RSA_PRIKEY_NAME, ".pub").as_str()),
        ),
    }
}

/// The textual forms of a private key.
#[derive(Debug, Clone, Copy, PartialEq, Eq, Structural)]
pub enum KeyForm {
    Pkcs1,
    Pkcs8,
}

/// The form in which a text is read as a private key: the first one that it has. The error
/// is that of the second.
pub open spec fn key_form(pem: Seq<char>) -> Result<KeyForm, KeyErrorView> {
    if keys::rsa_pkcs1_primes(pem) is Some {
        Ok(KeyForm::Pkcs1)
    } else {
        match keys::rsa_pkcs8_primes(pem) {
            Ok(_) => Ok(KeyForm::Pkcs8),
            Err(e) => Err(KeyErrorView::PrivateKey(e)),
        }
    }
}

/// The sizes of the primes of a private key in a form that it has.
pub open spec fn primes_in(form: KeyForm, pem: Seq<char>) -> (nat, nat) {
    match form {
        KeyForm::Pkcs1 => keys::rsa_pkcs1_primes(pem)->Some_0,
        KeyForm::Pkcs8 => keys::rsa_pkcs8_primes(pem)->Ok_0,
    }
}

/// The form in which a text is read as a private key, and the order of its primes in which
/// the longer one comes first.
fn find_form(pem: &str) -> (r: Result<(KeyForm, (usize, usize)), KeyError>)
    ensures
        match r {
            Ok((form, order)) => key_form(pem@) == Ok::<_, KeyErrorView>(form)
                && keys::longer_first(primes_in(form, pem@), order),
            Err(e) => key_form(pem@) == Err::<KeyForm, _>(e@),
        },
{
    let (form, first, second): (KeyForm, usize, usize) = match pkcs1_primes(pem) {
        Some((first, second)) => (KeyForm::Pkcs1, first, second),
        None => match pkcs8_primes(pem) {
            Ok((first, second)) => (KeyForm::Pkcs8, first, second),
            Err(e) => return Err(KeyError::PrivateKey(e)),
        },
    };
    if second <= first {
        Ok((form, (0, 1)))
    } else {
        Ok((form, (1, 0)))
    }
}

/// The form in which a text is read as a private key.
pub fn find_key_form(pem: &str) -> (r: Result<KeyForm, KeyError>)
    ensures
        match r {
            Ok(form) => key_form(pem@) == Ok::<_, KeyErrorView>(form),
            Err(e) => key_form(pem@) == Err::<KeyForm, _>(e@),
        },
{
    match find_form(pem) {
        Ok((form, _)) => Ok(form),
        Err(e) => Err(e),
    }
}

/// The size in bits of a private key in the PKCS#1 form.
pub fn private_key_bits(pri_pem: &str) -> (r: Option<usize>)
    ensures
        match r {
            Some(bits) => keys::rsa_private_bits(pri_pem@) == Some(bits as nat),
            None => keys::rsa_private_bits(pri_pem@) is None,
        },
{
    private_bits(pri_pem)
}

/// What comes of two key files: nothing if both can be read.
pub open spec fn keys_usable(private_pem: Seq<char>, public_pem: Seq<char>) -> Result<
    (),
    KeyErrorView,
> {
    match (key_form(private_pem), keys::rsa_public_fault(public_pem)) {
        (Err(e), _) => Err(e),
        (Ok(_), Some(e)) => Err(KeyErrorView::PublicKey(e)),
        (Ok(_), None) => Ok(()),
    }
}

/// Whether two key files can be used.
pub fn load_keys(pri_pem: &str, pub_pem: &str) -> (r: Result<(), KeyError>)
    ensures
        match r {
            Ok(()) => keys_usable(pri_pem@, pub_pem@) is Ok,
            Err(e) => keys_usable(pri_pem@, pub_pem@) == Err::<(), _>(e@),
        },
{
    match find_form(pri_pem) {
        Err(e) => Err(e),
        Ok(_) => match public_fault(pub_pem) {
            Some(e) => Err(KeyError::PublicKey(e)),
            None => Ok(()),
        },
    }
}

/// The key pair that follows from what came of making a private key.
pub open spec fn pair_of(made: NewKey) -> Result<(Seq<char>, Seq<char>), KeyErrorView> {
    match made {
        NewKey::NotMade(e) => Err(KeyErrorView::Generate(e@)),
        NewKey::NotWritten(e) => Err(KeyErrorView::WritePrivate(e@)),
        NewKey::Made(pri) => match keys::rsa_public_of(pri@) {
            Err(e) => Err(KeyErrorView::WritePublic(e)),
            Ok(public) => Ok((pri@, public)),
        },
    }
}

/// Completes a private key to a key pair.
pub fn complete_pair(made: NewKey) -> (r: Result<(String, String), KeyError>)
    ensures
        match r {
            Ok((pri, public)) => pair_of(made) == Ok::<_, KeyErrorView>((pri@, public@)),
            Err(e) => pair_of(made) == Err::<(Seq<char>, Seq<char>), _>(e@),
        },
{
    match made {
        NewKey::NotMade(e) => Err(KeyError::Generate(e)),
        NewKey::NotWritten(e) => Err(KeyError::WritePrivate(e)),
        NewKey::Made(pri) => match public_of(pri.as_str()) {
            Err(e) => Err(KeyError::WritePublic(e)),
            Ok(public) => Ok((pri, public)),
        },
    }
}

/// A private key in the PKCS#1 form has no public key with a textual form, for a reason.
pub open spec fn lacks_public(private_pem: Seq<char>, reason: Seq<char>) -> bool {
    &&& keys::rsa_private_bits(private_pem) == Some(RSA_BIT_NUM as nat)
    &&& keys::rsa_public_of(private_pem) == Err::<Seq<char>, _>(reason)
}

/// A new key pair: a random private key of 3072 bits, and its public key.
pub fn generate_key_pair() -> (r: Result<(String, String), KeyError>)
    ensures
        match r {
            Ok((pri_pem, pub_pem)) => {
                &&& keys::rsa_private_bits(pri_pem@) == Some(RSA_BIT_NUM as nat)
                &&& key_form(pri_pem@) == Ok::<_, KeyErrorView>(KeyForm::Pkcs1)
                &&& keys::rsa_public_of(pri_pem@) == Ok::<_, Seq<char>>(pub_pem@)
            },
            Err(e) => match e@ {
                KeyErrorView::Generate(_) => true,
                KeyErrorView::WritePrivate(_) => true,
                KeyErrorView::WritePublic(reason) => exists|pem: Seq<char>| #[trigger]
                    lacks_public(pem, reason),
                _ => false,
            },
        },
{
    let made = new_private_pem(RSA_BIT_NUM);
    let ghost before = made;
    let r = complete_pair(made);
    proof {
        match &r {
            Ok((pri, _)) => {
                assert(pri@ == before->Made_0@);
            },
            Err(e) => {
                if e@ is WritePublic {
                    assert(lacks_public(before->Made_0@, e@->WritePublic_0));
                }
            },
        }
    }
    r
}

/// What the host tells of itself: its name, a separator, and a public key.
pub open spec fn host_and_key(hostname: Seq<char>, pem: Seq<char>) -> Seq<char> {
    hostname.push(HDC_HOST_DAEMON_BUF_SEPARATOR) + pem
}

/// What the host tells of itself.
pub fn public_key_text(hostname: &str, pem: &str) -> (r: String)
    ensures
        r@ == host_and_key(hostname@, pem@),
{
    let mut s = copy_text(hostname);
    s.push(HDC_HOST_DAEMON_BUF_SEPARATOR);
    s.append(pem);
    s
}

/// What the host tells of itself, for its name and its two key files.
pub open spec fn key_info(hostname: Seq<char>, pri_pem: Seq<char>, pub_pem: Seq<char>) -> Result<
    Seq<char>,
    KeyErrorView,
> {
    match keys_usable(pri_pem, pub_pem) {
        Err(e) => Err(e),
        Ok(_) => match keys::rsa_public_pem(pub_pem) {
            Err(e) => Err(KeyErrorView::WritePublic(e)),
            Ok(pem) => Ok(host_and_key(hostname, pem)),
        },
    }
}

/// What the host tells of itself, for its name and its two key files.
pub fn get_public_key_info(hostname: &str, pri_pem: &str, pub_pem: &str) -> (r: Result<
    String,
    KeyError,
>)
    ensures
        match r {
            Ok(info) => key_info(hostname@, pri_pem@, pub_pem@) == Ok::<_, KeyErrorView>(info@),
            Err(e) => key_info(hostname@, pri_pem@, pub_pem@) == Err::<Seq<char>, _>(e@),
        },
{
    match load_keys(pri_pem, pub_pem) {
        Err(e) => Err(e),
        Ok(()) => match public_pem(pub_pem) {
            Err(e) => Err(KeyError::WritePublic(e)),
            Ok(pem) => Ok(public_key_text(hostname, pem.as_str())),
        },
    }
}

/// The base64 form of a signature.
pub fn signature_text(signature: &[u8]) -> (r: String)
    ensures
        r@ == keys::base64_encoded(signature@),
        keys::base64_decoded(r@) == Ok::<_, Seq<char>>(signature@),
{
    encode_base64(signature)
}

/// The signature of a message under a private key in a form, with a given salt.
pub open spec fn signed_in(
    form: KeyForm,
    private_pem: Seq<char>,
    message: Seq<u8>,
    salt: Seq<u8>,
) -> Option<Seq<u8>> {
    match form {
        KeyForm::Pkcs1 => keys::rsa_pkcs1_signed(private_pem, message, salt),
        KeyForm::Pkcs8 => keys::rsa_pkcs8_signed(private_pem, message, salt),
    }
}

/// A text is the base64 form of a signature of a message, with some salt.
pub open spec fn signs(
    form: KeyForm,
    private_pem: Seq<char>,
    message: Seq<u8>,
    text: Seq<char>,
) -> bool {
    exists|salt: Seq<u8>|
        (#[trigger] signed_in(form, private_pem, message, salt)) is Some && text
            == keys::base64_encoded(signed_in(form, private_pem, message, salt)->Some_0)
}

/// With some salt there is no signature of a message.
pub open spec fn may_not_sign(form: KeyForm, private_pem: Seq<char>, message: Seq<u8>) -> bool {
    exists|salt: Seq<u8>| (#[trigger] signed_in(form, private_pem, message, salt)) is None
}

fn sign_in(form: KeyForm, pri_pem: &str, message: &[u8], order: (usize, usize)) -> (r: Option<
    Vec<u8>,
>)
    requires
        key_form(pri_pem@) == Ok::<_, KeyErrorView>(form),
        keys::longer_first(primes_in(form, pri_pem@), order),
    ensures
        match r {
            Some(s) => exists|salt: Seq<u8>| #[trigger]
                signed_in(form, pri_pem@, message@, salt) == Some(s@),
            None => may_not_sign(form, pri_pem@, message@),
        },
{
    match form {
        KeyForm::Pkcs1 => {
            let r = pkcs1_sign(pri_pem, message, order);
            proof {
                let salt = choose|salt: Seq<u8>|
                    match r {
                        Some(s) => #[trigger] keys::rsa_pkcs1_signed(pri_pem@, message@, salt)
                            == Some(s@),
                        None => keys::rsa_pkcs1_signed(pri_pem@, message@, salt) is None,
                    };
                assert(signed_in(form, pri_pem@, message@, salt) == keys::rsa_pkcs1_signed(
                    pri_pem@,
                    message@,
                    salt,
                ));
            }
            r
        },
        KeyForm::Pkcs8 => {
            let r = pkcs8_sign(pri_pem, message, order);
            proof {
                let salt = choose|salt: Seq<u8>|
                    match r {
                        Some(s) => #[trigger] keys::rsa_pkcs8_signed(pri_pem@, message@, salt)
                            == Some(s@),
                        None => keys::rsa_pkcs8_signed(pri_pem@, message@, salt) is None,
                    };
                assert(signed_in(form, pri_pem@, message@, salt) == keys::rsa_pkcs8_signed(
                    pri_pem@,
                    message@,
                    salt,
                ));
            }
            r
        },
    }
}

/// Signs a challenge of a daemon. The salt of the signature is random; the signature
/// comes in the base64 form, and only if the private key can be read.
pub fn rsa_sign_challenge(pri_pem: &str, challenge: &str) -> (r: Result<String, KeyError>)
    ensures
        match (key_form(pri_pem@), r) {
            (Err(e), _) => r is Err && r->Err_0@ == e,
            (Ok(form), Ok(s)) => signs(form, pri_pem@, encode_utf8(challenge@), s@),
            (Ok(form), Err(e)) => e@ == KeyErrorView::Sign && may_not_sign(
                form,
                pri_pem@,
                encode_utf8(challenge@),
            ),
        },
{
    match find_form(pri_pem) {
        Err(e) => Err(e),
        Ok((form, order)) => match sign_in(form, pri_pem, challenge.as_bytes(), order) {
            None => Err(KeyError::Sign),
            Some(signature) => Ok(signature_text(&signature)),
        },
    }
}

/// What is found in data under a private key in a form.
pub open spec fn opened_in(form: KeyForm, private_pem: Seq<char>, data: Seq<u8>) -> Result<
    Seq<u8>,
    Seq<char>,
> {
    match form {
        KeyForm::Pkcs1 => keys::rsa_pkcs1_opened(private_pem, data),
        KeyForm::Pkcs8 => keys::rsa_pkcs8_opened(private_pem, data),
    }
}

/// What the host finds in the shared key that a daemon sent.
pub open spec fn psk_opened(pri_pem: Seq<char>, encrypted: Seq<u8>) -> Result<
    Seq<u8>,
    KeyErrorView,
> {
    match key_form(pri_pem) {
        Err(e) => Err(e),
        Ok(form) => match opened_in(form, pri_pem, encrypted) {
            Ok(psk) => Ok(psk),
            Err(e) => Err(KeyErrorView::Decrypt(e)),
        },
    }
}

/// Decrypts the shared key that a daemon sent.
pub fn decrypt_psk(pri_pem: &str, encrypted: &[u8]) -> (r: Result<Vec<u8>, KeyError>)
    ensures
        match r {
            Ok(psk) => psk_opened(pri_pem@, encrypted@) == Ok::<_, KeyErrorView>(psk@),
            Err(e) => psk_opened(pri_pem@, encrypted@) == Err::<Seq<u8>, _>(e@),
        },
{
    let opened = match find_form(pri_pem) {
        Err(e) => {
            return Err(e);
        },
        Ok((KeyForm::Pkcs1, order)) => pkcs1_open(pri_pem, encrypted, order),
        Ok((KeyForm::Pkcs8, order)) => pkcs8_open(pri_pem, encrypted, order),
    };
    match opened {
        Err(e) => Err(KeyError::Decrypt(e)),
        Ok(psk) => Ok(psk),
    }
}

/// The keys of a user are kept below `.harmony` in the directory of the user, or else in that
/// of the profile: the private one under `hdckey`, the public one under `hdckey.pub`.
pub proof fn keys_are_kept(home: Seq<char>, profile: Option<Seq<char>>)
    requires
        home.len() > 0,
        home.last() != '/',
    ensures
        private_path(Some(home), profile, '/') == Some(home + "/.harmony/hdckey"@),
        public_path(Some(home), profile, '/') == Some(home + "/.harmony/hdckey.pub"@),
        private_path(None, Some(home), '/') == Some(home + "/.harmony/hdckey"@),
        public_path(None, Some(home), '/') == Some(home + "/.harmony/hdckey.pub"@),
        private_path(None, None, '/') is None,
        public_path(None, None, '/') is None,
{
    reveal_strlit(".harmony");
    reveal_strlit("hdckey");
    reveal_strlit(".pub");
    reveal_strlit("/.harmony/hdckey");
    reveal_strlit("/.harmony/hdckey.pub");
    let dir = path::path_below(home, '/', ".harmony"@);
    assert(dir =~= home.push('/') + ".harmony"@);
    assert(dir.last() == 'y');
    assert(path::path_below(dir, '/', "hdckey"@) =~= home + "/.harmony/hdckey"@);
    assert(path::path_below(dir, '/', "hdckey"@ + ".pub"@) =~= home + "/.harmony/hdckey.pub"@);
}

/// The key of a host is told behind its name, as it is read from the file, and only where both
/// keys of the pair can be used.
pub proof fn key_is_told(hostname: Seq<char>, pri_pem: Seq<char>, pub_pem: Seq<char>)
    ensures
        key_info(hostname, pri_pem, pub_pem) is Ok ==> keys::rsa_public_fault(pub_pem) is None && (
        keys::rsa_pkcs1_primes(pri_pem) is Some || keys::rsa_pkcs8_primes(pri_pem) is Ok)
            && keys::rsa_public_pem(pub_pem) is Ok && key_info(hostname, pri_pem, pub_pem)->Ok_0
            == hostname + seq!['\x0C'] + keys::rsa_public_pem(pub_pem)->Ok_0,
        keys::rsa_pkcs1_primes(pri_pem) is None && keys::rsa_pkcs8_primes(pri_pem) is Err
            ==> key_info(hostname, pri_pem, pub_pem) == Err::<Seq<char>, _>(
            KeyErrorView::PrivateKey(keys::rsa_pkcs8_primes(pri_pem)->Err_0),
        ),
        key_form(pri_pem) is Ok && keys::rsa_public_fault(pub_pem) is Some ==> key_info(
            hostname,
            pri_pem,
            pub_pem,
        ) == Err::<Seq<char>, _>(KeyErrorView::PublicKey(keys::rsa_public_fault(pub_pem)->Some_0)),
{
    if key_info(hostname, pri_pem, pub_pem) is Ok {
        let pem = keys::rsa_public_pem(pub_pem)->Ok_0;
        assert(host_and_key(hostname, pem) =~= hostname + seq!['\x0C'] + pem);
    }
}

/// A private key is taken in the older form where it can be read in that form, else in the
/// newer one. Keys can be used where both can be read; of two that cannot, the private one is
/// told.
pub proof fn keys_are_judged(pri_pem: Seq<char>, pub_pem: Seq<char>)
    ensures
        keys::rsa_pkcs1_primes(pri_pem) is Some ==> key_form(pri_pem) == Ok::<
            KeyForm,
            KeyErrorView,
        >(KeyForm::Pkcs1),
        keys::rsa_pkcs1_primes(pri_pem) is None && keys::rsa_pkcs8_primes(pri_pem) is Ok
            ==> key_form(pri_pem) == Ok::<KeyForm, KeyErrorView>(KeyForm::Pkcs8),
        keys::rsa_pkcs1_primes(pri_pem) is None && keys::rsa_pkcs8_primes(pri_pem) is Err
            ==> key_form(pri_pem) == Err::<KeyForm, KeyErrorView>(
            KeyErrorView::PrivateKey(keys::rsa_pkcs8_primes(pri_pem)->Err_0),
        ),
        keys_usable(pri_pem, pub_pem) is Ok <==> key_form(pri_pem) is Ok && keys::rsa_public_fault(
            pub_pem,
        ) is None,
        key_form(pri_pem) is Err ==> keys_usable(pri_pem, pub_pem) == Err::<(), KeyErrorView>(
            key_form(pri_pem)->Err_0,
        ),
        key_form(pri_pem) is Ok && keys::rsa_public_fault(pub_pem) is Some ==> keys_usable(
            pri_pem,
            pub_pem,
        ) == Err::<(), KeyErrorView>(
            KeyErrorView::PublicKey(keys::rsa_public_fault(pub_pem)->Some_0),
        ),
{
}

/// What is signed or opened with a private key is signed or opened in the form in which the key
/// can be read. A shared key is the one that the private key opens; a key that opens nothing is
/// told.
pub proof fn keys_are_used_in_their_form(
    pri_pem: Seq<char>,
    message: Seq<u8>,
    salt: Seq<u8>,
    data: Seq<u8>,
    said: Seq<char>,
)
    ensures
        signed_in(KeyForm::Pkcs1, pri_pem, message, salt) == keys::rsa_pkcs1_signed(
            pri_pem,
            message,
            salt,
        ),
        signed_in(KeyForm::Pkcs8, pri_pem, message, salt) == keys::rsa_pkcs8_signed(
            pri_pem,
            message,
            salt,
        ),
        forall|form: KeyForm|
            signed_in(form, pri_pem, message, salt) is Some ==> #[trigger] signs(
                form,
                pri_pem,
                message,
                keys::base64_encoded(signed_in(form, pri_pem, message, salt)->Some_0),
            ),
        forall|form: KeyForm| #[trigger]
            signs(form, pri_pem, message, said) ==> exists|salt: Seq<u8>|
                keys::base64_encoded(
                    (#[trigger] signed_in(form, pri_pem, message, salt))->Some_0,
                ) == said,
        keys::rsa_pkcs1_primes(pri_pem) is Some && keys::rsa_pkcs1_opened(pri_pem, data) is Ok
            ==> psk_opened(pri_pem, data) == Ok::<Seq<u8>, KeyErrorView>(
            keys::rsa_pkcs1_opened(pri_pem, data)->Ok_0,
        ),
        keys::rsa_pkcs1_primes(pri_pem) is None && keys::rsa_pkcs8_primes(pri_pem) is Ok
            && keys::rsa_pkcs8_opened(pri_pem, data) is Ok ==> psk_opened(pri_pem, data) == Ok::<
            Seq<u8>,
            KeyErrorView,
        >(keys::rsa_pkcs8_opened(pri_pem, data)->Ok_0),
        keys::rsa_pkcs1_primes(pri_pem) is Some && keys::rsa_pkcs1_opened(pri_pem, data) is Err
            ==> psk_opened(pri_pem, data) == Err::<Seq<u8>, KeyErrorView>(
            KeyErrorView::Decrypt(keys::rsa_pkcs1_opened(pri_pem, data)->Err_0),
        ),
        key_form(pri_pem) is Err ==> psk_opened(pri_pem, data) == Err::<Seq<u8>, KeyErrorView>(
            key_form(pri_pem)->Err_0,
        ),
{
}

/// A pair of keys is a private key that was made and its public key; each step that fails is
/// told apart.
pub proof fn pairs_belong_together(made: NewKey)
    ensures
        pair_of(made) is Ok <==> made is Made && keys::rsa_public_of(made->Made_0@) is Ok,
        pair_of(made) is Ok ==> pair_of(made)->Ok_0 == (
            made->Made_0@,
            keys::rsa_public_of(made->Made_0@)->Ok_0,
        ),
        made is NotMade ==> pair_of(made) == Err::<(Seq<char>, Seq<char>), KeyErrorView>(
            KeyErrorView::Generate(made->NotMade_0@),
        ),
        made is NotWritten ==> pair_of(made) == Err::<(Seq<char>, Seq<char>), KeyErrorView>(
            KeyErrorView::WritePrivate(made->NotWritten_0@),
        ),
        made is Made && keys::rsa_public_of(made->Made_0@) is Err ==> pair_of(made) == Err::<
            (Seq<char>, Seq<char>),
            KeyErrorView,
        >(KeyErrorView::WritePublic(keys::rsa_public_of(made->Made_0@)->Err_0)),
{
}

} // verus!
