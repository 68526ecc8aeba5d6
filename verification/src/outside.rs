//! The crate's trusted boundary: thin wrappers around the outside
//! cryptography and identifier crates, and around the few parts of `std`
//! that vstd leaves unspecified. Every contract here is believed, not
//! proved; each doc comment names the outside function relied on.

use vstd::prelude::*;
use base64::Engine;
use ed25519_dalek::Signer;
use ed25519_dalek::Verifier;
use rand::RngCore;
use sha2::Digest;

verus! {

/// The SHA-256 digest of a byte sequence. Named, not written out:
/// nothing here re-states the algorithm.
pub uninterp spec fn sha256_of(data: Seq<u8>) -> Seq<u8>;

/// Relies on sha2's `Sha256`: the digest is a function of the input
/// bytes alone, and is always 32 bytes long.
#[verifier::external_body]
pub fn sha256_digest(data: &[u8]) -> (r: Vec<u8>)
    ensures
        r@ == sha256_of(data@),
        r@.len() == 32,
{
    sha2::Sha256::digest(data).to_vec()
}

/// One lowercase hexadecimal digit.
pub open spec fn hex_digit_char(n: u8) -> char
    recommends
        n < 16,
{
    if n == 0 { '0' }
    else if n == 1 { '1' }
    else if n == 2 { '2' }
    else if n == 3 { '3' }
    else if n == 4 { '4' }
    else if n == 5 { '5' }
    else if n == 6 { '6' }
    else if n == 7 { '7' }
    else if n == 8 { '8' }
    else if n == 9 { '9' }
    else if n == 10 { 'a' }
    else if n == 11 { 'b' }
    else if n == 12 { 'c' }
    else if n == 13 { 'd' }
    else if n == 14 { 'e' }
    else { 'f' }
}

/// Lowercase hex encoding: two digits for each byte, high nibble first.
pub open spec fn hex_of(bytes: Seq<u8>) -> Seq<char>
    decreases bytes.len(),
{
    if bytes.len() == 0 {
        Seq::empty()
    } else {
        seq![hex_digit_char(bytes.first() / 16), hex_digit_char(bytes.first() % 16)]
            + hex_of(bytes.drop_first())
    }
}

pub proof fn lemma_hex_of_len(bytes: Seq<u8>)
    ensures
        hex_of(bytes).len() == 2 * bytes.len(),
    decreases bytes.len(),
{
    if bytes.len() > 0 {
        lemma_hex_of_len(bytes.drop_first());
    }
}

/// Relies on `hex::encode`: each byte becomes two lowercase hex digits,
/// high nibble first.
#[verifier::external_body]
pub fn hex_encode(data: &[u8]) -> (r: String)
    ensures
        r@ == hex_of(data@),
{
    hex::encode(data)
}

/// The standard (padded) base64 encoding of a byte sequence.
pub uninterp spec fn base64_of(data: Seq<u8>) -> Seq<char>;

/// What the standard base64 decoder accepts, and the bytes it returns.
pub uninterp spec fn base64_decoded(text: Seq<char>) -> Option<Seq<u8>>;

/// Relies on base64's `STANDARD.encode`: the output is a function of the
/// input bytes alone, its length is `4 * ceil(n / 3)` (padded), and
/// `STANDARD.decode` inverts it.
#[verifier::external_body]
pub fn base64_encode(data: &[u8]) -> (r: String)
    ensures
        r@ == base64_of(data@),
        r@.len() == 4 * ((data@.len() + 2) / 3),
        base64_decoded(r@) == Some(data@),
{
    base64::engine::general_purpose::STANDARD.encode(data)
}

/// Relies on base64's `STANDARD.decode`: returns the decoded bytes, or
/// an error exactly when the input is not a valid standard encoding.
#[verifier::external_body]
pub fn base64_decode(text: &str) -> (r: Option<Vec<u8>>)
    ensures
        match r {
            Some(v) => base64_decoded(text@) == Some(v@),
            None => base64_decoded(text@) is None,
        },
{
    match base64::engine::general_purpose::STANDARD.decode(text) {
        Ok(v) => Some(v),
        Err(_) => None,
    }
}

/// The Ed25519 public key derived from a 32-byte secret.
pub uninterp spec fn ed25519_public_key_of(secret: Seq<u8>) -> Seq<u8>;

/// The Ed25519 signature of a message under a 32-byte secret.
pub uninterp spec fn ed25519_signature_of(secret: Seq<u8>, msg: Seq<u8>) -> Seq<u8>;

/// Whether an Ed25519 signature verifies for a public key and message.
pub uninterp spec fn ed25519_verifies(pubkey: Seq<u8>, msg: Seq<u8>, sig: Seq<u8>) -> bool;

/// Relies on ed25519-dalek's `SigningKey::from_bytes` and
/// `verifying_key`: key derivation is deterministic and the public key
/// is 32 bytes.
#[verifier::external_body]
pub fn ed25519_public_key(secret: &[u8]) -> (r: Vec<u8>)
    requires
        secret@.len() == 32,
    ensures
        r@ == ed25519_public_key_of(secret@),
        r@.len() == 32,
{
    let key_bytes: &[u8; 32] = secret.try_into().unwrap();
    let signing_key = ed25519_dalek::SigningKey::from_bytes(key_bytes);
    signing_key.verifying_key().as_bytes().to_vec()
}

/// Relies on ed25519-dalek's `Signer::sign`: signing is deterministic,
/// the signature is 64 bytes, and it verifies under the corresponding
/// public key.
#[verifier::external_body]
pub fn ed25519_sign(secret: &[u8], msg: &[u8]) -> (r: Vec<u8>)
    requires
        secret@.len() == 32,
    ensures
        r@ == ed25519_signature_of(secret@, msg@),
        r@.len() == 64,
        ed25519_verifies(ed25519_public_key_of(secret@), msg@, r@),
{
    let key_bytes: &[u8; 32] = secret.try_into().unwrap();
    let signing_key = ed25519_dalek::SigningKey::from_bytes(key_bytes);
    signing_key.sign(msg).to_bytes().to_vec()
}

/// Relies on ed25519-dalek's `VerifyingKey::verify`: verification is a
/// function of public key, message and signature.
#[verifier::external_body]
pub fn ed25519_verify(secret: &[u8], msg: &[u8], sig: &[u8]) -> (r: bool)
    requires
        secret@.len() == 32,
        sig@.len() == 64,
    ensures
        r == ed25519_verifies(ed25519_public_key_of(secret@), msg@, sig@),
{
    let key_bytes: &[u8; 32] = secret.try_into().unwrap();
    let signing_key = ed25519_dalek::SigningKey::from_bytes(key_bytes);
    let sig_bytes: &[u8; 64] = sig.try_into().unwrap();
    let signature = ed25519_dalek::Signature::from_bytes(sig_bytes);
    signing_key.verifying_key().verify(msg, &signature).is_ok()
}

/// Relies on rand's `OsRng::fill_bytes`: nothing is promised of the
/// bytes but their count.
#[verifier::external_body]
pub fn random_bytes_32() -> (r: Vec<u8>)
    ensures
        r@.len() == 32,
{
    let mut buf = [0u8; 32];
    rand::rngs::OsRng.fill_bytes(&mut buf);
    buf.to_vec()
}

/// Relies on uuid's `Uuid::new_v4` and its `Display`: the hyphenated
/// form of a UUID is always 36 characters.
#[verifier::external_body]
pub fn uuid_string() -> (r: String)
    ensures
        r@.len() == 36,
{
    uuid::Uuid::new_v4().to_string()
}

/// Relies on chrono's `Utc::now().timestamp()`. Nothing is promised of
/// the clock's value.
#[verifier::external_body]
pub fn now_unix_seconds_raw() -> (r: i64) {
    chrono::Utc::now().timestamp()
}

/// Relies on `String::push`: appends exactly the one character.
#[verifier::external_body]
pub fn push_char(s: &mut String, c: char)
    ensures
        final(s)@ == old(s)@.push(c),
{
    s.push(c);
}

} // verus!
