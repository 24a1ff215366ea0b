use vstd::prelude::*;
use vstd::utf8::{decode_utf8, valid_utf8};

verus! {

/// Length in bytes of a derived credential (the SHA-256 digest length).
pub const CREDENTIAL_LEN: usize = 32;

/// Length in bytes of a fresh salt before encoding.
pub const SALT_LEN: usize = 16;

/// Strings given to the key derivation stay below this many characters, far
/// below what SHA-256 can take.
pub const MAX_INPUT_CHARS: usize = 0x4000_0000;

/// A key-derivation input of admissible size.
pub open spec fn fits(s: Seq<char>) -> bool {
    s.len() < MAX_INPUT_CHARS
}

/// The PBKDF2-HMAC-SHA256 key of the UTF-8 bytes of `secret` under the UTF-8
/// bytes of `salt`, with `iterations` rounds, 32 bytes long.
pub uninterp spec fn derived_key(iterations: u32, salt: Seq<char>, secret: Seq<char>) -> Seq<u8>;

/// The standard, padded base64 text of `bytes`.
pub uninterp spec fn base64_of(bytes: Seq<u8>) -> Seq<char>;

/// The bytes that standard base64 text `s` decodes to, if it is valid.
pub uninterp spec fn base64_decoded(s: Seq<char>) -> Option<Seq<u8>>;

/// Relies on `ring::pbkdf2::derive` with `PBKDF2_HMAC_SHA256`: fills the 32-byte
/// output with the derived key. It panics only for inputs too long for the
/// digest, which `fits` leaves out.
#[verifier::external_body]
pub(crate) fn pbkdf2_derive(iterations: u32, salt: &str, secret: &str) -> (r: [u8; CREDENTIAL_LEN])
    requires
        iterations > 0,
        fits(salt@),
        fits(secret@),
    ensures
        r@ == derived_key(iterations, salt@, secret@),
{
    let mut out = [0u8; CREDENTIAL_LEN];
    let rounds = std::num::NonZeroU32::new(iterations).unwrap();
    ring::pbkdf2::derive(
        ring::pbkdf2::PBKDF2_HMAC_SHA256,
        rounds,
        salt.as_bytes(),
        secret.as_bytes(),
        &mut out,
    );
    out
}

/// Relies on `ring::pbkdf2::verify` with `PBKDF2_HMAC_SHA256`: succeeds exactly
/// when the key derived from `salt` and `secret` equals `hash`, compared in
/// constant time.
#[verifier::external_body]
pub(crate) fn pbkdf2_verify(
    iterations: u32,
    salt: &str,
    secret: &str,
    hash: &[u8; CREDENTIAL_LEN],
) -> (r: bool)
    requires
        iterations > 0,
        fits(salt@),
        fits(secret@),
    ensures
        r == (hash@ == derived_key(iterations, salt@, secret@)),
{
    let rounds = std::num::NonZeroU32::new(iterations).unwrap();
    ring::pbkdf2::verify(
        ring::pbkdf2::PBKDF2_HMAC_SHA256,
        rounds,
        salt.as_bytes(),
        secret.as_bytes(),
        hash,
    ).is_ok()
}

/// Relies on `ring::rand::SystemRandom::fill`: 16 bytes from the operating
/// system's secure source, or nothing when that source fails.
#[verifier::external_body]
pub(crate) fn random_salt() -> (r: Option<[u8; SALT_LEN]>) {
    let mut dest = [0u8; SALT_LEN];
    match ring::rand::SecureRandom::fill(&ring::rand::SystemRandom::new(), &mut dest) {
        Ok(()) => Some(dest),
        Err(_) => None,
    }
}

/// Relies on `base64::encode` (standard alphabet, padded): 16 bytes give 24
/// characters, which `base64::decode` reads back to the same bytes.
#[verifier::external_body]
pub(crate) fn encode_salt(bytes: &[u8; SALT_LEN]) -> (r: String)
    ensures
        r@ == base64_of(bytes@),
        r@.len() == 24,
        base64_decoded(r@) == Some(bytes@),
{
    base64::encode(bytes)
}

/// Relies on `base64::decode` (standard alphabet): the decoded bytes, or
/// nothing for text that is not valid base64.
#[verifier::external_body]
pub(crate) fn decode_base64(s: &str) -> (r: Option<Vec<u8>>)
    ensures
        match r {
            Some(b) => base64_decoded(s@) == Some(b@),
            None => base64_decoded(s@) is None,
        },
{
    base64::decode(s).ok()
}

/// Relies on `String::from_utf8`: the text when `bytes` are valid UTF-8.
#[verifier::external_body]
pub(crate) fn utf8_text(bytes: Vec<u8>) -> (r: Option<String>)
    ensures
        match r {
            Some(s) => valid_utf8(bytes@) && s@ == decode_utf8(bytes@),
            None => !valid_utf8(bytes@),
        },
{
    String::from_utf8(bytes).ok()
}


/// A fresh random secret for signing tokens: the base64 text of 16 random
/// bytes, or empty text when the random source fails.
pub fn generate_secret() -> (r: String)
    ensures
        r@.len() == 0 || r@.len() == 24,
        r@.len() > 0 ==> exists|b: Seq<u8>| b.len() == SALT_LEN && r@ == base64_of(b),
        r@.len() > 0 ==> (base64_decoded(r@) matches Some(b) && b.len() == SALT_LEN),
{
    match random_salt() {
        Some(bytes) => encode_salt(&bytes),
        None => String::new(),
    }
}

} // verus!
