//! Trusted items: the declarations and wrappers through which the library
//! calls std and outside crates. Verus believes these contracts; each doc
//! comment says what is claimed of the code behind it.

use base64::Engine;
use ed25519_dalek::{Signer, Verifier};
use sha2::Digest;
use vstd::prelude::*;

use crate::model::opt_text;

verus! {

/// `serde_json::Value`, carried opaquely (an aggregation rule is only ever
/// tested for presence).
#[verifier::external_type_specification]
#[verifier::external_body]
pub struct ExJsonValue(serde_json::Value);

/// What `str::to_lowercase` gives back for a string (Unicode lowercase
/// mapping); depends on the string alone.
pub uninterp spec fn unicode_lowercase(s: Seq<char>) -> Seq<char>;

/// ASCII letters `A`..=`Z` mapped to `a`..=`z`, other characters kept.
pub open spec fn ascii_lowercase(s: Seq<char>) -> Seq<char> {
    s.map_values(|c: char| if 'A' <= c <= 'Z' { ((c as u32) + 32) as char } else { c })
}

/// Calls `str::to_lowercase`. Claimed: the result is the named Unicode
/// lowercase mapping of `s`, and on an ASCII string it maps exactly the
/// ASCII capitals to their small letters. The full Unicode mapping is not
/// stated.
#[verifier::external_body]
pub(crate) fn to_lowercase(s: &str) -> (r: String)
    ensures
        r@ == unicode_lowercase(s@),
        vstd::utf8::is_ascii_chars(s@) ==> r@ == ascii_lowercase(s@),
{
    s.to_lowercase()
}

} // verus!

verus! {

/// What SHA-256 gives for a byte string (a function of the bytes alone).
pub uninterp spec fn sha256_of(data: Seq<u8>) -> Seq<u8>;

/// Calls `sha2::Sha256::digest`. Claimed: the named digest of the input,
/// 32 bytes long (the output size of SHA-256).
#[verifier::external_body]
pub(crate) fn sha256(data: &[u8]) -> (r: Vec<u8>)
    ensures
        r@ == sha256_of(data@),
        r@.len() == 32,
{
    sha2::Sha256::digest(data).to_vec()
}

/// A lower-case hexadecimal digit.
pub open spec fn hex_digit(n: int) -> char {
    if n < 10 {
        (n + 48) as char
    } else {
        (n + 87) as char
    }
}

/// Two lower-case hexadecimal digits per byte, high nibble first.
pub open spec fn hex_lower(b: Seq<u8>) -> Seq<char>
    decreases b.len(),
{
    if b.len() == 0 {
        Seq::empty()
    } else {
        seq![hex_digit(b[0] as int / 16), hex_digit(b[0] as int % 16)] + hex_lower(b.drop_first())
    }
}

/// Calls `hex::encode`, which writes each byte as two digits from
/// `0123456789abcdef`, high nibble first.
#[verifier::external_body]
pub(crate) fn hex_encode(data: &[u8]) -> (r: String)
    ensures
        r@ == hex_lower(data@),
{
    hex::encode(data)
}

/// Calls `chrono::Utc::now()` and formats it with `to_rfc3339`. The result
/// depends on the clock, so nothing is stated of it.
#[verifier::external_body]
pub(crate) fn now_rfc3339() -> String {
    chrono::Utc::now().to_rfc3339()
}

} // verus!

verus! {

/// The value of an ASCII hexadecimal digit (either case).
pub open spec fn hex_value(b: u8) -> Option<int> {
    if 48 <= b <= 57 {
        Some(b - 48)
    } else if 97 <= b <= 102 {
        Some(b - 87)
    } else if 65 <= b <= 70 {
        Some(b - 55)
    } else {
        None
    }
}

/// Bytes written as pairs of hexadecimal digits; `None` for an odd length
/// or any other character.
pub open spec fn hex_decoded(text: Seq<u8>) -> Option<Seq<u8>>
    decreases text.len(),
{
    if text.len() == 0 {
        Some(Seq::empty())
    } else if text.len() == 1 {
        None
    } else {
        match (hex_value(text[0]), hex_value(text[1]), hex_decoded(text.skip(2))) {
            (Some(h), Some(l), Some(rest)) => Some(seq![(h * 16 + l) as u8] + rest),
            _ => None,
        }
    }
}

/// What `hex::decode` reports when it rejects a text, written as the
/// command-line tool prints an error (`{:#}` through anyhow); a function of
/// the text alone.
pub uninterp spec fn hex_error_text(text: Seq<u8>) -> Seq<char>;

/// Calls `hex::decode`, which rejects an odd length and any byte that is
/// not a hexadecimal digit, and otherwise turns each pair of digits (high
/// first, either case) into a byte. Claimed: the decoded bytes as stated
/// by `hex_decoded`, and on a rejection the error's named text.
#[verifier::external_body]
pub(crate) fn hex_decode(text: &[u8]) -> (r: Result<Vec<u8>, String>)
    ensures
        match r {
            Ok(v) => hex_decoded(text@) == Some(v@),
            Err(e) => hex_decoded(text@) is None && e@ == hex_error_text(text@),
        },
{
    match hex::decode(text) {
        Ok(v) => Ok(v),
        Err(e) => Err(format!("{:#}", anyhow::Error::new(e))),
    }
}

/// The character for a 6-bit value in the standard Base64 alphabet
/// `A-Z a-z 0-9 + /`.
pub open spec fn base64_char(n: int) -> char {
    if n < 26 {
        (n + 65) as char
    } else if n < 52 {
        (n + 71) as char
    } else if n < 62 {
        (n - 4) as char
    } else if n == 62 {
        '+'
    } else {
        '/'
    }
}

/// Standard Base64 with `=` padding (RFC 4648, section 4).
pub open spec fn base64_standard(b: Seq<u8>) -> Seq<char>
    decreases b.len(),
{
    if b.len() == 0 {
        Seq::empty()
    } else if b.len() == 1 {
        let x = b[0] as int;
        seq![base64_char(x / 4), base64_char((x % 4) * 16), '=', '=']
    } else if b.len() == 2 {
        let x = b[0] as int;
        let y = b[1] as int;
        seq![base64_char(x / 4), base64_char((x % 4) * 16 + y / 16), base64_char((y % 16) * 4), '=']
    } else {
        let x = b[0] as int;
        let y = b[1] as int;
        let z = b[2] as int;
        seq![
            base64_char(x / 4),
            base64_char((x % 4) * 16 + y / 16),
            base64_char((y % 16) * 4 + z / 64),
            base64_char(z % 64),
        ] + base64_standard(b.skip(3))
    }
}

/// Calls `base64::engine::general_purpose::STANDARD.encode`: the standard
/// alphabet with padding.
#[verifier::external_body]
pub(crate) fn base64_encode(data: &[u8]) -> (r: String)
    ensures
        r@ == base64_standard(data@),
{
    base64::engine::general_purpose::STANDARD.encode(data)
}

/// What `STANDARD.decode` gives for a text: the bytes, or, when it rejects
/// the text, its error written as the command-line tool prints an error
/// (`{:#}` through anyhow); a function of the text alone.
pub uninterp spec fn base64_decoded(text: Seq<char>) -> Result<Seq<u8>, Seq<char>>;

/// Calls `base64::engine::general_purpose::STANDARD.decode`. Claimed: the
/// named result, and that the canonical encoding of any bytes decodes back
/// to them. Which texts other than canonical encodings it accepts, and the
/// wording of its errors, are not stated.
#[verifier::external_body]
pub(crate) fn base64_decode(text: &str) -> (r: Result<Vec<u8>, String>)
    ensures
        match r {
            Ok(v) => base64_decoded(text@) == Ok::<Seq<u8>, Seq<char>>(v@),
            Err(e) => base64_decoded(text@) == Err::<Seq<u8>, Seq<char>>(e@),
        },
        r is Err ==> forall|b: Seq<u8>| text@ != base64_standard(b),
        r matches Ok(v) ==> forall|b: Seq<u8>| text@ == base64_standard(b) ==> v@ == b,
{
    match base64::engine::general_purpose::STANDARD.decode(text) {
        Ok(v) => Ok(v),
        Err(e) => Err(format!("{:#}", anyhow::Error::new(e))),
    }
}

/// The Ed25519 public key of a 32-byte secret seed.
pub uninterp spec fn ed25519_public_key(seed: Seq<u8>) -> Seq<u8>;

/// The (deterministic) Ed25519 signature of a message under a seed.
pub uninterp spec fn ed25519_signature(seed: Seq<u8>, message: Seq<u8>) -> Seq<u8>;

/// What `VerifyingKey::from_bytes` answers for 32 bytes: `Ok` when they
/// decompress to a curve point, otherwise its error written as the
/// command-line tool prints an error (`{:#}` through anyhow).
pub uninterp spec fn ed25519_key_check(public_key: Seq<u8>) -> Result<(), Seq<char>>;

/// What `VerifyingKey::verify` answers for the signature of the message:
/// `Ok`, or its error written as the command-line tool prints an error.
pub uninterp spec fn ed25519_signature_check(
    public_key: Seq<u8>,
    message: Seq<u8>,
    signature: Seq<u8>,
) -> Result<(), Seq<char>>;

/// Calls `SigningKey::from_bytes(seed).verifying_key().to_bytes()`. Claimed:
/// the named public key of the seed, 32 bytes long.
#[verifier::external_body]
pub(crate) fn ed25519_verifying_key(seed: &[u8]) -> (r: Vec<u8>)
    requires
        seed@.len() == 32,
    ensures
        r@ == ed25519_public_key(seed@),
        r@.len() == 32,
{
    let seed: [u8; 32] = seed.try_into().unwrap();
    ed25519_dalek::SigningKey::from_bytes(&seed).verifying_key().to_bytes().to_vec()
}

/// Calls `SigningKey::from_bytes(seed).sign(message).to_bytes()`. Claimed:
/// the named signature, 64 bytes long.
#[verifier::external_body]
pub(crate) fn ed25519_sign(seed: &[u8], message: &[u8]) -> (r: Vec<u8>)
    requires
        seed@.len() == 32,
    ensures
        r@ == ed25519_signature(seed@, message@),
        r@.len() == 64,
{
    let seed: [u8; 32] = seed.try_into().unwrap();
    ed25519_dalek::SigningKey::from_bytes(&seed).sign(message).to_bytes().to_vec()
}

/// The signature is the one some 32-byte seed makes for the message, and
/// the key is that seed's public key.
pub open spec fn signed_with_some_seed(public_key: Seq<u8>, message: Seq<u8>, signature: Seq<u8>) -> bool {
    exists|seed: Seq<u8>|
        seed.len() == 32 && public_key == ed25519_public_key(seed) && signature
            == ed25519_signature(seed, message)
}

/// The outcome of an Ed25519 check, with the text of the error.
pub enum Ed25519Outcome {
    Valid,
    InvalidKey(String),
    BadSignature(String),
}

/// Calls `VerifyingKey::from_bytes(public_key)` and, when it accepts the
/// key, `verify(message, &Signature::from_bytes(signature))`. Claimed: the
/// outcome follows the two named results, and a signature made with a
/// seed verifies under that seed's public key (as the crate documents).
#[verifier::external_body]
pub(crate) fn ed25519_verify(public_key: &[u8], message: &[u8], signature: &[u8]) -> (r: Ed25519Outcome)
    requires
        public_key@.len() == 32,
        signature@.len() == 64,
    ensures
        match r {
            Ed25519Outcome::InvalidKey(e) => ed25519_key_check(public_key@) == Err::<(), Seq<char>>(e@),
            Ed25519Outcome::BadSignature(e) => (ed25519_key_check(public_key@) is Ok
                && ed25519_signature_check(public_key@, message@, signature@) == Err::<(), Seq<char>>(e@)),
            Ed25519Outcome::Valid => (ed25519_key_check(public_key@) is Ok
                && ed25519_signature_check(public_key@, message@, signature@) is Ok),
        },
        signed_with_some_seed(public_key@, message@, signature@) ==> r is Valid,
{
    let key: [u8; 32] = public_key.try_into().unwrap();
    let sig: [u8; 64] = signature.try_into().unwrap();
    match ed25519_dalek::VerifyingKey::from_bytes(&key) {
        Err(e) => Ed25519Outcome::InvalidKey(format!("{:#}", anyhow::Error::new(e))),
        Ok(k) => match k.verify(message, &ed25519_dalek::Signature::from_bytes(&sig)) {
            Ok(()) => Ed25519Outcome::Valid,
            Err(e) => Ed25519Outcome::BadSignature(format!("{:#}", anyhow::Error::new(e))),
        },
    }
}

} // verus!

verus! {

/// What `format!("{:?}", s)` writes for a string: the string in double
/// quotes with Rust's debug escapes (a function of the string alone).
pub uninterp spec fn debug_quoted(s: Seq<char>) -> Seq<char>;

/// Calls `format!("{:?}", s)` on a string slice. Claimed: the named quoted
/// form. The escaping rules themselves are not stated.
#[verifier::external_body]
pub(crate) fn debug_quote(s: &str) -> (r: String)
    ensures
        r@ == debug_quoted(s@),
{
    format!("{:?}", s)
}

} // verus!

verus! {

/// What a JSON text holds at a JSON pointer: its error, written as the
/// command-line tool prints an error (`{:#}` through anyhow), when
/// serde_json rejects the text; otherwise the string at the pointer, if the
/// value there is a string (a function of the text and the pointer alone).
pub uninterp spec fn json_string_at(json: Seq<char>, pointer: Seq<char>) -> Result<Option<Seq<char>>, Seq<char>>;

/// Calls `serde_json::from_str::<Value>` on the text and, when it parses,
/// `Value::pointer` and `Value::as_str`. Claimed: the named result.
#[verifier::external_body]
pub(crate) fn parse_json_string_at(json: &str, pointer: &str) -> (r: Result<Option<String>, String>)
    ensures
        match r {
            Ok(v) => json_string_at(json@, pointer@) == Ok::<Option<Seq<char>>, Seq<char>>(opt_text(v)),
            Err(e) => json_string_at(json@, pointer@) == Err::<Option<Seq<char>>, Seq<char>>(e@),
        },
{
    match serde_json::from_str::<serde_json::Value>(json) {
        Err(e) => Err(format!("{:#}", anyhow::Error::new(e))),
        Ok(value) => Ok(value.pointer(pointer).and_then(serde_json::Value::as_str).map(String::from)),
    }
}

} // verus!
