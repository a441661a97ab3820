//! Evidence packet signatures: Ed25519 over the packet's JSON content, with
//! the content's SHA-256 recorded beside the signature.
//!
//! The JSON content itself is produced outside the library (it is the
//! serialization of the packet with no signature); the functions here take
//! those bytes. What the digest and the signature protect is the bytes
//! passed in: a signed packet speaks for its own content only when the
//! caller passes the packet's own serialization, as the command-line tool
//! does.

use vstd::prelude::*;
use vstd::string::*;

use crate::model::{EvidenceReport, PacketSignature, ReportView, SignatureView, Text};
use crate::outside::{
    base64_decode, base64_decoded, base64_encode, base64_standard, ed25519_key_check,
    ed25519_public_key, ed25519_sign, ed25519_signature, ed25519_signature_check, ed25519_verify,
    ed25519_verifying_key, hex_decode, hex_decoded, hex_digit, hex_error_text, hex_encode, hex_lower, hex_value,
    base64_char, sha256, sha256_of,
    Ed25519Outcome,
};
use crate::text::{is_space, lemma_no_space_concat, lemma_trim_line, no_space, str_eq, str_trim, trim};
use vstd::utf8::{encode_utf8, is_ascii_chars};

verus! {

/// Who signed a packet: the Base64 public key and its fingerprint
/// `SHA256:<hex of the SHA-256 of the key bytes>`.
#[derive(Debug, Clone)]
pub struct SignerIdentity {
    pub public_key: String,
    pub fingerprint: String,
}

pub struct SignerView {
    pub public_key: Text,
    pub fingerprint: Text,
}

impl View for SignerIdentity {
    type V = SignerView;

    open spec fn view(&self) -> SignerView {
        SignerView { public_key: self.public_key@, fingerprint: self.fingerprint@ }
    }
}

/// The identity of the holder of an Ed25519 public key.
pub open spec fn identity_of(public_key: Seq<u8>) -> SignerView {
    SignerView {
        public_key: base64_standard(public_key),
        fingerprint: "SHA256:"@ + hex_lower(sha256_of(public_key)),
    }
}

/// The signature block that a seed makes for packet content.
pub open spec fn signature_for(seed: Seq<u8>, content: Seq<u8>) -> SignatureView {
    SignatureView {
        algorithm: "Ed25519"@,
        public_key: base64_standard(ed25519_public_key(seed)),
        signature: base64_standard(ed25519_signature(seed, content)),
        content_sha256: hex_lower(sha256_of(content)),
    }
}

/// The seed a signing-key file holds: its trimmed text, read as hex.
pub open spec fn seed_from_text(text: Text) -> Option<Seq<u8>> {
    hex_decoded(vstd::utf8::encode_utf8(trim(text)))
}

/// What `sign` answers for a signing-key text; a text that is not hex is
/// refused with what `hex::decode` reported.
pub open spec fn seed_check(text: Text) -> Result<Seq<u8>, Text> {
    match seed_from_text(text) {
        None => Err(
            "signing key is not hex: "@ + hex_error_text(vstd::utf8::encode_utf8(trim(text))),
        ),
        Some(seed) => if seed.len() != 32 {
            Err("signing key must contain exactly 32 bytes"@)
        } else {
            Ok(seed)
        },
    }
}

/// The packet with another signature block.
pub open spec fn with_signature(r: ReportView, s: Option<SignatureView>) -> ReportView {
    ReportView { signature: s, ..r }
}

/// What `verify` answers for a packet whose content (the packet without
/// its signature, serialized) is `content`.
pub open spec fn verification(report: ReportView, content: Seq<u8>) -> Result<SignerView, Text> {
    match report.signature {
        None => Err("packet is not signed"@),
        Some(sig) => {
            if sig.algorithm != "Ed25519"@ {
                Err("unsupported signature algorithm: "@ + sig.algorithm)
            } else if hex_lower(sha256_of(content)) != sig.content_sha256 {
                Err("content digest does not match; packet was changed"@)
            } else {
                match base64_decoded(sig.public_key) {
                    Err(cause) => Err("invalid public key encoding: "@ + cause),
                    Ok(key) => if key.len() != 32 {
                        Err("invalid public key length"@)
                    } else {
                        match base64_decoded(sig.signature) {
                            Err(cause) => Err("invalid signature encoding: "@ + cause),
                            Ok(bytes) => if bytes.len() != 64 {
                                Err("invalid signature length"@)
                            } else {
                                match ed25519_key_check(key) {
                                    Err(cause) => Err("invalid public key: "@ + cause),
                                    Ok(()) => match ed25519_signature_check(key, content, bytes) {
                                        Err(cause) => Err(
                                            "signature verification failed: "@ + cause,
                                        ),
                                        Ok(()) => Ok(identity_of(key)),
                                    },
                                }
                            },
                        }
                    },
                }
            }
        },
    }
}

// ---------------------------------------------------------------------------
// Key files
// ---------------------------------------------------------------------------

/// The text of a signing-key file: the seed in lower-case hex and a line
/// break.
pub open spec fn key_file(seed: Seq<u8>) -> Text {
    hex_lower(seed) + "\n"@
}

/// The text of a public-key file: the Base64 public key and a line break.
pub open spec fn public_key_file(public_key: Text) -> Text {
    public_key + "\n"@
}

proof fn lemma_hex_digit(n: int)
    requires
        0 <= n < 16,
    ensures
        !is_space(hex_digit(n)),
        (hex_digit(n) as u32) < 128,
        hex_value(hex_digit(n) as u8) == Some(n),
{
}

proof fn lemma_hex_lower(b: Seq<u8>)
    ensures
        hex_lower(b).len() == 2 * b.len(),
        no_space(hex_lower(b)),
        is_ascii_chars(hex_lower(b)),
        hex_decoded(encode_utf8(hex_lower(b))) == Some(b),
    decreases b.len(),
{
    broadcast use vstd::utf8::is_ascii_chars_encode_utf8;

    if b.len() > 0 {
        let rest = b.drop_first();
        lemma_hex_lower(rest);
        let x = b[0] as int;
        lemma_hex_digit(x / 16);
        lemma_hex_digit(x % 16);
        let h = hex_lower(b);
        let r = hex_lower(rest);
        assert(h == seq![hex_digit(x / 16), hex_digit(x % 16)] + r);
        assert forall|i: int| 0 <= i < h.len() implies !is_space(#[trigger] h[i])
            && '\0' <= h[i] <= '\u{7f}' by {
            if i >= 2 {
                assert(h[i] == r[i - 2]);
            }
        }
        assert(is_ascii_chars(h));
        assert(is_ascii_chars(r));
        let t = encode_utf8(h);
        let t2 = encode_utf8(r);
        assert(t.len() == h.len());
        assert(t2.len() == r.len());
        assert(t.skip(2) =~= t2) by {
            assert forall|i: int| 0 <= i < t2.len() implies #[trigger] t.skip(2)[i] == t2[i] by {
                assert(h[i + 2] == r[i]);
                assert(t[i + 2] == h[i + 2] as u8);
                assert(t2[i] == r[i] as u8);
            }
        }
        assert(t[0] == hex_digit(x / 16) as u8);
        assert(t[1] == hex_digit(x % 16) as u8);
        assert(((x / 16) * 16 + x % 16) as u8 == b[0]);
        assert(hex_decoded(t) == Some(seq![b[0]] + rest));
        assert(seq![b[0]] + rest =~= b);
    }
}

proof fn lemma_base64_char(n: int)
    requires
        0 <= n < 64,
    ensures
        !is_space(base64_char(n)),
{
}

proof fn lemma_base64_no_space(b: Seq<u8>)
    ensures
        no_space(base64_standard(b)),
        b.len() > 0 ==> base64_standard(b).len() > 0,
    decreases b.len(),
{
    reveal_strlit("=");
    if b.len() == 1 {
        let x = b[0] as int;
        lemma_base64_char(x / 4);
        lemma_base64_char((x % 4) * 16);
    } else if b.len() == 2 {
        let x = b[0] as int;
        let y = b[1] as int;
        lemma_base64_char(x / 4);
        lemma_base64_char((x % 4) * 16 + y / 16);
        lemma_base64_char((y % 16) * 4);
    } else if b.len() > 2 {
        let x = b[0] as int;
        let y = b[1] as int;
        let z = b[2] as int;
        lemma_base64_char(x / 4);
        lemma_base64_char((x % 4) * 16 + y / 16);
        lemma_base64_char((y % 16) * 4 + z / 64);
        lemma_base64_char(z % 64);
        lemma_base64_no_space(b.skip(3));
        let head = seq![
            base64_char(x / 4),
            base64_char((x % 4) * 16 + y / 16),
            base64_char((y % 16) * 4 + z / 64),
            base64_char(z % 64),
        ];
        assert(no_space(head));
        lemma_no_space_concat(head, base64_standard(b.skip(3)));
    }
}

/// The text of the signing-key file that `kpe keygen` writes for a seed.
pub fn key_file_text(seed: &[u8]) -> (r: String)
    ensures
        r@ == key_file(seed@),
{
    let mut text = hex_encode(seed);
    text.append("\n");
    text
}

/// The text of the public-key file that `kpe keygen` writes for a signer.
pub fn public_key_file_text(signer: &SignerIdentity) -> (r: String)
    ensures
        r@ == public_key_file(signer@.public_key),
{
    let mut text = signer.public_key.clone();
    text.append("\n");
    text
}

/// The signing-key file written for a 32-byte seed is read back by `sign`
/// as that very seed, so a packet signed with it carries that seed's
/// signature block.
pub proof fn law_key_file_signs_with_its_seed(seed: Seq<u8>)
    requires
        seed.len() == 32,
    ensures
        seed_check(key_file(seed)) == Ok::<Seq<u8>, Text>(seed),
{
    lemma_hex_lower(seed);
    lemma_trim_line(hex_lower(seed));
}

/// The public-key file and the fingerprint reported for a key are accepted
/// as the trusted signer of every packet that key signed: trimmed, they are
/// that signer's public key and fingerprint, which `require_public_key` and
/// `require_fingerprint` compare.
pub proof fn law_signer_files_name_the_signer(public_key: Seq<u8>)
    requires
        public_key.len() > 0,
    ensures
        trim(public_key_file(identity_of(public_key).public_key)) == identity_of(
            public_key,
        ).public_key,
        trim(identity_of(public_key).fingerprint) == identity_of(public_key).fingerprint,
{
    reveal_strlit("SHA256:");
    let id = identity_of(public_key);
    lemma_base64_no_space(public_key);
    lemma_trim_line(id.public_key);
    let prefix = "SHA256:"@;
    assert(no_space(prefix));
    lemma_hex_lower(sha256_of(public_key));
    lemma_no_space_concat(prefix, hex_lower(sha256_of(public_key)));
    lemma_trim_line(id.fingerprint);
}

proof fn lemma_base64_char_distinct(m: int, n: int)
    requires
        0 <= m < 64,
        0 <= n < 64,
    ensures
        base64_char(m) != '=',
        base64_char(m) == base64_char(n) ==> m == n,
{
}

proof fn lemma_base64_head(a: Seq<u8>)
    requires
        a.len() > 0,
    ensures
        base64_standard(a).len() >= 4,
        base64_standard(a)[0] == base64_char(a[0] as int / 4),
        a.len() == 1 ==> {
            &&& base64_standard(a).len() == 4
            &&& base64_standard(a)[1] == base64_char((a[0] as int % 4) * 16)
            &&& base64_standard(a)[2] == '='
            &&& base64_standard(a)[3] == '='
        },
        a.len() == 2 ==> {
            &&& base64_standard(a).len() == 4
            &&& base64_standard(a)[1] == base64_char((a[0] as int % 4) * 16 + a[1] as int / 16)
            &&& base64_standard(a)[2] == base64_char((a[1] as int % 16) * 4)
            &&& base64_standard(a)[3] == '='
        },
        a.len() >= 3 ==> {
            &&& base64_standard(a)[1] == base64_char((a[0] as int % 4) * 16 + a[1] as int / 16)
            &&& base64_standard(a)[2] == base64_char((a[1] as int % 16) * 4 + a[2] as int / 64)
            &&& base64_standard(a)[3] == base64_char(a[2] as int % 64)
            &&& base64_standard(a).skip(4) == base64_standard(a.skip(3))
        },
{
    reveal_strlit("=");
    if a.len() >= 3 {
        let x = a[0] as int;
        let y = a[1] as int;
        let z = a[2] as int;
        let head = seq![
            base64_char(x / 4),
            base64_char((x % 4) * 16 + y / 16),
            base64_char((y % 16) * 4 + z / 64),
            base64_char(z % 64),
        ];
        let e = head + base64_standard(a.skip(3));
        assert(base64_standard(a) == e);
        assert(e[0] == head[0] && e[1] == head[1] && e[2] == head[2] && e[3] == head[3]);
        assert(e.skip(4) =~= base64_standard(a.skip(3)));
    }
}

/// Standard Base64 never writes two different byte strings the same way.
pub proof fn lemma_base64_injective(a: Seq<u8>, b: Seq<u8>)
    requires
        base64_standard(a) == base64_standard(b),
    ensures
        a == b,
    decreases a.len(),
{
    lemma_base64_no_space(a);
    lemma_base64_no_space(b);
    if a.len() == 0 || b.len() == 0 {
        assert(a.len() == 0 && b.len() == 0);
        assert(a =~= b);
    } else {
        lemma_base64_head(a);
        lemma_base64_head(b);
        let e = base64_standard(a);
        let x = a[0] as int;
        let y = if a.len() > 1 { a[1] as int } else { 0 };
        let z = if a.len() > 2 { a[2] as int } else { 0 };
        let u = b[0] as int;
        let v = if b.len() > 1 { b[1] as int } else { 0 };
        let w = if b.len() > 2 { b[2] as int } else { 0 };
        lemma_base64_char_distinct(x / 4, u / 4);
        lemma_base64_char_distinct((x % 4) * 16 + y / 16, (u % 4) * 16 + v / 16);
        lemma_base64_char_distinct((y % 16) * 4 + z / 64, (v % 16) * 4 + w / 64);
        lemma_base64_char_distinct(z % 64, w % 64);
        lemma_base64_char_distinct((x % 4) * 16, (u % 4) * 16);
        lemma_base64_char_distinct((y % 16) * 4, (v % 16) * 4);
        lemma_base64_char_distinct((x % 4) * 16, (u % 4) * 16 + v / 16);
        lemma_base64_char_distinct((x % 4) * 16 + y / 16, (u % 4) * 16);
        lemma_base64_char_distinct((y % 16) * 4, (v % 16) * 4 + w / 64);
        lemma_base64_char_distinct((y % 16) * 4 + z / 64, (v % 16) * 4);
        assert(a.len() == 1 <==> b.len() == 1);
        assert(a.len() == 2 <==> b.len() == 2);
        assert(x / 4 == u / 4);
        if a.len() == 1 {
            assert(x % 4 == u % 4);
            assert(x == u);
            assert(a =~= b);
        } else if a.len() == 2 {
            assert(x % 4 == u % 4 && y / 16 == v / 16);
            assert(y % 16 == v % 16);
            assert(x == u && y == v);
            assert(a =~= b);
        } else {
            assert(x % 4 == u % 4 && y / 16 == v / 16);
            assert(y % 16 == v % 16 && z / 64 == w / 64);
            assert(z % 64 == w % 64);
            assert(x == u && y == v && z == w);
            lemma_base64_injective(a.skip(3), b.skip(3));
            assert forall|i: int| 0 <= i < a.len() implies a[i] == b[i] by {
                if i >= 3 {
                    assert(a[i] == a.skip(3)[i - 3]);
                    assert(b[i] == b.skip(3)[i - 3]);
                }
            }
            assert(a =~= b);
        }
    }
}

/// The public-key file of another key is refused: for two different public
/// keys, the trimmed text of one's public-key file is never the other's
/// public key, which `require_public_key` compares.
pub proof fn law_other_key_file_is_refused(signer_key: Seq<u8>, other_key: Seq<u8>)
    requires
        other_key.len() > 0,
        signer_key != other_key,
    ensures
        trim(public_key_file(identity_of(other_key).public_key)) != identity_of(
            signer_key,
        ).public_key,
{
    law_signer_files_name_the_signer(other_key);
    if base64_standard(other_key) == base64_standard(signer_key) {
        lemma_base64_injective(other_key, signer_key);
    }
}

/// The identity of an Ed25519 public key.
pub fn signer_of_key(public_key: &[u8]) -> (r: SignerIdentity)
    ensures
        r@ == identity_of(public_key@),
{
    let digest = sha256(public_key);
    let mut fingerprint = String::from_str("SHA256:");
    let hex = hex_encode(digest.as_slice());
    fingerprint.append(hex.as_str());
    SignerIdentity { public_key: base64_encode(public_key), fingerprint: fingerprint }
}

/// The identity that a 32-byte seed signs as.
pub fn signer_of_seed(seed: &[u8]) -> (r: SignerIdentity)
    requires
        seed@.len() == 32,
    ensures
        r@ == identity_of(ed25519_public_key(seed@)),
{
    let key = ed25519_verifying_key(seed);
    signer_of_key(key.as_slice())
}

/// `message: cause`, the form in which an error is printed with its cause.
fn fail_with<T>(message: &str, cause: &str) -> (r: Result<T, String>)
    ensures
        r is Err,
        r->Err_0@ == message@ + ": "@ + cause@,
{
    let mut text = String::from_str(message);
    text.append(": ");
    text.append(cause);
    Err(text)
}

fn fail<T>(message: &str) -> (r: Result<T, String>)
    ensures
        r is Err,
        r->Err_0@ == message@,
{
    Err(String::from_str(message))
}

/// Signs the packet. The signature block is removed first; `content` is
/// the packet's JSON serialization without it, and `seed_text` the hex text
/// of the signing-key file.
pub fn sign(report: &mut EvidenceReport, seed_text: &str, content: &[u8]) -> (r: Result<(), String>)
    ensures
        r is Ok <==> seed_check(seed_text@) is Ok,
        r matches Err(e) ==> seed_check(seed_text@) == Err::<Seq<u8>, Text>(e@),
        r is Err ==> final(report)@ == with_signature(old(report)@, None),
        r is Ok ==> final(report)@ == with_signature(
            old(report)@,
            Some(signature_for(seed_check(seed_text@)->Ok_0, content@)),
        ),
        r is Ok ==> ed25519_public_key(seed_check(seed_text@)->Ok_0).len() == 32,
        r is Ok ==> ed25519_signature(seed_check(seed_text@)->Ok_0, content@).len() == 64,
{
    report.signature = None;
    let trimmed = str_trim(seed_text);
    let seed = match hex_decode(trimmed.as_str().as_bytes()) {
        Ok(seed) => seed,
        Err(cause) => {
            proof {
                reveal_strlit("signing key is not hex");
                reveal_strlit(": ");
                reveal_strlit("signing key is not hex: ");
                assert("signing key is not hex"@ + ": "@ =~= "signing key is not hex: "@);
            }
            return fail_with("signing key is not hex", cause.as_str());
        },
    };
    if seed.len() != 32 {
        return fail("signing key must contain exactly 32 bytes");
    }
    let key = ed25519_verifying_key(seed.as_slice());
    let signature = ed25519_sign(seed.as_slice(), content);
    let digest = sha256(content);
    report.signature = Some(
        PacketSignature {
            algorithm: String::from_str("Ed25519"),
            public_key: base64_encode(key.as_slice()),
            signature: base64_encode(signature.as_slice()),
            content_sha256: hex_encode(digest.as_slice()),
        },
    );
    Ok(())
}

/// Checks the packet's signature block against its content: algorithm,
/// content digest, the encodings and lengths of key and signature, and the
/// Ed25519 signature itself. `content` is the packet's JSON serialization
/// without its signature block.
pub fn verify(report: &EvidenceReport, content: &[u8]) -> (r: Result<SignerIdentity, String>)
    ensures
        r is Ok <==> verification(report@, content@) is Ok,
        r matches Ok(s) ==> verification(report@, content@) == Ok::<SignerView, Text>(s@),
        r matches Err(e) ==> verification(report@, content@) == Err::<SignerView, Text>(e@),
        forall|seed: Seq<u8>|
            #![trigger signature_for(seed, content@)]
            seed.len() == 32 && ed25519_public_key(seed).len() == 32 && ed25519_signature(
                seed,
                content@,
            ).len() == 64 && report@.signature == Some(signature_for(seed, content@))
                ==> (r is Ok && r->Ok_0@ == identity_of(ed25519_public_key(seed))),
{
    let sig = match &report.signature {
        Some(sig) => sig,
        None => {
            return fail("packet is not signed");
        },
    };
    if !str_eq(sig.algorithm.as_str(), "Ed25519") {
        let mut message = String::from_str("unsupported signature algorithm: ");
        message.append(sig.algorithm.as_str());
        return Err(message);
    }
    let digest = sha256(content);
    let digest_hex = hex_encode(digest.as_slice());
    if !str_eq(digest_hex.as_str(), sig.content_sha256.as_str()) {
        return fail("content digest does not match; packet was changed");
    }
    let key = match base64_decode(sig.public_key.as_str()) {
        Ok(key) => key,
        Err(cause) => {
            proof {
                reveal_strlit("invalid public key encoding");
                reveal_strlit(": ");
                reveal_strlit("invalid public key encoding: ");
                assert("invalid public key encoding"@ + ": "@ =~= "invalid public key encoding: "@);
            }
            return fail_with("invalid public key encoding", cause.as_str());
        },
    };
    if key.len() != 32 {
        return fail("invalid public key length");
    }
    let bytes = match base64_decode(sig.signature.as_str()) {
        Ok(bytes) => bytes,
        Err(cause) => {
            proof {
                reveal_strlit("invalid signature encoding");
                reveal_strlit(": ");
                reveal_strlit("invalid signature encoding: ");
                assert("invalid signature encoding"@ + ": "@ =~= "invalid signature encoding: "@);
            }
            return fail_with("invalid signature encoding", cause.as_str());
        },
    };
    if bytes.len() != 64 {
        return fail("invalid signature length");
    }
    proof {
        reveal_strlit("invalid public key");
        reveal_strlit("signature verification failed");
        reveal_strlit(": ");
        reveal_strlit("invalid public key: ");
        reveal_strlit("signature verification failed: ");
        assert("invalid public key"@ + ": "@ =~= "invalid public key: "@);
        assert("signature verification failed"@ + ": "@ =~= "signature verification failed: "@);
    }
    match ed25519_verify(key.as_slice(), content, bytes.as_slice()) {
        Ed25519Outcome::InvalidKey(cause) => fail_with("invalid public key", cause.as_str()),
        Ed25519Outcome::BadSignature(cause) => fail_with(
            "signature verification failed",
            cause.as_str(),
        ),
        Ed25519Outcome::Valid => Ok(signer_of_key(key.as_slice())),
    }
}

/// Requires the packet signer to be the key in a trusted public-key file
/// (its trimmed text).
pub fn require_public_key(signer: &SignerIdentity, trusted: &str) -> (r: Result<(), String>)
    ensures
        r is Ok <==> trim(trusted@) == signer@.public_key,
        r matches Err(e) ==> e@ == "packet signer does not match the trusted public key"@,
{
    let trimmed = str_trim(trusted);
    if str_eq(trimmed.as_str(), signer.public_key.as_str()) {
        Ok(())
    } else {
        fail("packet signer does not match the trusted public key")
    }
}

/// Requires the packet signer to have the trusted fingerprint (trimmed).
pub fn require_fingerprint(signer: &SignerIdentity, fingerprint: &str) -> (r: Result<(), String>)
    ensures
        r is Ok <==> trim(fingerprint@) == signer@.fingerprint,
        r matches Err(e) ==> e@ == "signer fingerprint mismatch"@,
{
    let trimmed = str_trim(fingerprint);
    if str_eq(trimmed.as_str(), signer.fingerprint.as_str()) {
        Ok(())
    } else {
        fail("signer fingerprint mismatch")
    }
}

} // verus!
