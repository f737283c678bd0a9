//! Encodings, digests and signatures.
//!
//! Base64 and hexadecimal are described completely; what a hash or a signature
//! check computes is only given a name. The functions that call into the
//! cryptographic crates are at the end of the file.
use vstd::prelude::*;
use base64::Engine;
use ed25519_dalek::Verifier;
use rand::RngCore;
use sha2::Digest;
use sha_crypt::PasswordHasher;

verus! {

// ---------------------------------------------------------------------------
// Base64
// ---------------------------------------------------------------------------

/// The digit for six bits: `A-Z`, `a-z`, `0-9`, `+`, `/`.
pub open spec fn sextet(n: int) -> char {
    if n < 26 {
        ('A' as int + n) as char
    } else if n < 52 {
        ('a' as int + (n - 26)) as char
    } else if n < 62 {
        ('0' as int + (n - 52)) as char
    } else if n == 62 {
        '+'
    } else {
        '/'
    }
}

/// The standard base64 text of some bytes: four digits for every three bytes,
/// and `fill` at the end where the last group is short.
pub open spec fn base64_with(b: Seq<u8>, fill: bool) -> Seq<char>
    decreases b.len(),
{
    if b.len() == 0 {
        Seq::empty()
    } else if b.len() == 1 {
        let digits = seq![sextet(b[0] as int / 4), sextet(b[0] as int % 4 * 16)];
        if fill {
            digits + seq!['=', '=']
        } else {
            digits
        }
    } else if b.len() == 2 {
        let digits = seq![
            sextet(b[0] as int / 4),
            sextet(b[0] as int % 4 * 16 + b[1] as int / 16),
            sextet(b[1] as int % 16 * 4),
        ];
        if fill {
            digits + seq!['=']
        } else {
            digits
        }
    } else {
        seq![
            sextet(b[0] as int / 4),
            sextet(b[0] as int % 4 * 16 + b[1] as int / 16),
            sextet(b[1] as int % 16 * 4 + b[2] as int / 64),
            sextet(b[2] as int % 64),
        ] + base64_with(b.skip(3), fill)
    }
}

/// Base64 with padding.
pub open spec fn base64_text(b: Seq<u8>) -> Seq<char> {
    base64_with(b, true)
}

/// Base64 without padding.
pub open spec fn base64_unpadded(b: Seq<u8>) -> Seq<char> {
    base64_with(b, false)
}

/// What a padded base64 text stands for; `None` if it is the text of no bytes.
pub open spec fn base64_bytes(s: Seq<char>) -> Option<Seq<u8>> {
    if exists|b: Seq<u8>| #[trigger] base64_text(b) == s {
        Some(choose|b: Seq<u8>| #[trigger] base64_text(b) == s)
    } else {
        None
    }
}

pub open spec fn is_base64_char(c: char) -> bool {
    crate::text::is_letter(c) || crate::text::is_digit(c) || c == '+' || c == '/' || c == '='
}

proof fn lemma_sextet(m: int, n: int)
    requires
        0 <= m < 64,
        0 <= n < 64,
        sextet(m) == sextet(n),
    ensures
        m == n,
{
}

proof fn lemma_sextet_char(n: int)
    requires
        0 <= n < 64,
    ensures
        is_base64_char(sextet(n)),
        sextet(n) != '=',
{
}

/// How long a padded text is, and of which characters it is made.
pub proof fn lemma_base64_text(b: Seq<u8>)
    ensures
        base64_text(b).len() == (b.len() + 2) / 3 * 4,
        forall|i: int| 0 <= i < base64_text(b).len() ==> is_base64_char(#[trigger] base64_text(b)[i]),
    decreases b.len(),
{
    let t = base64_text(b);
    if b.len() >= 3 {
        lemma_base64_text(b.skip(3));
        let rest = base64_text(b.skip(3));
        lemma_sextet_char(b[0] as int / 4);
        lemma_sextet_char(b[0] as int % 4 * 16 + b[1] as int / 16);
        lemma_sextet_char(b[1] as int % 16 * 4 + b[2] as int / 64);
        lemma_sextet_char(b[2] as int % 64);
        assert forall|i: int| 0 <= i < t.len() implies is_base64_char(#[trigger] t[i]) by {
            if i >= 4 {
                assert(t[i] == rest[i - 4]);
            }
        }
    } else if b.len() == 2 {
        lemma_sextet_char(b[0] as int / 4);
        lemma_sextet_char(b[0] as int % 4 * 16 + b[1] as int / 16);
        lemma_sextet_char(b[1] as int % 16 * 4);
    } else if b.len() == 1 {
        lemma_sextet_char(b[0] as int / 4);
        lemma_sextet_char(b[0] as int % 4 * 16);
    }
}

/// Two bytes strings with the same base64 text are the same.
proof fn lemma_base64_injective(a: Seq<u8>, b: Seq<u8>)
    requires
        base64_text(a) == base64_text(b),
    ensures
        a == b,
    decreases a.len(),
{
    lemma_base64_text(a);
    lemma_base64_text(b);
    let s = base64_text(a);
    let t = base64_text(b);
    if a.len() == 0 || b.len() == 0 {
        assert(a =~= b);
    } else {
        let a1 = if a.len() >= 2 { a[1] as int } else { 0 };
        let b1 = if b.len() >= 2 { b[1] as int } else { 0 };
        assert(s[0] == sextet(a[0] as int / 4));
        assert(t[0] == sextet(b[0] as int / 4));
        lemma_sextet(a[0] as int / 4, b[0] as int / 4);
        assert(s[1] == sextet(a[0] as int % 4 * 16 + a1 / 16));
        assert(t[1] == sextet(b[0] as int % 4 * 16 + b1 / 16));
        lemma_sextet(a[0] as int % 4 * 16 + a1 / 16, b[0] as int % 4 * 16 + b1 / 16);
        assert(a[0] == b[0]);
        let a2 = if a.len() >= 3 { a[2] as int } else { 0 };
        let b2 = if b.len() >= 3 { b[2] as int } else { 0 };
        if a.len() >= 2 {
            assert(s[2] == sextet(a[1] as int % 16 * 4 + a2 / 64));
            lemma_sextet_char(a[1] as int % 16 * 4 + a2 / 64);
        }
        if b.len() >= 2 {
            assert(t[2] == sextet(b[1] as int % 16 * 4 + b2 / 64));
            lemma_sextet_char(b[1] as int % 16 * 4 + b2 / 64);
        }
        if a.len() >= 3 {
            assert(s[3] == sextet(a[2] as int % 64));
            lemma_sextet_char(a[2] as int % 64);
        }
        if b.len() >= 3 {
            assert(t[3] == sextet(b[2] as int % 64));
            lemma_sextet_char(b[2] as int % 64);
        }
        if a.len() == 1 {
            assert(s[2] == '=');
        } else if a.len() == 2 {
            assert(s[3] == '=');
        }
        if b.len() == 1 {
            assert(t[2] == '=');
        } else if b.len() == 2 {
            assert(t[3] == '=');
        }
        if a.len() == 1 {
            assert(b.len() == 1);
            assert(a =~= b);
        } else {
            lemma_sextet(a[1] as int % 16 * 4 + a2 / 64, b[1] as int % 16 * 4 + b2 / 64);
            assert(a[1] == b[1]);
            if a.len() == 2 {
                assert(b.len() == 2);
                assert(a =~= b);
            } else {
                lemma_sextet(a[2] as int % 64, b[2] as int % 64);
                assert(a[2] == b[2]);
                assert(base64_text(a.skip(3)) =~= s.skip(4));
                assert(base64_text(b.skip(3)) =~= t.skip(4));
                lemma_base64_injective(a.skip(3), b.skip(3));
                assert forall|i: int| 0 <= i < a.len() implies a[i] == b[i] by {
                    if i >= 3 {
                        assert(a.skip(3)[i - 3] == b.skip(3)[i - 3]);
                    }
                }
                assert(a.skip(3).len() == b.skip(3).len());
                assert(a =~= b);
            }
        }
    }
}

/// Decoding gives back what was encoded.
pub proof fn law_base64_round_trip(b: Seq<u8>)
    ensures
        base64_bytes(base64_text(b)) == Some(b),
{
    let s = base64_text(b);
    let c = choose|c: Seq<u8>| #[trigger] base64_text(c) == s;
    lemma_base64_injective(b, c);
}

// ---------------------------------------------------------------------------
// Hexadecimal
// ---------------------------------------------------------------------------

/// Two lower-case hexadecimal digits for each byte.
pub open spec fn hex_text(b: Seq<u8>) -> Seq<char> {
    Seq::new(
        b.len() * 2,
        |i: int|
            if i % 2 == 0 {
                crate::text::digit_char((b[i / 2] / 16) as nat)
            } else {
                crate::text::digit_char((b[i / 2] % 16) as nat)
            },
    )
}

// ---------------------------------------------------------------------------
// Names for what the cryptographic crates compute
// ---------------------------------------------------------------------------

/// The SHA-256 digest.
pub uninterp spec fn sha256(b: Seq<u8>) -> Seq<u8>;

/// The BLAKE2b-512 digest.
pub uninterp spec fn blake2b512(b: Seq<u8>) -> Seq<u8>;

/// Whether some bytes are an Ed25519 public key.
pub uninterp spec fn ed25519_key(key: Seq<u8>) -> bool;

/// Whether a signature over a message verifies under an Ed25519 public key.
pub uninterp spec fn ed25519_verifies(key: Seq<u8>, message: Seq<u8>, signature: Seq<u8>) -> bool;

/// The SHA-512-crypt hash of a password with a salt, or why there is none.
pub uninterp spec fn sha512_crypt(password: Seq<char>, salt: Seq<u8>) -> Result<Seq<char>, Seq<char>>;

// ---------------------------------------------------------------------------
// Calls
// ---------------------------------------------------------------------------

/// `base64::engine::general_purpose::STANDARD.encode`: the padded standard
/// base64 text. The text must be short enough to be allocated.
#[verifier::external_body]
pub(crate) fn base64_encode(b: &[u8]) -> (r: String)
    requires
        (b@.len() + 2) / 3 * 4 <= isize::MAX,
    ensures
        r@ == base64_text(b@),
{
    base64::engine::general_purpose::STANDARD.encode(b)
}

/// `base64::engine::general_purpose::STANDARD_NO_PAD.encode`: the standard
/// base64 text without padding.
#[verifier::external_body]
pub(crate) fn base64_encode_unpadded(b: &[u8]) -> (r: String)
    requires
        (b@.len() + 2) / 3 * 4 <= isize::MAX,
    ensures
        r@ == base64_unpadded(b@),
{
    base64::engine::general_purpose::STANDARD_NO_PAD.encode(b)
}

/// `base64::engine::general_purpose::STANDARD.decode`: the engine asks for
/// canonical padding and refuses stray bits at the end, so a text is decoded
/// exactly if it is the base64 text of some bytes, and to those bytes.
#[verifier::external_body]
pub(crate) fn base64_decode(s: &str) -> (r: Option<Vec<u8>>)
    ensures
        match r {
            Some(v) => base64_bytes(s@) == Some(v@) && base64_text(v@) == s@,
            None => base64_bytes(s@) is None,
        },
{
    base64::engine::general_purpose::STANDARD.decode(s).ok()
}

/// `hex::encode`: two lower-case digits for each byte. The text must be short
/// enough to be allocated.
#[verifier::external_body]
pub(crate) fn hex_encode(b: &[u8]) -> (r: String)
    requires
        b@.len() * 2 <= isize::MAX,
    ensures
        r@ == hex_text(b@),
{
    hex::encode(b)
}

/// `sha2::Sha256::digest`: a digest of 32 bytes.
#[verifier::external_body]
pub(crate) fn sha256_digest(b: &[u8]) -> (r: Vec<u8>)
    ensures
        r@ == sha256(b@),
        r@.len() == 32,
{
    sha2::Sha256::digest(b).to_vec()
}

/// `blake2::Blake2b512::digest`: a digest of 64 bytes.
#[verifier::external_body]
pub(crate) fn blake2b512_digest(b: &[u8]) -> (r: Vec<u8>)
    ensures
        r@ == blake2b512(b@),
        r@.len() == 64,
{
    blake2::Blake2b512::digest(b).to_vec()
}

/// `ed25519_dalek::VerifyingKey::from_bytes`: whether it accepts the key.
#[verifier::external_body]
pub(crate) fn ed25519_key_accepted(key: &[u8; 32]) -> (r: bool)
    ensures
        r == ed25519_key(key@),
{
    ed25519_dalek::VerifyingKey::from_bytes(key).is_ok()
}

/// `ed25519_dalek::VerifyingKey::verify` (of the trait `Verifier`) under a key
/// that `VerifyingKey::from_bytes` accepts: whether it returns `Ok`.
#[verifier::external_body]
pub(crate) fn ed25519_verify(key: &[u8; 32], message: &[u8], signature: &[u8; 64]) -> (r: bool)
    requires
        ed25519_key(key@),
    ensures
        r == ed25519_verifies(key@, message@, signature@),
{
    ed25519_dalek::VerifyingKey::from_bytes(key).is_ok_and(
        |k| k.verify(message, &ed25519_dalek::Signature::from_bytes(signature)).is_ok(),
    )
}

/// `sha_crypt::ShaCrypt::hash_password_with_salt` with the default algorithm
/// (SHA-512-crypt) and cost, on the UTF-8 bytes of the password: a function of
/// the password and the salt. A hash is written as `$6$` and what follows. The
/// length of the encoded salt must fit in a `usize`.
#[verifier::external_body]
pub(crate) fn sha512_crypt_hash(password: &str, salt: &[u8]) -> (r: Result<String, String>)
    requires
        salt@.len() * 4 <= usize::MAX,
    ensures
        match r {
            Ok(hash) => sha512_crypt(password@, salt@) == Ok::<Seq<char>, Seq<char>>(hash@)
                && crate::text::starts_with(hash@, "$6$"@),
            Err(why) => sha512_crypt(password@, salt@) == Err::<Seq<char>, Seq<char>>(why@),
        },
{
    match sha_crypt::ShaCrypt::default().hash_password_with_salt(password.as_bytes(), salt) {
        Ok(hash) => Ok(hash.as_str().to_string()),
        Err(e) => Err(e.to_string()),
    }
}

/// `fill_bytes` of `rand::thread_rng`: `n` random bytes. Nothing is known of
/// the bytes.
#[verifier::external_body]
pub(crate) fn random_bytes(n: usize) -> (r: Vec<u8>)
    requires
        n <= isize::MAX,
    ensures
        r@.len() == n,
{
    let mut bytes = vec![0u8; n];
    rand::thread_rng().fill_bytes(&mut bytes);
    bytes
}

/// `core::str::from_utf8`: the text that the bytes encode, if they are valid
/// UTF-8.
#[verifier::external_body]
pub(crate) fn utf8_text(bytes: &[u8]) -> (r: Option<String>)
    ensures
        match r {
            Some(s) => vstd::utf8::valid_utf8(bytes@) && s@ == vstd::utf8::decode_utf8(bytes@),
            None => !vstd::utf8::valid_utf8(bytes@),
        },
{
    core::str::from_utf8(bytes).ok().map(|s| s.to_owned())
}

} // verus!
