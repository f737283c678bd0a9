//! Detached minisign signatures.
//!
//! A signature file holds two signatures: one over the message, and a global one
//! over that signature and the trusted comment. Both are checked, or anybody who
//! holds the file could write the comment.
use vstd::prelude::*;
use vstd::string::StringExecFns;
use vstd::string::StrSliceExecFns;
use crate::codec;
use crate::error;
use crate::error::{ErrorCode, FerrumError, Problem};
use crate::text;

verus! {

/// `Ed`: the signature is over the message itself.
pub open spec fn legacy() -> Seq<u8> {
    seq![0x45u8, 0x64u8]
}

/// `ED`: the signature is over the BLAKE2b-512 digest of the message.
pub open spec fn prehashed() -> Seq<u8> {
    seq![0x45u8, 0x44u8]
}

#[derive(Debug, Clone, Copy)]
pub struct PublicKey {
    pub key_id: [u8; 8],
    pub key: [u8; 32],
}

/// A [`PublicKey`] as contracts see it.
#[verifier::ext_equal]
pub struct Key {
    pub key_id: Seq<u8>,
    pub key: Seq<u8>,
}

impl View for PublicKey {
    type V = Key;

    open spec fn view(&self) -> Key {
        Key { key_id: self.key_id@, key: self.key@ }
    }
}

pub open spec fn key_views(v: Seq<PublicKey>) -> Seq<Key> {
    v.map_values(|k: PublicKey| k@)
}

/// The line of a public key file that holds the key: the first that is neither
/// blank nor a comment.
pub open spec fn key_line(lines: Seq<Seq<char>>) -> Option<Seq<char>>
    decreases lines.len(),
{
    if lines.len() == 0 {
        None
    } else {
        let l = text::trim(lines[0]);
        if l.len() > 0 && !text::starts_with(l, "untrusted comment:"@) {
            Some(l)
        } else {
            key_line(lines.skip(1))
        }
    }
}

/// The key that a public key file, or its one line, holds.
pub open spec fn public_key(file: Seq<char>) -> Result<Key, Problem> {
    match key_line(text::lines(file)) {
        None => Err(
            error::problem(ErrorCode::InvalidInput, "that is not a minisign public key"@),
        ),
        Some(line) => match codec::base64_bytes(line) {
            None => Err(
                error::problem(ErrorCode::InvalidInput, "a minisign public key must be base64"@),
            ),
            Some(raw) => if raw.len() != 42 {
                Err(
                    error::problem(
                        ErrorCode::InvalidInput,
                        "a minisign public key decodes to 42 bytes"@,
                    ),
                )
            } else if raw.take(2) != legacy() {
                Err(
                    error::problem(
                        ErrorCode::InvalidInput,
                        "unsupported minisign public key algorithm"@,
                    ),
                )
            } else {
                Ok(Key { key_id: raw.subrange(2, 10), key: raw.subrange(10, 42) })
            },
        },
    }
}

fn invalid(detail: &str) -> (r: FerrumError)
    ensures
        r@ == error::problem(ErrorCode::InvalidInput, detail@),
{
    FerrumError::new(ErrorCode::InvalidInput, detail)
}

fn find_key_line(lines: &Vec<String>) -> (r: Option<String>)
    ensures
        error::opt_text(r) == key_line(text::texts(lines@)),
{
    let ghost all = text::texts(lines@);
    let mut i: usize = 0;
    assert(all.skip(0) =~= all);
    while i < lines.len()
        invariant
            i <= lines@.len(),
            all == text::texts(lines@),
            key_line(all) == key_line(all.skip(i as int)),
        decreases lines@.len() - i,
    {
        let ghost rest = all.skip(i as int);
        assert(rest[0] == lines@[i as int]@);
        assert(rest.skip(1) =~= all.skip(i + 1));
        let l = text::trimmed(lines[i].as_str());
        if l.as_str().unicode_len() > 0 && !text::has_prefix(l.as_str(), "untrusted comment:") {
            return Some(l);
        }
        i = i + 1;
    }
    assert(all.skip(i as int).len() == 0);
    None
}

fn eight(raw: &Vec<u8>, at: usize) -> (r: [u8; 8])
    requires
        at + 8 <= raw@.len(),
    ensures
        r@ == raw@.subrange(at as int, at + 8),
{
    let len: usize = raw.len();
    let mut out = [0u8; 8];
    let mut i: usize = 0;
    while i < 8
        invariant
            i <= 8,
            at + 8 <= len,
            len == raw@.len(),
            forall|j: int| 0 <= j < i ==> #[trigger] out@[j] == raw@[at + j],
        decreases 8 - i,
    {
        out[i] = raw[at + i];
        i = i + 1;
    }
    assert(out@ =~= raw@.subrange(at as int, at + 8));
    out
}

fn thirty_two(raw: &Vec<u8>, at: usize) -> (r: [u8; 32])
    requires
        at + 32 <= raw@.len(),
    ensures
        r@ == raw@.subrange(at as int, at + 32),
{
    let len: usize = raw.len();
    let mut out = [0u8; 32];
    let mut i: usize = 0;
    while i < 32
        invariant
            i <= 32,
            at + 32 <= len,
            len == raw@.len(),
            forall|j: int| 0 <= j < i ==> #[trigger] out@[j] == raw@[at + j],
        decreases 32 - i,
    {
        out[i] = raw[at + i];
        i = i + 1;
    }
    assert(out@ =~= raw@.subrange(at as int, at + 32));
    out
}

fn sixty_four(raw: &Vec<u8>, at: usize) -> (r: [u8; 64])
    requires
        at + 64 <= raw@.len(),
    ensures
        r@ == raw@.subrange(at as int, at + 64),
{
    let len: usize = raw.len();
    let mut out = [0u8; 64];
    let mut i: usize = 0;
    while i < 64
        invariant
            i <= 64,
            at + 64 <= len,
            len == raw@.len(),
            forall|j: int| 0 <= j < i ==> #[trigger] out@[j] == raw@[at + j],
        decreases 64 - i,
    {
        out[i] = raw[at + i];
        i = i + 1;
    }
    assert(out@ =~= raw@.subrange(at as int, at + 64));
    out
}

pub fn parse_public_key(file: &str) -> (r: Result<PublicKey, FerrumError>)
    ensures
        match r {
            Ok(k) => public_key(file@) == Ok::<Key, Problem>(k@),
            Err(e) => public_key(file@) == Err::<Key, Problem>(e@),
        },
{
    let lines = text::lines_of(file);
    let line = match find_key_line(&lines) {
        Some(l) => l,
        None => return Err(invalid("that is not a minisign public key")),
    };
    let raw = match codec::base64_decode(line.as_str()) {
        Some(raw) => raw,
        None => return Err(invalid("a minisign public key must be base64")),
    };
    if raw.len() != 42 {
        return Err(invalid("a minisign public key decodes to 42 bytes"));
    }
    if raw[0] != 0x45 || raw[1] != 0x64 {
        assert(raw@.take(2)[0] != legacy()[0] || raw@.take(2)[1] != legacy()[1]);
        return Err(invalid("unsupported minisign public key algorithm"));
    }
    assert(raw@.take(2) =~= legacy());
    Ok(PublicKey { key_id: eight(&raw, 2), key: thirty_two(&raw, 10) })
}

/// A signature file, taken apart.
#[derive(Debug)]
pub struct DetachedSignature {
    pub alg: [u8; 2],
    pub key_id: [u8; 8],
    pub signature: [u8; 64],
    pub trusted_comment: String,
    pub global: [u8; 64],
}

/// A [`DetachedSignature`] as contracts see it.
#[verifier::ext_equal]
pub struct Detached {
    pub alg: Seq<u8>,
    pub key_id: Seq<u8>,
    pub signature: Seq<u8>,
    pub trusted_comment: Seq<char>,
    pub global: Seq<u8>,
}

impl View for DetachedSignature {
    type V = Detached;

    open spec fn view(&self) -> Detached {
        Detached {
            alg: self.alg@,
            key_id: self.key_id@,
            signature: self.signature@,
            trusted_comment: self.trusted_comment@,
            global: self.global@,
        }
    }
}

pub open spec fn malformed_problem(detail: Seq<char>) -> Problem {
    error::problem(ErrorCode::InvalidInput, "malformed minisign signature: "@ + detail)
}

fn malformed(detail: &str) -> (r: FerrumError)
    ensures
        r@ == malformed_problem(detail@),
{
    let mut m = "malformed minisign signature: ".to_owned();
    m.append(detail);
    invalid(m.as_str())
}

/// A line of a file, or nothing past its end.
pub open spec fn line_at(lines: Seq<Seq<char>>, i: int) -> Seq<char> {
    if 0 <= i < lines.len() {
        lines[i]
    } else {
        Seq::empty()
    }
}

/// What a signature file holds. Its first line is covered by no signature, and
/// is not read.
pub open spec fn detached(file: Seq<char>) -> Result<Detached, Problem> {
    let lines = text::lines(file);
    let comment = line_at(lines, 2);
    let lead = "trusted comment: "@;
    match codec::base64_bytes(text::trim(line_at(lines, 1))) {
        None => Err(malformed_problem("the signature line is not base64"@)),
        Some(raw) => if raw.len() != 74 {
            Err(malformed_problem("the signature line decodes to 74 bytes"@))
        } else if !text::starts_with(comment, lead) {
            Err(malformed_problem("the trusted comment line is missing"@))
        } else {
            match codec::base64_bytes(text::trim(line_at(lines, 3))) {
                None => Err(malformed_problem("the global signature is not base64"@)),
                Some(global) => if global.len() != 64 {
                    Err(malformed_problem("the global signature decodes to 64 bytes"@))
                } else {
                    Ok(
                        Detached {
                            alg: raw.take(2),
                            key_id: raw.subrange(2, 10),
                            signature: raw.subrange(10, 74),
                            trusted_comment: comment.skip(lead.len() as int),
                            global,
                        },
                    )
                },
            }
        },
    }
}

fn line_of(lines: &Vec<String>, i: usize) -> (r: String)
    ensures
        r@ == line_at(text::texts(lines@), i as int),
{
    if i < lines.len() {
        lines[i].as_str().to_owned()
    } else {
        String::new()
    }
}

pub fn parse_signature(file: &str) -> (r: Result<DetachedSignature, FerrumError>)
    ensures
        match r {
            Ok(d) => detached(file@) == Ok::<Detached, Problem>(d@),
            Err(e) => detached(file@) == Err::<Detached, Problem>(e@),
        },
{
    let lines = text::lines_of(file);
    let sig_line = text::trimmed(line_of(&lines, 1).as_str());
    let comment = line_of(&lines, 2);
    let global_line = text::trimmed(line_of(&lines, 3).as_str());
    let raw = match codec::base64_decode(sig_line.as_str()) {
        Some(raw) => raw,
        None => return Err(malformed("the signature line is not base64")),
    };
    if raw.len() != 74 {
        return Err(malformed("the signature line decodes to 74 bytes"));
    }
    if !text::has_prefix(comment.as_str(), "trusted comment: ") {
        return Err(malformed("the trusted comment line is missing"));
    }
    let global_raw = match codec::base64_decode(global_line.as_str()) {
        Some(raw) => raw,
        None => return Err(malformed("the global signature is not base64")),
    };
    if global_raw.len() != 64 {
        return Err(malformed("the global signature decodes to 64 bytes"));
    }
    let v = text::chars_of(comment.as_str());
    let lead: usize = "trusted comment: ".unicode_len();
    let trusted_comment = text::string_of(v.as_slice(), lead, v.len());
    assert(trusted_comment@ =~= comment@.skip(lead as int));
    let alg = [raw[0], raw[1]];
    assert(alg@ =~= raw@.take(2));
    let global = sixty_four(&global_raw, 0);
    assert(global@ =~= global_raw@);
    Ok(
        DetachedSignature {
            alg,
            key_id: eight(&raw, 2),
            signature: sixty_four(&raw, 10),
            trusted_comment,
            global,
        },
    )
}

/// The first of the keys with an id.
pub open spec fn key_with_id(keys: Seq<Key>, id: Seq<u8>) -> Option<Key>
    decreases keys.len(),
{
    if keys.len() == 0 {
        None
    } else if keys[0].key_id == id {
        Some(keys[0])
    } else {
        key_with_id(keys.skip(1), id)
    }
}

fn same_id(a: &[u8; 8], b: &[u8; 8]) -> (r: bool)
    ensures
        r == (a@ == b@),
{
    let mut i: usize = 0;
    while i < 8
        invariant
            i <= 8,
            forall|j: int| 0 <= j < i ==> #[trigger] a@[j] == b@[j],
        decreases 8 - i,
    {
        if a[i] != b[i] {
            assert(a@[i as int] != b@[i as int]);
            return false;
        }
        i = i + 1;
    }
    assert(a@ =~= b@);
    true
}

fn find_key(keys: &Vec<PublicKey>, id: &[u8; 8]) -> (r: Option<PublicKey>)
    ensures
        match r {
            Some(k) => key_with_id(key_views(keys@), id@) == Some(k@),
            None => key_with_id(key_views(keys@), id@) is None,
        },
{
    let ghost all = key_views(keys@);
    let mut i: usize = 0;
    assert(all.skip(0) =~= all);
    while i < keys.len()
        invariant
            i <= keys@.len(),
            all == key_views(keys@),
            key_with_id(all, id@) == key_with_id(all.skip(i as int), id@),
        decreases keys@.len() - i,
    {
        let ghost rest = all.skip(i as int);
        assert(rest[0] == keys@[i as int]@);
        assert(rest.skip(1) =~= all.skip(i + 1));
        if same_id(&keys[i].key_id, id) {
            return Some(keys[i]);
        }
        i = i + 1;
    }
    assert(all.skip(i as int).len() == 0);
    None
}

/// What the checks on a signature found.
#[derive(Debug, Clone, Copy, PartialEq, Eq, Structural)]
pub struct Findings {
    /// A trusted key has the id that the signature names.
    pub trusted: bool,
    /// That key is a key.
    pub valid: bool,
    /// It made the signature over the message.
    pub message: bool,
    /// It made the global signature.
    pub comment: bool,
}

pub open spec fn denied(detail: Seq<char>) -> Problem {
    error::problem(ErrorCode::PermissionDenied, detail)
}

/// The trusted comment, if nothing was found against the signature; else what
/// comes first.
pub open spec fn judgement(d: Detached, f: Findings) -> Result<Seq<char>, Problem> {
    if !f.trusted {
        Err(denied("this plugin is signed by a key this panel does not trust"@))
    } else if !f.valid {
        Err(
            error::problem(
                ErrorCode::InvalidInput,
                "the trusted key is not a valid ed25519 key"@,
            ),
        )
    } else if d.alg != legacy() && d.alg != prehashed() {
        Err(malformed_problem("unsupported signature algorithm"@))
    } else if !f.message {
        Err(denied("the plugin manifest does not match its signature"@))
    } else if !f.comment {
        Err(denied("the signature's trusted comment has been tampered with"@))
    } else {
        Ok(d.trusted_comment)
    }
}

fn is_alg(alg: &[u8; 2], second: u8) -> (r: bool)
    ensures
        r == (alg@ == seq![0x45u8, second]),
{
    let r = alg[0] == 0x45 && alg[1] == second;
    proof {
        if r {
            assert(alg@ =~= seq![0x45u8, second]);
        } else {
            assert(alg@[0] != 0x45 || alg@[1] != second);
            assert(seq![0x45u8, second][0] == 0x45 && seq![0x45u8, second][1] == second);
        }
    }
    r
}

/// Judges a signature by what the checks found.
pub fn judge(d: &DetachedSignature, f: Findings) -> (r: Result<String, FerrumError>)
    ensures
        error::outcome(r) == judgement(d@, f),
{
    if !f.trusted {
        return Err(
            FerrumError::new(
                ErrorCode::PermissionDenied,
                "this plugin is signed by a key this panel does not trust",
            ),
        );
    }
    if !f.valid {
        return Err(invalid("the trusted key is not a valid ed25519 key"));
    }
    if !is_alg(&d.alg, 0x64) && !is_alg(&d.alg, 0x44) {
        return Err(malformed("unsupported signature algorithm"));
    }
    if !f.message {
        return Err(
            FerrumError::new(
                ErrorCode::PermissionDenied,
                "the plugin manifest does not match its signature",
            ),
        );
    }
    if !f.comment {
        return Err(
            FerrumError::new(
                ErrorCode::PermissionDenied,
                "the signature's trusted comment has been tampered with",
            ),
        );
    }
    Ok(d.trusted_comment.as_str().to_owned())
}

/// The bytes that the signature is over.
pub open spec fn signed_bytes(message: Seq<u8>, alg: Seq<u8>) -> Seq<u8> {
    if alg == legacy() {
        message
    } else {
        codec::blake2b512(message)
    }
}

/// The bytes that the global signature is over.
pub open spec fn global_bytes(d: Detached) -> Seq<u8> {
    d.signature + vstd::utf8::encode_utf8(d.trusted_comment)
}

/// What the checks find.
pub open spec fn findings(message: Seq<u8>, d: Detached, keys: Seq<Key>) -> Findings {
    let key = key_with_id(keys, d.key_id);
    let bytes = key->0.key;
    let valid = key is Some && codec::ed25519_key(bytes);
    Findings {
        trusted: key is Some,
        valid,
        message: valid && codec::ed25519_verifies(
            bytes,
            signed_bytes(message, d.alg),
            d.signature,
        ),
        comment: valid && codec::ed25519_verifies(bytes, global_bytes(d), d.global),
    }
}

/// What verifying a signature file over a message comes to.
pub open spec fn verified(message: Seq<u8>, file: Seq<char>, keys: Seq<Key>) -> Result<
    Seq<char>,
    Problem,
> {
    match detached(file) {
        Err(p) => Err(p),
        Ok(d) => judgement(d, findings(message, d, keys)),
    }
}

fn global_message(d: &DetachedSignature) -> (r: Vec<u8>)
    ensures
        r@ == global_bytes(d@),
{
    let mut out: Vec<u8> = Vec::new();
    let mut i: usize = 0;
    while i < 64
        invariant
            i <= 64,
            out@ == d.signature@.take(i as int),
        decreases 64 - i,
    {
        out.push(d.signature[i]);
        assert(out@ =~= d.signature@.take(i + 1));
        i = i + 1;
    }
    assert(out@ =~= d.signature@);
    let comment = d.trusted_comment.as_str().as_bytes();
    let ghost bytes = vstd::utf8::encode_utf8(d.trusted_comment@);
    assert(comment@ == bytes);
    let mut j: usize = 0;
    assert(bytes.take(0) =~= Seq::<u8>::empty());
    while j < comment.len()
        invariant
            j <= comment@.len(),
            comment@ == bytes,
            out@ == d.signature@ + bytes.take(j as int),
        decreases comment@.len() - j,
    {
        out.push(comment[j]);
        assert(out@ =~= d.signature@ + bytes.take(j + 1));
        j = j + 1;
    }
    assert(bytes.take(j as int) =~= bytes);
    out
}

/// Verifies a signature file over a message against any of the keys, and gives
/// the trusted comment.
pub fn verify(message: &[u8], file: &str, keys: &Vec<PublicKey>) -> (r: Result<
    String,
    FerrumError,
>)
    ensures
        error::outcome(r) == verified(message@, file@, key_views(keys@)),
{
    let d = match parse_signature(file) {
        Ok(d) => d,
        Err(e) => return Err(e),
    };
    let key = match find_key(keys, &d.key_id) {
        Some(k) => k,
        None => {
            return judge(
                &d,
                Findings { trusted: false, valid: false, message: false, comment: false },
            )
        },
    };
    if !codec::ed25519_key_accepted(&key.key) {
        return judge(
            &d,
            Findings { trusted: true, valid: false, message: false, comment: false },
        );
    }
    let over_message = if is_alg(&d.alg, 0x64) {
        codec::ed25519_verify(&key.key, message, &d.signature)
    } else {
        let digest = codec::blake2b512_digest(message);
        codec::ed25519_verify(&key.key, digest.as_slice(), &d.signature)
    };
    let global = global_message(&d);
    let over_comment = codec::ed25519_verify(&key.key, global.as_slice(), &d.global);
    judge(
        &d,
        Findings { trusted: true, valid: true, message: over_message, comment: over_comment },
    )
}

} // verus!
