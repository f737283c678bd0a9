//! The per-account SSH key manager.
//!
//! One block inside a tenant's `~/.ssh/authorized_keys`, between two marker
//! lines, belongs to the panel; every character outside it is the tenant's own and
//! is carried over. A file in which the block cannot be told apart (a marker
//! without its partner) is refused, never repaired.
use vstd::prelude::*;
use vstd::slice::slice_subrange;
use vstd::string::StringExecFns;
use vstd::string::StrSliceExecFns;
use crate::codec;
use crate::error;
use crate::error::{ErrorCode, FerrumError, Problem};
use crate::text;

pub mod accepting;
pub mod laws;
pub mod ops;

verus! {

/// The line that opens the managed block.
pub const BEGIN_MARKER: &'static str = "# ---- BEGIN FERRUM-MANAGED KEYS ----";

/// The line that closes it.
pub const END_MARKER: &'static str = "# ---- END FERRUM-MANAGED KEYS ----";

/// How many keys one account may hold.
pub const MAX_KEYS: usize = 32;

/// The longest line accepted, in bytes.
pub const MAX_KEY_CHARS: usize = 8192;

/// The longest comment accepted, in characters.
pub const MAX_COMMENT_CHARS: usize = 255;

/// The smallest RSA modulus accepted.
pub const MIN_RSA_BITS: usize = 2048;

/// How much of a caller's text an error message repeats, in characters.
pub const MESSAGE_CHARS: usize = 40;

// ---------------------------------------------------------------------------
// Keys
// ---------------------------------------------------------------------------

/// One public key, in the only form that is stored.
#[derive(Debug, Clone, PartialEq, Eq)]
pub struct SshPublicKey {
    pub algorithm: String,
    pub blob: Vec<u8>,
    pub comment: Option<String>,
}

/// A public key as contracts see it.
#[verifier::ext_equal]
pub struct Key {
    pub algorithm: Seq<char>,
    pub blob: Seq<u8>,
    pub comment: Option<Seq<char>>,
}

impl View for SshPublicKey {
    type V = Key;

    open spec fn view(&self) -> Key {
        Key {
            algorithm: self.algorithm@,
            blob: self.blob@,
            comment: error::opt_text(self.comment),
        }
    }
}

impl DeepView for SshPublicKey {
    type V = Key;

    open spec fn deep_view(&self) -> Key {
        self@
    }
}

/// The keys of a list, as contracts see them.
pub open spec fn models(keys: Seq<SshPublicKey>) -> Seq<Key> {
    keys.map_values(|k: SshPublicKey| k@)
}

/// The algorithms whose keys are stored. DSA is not among them.
pub open spec fn is_allowed(algorithm: Seq<char>) -> bool {
    ||| algorithm == "ssh-ed25519"@
    ||| algorithm == "sk-ssh-ed25519@openssh.com"@
    ||| is_rsa(algorithm)
    ||| algorithm == "ecdsa-sha2-nistp256"@
    ||| algorithm == "ecdsa-sha2-nistp384"@
    ||| algorithm == "ecdsa-sha2-nistp521"@
    ||| algorithm == "sk-ecdsa-sha2-nistp256@openssh.com"@
}

pub open spec fn is_rsa(algorithm: Seq<char>) -> bool {
    ||| algorithm == "ssh-rsa"@
    ||| algorithm == "rsa-sha2-256"@
    ||| algorithm == "rsa-sha2-512"@
}

fn rsa(algorithm: &str) -> (r: bool)
    ensures
        r == is_rsa(algorithm@),
{
    text::same(algorithm, "ssh-rsa") || text::same(algorithm, "rsa-sha2-256") || text::same(
        algorithm,
        "rsa-sha2-512",
    )
}

fn allowed(algorithm: &str) -> (r: bool)
    ensures
        r == is_allowed(algorithm@),
{
    text::same(algorithm, "ssh-ed25519") || text::same(algorithm, "sk-ssh-ed25519@openssh.com")
        || rsa(algorithm) || text::same(algorithm, "ecdsa-sha2-nistp256") || text::same(
        algorithm,
        "ecdsa-sha2-nistp384",
    ) || text::same(algorithm, "ecdsa-sha2-nistp521") || text::same(
        algorithm,
        "sk-ecdsa-sha2-nistp256@openssh.com",
    )
}

/// The line of `authorized_keys` that holds a key.
pub open spec fn key_line(key: Key) -> Seq<char> {
    match key.comment {
        Some(c) => key.algorithm + " "@ + codec::base64_text(key.blob) + " "@ + c,
        None => key.algorithm + " "@ + codec::base64_text(key.blob),
    }
}

/// The `SHA256:` fingerprint as `ssh-keygen -l` prints it.
pub open spec fn key_fingerprint(blob: Seq<u8>) -> Seq<char> {
    "SHA256:"@ + codec::base64_unpadded(codec::sha256(blob))
}

/// The size of a key, where it has a meaning.
pub open spec fn key_bits(key: Key) -> Option<int> {
    if key.algorithm == "ssh-ed25519"@ || key.algorithm == "sk-ssh-ed25519@openssh.com"@ {
        Some(256int)
    } else if key.algorithm == "ecdsa-sha2-nistp256"@ || key.algorithm
        == "sk-ecdsa-sha2-nistp256@openssh.com"@ {
        Some(256int)
    } else if key.algorithm == "ecdsa-sha2-nistp384"@ {
        Some(384int)
    } else if key.algorithm == "ecdsa-sha2-nistp521"@ {
        Some(521int)
    } else if is_rsa(key.algorithm) {
        modulus_bits(key.blob)
    } else {
        None
    }
}

impl SshPublicKey {
    /// The canonical line, made from the parts of the key.
    pub fn line(&self) -> (r: String)
        requires
            (self.blob@.len() + 2) / 3 * 4 <= isize::MAX,
        ensures
            r@ == key_line(self@),
    {
        let mut out = self.algorithm.as_str().to_owned();
        out.append(" ");
        let encoded = codec::base64_encode(self.blob.as_slice());
        out.append(encoded.as_str());
        if let Some(c) = &self.comment {
            out.append(" ");
            out.append(c.as_str());
        }
        out
    }

    pub fn fingerprint(&self) -> (r: String)
        ensures
            r@ == key_fingerprint(self@.blob),
    {
        let digest = codec::sha256_digest(self.blob.as_slice());
        let encoded = codec::base64_encode_unpadded(digest.as_slice());
        let mut out = "SHA256:".to_owned();
        out.append(encoded.as_str());
        out
    }

    pub fn bits(&self) -> (r: Option<usize>)
        requires
            self.blob@.len() * 8 <= usize::MAX,
        ensures
            match r {
                Some(n) => key_bits(self@) == Some(n as int),
                None => key_bits(self@) is None,
            },
    {
        let a = self.algorithm.as_str();
        if text::same(a, "ssh-ed25519") || text::same(a, "sk-ssh-ed25519@openssh.com") {
            Some(256)
        } else if text::same(a, "ecdsa-sha2-nistp256") || text::same(
            a,
            "sk-ecdsa-sha2-nistp256@openssh.com",
        ) {
            Some(256)
        } else if text::same(a, "ecdsa-sha2-nistp384") {
            Some(384)
        } else if text::same(a, "ecdsa-sha2-nistp521") {
            Some(521)
        } else if rsa(a) {
            rsa_bits(self.blob.as_slice())
        } else {
            None
        }
    }
}

// ---------------------------------------------------------------------------
// The wire format
// ---------------------------------------------------------------------------

/// Four bytes, most significant first.
pub open spec fn big_endian(b: Seq<u8>, at: int) -> int {
    b[at] as int * 0x100_0000 + b[at + 1] as int * 0x1_0000 + b[at + 2] as int * 0x100
        + b[at + 3] as int
}

/// The wire string at `at` (a length of four bytes, then that many bytes) and
/// where the next one starts; `None` if it does not fit in the blob.
pub open spec fn wire_string(blob: Seq<u8>, at: int) -> Option<(Seq<u8>, int)> {
    if blob.len() < at + 4 {
        None
    } else {
        let end = at + 4 + big_endian(blob, at);
        if blob.len() < end {
            None
        } else {
            Some((blob.subrange(at + 4, end), end))
        }
    }
}

/// Reads one wire string.
pub fn read_ssh_string(blob: &[u8], offset: usize) -> (r: Option<(&[u8], usize)>)
    ensures
        match r {
            Some((s, end)) => wire_string(blob@, offset as int) == Some((s@, end as int)),
            None => wire_string(blob@, offset as int) is None,
        },
{
    let n: usize = blob.len();
    if n < 4 || offset > n - 4 {
        return None;
    }
    let len: u32 = blob[offset] as u32 * 0x100_0000 + blob[offset + 1] as u32 * 0x1_0000
        + blob[offset + 2] as u32 * 0x100 + blob[offset + 3] as u32;
    let start: usize = offset + 4;
    if len as usize > n - start {
        return None;
    }
    let end: usize = start + len as usize;
    Some((slice_subrange(blob, start, end), end))
}

/// The bytes from the first one that is not zero.
pub open spec fn significant(n: Seq<u8>) -> Seq<u8>
    decreases n.len(),
{
    if n.len() > 0 && n[0] == 0 {
        significant(n.skip(1))
    } else {
        n
    }
}

/// How many binary digits a number has.
pub open spec fn bit_length(n: nat) -> nat
    decreases n,
{
    if n == 0 {
        0
    } else {
        1 + bit_length(n / 2)
    }
}

/// The size of the modulus in an RSA blob, whose wire strings are the type,
/// the exponent and the modulus.
pub open spec fn modulus_bits(blob: Seq<u8>) -> Option<int> {
    if let Some((_, after_type)) = wire_string(blob, 0) {
        if let Some((_, after_e)) = wire_string(blob, after_type) {
            if let Some((n, _)) = wire_string(blob, after_e) {
                let s = significant(n);
                if s.len() == 0 {
                    None
                } else {
                    Some((s.len() - 1) * 8 + bit_length(s[0] as nat))
                }
            } else {
                None
            }
        } else {
            None
        }
    } else {
        None
    }
}

fn byte_length(b: u8) -> (r: usize)
    ensures
        r == bit_length(b as nat),
        r <= 8,
{
    proof {
        reveal_with_fuel(bit_length, 9);
    }
    if b >= 128 {
        8
    } else if b >= 64 {
        7
    } else if b >= 32 {
        6
    } else if b >= 16 {
        5
    } else if b >= 8 {
        4
    } else if b >= 4 {
        3
    } else if b >= 2 {
        2
    } else if b >= 1 {
        1
    } else {
        0
    }
}

/// The size of the modulus of an RSA key.
pub fn rsa_bits(blob: &[u8]) -> (r: Option<usize>)
    requires
        blob@.len() * 8 <= usize::MAX,
    ensures
        match r {
            Some(n) => modulus_bits(blob@) == Some(n as int),
            None => modulus_bits(blob@) is None,
        },
{
    let after_type: usize = match read_ssh_string(blob, 0) {
        Some((_, end)) => end,
        None => return None,
    };
    let after_e: usize = match read_ssh_string(blob, after_type) {
        Some((_, end)) => end,
        None => return None,
    };
    let n = match read_ssh_string(blob, after_e) {
        Some((s, _)) => s,
        None => return None,
    };
    let mut i: usize = 0;
    assert(n@.skip(0) =~= n@);
    while i < n.len() && n[i] == 0
        invariant
            i <= n@.len(),
            significant(n@.skip(i as int)) == significant(n@),
        decreases n@.len() - i,
    {
        assert(n@.skip(i as int).skip(1) =~= n@.skip(i + 1));
        i = i + 1;
    }
    if i == n.len() {
        return None;
    }
    assert(significant(n@) == n@.skip(i as int));
    let rest: usize = n.len() - i;
    assert(n@.len() <= blob@.len());
    Some((rest - 1) * 8 + byte_length(n[i]))
}

// ---------------------------------------------------------------------------
// Parsing
// ---------------------------------------------------------------------------

pub open spec fn invalid_key(detail: Seq<char>) -> Problem {
    error::field_problem(ErrorCode::InvalidInput, detail, "key"@)
}

fn invalid(detail: &str) -> (r: FerrumError)
    ensures
        r@ == invalid_key(detail@),
{
    FerrumError::new(ErrorCode::InvalidInput, detail).with_field("key")
}

/// Without the control characters.
pub open spec fn printable(s: Seq<char>) -> Seq<char>
    decreases s.len(),
{
    if s.len() == 0 {
        s
    } else if text::is_control(s.last()) {
        printable(s.drop_last())
    } else {
        printable(s.drop_last()).push(s.last())
    }
}

/// What an error message repeats of a caller's text.
pub open spec fn shortened(s: Seq<char>) -> Seq<char> {
    let p = printable(s);
    if p.len() > MESSAGE_CHARS {
        p.take(MESSAGE_CHARS as int)
    } else {
        p
    }
}

/// Keeps an error message from repeating a whole pasted text.
pub fn truncate_for_message(s: &str) -> (r: String)
    ensures
        r@ == shortened(s@),
{
    let v = text::chars_of(s);
    let mut kept: Vec<char> = Vec::new();
    let mut i: usize = 0;
    while i < v.len()
        invariant
            i <= v@.len(),
            kept@ == printable(v@.take(i as int)),
            kept@.len() <= i,
        decreases v@.len() - i,
    {
        let ghost next = v@.take(i + 1);
        assert(next.drop_last() =~= v@.take(i as int));
        assert(next.last() == v@[i as int]);
        if !text::char_is_control(v[i]) {
            kept.push(v[i]);
        }
        i = i + 1;
    }
    assert(v@.take(i as int) =~= s@);
    let n: usize = if kept.len() > MESSAGE_CHARS {
        MESSAGE_CHARS
    } else {
        kept.len()
    };
    let out = text::string_of(kept.as_slice(), 0, n);
    assert(out@ =~= shortened(s@));
    out
}

/// The three fields of a trimmed line: the part before the first white space,
/// the part before the second, and the rest, trimmed, unless it is blank.
pub open spec fn fields(line: Seq<char>) -> (Seq<char>, Seq<char>, Option<Seq<char>>) {
    match text::split_space(line) {
        None => (line, Seq::empty(), None),
        Some((algorithm, rest)) => match text::split_space(rest) {
            None => (algorithm, rest, None),
            Some((body, tail)) => {
                let comment = text::trim(tail);
                (
                    algorithm,
                    body,
                    if comment.len() == 0 {
                        None
                    } else {
                        Some(comment)
                    },
                )
            },
        },
    }
}

pub open spec fn has_control(s: Seq<char>) -> bool {
    exists|i: int| 0 <= i < s.len() && text::is_control(#[trigger] s[i])
}

/// The checks on the bytes of a key whose line starts with `algorithm`.
pub open spec fn blob_problem(algorithm: Seq<char>, blob: Seq<u8>) -> Option<Problem> {
    match wire_string(blob, 0) {
        None => Some(invalid_key("the key body is not an SSH public key"@)),
        Some((declared, _)) => if !vstd::utf8::valid_utf8(declared) {
            Some(invalid_key("the key body is not an SSH public key"@))
        } else {
            let said = vstd::utf8::decode_utf8(declared);
            if said != algorithm {
                Some(
                    invalid_key(
                        "the key body says `"@ + shortened(said) + "` but the line says `"@
                            + shortened(algorithm) + "`"@,
                    ),
                )
            } else if is_rsa(algorithm) {
                match modulus_bits(blob) {
                    None => Some(invalid_key("the RSA key body is malformed"@)),
                    Some(bits) => if bits < MIN_RSA_BITS {
                        Some(
                            invalid_key(
                                "this RSA key is "@ + text::decimal(bits as nat)
                                    + " bits; 2048 is the minimum"@,
                            ),
                        )
                    } else {
                        None
                    },
                }
            } else {
                None
            }
        },
    }
}

/// What a line of `authorized_keys` is read as.
pub open spec fn key_of(input: Seq<char>) -> Result<Key, Problem> {
    let line = text::trim(input);
    let (algorithm, body, comment) = fields(line);
    if vstd::utf8::encode_utf8(input).len() > MAX_KEY_CHARS {
        Err(invalid_key("a public key must be under 8192 characters"@))
    } else if has_control(input) {
        Err(
            invalid_key(
                "a public key is a single line; control characters are not allowed"@,
            ),
        )
    } else if line.len() == 0 {
        Err(invalid_key("no key was given"@))
    } else if !is_allowed(algorithm) {
        Err(
            invalid_key(
                "`"@ + shortened(algorithm)
                    + "` is not a supported key type — the line must start with the algorithm (options such as command= are not accepted)"@,
            ),
        )
    } else if body.len() == 0 {
        Err(invalid_key("the key has no body"@))
    } else {
        match codec::base64_bytes(body) {
            None => Err(invalid_key("the key body is not valid base64"@)),
            Some(blob) => match blob_problem(algorithm, blob) {
                Some(p) => Err(p),
                None => if comment is Some && comment.unwrap().len() > MAX_COMMENT_CHARS {
                    Err(invalid_key("the key comment must be under 255 characters"@))
                } else {
                    Ok(Key { algorithm, blob, comment })
                },
            },
        }
    }
}

fn any_control(v: &Vec<char>) -> (r: bool)
    ensures
        r == has_control(v@),
{
    let mut i: usize = 0;
    while i < v.len()
        invariant
            i <= v@.len(),
            forall|j: int| 0 <= j < i ==> !text::is_control(#[trigger] v@[j]),
        decreases v@.len() - i,
    {
        if text::char_is_control(v[i]) {
            assert(text::is_control(v@[i as int]));
            return true;
        }
        i = i + 1;
    }
    false
}

fn check_blob(algorithm: &str, blob: &Vec<u8>) -> (r: Option<FerrumError>)
    requires
        blob@.len() * 8 <= usize::MAX,
    ensures
        match r {
            Some(e) => blob_problem(algorithm@, blob@) == Some(e@),
            None => blob_problem(algorithm@, blob@) is None,
        },
{
    let declared = match read_ssh_string(blob.as_slice(), 0) {
        Some((s, _)) => s,
        None => return Some(invalid("the key body is not an SSH public key")),
    };
    let said = match codec::utf8_text(declared) {
        Some(s) => s,
        None => return Some(invalid("the key body is not an SSH public key")),
    };
    if !text::same(said.as_str(), algorithm) {
        let mut detail = "the key body says `".to_owned();
        let a = truncate_for_message(said.as_str());
        detail.append(a.as_str());
        detail.append("` but the line says `");
        let b = truncate_for_message(algorithm);
        detail.append(b.as_str());
        detail.append("`");
        return Some(invalid(detail.as_str()));
    }
    if rsa(algorithm) {
        let bits: usize = match rsa_bits(blob.as_slice()) {
            Some(bits) => bits,
            None => return Some(invalid("the RSA key body is malformed")),
        };
        if bits < MIN_RSA_BITS {
            let mut detail = "this RSA key is ".to_owned();
            let digits = text::decimal_of(bits as u64);
            detail.append(digits.as_str());
            detail.append(" bits; 2048 is the minimum");
            return Some(invalid(detail.as_str()));
        }
    }
    None
}

/// Reads one line of `authorized_keys`, strictly: the first field must be a
/// known algorithm, so that no line with options is a key, and the body must
/// agree with it.
#[verifier::rlimit(40)]
pub fn parse_authorized_key(input: &str) -> (r: Result<SshPublicKey, FerrumError>)
    ensures
        error::outcome(r) == key_of(input@),
        r matches Ok(key) ==> key.blob@.len() <= MAX_KEY_CHARS,
{
    if text::utf8_len(input) > MAX_KEY_CHARS {
        return Err(invalid("a public key must be under 8192 characters"));
    }
    let all = text::chars_of(input);
    if any_control(&all) {
        return Err(
            invalid("a public key is a single line; control characters are not allowed"),
        );
    }
    let line = text::trimmed(input);
    let v = text::chars_of(line.as_str());
    let n: usize = v.len();
    if n == 0 {
        return Err(invalid("no key was given"));
    }
    let first: usize = text::find_space(v.as_slice(), 0, n);
    let algorithm = text::string_of(v.as_slice(), 0, first);
    let ghost line = line@;
    proof {
        assert(v@.subrange(0, n as int) =~= line);
        text::lemma_before_space(line);
        assert(algorithm@ =~= line.take(first as int));
    }
    let mut body = String::new();
    let mut comment: Option<String> = None;
    if first < n {
        let second: usize = text::find_space(v.as_slice(), first + 1, n);
        body = text::string_of(v.as_slice(), first + 1, second);
        let ghost rest = line.skip(first + 1);
        proof {
            assert(v@.subrange(first + 1, n as int) =~= rest);
            text::lemma_before_space(rest);
            assert(body@ =~= rest.take(second - first - 1));
        }
        if second < n {
            let tail = text::string_of(v.as_slice(), second + 1, n);
            assert(tail@ =~= rest.skip(second - first));
            let c = text::trimmed(tail.as_str());
            if c.unicode_len() > 0 {
                comment = Some(c);
            }
        } else {
            assert(rest.take(second - first - 1) =~= rest);
        }
    } else {
        assert(line.take(first as int) =~= line);
    }
    assert(fields(line) == (algorithm@, body@, error::opt_text(comment)));
    if !allowed(algorithm.as_str()) {
        let mut detail = "`".to_owned();
        let shown = truncate_for_message(algorithm.as_str());
        detail.append(shown.as_str());
        detail.append(
            "` is not a supported key type — the line must start with the algorithm (options such as command= are not accepted)",
        );
        return Err(invalid(detail.as_str()));
    }
    if body.unicode_len() == 0 {
        return Err(invalid("the key has no body"));
    }
    let blob = match codec::base64_decode(body.as_str()) {
        Some(blob) => blob,
        None => return Err(invalid("the key body is not valid base64")),
    };
    proof {
        text::lemma_utf8_len(input@);
        text::lemma_trim_len(input@);
        codec::lemma_base64_text(blob@);
    }
    if let Some(e) = check_blob(algorithm.as_str(), &blob) {
        return Err(e);
    }
    if let Some(c) = &comment {
        if c.as_str().unicode_len() > MAX_COMMENT_CHARS {
            return Err(invalid("the key comment must be under 255 characters"));
        }
    }
    Ok(SshPublicKey { algorithm, blob, comment })
}

// ---------------------------------------------------------------------------
// The managed block
// ---------------------------------------------------------------------------

pub open spec fn is_begin(line: Seq<char>) -> bool {
    text::trim(line) == BEGIN_MARKER@
}

pub open spec fn is_end(line: Seq<char>) -> bool {
    text::trim(line) == END_MARKER@
}

/// How many lines stand before the first begin marker.
pub open spec fn first_begin(ls: Seq<Seq<char>>) -> nat
    decreases ls.len(),
{
    if ls.len() == 0 || is_begin(ls[0]) {
        0
    } else {
        1 + first_begin(ls.skip(1))
    }
}

/// How many lines stand before the first end marker.
pub open spec fn first_end(ls: Seq<Seq<char>>) -> nat
    decreases ls.len(),
{
    if ls.len() == 0 || is_end(ls[0]) {
        0
    } else {
        1 + first_end(ls.skip(1))
    }
}

pub open spec fn orphan_end() -> Problem {
    error::problem(
        ErrorCode::ConfigDrift,
        "authorized_keys has a Ferrum end marker with no begin marker; fix the file by hand before the panel writes to it again"@,
    )
}

pub open spec fn unterminated() -> Problem {
    error::problem(
        ErrorCode::ConfigDrift,
        "authorized_keys has an unterminated Ferrum block; the panel will not guess where it ends — fix the file by hand first"@,
    )
}

/// The lines of the begin marker and of the end marker, if the file has a
/// block; an error if it has half a block.
pub open spec fn block_span(ls: Seq<Seq<char>>) -> Result<Option<(int, int)>, Problem> {
    let begin = first_begin(ls) as int;
    if begin >= ls.len() {
        if first_end(ls) < ls.len() {
            Err(orphan_end())
        } else {
            Ok(None)
        }
    } else {
        let rest = ls.skip(begin + 1);
        let offset = first_end(rest) as int;
        if offset >= rest.len() {
            Err(unterminated())
        } else {
            Ok(Some((begin, begin + 1 + offset)))
        }
    }
}

pub proof fn lemma_first_begin(ls: Seq<Seq<char>>)
    ensures
        first_begin(ls) <= ls.len(),
        first_begin(ls) < ls.len() ==> is_begin(ls[first_begin(ls) as int]),
        forall|i: int| 0 <= i < first_begin(ls) ==> !is_begin(#[trigger] ls[i]),
    decreases ls.len(),
{
    if ls.len() > 0 && !is_begin(ls[0]) {
        lemma_first_begin(ls.skip(1));
        assert forall|i: int| 0 <= i < first_begin(ls) implies !is_begin(#[trigger] ls[i]) by {
            if i > 0 {
                assert(ls.skip(1)[i - 1] == ls[i]);
            }
        }
    }
}

pub proof fn lemma_first_end(ls: Seq<Seq<char>>)
    ensures
        first_end(ls) <= ls.len(),
        first_end(ls) < ls.len() ==> is_end(ls[first_end(ls) as int]),
        forall|i: int| 0 <= i < first_end(ls) ==> !is_end(#[trigger] ls[i]),
    decreases ls.len(),
{
    if ls.len() > 0 && !is_end(ls[0]) {
        lemma_first_end(ls.skip(1));
        assert forall|i: int| 0 <= i < first_end(ls) implies !is_end(#[trigger] ls[i]) by {
            if i > 0 {
                assert(ls.skip(1)[i - 1] == ls[i]);
            }
        }
    }
}

/// Where the block of a file is.
#[derive(Debug, Clone, Copy, PartialEq, Eq)]
pub enum BlockSpan {
    /// The lines of the two markers.
    Present { begin: usize, end: usize },
    Absent,
}

pub open spec fn span_view(s: BlockSpan) -> Option<(int, int)> {
    match s {
        BlockSpan::Present { begin, end } => Some((begin as int, end as int)),
        BlockSpan::Absent => None,
    }
}

/// Finds the block.
pub fn find_block(lines: &Vec<String>) -> (r: Result<BlockSpan, FerrumError>)
    ensures
        match r {
            Ok(s) => block_span(text::texts(lines@)) == Ok::<Option<(int, int)>, Problem>(
                span_view(s),
            ),
            Err(e) => block_span(text::texts(lines@)) == Err::<Option<(int, int)>, Problem>(e@),
        },
{
    let ghost ls = text::texts(lines@);
    let n: usize = lines.len();
    let mut begin: usize = 0;
    let mut found = false;
    let mut any_end = false;
    assert(ls.skip(0) =~= ls);
    while begin < n && !found
        invariant
            begin <= n,
            n == lines@.len(),
            ls == text::texts(lines@),
            first_begin(ls) == begin + first_begin(ls.skip(begin as int)),
            found ==> begin < n && first_begin(ls) == begin,
            !any_end ==> first_end(ls) == begin + first_end(ls.skip(begin as int)),
            any_end ==> first_end(ls) < n,
        decreases n - begin + (if found { 0int } else { 1int }),
    {
        let ghost rest = ls.skip(begin as int);
        assert(rest[0] == lines@[begin as int]@);
        let line = text::trimmed(lines[begin].as_str());
        if text::same(line.as_str(), BEGIN_MARKER) {
            found = true;
        } else {
            assert(rest.skip(1) =~= ls.skip(begin + 1));
            if text::same(line.as_str(), END_MARKER) {
                any_end = true;
            }
            begin = begin + 1;
        }
    }
    proof {
        lemma_first_begin(ls.skip(begin as int));
        lemma_first_end(ls.skip(begin as int));
        lemma_first_end(ls);
    }
    if !found {
        if any_end {
            return Err(
                FerrumError::new(
                    ErrorCode::ConfigDrift,
                    "authorized_keys has a Ferrum end marker with no begin marker; fix the file by hand before the panel writes to it again",
                ),
            );
        }
        return Ok(BlockSpan::Absent);
    }
    let ghost rest = ls.skip(begin + 1);
    let mut end: usize = begin + 1;
    while end < n
        invariant
            begin < end <= n,
            n == lines@.len(),
            ls == text::texts(lines@),
            rest == ls.skip(begin + 1),
            first_begin(ls) == begin,
            first_end(rest) == end - begin - 1 + first_end(ls.skip(end as int)),
        decreases n - end,
    {
        let ghost here = ls.skip(end as int);
        assert(here[0] == lines@[end as int]@);
        let line = text::trimmed(lines[end].as_str());
        if text::same(line.as_str(), END_MARKER) {
            return Ok(BlockSpan::Present { begin, end });
        }
        assert(here.skip(1) =~= ls.skip(end + 1));
        end = end + 1;
    }
    Err(
        FerrumError::new(
            ErrorCode::ConfigDrift,
            "authorized_keys has an unterminated Ferrum block; the panel will not guess where it ends — fix the file by hand first",
        ),
    )
}

/// A line that holds a key, or should: neither blank nor a comment.
pub open spec fn is_key_line(line: Seq<char>) -> bool {
    let t = text::trim(line);
    t.len() > 0 && t[0] != '#'
}

fn key_line_text(line: &str) -> (r: (bool, String))
    ensures
        r.0 == is_key_line(line@),
        r.1@ == text::trim(line@),
{
    let t = text::trimmed(line);
    let yes = t.as_str().unicode_len() > 0 && t.as_str().get_char(0) != '#';
    (yes, t)
}

/// The keys on some lines, in order; the first line that should hold one and
/// does not decides the error.
pub open spec fn keys_on(ls: Seq<Seq<char>>) -> Result<Seq<Key>, Problem>
    decreases ls.len(),
{
    if ls.len() == 0 {
        Ok(Seq::empty())
    } else {
        match keys_on(ls.drop_last()) {
            Err(e) => Err(e),
            Ok(keys) => if is_key_line(ls.last()) {
                match key_of(text::trim(ls.last())) {
                    Ok(key) => Ok(keys.push(key)),
                    Err(e) => Err(e),
                }
            } else {
                Ok(keys)
            },
        }
    }
}

/// The keys in the block of a file.
pub open spec fn block_keys(contents: Seq<char>) -> Result<Seq<Key>, Problem> {
    let ls = text::lines(contents);
    match block_span(ls) {
        Err(e) => Err(e),
        Ok(None) => Ok(Seq::empty()),
        Ok(Some((begin, end))) => keys_on(ls.subrange(begin + 1, end)),
    }
}

proof fn lemma_keys_on_prefix(ls: Seq<Seq<char>>, n: int)
    requires
        0 <= n <= ls.len(),
        keys_on(ls.take(n)) is Err,
    ensures
        keys_on(ls) == keys_on(ls.take(n)),
    decreases ls.len() - n,
{
    if n < ls.len() {
        assert(ls.take(n + 1).drop_last() =~= ls.take(n));
        lemma_keys_on_prefix(ls, n + 1);
    } else {
        assert(ls.take(n) =~= ls);
    }
}

/// The keys currently in the managed block. A line in it that is no key is
/// reported, not dropped.
pub fn read_block(contents: &str) -> (r: Result<Vec<SshPublicKey>, FerrumError>)
    ensures
        match r {
            Ok(keys) => block_keys(contents@) == Ok::<Seq<Key>, Problem>(models(keys@)),
            Err(e) => block_keys(contents@) == Err::<Seq<Key>, Problem>(e@),
        },
{
    let lines = text::lines_of(contents);
    let ghost ls = text::texts(lines@);
    let span = match find_block(&lines) {
        Ok(s) => s,
        Err(e) => return Err(e),
    };
    let mut keys: Vec<SshPublicKey> = Vec::new();
    if let BlockSpan::Present { begin, end } = span {
        proof {
            lemma_first_begin(ls);
            lemma_first_end(ls.skip(begin + 1));
        }
        let ghost inside = ls.subrange(begin + 1, end as int);
        let mut i: usize = begin + 1;
        assert(inside.take(0) =~= Seq::<Seq<char>>::empty());
        assert(models(keys@) =~= Seq::<Key>::empty());
        while i < end
            invariant
                begin < i <= end < lines@.len(),
                ls == text::texts(lines@),
                ls == text::lines(contents@),
                block_span(ls) == Ok::<Option<(int, int)>, Problem>(
                    Some((begin as int, end as int)),
                ),
                inside == ls.subrange(begin + 1, end as int),
                keys_on(inside.take(i - begin - 1)) == Ok::<Seq<Key>, Problem>(models(keys@)),
            decreases end - i,
        {
            let ghost next = inside.take(i - begin);
            assert(next.drop_last() =~= inside.take(i - begin - 1));
            assert(next.last() == lines@[i as int]@);
            let (is_key, t) = key_line_text(lines[i].as_str());
            if is_key {
                match parse_authorized_key(t.as_str()) {
                    Ok(key) => {
                        let ghost before = keys@;
                        keys.push(key);
                        assert(models(keys@) =~= models(before).push(key@));
                    },
                    Err(e) => {
                        proof {
                            lemma_keys_on_prefix(inside, i - begin);
                        }
                        return Err(e);
                    },
                }
            }
            i = i + 1;
        }
        assert(inside.take(i - begin - 1) =~= inside);
    }
    assert(span is Absent ==> models(keys@) =~= Seq::<Key>::empty());
    Ok(keys)
}

/// Whether a key line stands outside the block.
pub open spec fn unmanaged_keys(contents: Seq<char>) -> Result<bool, Problem> {
    let ls = text::lines(contents);
    match block_span(ls) {
        Err(e) => Err(e),
        Ok(None) => Ok(exists|i: int| 0 <= i < ls.len() && is_key_line(#[trigger] ls[i])),
        Ok(Some((begin, end))) => Ok(
            exists|i: int|
                (0 <= i < begin || end < i < ls.len()) && is_key_line(#[trigger] ls[i]),
        ),
    }
}

/// True when the file holds key lines that the panel does not manage.
pub fn has_keys_outside_block(contents: &str) -> (r: Result<bool, FerrumError>)
    ensures
        match r {
            Ok(b) => unmanaged_keys(contents@) == Ok::<bool, Problem>(b),
            Err(e) => unmanaged_keys(contents@) == Err::<bool, Problem>(e@),
        },
{
    let lines = text::lines_of(contents);
    let ghost ls = text::texts(lines@);
    let n: usize = lines.len();
    let (begin, end): (usize, usize) = match find_block(&lines) {
        Err(e) => return Err(e),
        Ok(BlockSpan::Absent) => (n, n),
        Ok(BlockSpan::Present { begin, end }) => (begin, end),
    };
    let mut i: usize = 0;
    while i < n
        invariant
            i <= n,
            n == lines@.len(),
            ls == text::texts(lines@),
            ls == text::lines(contents@),
            match block_span(ls) {
                Err(_) => false,
                Ok(None) => begin == n,
                Ok(Some((b, e))) => begin == b && end == e,
            },
            forall|j: int|
                0 <= j < i && (j < begin || end < j) ==> !is_key_line(#[trigger] ls[j]),
        decreases n - i,
    {
        assert(ls[i as int] == lines@[i as int]@);
        if i < begin || end < i {
            let (yes, _) = key_line_text(lines[i].as_str());
            if yes {
                assert(is_key_line(ls[i as int]));
                return Ok(true);
            }
        }
        i = i + 1;
    }
    Ok(false)
}

/// The lines that stand for a block: its lines between the markers.
pub open spec fn with_markers(block: Seq<char>) -> Seq<Seq<char>> {
    seq![BEGIN_MARKER@] + text::lines(block) + seq![END_MARKER@]
}

/// A file of some lines, each ended.
pub open spec fn file_of(ls: Seq<Seq<char>>) -> Seq<char> {
    if ls.len() == 0 {
        Seq::empty()
    } else {
        text::join(ls, "\n"@) + "\n"@
    }
}

/// A block as it stands in a file.
pub open spec fn block_of(block: Seq<char>) -> Seq<char> {
    file_of(with_markers(block))
}

pub open spec fn is_blank(block: Seq<char>) -> bool {
    text::trim(block).len() == 0
}

pub open spec fn last_line_is_empty(s: Seq<char>) -> bool {
    text::lines(s).len() == 0 || text::lines(s).last().len() == 0
}

/// What stands above a block that is put at the end of a file: the file, its
/// last line ended, and an empty line if there is something above it.
pub open spec fn spaced(contents: Seq<char>) -> Seq<char> {
    let ended = if text::is_ended(contents) {
        contents
    } else {
        contents.push('\n')
    };
    if last_line_is_empty(contents) {
        ended
    } else {
        ended.push('\n')
    }
}

/// An empty line at the end, with something above it.
pub open spec fn is_spaced(s: Seq<char>) -> bool {
    &&& s.len() >= 2
    &&& s.last() == '\n'
    &&& s[s.len() - 2] == '\n'
    &&& !last_line_is_empty(s.drop_last())
}

/// What stands above a block at the end of a file, without the empty line that
/// sets the block off.
pub open spec fn unspaced(s: Seq<char>) -> Seq<char> {
    if is_spaced(s) {
        s.drop_last()
    } else {
        s
    }
}

/// What stands before the begin marker and behind the end marker, character for
/// character; in a file without a block, all of it and nothing.
pub open spec fn outside(contents: Seq<char>) -> (Seq<char>, Seq<char>) {
    match block_span(text::lines(contents)) {
        Ok(Some((begin, end))) => (
            contents.take(text::line_start(contents, begin as nat) as int),
            contents.skip(text::line_start(contents, (end + 1) as nat) as int),
        ),
        _ => (contents, Seq::empty()),
    }
}

/// A file with its block replaced. What is outside the block is not touched; an
/// empty line that sets a block off at the end of a file comes and goes with
/// the block.
pub open spec fn spliced(contents: Seq<char>, block: Seq<char>) -> Result<Seq<char>, Problem> {
    let (before, after) = outside(contents);
    match block_span(text::lines(contents)) {
        Err(e) => Err(e),
        Ok(Some(_)) => if !is_blank(block) {
            Ok(before + block_of(block) + after)
        } else if after.len() > 0 {
            Ok(before + after)
        } else {
            Ok(unspaced(before))
        },
        Ok(None) => if !is_blank(block) {
            Ok(spaced(contents) + block_of(block))
        } else {
            Ok(contents)
        },
    }
}

/// Appends copies of some of the lines.
fn carry(out: &mut Vec<String>, lines: &Vec<String>)
    ensures
        text::texts(final(out)@) == text::texts(old(out)@) + text::texts(lines@),
{
    let ghost start = text::texts(out@);
    let ghost ls = text::texts(lines@);
    let mut i: usize = 0;
    assert(text::texts(out@) =~= start + ls.take(0));
    while i < lines.len()
        invariant
            i <= lines@.len(),
            ls == text::texts(lines@),
            text::texts(out@) == start + ls.take(i as int),
        decreases lines@.len() - i,
    {
        let ghost before = out@;
        out.push(lines[i].as_str().to_owned());
        assert(text::texts(out@) =~= text::texts(before).push(ls[i as int]));
        assert(text::texts(out@) =~= start + ls.take(i + 1));
        i = i + 1;
    }
    assert(ls.take(i as int) =~= ls);
}

fn push_text(out: &mut Vec<String>, line: &str)
    ensures
        text::texts(final(out)@) == text::texts(old(out)@).push(line@),
{
    let ghost before = out@;
    out.push(line.to_owned());
    assert(text::texts(out@) =~= text::texts(before).push(line@));
}

/// Puts a block between its markers.
fn block_between_markers(block: &str) -> (r: String)
    ensures
        r@ == block_of(block@),
{
    let inner = text::lines_of(block);
    let mut rendered: Vec<String> = Vec::new();
    assert(text::texts(rendered@) =~= Seq::empty());
    push_text(&mut rendered, BEGIN_MARKER);
    carry(&mut rendered, &inner);
    push_text(&mut rendered, END_MARKER);
    assert(text::texts(rendered@) =~= with_markers(block@));
    let mut out = text::joined(&rendered, "\n");
    out.append("\n");
    out
}

fn ends_in_empty_line(s: &str) -> (r: bool)
    ensures
        r == last_line_is_empty(s@),
{
    let lines = text::lines_of(s);
    let n: usize = lines.len();
    assert(text::lines(s@).len() == n);
    assert(n > 0 ==> text::lines(s@).last() == lines@[n - 1]@);
    n == 0 || lines[n - 1].as_str().unicode_len() == 0
}

fn spaced_of(contents: &str) -> (r: String)
    ensures
        r@ == spaced(contents@),
{
    proof {
        reveal_strlit("\n");
    }
    let n: usize = contents.unicode_len();
    let mut out = contents.to_owned();
    if n > 0 && contents.get_char(n - 1) != '\n' {
        out.append("\n");
        assert(out@ =~= contents@.push('\n'));
    }
    let ghost ended = out@;
    if !ends_in_empty_line(contents) {
        out.append("\n");
        assert(out@ =~= ended.push('\n'));
    }
    out
}

fn unspaced_of(v: &[char], n: usize) -> (r: String)
    requires
        n <= v@.len(),
    ensures
        r@ == unspaced(v@.take(n as int)),
{
    let ghost s = v@.take(n as int);
    let whole = text::string_of(v, 0, n);
    assert(whole@ =~= s);
    if n >= 2 && v[n - 1] == '\n' && v[n - 2] == '\n' {
        let shorter = text::string_of(v, 0, n - 1);
        assert(shorter@ =~= s.drop_last());
        if !ends_in_empty_line(shorter.as_str()) {
            return shorter;
        }
    }
    whole
}

/// Puts a block, given without its markers, into a file in place of the block
/// that is there. A blank block takes the block out. Everything else in the
/// file stays as it is, to the character.
pub fn splice_block(contents: &str, block: &str) -> (r: Result<String, FerrumError>)
    ensures
        match r {
            Ok(s) => spliced(contents@, block@) == Ok::<Seq<char>, Problem>(s@),
            Err(e) => spliced(contents@, block@) == Err::<Seq<char>, Problem>(e@),
        },
{
    let lines = text::lines_of(contents);
    let ghost ls = text::texts(lines@);
    let span = match find_block(&lines) {
        Ok(s) => s,
        Err(e) => return Err(e),
    };
    let bare = text::trimmed(block);
    let blank = bare.as_str().unicode_len() == 0;
    match span {
        BlockSpan::Present { begin, end } => {
            proof {
                lemma_first_begin(ls);
                lemma_first_end(ls.skip(begin + 1));
                assert(end < lines.len());
            }
            let v = text::chars_of(contents);
            let n: usize = v.len();
            let lo: usize = text::line_start_of(v.as_slice(), begin);
            let hi: usize = text::line_start_of(v.as_slice(), end + 1);
            if blank && hi >= n {
                return Ok(unspaced_of(v.as_slice(), lo));
            }
            let mut out = text::string_of(v.as_slice(), 0, lo);
            assert(out@ =~= contents@.take(lo as int));
            if !blank {
                let b = block_between_markers(block);
                out.append(b.as_str());
            }
            let rest = text::string_of(v.as_slice(), hi, n);
            assert(rest@ =~= contents@.skip(hi as int));
            out.append(rest.as_str());
            Ok(out)
        },
        BlockSpan::Absent => {
            if blank {
                return Ok(contents.to_owned());
            }
            let mut out = spaced_of(contents);
            let b = block_between_markers(block);
            out.append(b.as_str());
            Ok(out)
        },
    }
}

/// The text of a block that holds some keys: one line for each.
pub open spec fn block_text(keys: Seq<Key>) -> Seq<char>
    decreases keys.len(),
{
    if keys.len() == 0 {
        Seq::empty()
    } else {
        block_text(keys.drop_last()) + key_line(keys.last()) + "\n"@
    }
}

/// Renders the block for some keys.
pub fn render_block(keys: &Vec<SshPublicKey>) -> (r: String)
    requires
        forall|i: int|
            0 <= i < keys@.len() ==> (#[trigger] keys@[i].blob@.len() + 2) / 3 * 4 <= isize::MAX,
    ensures
        r@ == block_text(models(keys@)),
{
    let mut out = String::new();
    let mut i: usize = 0;
    assert(models(keys@).take(0) =~= Seq::<Key>::empty());
    while i < keys.len()
        invariant
            i <= keys@.len(),
            forall|j: int|
                0 <= j < keys@.len() ==> (#[trigger] keys@[j].blob@.len() + 2) / 3 * 4
                    <= isize::MAX,
            out@ == block_text(models(keys@).take(i as int)),
        decreases keys@.len() - i,
    {
        let ghost next = models(keys@).take(i + 1);
        assert(next.drop_last() =~= models(keys@).take(i as int));
        assert(next.last() == keys@[i as int]@);
        let line = keys[i].line();
        out.append(line.as_str());
        out.append("\n");
        i = i + 1;
    }
    assert(models(keys@).take(i as int) =~= models(keys@));
    out
}

} // verus!
