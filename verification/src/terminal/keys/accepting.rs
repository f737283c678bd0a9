//! Which lines are keys, and what is done with them.
use vstd::arithmetic::power2;
use vstd::prelude::*;
use crate::codec;
use crate::error;
use crate::error::{ErrorCode, FerrumError, Problem};
use crate::model;
use crate::model::{Plan, Role, Subscription};
use crate::terminal::keys;
use crate::terminal::keys::ops;
use crate::terminal::keys::ops::{KeyView, Request};
use crate::terminal::keys::Key;
use crate::text;
use crate::text::laws;

verus! {

// ---------------------------------------------------------------------------
// The wire format
// ---------------------------------------------------------------------------

/// Some bytes as the wire has them: their number in four bytes, the most significant
/// first, and then they themselves.
pub open spec fn wire(b: Seq<u8>) -> Seq<u8> {
    seq![
        (b.len() / 0x100_0000) as u8,
        (b.len() / 0x1_0000 % 256) as u8,
        (b.len() / 0x100 % 256) as u8,
        (b.len() % 256) as u8,
    ] + b
}

/// What is put on the wire is read from it, wherever it stands.
pub proof fn law_a_wire_string_reads_back(before: Seq<u8>, b: Seq<u8>, rest: Seq<u8>)
    requires
        b.len() < 0x1_0000_0000,
    ensures
        keys::wire_string(before + wire(b) + rest, before.len() as int) == Some(
            (b, (before + wire(b)).len() as int),
        ),
{
    let s = before + wire(b) + rest;
    let at = before.len() as int;
    let n = b.len() as int;
    assert(s[at] == wire(b)[0] && s[at + 1] == wire(b)[1] && s[at + 2] == wire(b)[2] && s[at + 3]
        == wire(b)[3]);
    assert(0 <= n / 0x100_0000 < 256);
    assert(n / 0x100_0000 * 0x100_0000 + n / 0x1_0000 % 256 * 0x1_0000 + n / 0x100 % 256 * 0x100 + n
        % 256 == n);
    assert(keys::big_endian(s, at) == n);
    assert(s.subrange(at + 4, at + 4 + n) =~= b);
}

proof fn lemma_wire_is(blob: Seq<u8>, b: Seq<u8>, end: int)
    requires
        keys::wire_string(blob, 0) == Some((b, end)),
    ensures
        blob == wire(b) + blob.skip(end),
{
    let n = keys::big_endian(blob, 0);
    assert(b.len() == n);
    let (b0, b1, b2, b3) = (blob[0] as int, blob[1] as int, blob[2] as int, blob[3] as int);
    assert(n / 0x100_0000 == b0);
    assert(n / 0x1_0000 % 256 == b1);
    assert(n / 0x100 % 256 == b2);
    assert(n % 256 == b3);
    assert(blob =~= wire(b) + blob.skip(end));
}

/// The number that some bytes write, the most significant first.
pub open spec fn number(b: Seq<u8>) -> nat
    decreases b.len(),
{
    if b.len() == 0 {
        0
    } else {
        number(b.drop_last()) * 256 + b.last() as nat
    }
}

proof fn lemma_number_skip(b: Seq<u8>)
    requires
        b.len() > 0,
        b[0] == 0,
    ensures
        number(b) == number(b.skip(1)),
    decreases b.len(),
{
    if b.len() == 1 {
        assert(b.drop_last().len() == 0);
        assert(number(b.drop_last()) == 0);
        assert(b.skip(1).len() == 0);
    } else {
        lemma_number_skip(b.drop_last());
        assert(b.drop_last().skip(1) =~= b.skip(1).drop_last());
    }
}

proof fn lemma_significant(b: Seq<u8>)
    ensures
        number(keys::significant(b)) == number(b),
        keys::significant(b).len() > 0 ==> keys::significant(b)[0] != 0,
        keys::significant(b).len() == 0 ==> number(b) == 0,
    decreases b.len(),
{
    if b.len() > 0 && b[0] == 0 {
        lemma_number_skip(b);
        lemma_significant(b.skip(1));
    }
}

proof fn lemma_bit_length(n: nat)
    requires
        n > 0,
    ensures
        keys::bit_length(n) > 0,
        power2::pow2((keys::bit_length(n) - 1) as nat) <= n < power2::pow2(keys::bit_length(n)),
    decreases n,
{
    let k = keys::bit_length(n);
    power2::lemma2_to64();
    if n / 2 > 0 {
        lemma_bit_length(n / 2);
        power2::lemma_pow2_unfold(k);
        power2::lemma_pow2_unfold((k - 1) as nat);
    } else {
        assert(n == 1);
        assert(keys::bit_length(0) == 0);
        assert(k == 1);
    }
}

proof fn lemma_size(s: Seq<u8>)
    requires
        s.len() > 0,
        s[0] != 0,
    ensures
        ({
            let bits = ((s.len() - 1) * 8 + keys::bit_length(s[0] as nat)) as nat;
            &&& bits > 0
            &&& power2::pow2((bits - 1) as nat) <= number(s) < power2::pow2(bits)
        }),
    decreases s.len(),
{
    let bits = ((s.len() - 1) * 8 + keys::bit_length(s[0] as nat)) as nat;
    if s.len() == 1 {
        assert(s.drop_last().len() == 0);
        assert(number(s.drop_last()) == 0);
        lemma_bit_length(s[0] as nat);
    } else {
        let f = s.drop_last();
        lemma_size(f);
        let before = ((f.len() - 1) * 8 + keys::bit_length(s[0] as nat)) as nat;
        assert(bits == before + 8);
        lemma_pow2_times_256(before);
        lemma_pow2_times_256((before - 1) as nat);
    }
}

proof fn lemma_pow2_times_256(e: nat)
    ensures
        power2::pow2(e + 8) == power2::pow2(e) * 256,
{
    power2::lemma_pow2_adds(e, 8);
    power2::lemma2_to64();
}

proof fn lemma_at_least(s: Seq<u8>, bits: nat, k: nat)
    requires
        bits > 0,
        k > 0,
        power2::pow2((bits - 1) as nat) <= number(s) < power2::pow2(bits),
    ensures
        bits >= k <==> number(s) >= power2::pow2((k - 1) as nat),
{
    if bits > k {
        power2::lemma_pow2_strictly_increases((k - 1) as nat, (bits - 1) as nat);
    } else if bits < k {
        if bits < k - 1 {
            power2::lemma_pow2_strictly_increases(bits, (k - 1) as nat);
        }
    }
}

/// A key body of an RSA type: the type, the exponent, the modulus.
pub open spec fn rsa_blob(name: Seq<u8>, e: Seq<u8>, n: Seq<u8>, more: Seq<u8>) -> Seq<u8> {
    wire(name) + wire(e) + wire(n) + more
}

/// The size of an RSA key is that of its modulus: so many bits that the number fits
/// in them and in no fewer.
pub proof fn law_rsa_keys_are_sized_by_their_modulus(
    name: Seq<u8>,
    e: Seq<u8>,
    n: Seq<u8>,
    more: Seq<u8>,
)
    requires
        name.len() < 0x1_0000_0000,
        e.len() < 0x1_0000_0000,
        n.len() < 0x1_0000_0000,
    ensures
        number(n) == 0 ==> keys::modulus_bits(rsa_blob(name, e, n, more)) is None,
        number(n) > 0 ==> ({
            let bits = keys::modulus_bits(rsa_blob(name, e, n, more))->0;
            &&& keys::modulus_bits(rsa_blob(name, e, n, more)) is Some
            &&& bits > 0
            &&& power2::pow2((bits - 1) as nat) <= number(n) < power2::pow2(bits as nat)
        }),
{
    let blob = rsa_blob(name, e, n, more);
    let none = Seq::<u8>::empty();
    assert(blob =~= none + wire(name) + (wire(e) + wire(n) + more));
    law_a_wire_string_reads_back(none, name, wire(e) + wire(n) + more);
    assert(none + wire(name) =~= wire(name));
    assert(blob =~= wire(name) + wire(e) + (wire(n) + more));
    law_a_wire_string_reads_back(wire(name), e, wire(n) + more);
    law_a_wire_string_reads_back(wire(name) + wire(e), n, more);
    lemma_significant(n);
    let s = keys::significant(n);
    if s.len() > 0 {
        lemma_size(s);
        let bits = ((s.len() - 1) * 8 + keys::bit_length(s[0] as nat)) as nat;
        power2::lemma_pow2_pos((bits - 1) as nat);
    }
}

// ---------------------------------------------------------------------------
// Types
// ---------------------------------------------------------------------------

/// The nine types of keys, one by one.
pub open spec fn is_key_type(name: Seq<char>) -> bool {
    ||| name == "ssh-ed25519"@
    ||| name == "sk-ssh-ed25519@openssh.com"@
    ||| name == "ssh-rsa"@
    ||| name == "rsa-sha2-256"@
    ||| name == "rsa-sha2-512"@
    ||| name == "ecdsa-sha2-nistp256"@
    ||| name == "ecdsa-sha2-nistp384"@
    ||| name == "ecdsa-sha2-nistp521"@
    ||| name == "sk-ecdsa-sha2-nistp256@openssh.com"@
}

/// The three of them that are RSA.
pub open spec fn is_rsa_type(name: Seq<char>) -> bool {
    name == "ssh-rsa"@ || name == "rsa-sha2-256"@ || name == "rsa-sha2-512"@
}

#[verifier::spinoff_prover]
proof fn lemma_type_chars(name: Seq<char>)
    requires
        is_key_type(name),
    ensures
        0 < name.len() < 40,
        forall|i: int| 0 <= i < name.len() ==> '!' <= #[trigger] name[i] <= '~',
        name[0] != '#',
{
    reveal_strlit("ssh-ed25519");
    reveal_strlit("sk-ssh-ed25519@openssh.com");
    reveal_strlit("ssh-rsa");
    reveal_strlit("rsa-sha2-256");
    reveal_strlit("rsa-sha2-512");
    reveal_strlit("ecdsa-sha2-nistp256");
    reveal_strlit("ecdsa-sha2-nistp384");
    reveal_strlit("ecdsa-sha2-nistp521");
    reveal_strlit("sk-ecdsa-sha2-nistp256@openssh.com");
}

#[verifier::spinoff_prover]
proof fn lemma_types_apart()
    ensures
        !is_rsa_type("ssh-ed25519"@),
        !is_rsa_type("sk-ssh-ed25519@openssh.com"@),
        !is_rsa_type("ecdsa-sha2-nistp256"@),
        !is_rsa_type("ecdsa-sha2-nistp384"@),
        !is_rsa_type("ecdsa-sha2-nistp521"@),
        !is_rsa_type("sk-ecdsa-sha2-nistp256@openssh.com"@),
        "ssh-ed25519"@ != "ecdsa-sha2-nistp384"@,
        "ssh-ed25519"@ != "ecdsa-sha2-nistp521"@,
        "sk-ssh-ed25519@openssh.com"@ != "ecdsa-sha2-nistp384"@,
        "sk-ssh-ed25519@openssh.com"@ != "ecdsa-sha2-nistp521"@,
        "ecdsa-sha2-nistp256"@ != "ecdsa-sha2-nistp384"@,
        "ecdsa-sha2-nistp256"@ != "ecdsa-sha2-nistp521"@,
        "sk-ecdsa-sha2-nistp256@openssh.com"@ != "ecdsa-sha2-nistp384"@,
        "sk-ecdsa-sha2-nistp256@openssh.com"@ != "ecdsa-sha2-nistp521"@,
        "ecdsa-sha2-nistp384"@ != "ecdsa-sha2-nistp521"@,
{
    reveal_strlit("ssh-ed25519");
    reveal_strlit("sk-ssh-ed25519@openssh.com");
    reveal_strlit("ssh-rsa");
    reveal_strlit("rsa-sha2-256");
    reveal_strlit("rsa-sha2-512");
    reveal_strlit("ecdsa-sha2-nistp256");
    reveal_strlit("ecdsa-sha2-nistp384");
    reveal_strlit("ecdsa-sha2-nistp521");
    reveal_strlit("sk-ecdsa-sha2-nistp256@openssh.com");
    assert("ssh-rsa"@.len() == 7 && "rsa-sha2-256"@.len() == 12 && "rsa-sha2-512"@.len() == 12);
    assert("ecdsa-sha2-nistp256"@[16] != "ecdsa-sha2-nistp384"@[16]);
    assert("ecdsa-sha2-nistp256"@[16] != "ecdsa-sha2-nistp521"@[16]);
    assert("ecdsa-sha2-nistp384"@[16] != "ecdsa-sha2-nistp521"@[16]);
    assert("ssh-ed25519"@.len() == 11);
    assert("sk-ssh-ed25519@openssh.com"@.len() == 26);
    assert("ecdsa-sha2-nistp256"@.len() == 19);
    assert("sk-ecdsa-sha2-nistp256@openssh.com"@.len() == 34);
}

/// A key is as large as its type says; an RSA key as large as its modulus.
pub proof fn law_the_size_of_a_key(key: Key)
    ensures
        key.algorithm == "ssh-ed25519"@ ==> keys::key_bits(key) == Some(256int),
        key.algorithm == "sk-ssh-ed25519@openssh.com"@ ==> keys::key_bits(key) == Some(256int),
        key.algorithm == "ecdsa-sha2-nistp256"@ ==> keys::key_bits(key) == Some(256int),
        key.algorithm == "sk-ecdsa-sha2-nistp256@openssh.com"@ ==> keys::key_bits(key) == Some(
            256int,
        ),
        key.algorithm == "ecdsa-sha2-nistp384"@ ==> keys::key_bits(key) == Some(384int),
        key.algorithm == "ecdsa-sha2-nistp521"@ ==> keys::key_bits(key) == Some(521int),
        is_rsa_type(key.algorithm) ==> keys::key_bits(key) == keys::modulus_bits(key.blob),
        !is_key_type(key.algorithm) ==> keys::key_bits(key) is None,
{
    lemma_types_apart();
}

/// A fingerprint is the digest of the key's bytes in base64, without the padding that
/// a digest of 32 bytes would have.
pub proof fn law_a_fingerprint_is_the_digest(blob: Seq<u8>)
    requires
        codec::sha256(blob).len() == 32,
    ensures
        keys::key_fingerprint(blob) + seq!['='] == "SHA256:"@ + codec::base64_text(
            codec::sha256(blob),
        ),
{
    let d = codec::sha256(blob);
    lemma_unpadded(d);
    assert(keys::key_fingerprint(blob) + seq!['='] =~= "SHA256:"@ + (codec::base64_unpadded(d)
        + seq!['=']));
}

proof fn lemma_unpadded(b: Seq<u8>)
    requires
        b.len() % 3 == 2,
    ensures
        codec::base64_text(b) == codec::base64_unpadded(b) + seq!['='],
    decreases b.len(),
{
    if b.len() > 2 {
        lemma_unpadded(b.skip(3));
        assert(codec::base64_text(b) =~= codec::base64_unpadded(b) + seq!['=']);
    }
}

// ---------------------------------------------------------------------------
// Lines
// ---------------------------------------------------------------------------

/// A key as it is written on a line.
pub open spec fn written(name: Seq<char>, blob: Seq<u8>, comment: Option<Seq<char>>) -> Seq<char> {
    name + " "@ + codec::base64_text(blob) + match comment {
        Some(c) => " "@ + c,
        None => Seq::empty(),
    }
}

/// A comment that a key can have.
pub open spec fn is_comment(c: Seq<char>) -> bool {
    &&& 0 < c.len() <= 255
    &&& !text::is_space(c[0]) && !text::is_space(c.last())
    &&& forall|i: int| 0 <= i < c.len() ==> !text::is_control(#[trigger] c[i])
}

/// Spaces only.
pub open spec fn is_spaces(s: Seq<char>) -> bool {
    forall|i: int| 0 <= i < s.len() ==> #[trigger] s[i] == ' '
}

/// The bytes of a key are of the type that their first wire string names, and those of
/// an RSA key hold a modulus of 2048 bits at least.
pub open spec fn is_body_of(name: Seq<char>, blob: Seq<u8>) -> bool {
    &&& exists|rest: Seq<u8>| blob == #[trigger] (wire(vstd::utf8::encode_utf8(name)) + rest)
    &&& is_rsa_type(name) ==> exists|e: Seq<u8>, n: Seq<u8>, more: Seq<u8>|
        blob == #[trigger] rsa_blob(vstd::utf8::encode_utf8(name), e, n, more) && e.len()
            < 0x1_0000_0000 && n.len() < 0x1_0000_0000 && number(n) >= power2::pow2(2047)
}

proof fn lemma_body_is_fine(name: Seq<char>, blob: Seq<u8>)
    requires
        is_key_type(name),
        is_body_of(name, blob),
    ensures
        keys::blob_problem(name, blob) is None,
        blob.len() > 0,
{
    lemma_type_chars(name);
    let bytes = vstd::utf8::encode_utf8(name);
    assert(vstd::utf8::is_ascii_chars(name)) by {
        assert forall|i: int| 0 <= i < name.len() implies '\0' <= #[trigger] name[i] <= '\u{7f}' by {
            assert('!' <= name[i] <= '~');
        }
    }
    vstd::utf8::is_ascii_chars_encode_utf8(name);
    vstd::utf8::encode_utf8_valid_utf8(name);
    vstd::utf8::encode_utf8_decode_utf8(name);
    let none = Seq::<u8>::empty();
    let rest = choose|rest: Seq<u8>| blob == #[trigger] (wire(bytes) + rest);
    assert(blob =~= none + wire(bytes) + rest);
    law_a_wire_string_reads_back(none, bytes, rest);
    if is_rsa_type(name) {
        let (e, n, more) = choose|e: Seq<u8>, n: Seq<u8>, more: Seq<u8>|
            blob == #[trigger] rsa_blob(bytes, e, n, more) && e.len() < 0x1_0000_0000 && n.len()
                < 0x1_0000_0000 && number(n) >= power2::pow2(2047);
        power2::lemma_pow2_pos(2047);
        law_rsa_keys_are_sized_by_their_modulus(bytes, e, n, more);
        let bits = keys::modulus_bits(blob)->0;
        lemma_at_least(n, bits as nat, 2048);
    }
}

proof fn lemma_base64_chars(blob: Seq<u8>)
    requires
        blob.len() > 0,
    ensures
        codec::base64_text(blob).len() > 0,
        forall|i: int|
            0 <= i < codec::base64_text(blob).len() ==> !text::is_space(
                #[trigger] codec::base64_text(blob)[i],
            ) && !text::is_control(codec::base64_text(blob)[i]),
{
    codec::lemma_base64_text(blob);
    let b = codec::base64_text(blob);
    assert forall|i: int| 0 <= i < b.len() implies !text::is_space(#[trigger] b[i])
        && !text::is_control(b[i]) by {
        assert(codec::is_base64_char(b[i]));
    }
}

/// A line of one of the nine types is a key: the type, a space, the base64 of a body of
/// that type, and a comment where there is one, with any spaces around, is read as
/// exactly that type, that body and that comment.
pub proof fn law_a_line_of_a_known_type_is_a_key(
    lead: Seq<char>,
    name: Seq<char>,
    blob: Seq<u8>,
    comment: Option<Seq<char>>,
    trail: Seq<char>,
)
    requires
        is_key_type(name),
        is_body_of(name, blob),
        comment matches Some(c) ==> is_comment(c),
        is_spaces(lead),
        is_spaces(trail),
        vstd::utf8::encode_utf8(lead + written(name, blob, comment) + trail).len() <= 8192,
    ensures
        keys::key_of(lead + written(name, blob, comment) + trail) == Ok::<Key, Problem>(
            Key { algorithm: name, blob, comment },
        ),
{
    reveal_strlit(" ");
    let line = written(name, blob, comment);
    let input = lead + line + trail;
    let body = codec::base64_text(blob);
    lemma_type_chars(name);
    lemma_body_is_fine(name, blob);
    lemma_base64_chars(blob);
    codec::law_base64_round_trip(blob);
    let n = name.len() as int;
    let m = body.len() as int;
    assert forall|i: int| 0 <= i < line.len() implies !text::is_control(#[trigger] line[i]) by {
        if i < n {
            assert(line[i] == name[i]);
            assert('!' <= name[i] <= '~');
        } else if i == n {
            assert(line[i] == ' ');
        } else if i < n + 1 + m {
            assert(line[i] == body[i - n - 1]);
        } else if i == n + 1 + m {
            assert(line[i] == ' ');
        } else {
            assert(line[i] == comment->0[i - n - m - 2]);
        }
    }
    assert(!keys::has_control(input)) by {
        assert forall|i: int| 0 <= i < input.len() implies !text::is_control(#[trigger] input[i]) by {
            if i < lead.len() {
                assert(input[i] == lead[i]);
            } else if i < lead.len() + line.len() {
                assert(input[i] == line[i - lead.len()]);
            } else {
                assert(input[i] == trail[i - lead.len() - line.len()]);
            }
        }
    }
    assert(line[0] == name[0]);
    assert('!' <= name[0] <= '~');
    match comment {
        None => {
            assert(line.last() == body[m - 1]);
        },
        Some(c) => {
            assert(line.last() == c.last());
        },
    }
    laws::law_trimming_takes_the_ends_off(lead, line, trail);
    assert forall|i: int| 0 <= i < n implies !text::is_space(#[trigger] line[i]) by {
        assert(line[i] == name[i]);
        assert('!' <= name[i] <= '~');
    }
    assert(line[n] == ' ');
    laws::lemma_before_space_is(line, n as nat);
    assert(line.take(n) =~= name);
    let rest = line.skip(n + 1);
    assert forall|i: int| 0 <= i < m implies !text::is_space(#[trigger] rest[i]) by {
        assert(rest[i] == body[i]);
    }
    match comment {
        None => {
            assert(rest =~= body);
            laws::lemma_before_space_is(rest, m as nat);
        },
        Some(c) => {
            assert(rest[m] == ' ');
            laws::lemma_before_space_is(rest, m as nat);
            assert(rest.take(m) =~= body);
            assert(rest.skip(m + 1) =~= c);
            let none = Seq::<char>::empty();
            laws::law_trimming_takes_the_ends_off(none, c, none);
            assert(none + c + none =~= c);
        },
    }
}

/// Nothing else is a key: whatever is read is of one of the nine types, with a body of
/// that type, from a short line without control characters; and a refusal is of the
/// key.
pub proof fn law_only_lines_of_known_types_are_keys(input: Seq<char>)
    ensures
        keys::key_of(input) matches Ok(k) ==> {
            &&& is_key_type(k.algorithm)
            &&& is_body_of(k.algorithm, k.blob)
            &&& k.comment matches Some(c) ==> 0 < c.len() <= 255
            &&& vstd::utf8::encode_utf8(input).len() <= 8192
            &&& forall|i: int| 0 <= i < input.len() ==> !text::is_control(#[trigger] input[i])
            &&& text::starts_with(text::trim(input), k.algorithm)
        },
        keys::key_of(input) is Err ==> error::refused(
            keys::key_of(input),
            ErrorCode::InvalidInput,
            Some("key"@),
        ),
{
    if let Ok(k) = keys::key_of(input) {
        let line = text::trim(input);
        let (declared, end) = keys::wire_string(k.blob, 0)->0;
        vstd::utf8::decode_utf8_encode_utf8(declared);
        let bytes = vstd::utf8::encode_utf8(k.algorithm);
        assert(declared == bytes);
        lemma_wire_is(k.blob, declared, end);
        assert(k.blob == wire(bytes) + k.blob.skip(end));
        text::lemma_before_space(line);
        assert(line.take(k.algorithm.len() as int) == k.algorithm) by {
            if text::split_space(line) is None {
                assert(line.take(line.len() as int) =~= line);
            }
        }
        if is_rsa_type(k.algorithm) {
            let (e, after_e) = keys::wire_string(k.blob, end)->0;
            let (n, after_n) = keys::wire_string(k.blob, after_e)->0;
            lemma_wire_at(k.blob, end, e, after_e);
            lemma_wire_at(k.blob, after_e, n, after_n);
            let more = k.blob.skip(after_n);
            assert(k.blob =~= rsa_blob(bytes, e, n, more));
            assert(e.len() < 0x1_0000_0000 && n.len() < 0x1_0000_0000);
            lemma_significant(n);
            let s = keys::significant(n);
            lemma_size(s);
            let bits = ((s.len() - 1) * 8 + keys::bit_length(s[0] as nat)) as nat;
            lemma_at_least(s, bits, 2048);
            assert(k.blob == rsa_blob(bytes, e, n, more) && number(n) >= power2::pow2(2047));
        }
    }
}

proof fn lemma_wire_at(blob: Seq<u8>, at: int, b: Seq<u8>, end: int)
    requires
        0 <= at <= blob.len(),
        keys::wire_string(blob, at) == Some((b, end)),
    ensures
        blob.skip(at) == wire(b) + blob.skip(end),
        b.len() < 0x1_0000_0000,
        at <= end <= blob.len(),
{
    let s = blob.skip(at);
    assert(keys::big_endian(s, 0) == keys::big_endian(blob, at));
    assert(s.subrange(4, 4 + b.len() as int) =~= b);
    assert(keys::wire_string(s, 0) == Some((b, end - at)));
    lemma_wire_is(s, b, end - at);
    assert(s.skip(end - at) =~= blob.skip(end));
}

// ---------------------------------------------------------------------------
// The block
// ---------------------------------------------------------------------------

/// A line that is a marker, with white space around it or none.
pub open spec fn begins_block(line: Seq<char>) -> bool {
    text::trim(line) == "# ---- BEGIN FERRUM-MANAGED KEYS ----"@
}

pub open spec fn ends_block(line: Seq<char>) -> bool {
    text::trim(line) == "# ---- END FERRUM-MANAGED KEYS ----"@
}

/// The block of a file is what stands between its first begin marker and the next end
/// marker, and a file without markers has none.
pub proof fn law_the_block_stands_between_the_markers(
    above: Seq<Seq<char>>,
    begin: Seq<char>,
    inner: Seq<Seq<char>>,
    end: Seq<char>,
    below: Seq<Seq<char>>,
)
    requires
        forall|i: int| 0 <= i < above.len() ==> !begins_block(#[trigger] above[i]),
        forall|i: int| 0 <= i < inner.len() ==> !ends_block(#[trigger] inner[i]),
        begins_block(begin),
        ends_block(end),
    ensures
        keys::block_span(above + seq![begin] + inner + seq![end] + below) == Ok::<
            Option<(int, int)>,
            Problem,
        >(Some((above.len() as int, above.len() as int + 1 + inner.len()))),
        (forall|i: int| 0 <= i < above.len() ==> !ends_block(#[trigger] above[i]))
            ==> keys::block_span(above) == Ok::<Option<(int, int)>, Problem>(None),
{
    let ls = above + seq![begin] + inner + seq![end] + below;
    let b = above.len() as int;
    keys::lemma_first_begin(ls);
    let k = keys::first_begin(ls) as int;
    assert(ls[b] == begin);
    assert forall|i: int| 0 <= i < b implies !keys::is_begin(#[trigger] ls[i]) by {
        assert(ls[i] == above[i]);
    }
    assert(k == b) by {
        if k < b {
            assert(!keys::is_begin(ls[k]));
        }
        if k > b {
            assert(!keys::is_begin(ls[b]));
        }
    }
    let rest = ls.skip(b + 1);
    keys::lemma_first_end(rest);
    let m = keys::first_end(rest) as int;
    let e = inner.len() as int;
    assert(rest[e] == end);
    assert forall|i: int| 0 <= i < e implies !keys::is_end(#[trigger] rest[i]) by {
        assert(rest[i] == inner[i]);
    }
    assert(m == e) by {
        if m < e {
            assert(!keys::is_end(rest[m]));
        }
        if m > e {
            assert(!keys::is_end(rest[e]));
        }
    }
    keys::lemma_first_begin(above);
    keys::lemma_first_end(above);
    if forall|i: int| 0 <= i < above.len() ==> !ends_block(#[trigger] above[i]) {
        if keys::first_begin(above) < above.len() {
            assert(!begins_block(above[keys::first_begin(above) as int]));
        }
        if keys::first_end(above) < above.len() {
            assert(!ends_block(above[keys::first_end(above) as int]));
        }
    }
}

/// A line is passed over exactly if it is blank or a comment.
pub open spec fn is_passed_over(line: Seq<char>) -> bool {
    laws::is_blank(line) || text::trim(line).len() > 0 && text::trim(line)[0] == '#'
}

proof fn lemma_blank(line: Seq<char>)
    ensures
        laws::is_blank(line) <==> text::trim(line).len() == 0,
{
    if laws::is_blank(line) {
        let none = Seq::<char>::empty();
        laws::law_trimming_takes_the_ends_off(line, none, none);
        assert(line + none + none =~= line);
    } else {
        let i = choose|i: int| 0 <= i < line.len() && !text::is_space(#[trigger] line[i]);
        lemma_trim_keeps(line, i);
    }
}

proof fn lemma_trim_keeps(s: Seq<char>, i: int)
    requires
        0 <= i < s.len(),
        !text::is_space(s[i]),
    ensures
        text::trim(s).len() > 0,
{
    lemma_trim_start_keeps(s, i);
    text::lemma_trim_start_len(s);
    let t = text::trim_start(s);
    lemma_trim_end_keeps(t, 0);
}

proof fn lemma_trim_start_keeps(s: Seq<char>, i: int)
    requires
        0 <= i < s.len(),
        !text::is_space(s[i]),
    ensures
        text::trim_start(s).len() > 0,
    decreases s.len(),
{
    if text::is_space(s[0]) {
        assert(s.skip(1)[i - 1] == s[i]);
        lemma_trim_start_keeps(s.skip(1), i - 1);
    }
}

proof fn lemma_trim_end_keeps(s: Seq<char>, i: int)
    requires
        0 <= i < s.len(),
        !text::is_space(s[i]),
    ensures
        text::trim_end(s).len() > 0,
    decreases s.len(),
{
    if text::is_space(s.last()) {
        assert(s.drop_last()[i] == s[i]);
        lemma_trim_end_keeps(s.drop_last(), i);
    }
}

/// The keys of a block are read line by line: blank lines and comments are passed over,
/// every other line is a key, in order, or the block is refused for it. Key lines
/// outside the block are noticed by the same rule.
pub proof fn law_every_line_of_a_block_counts(ls: Seq<Seq<char>>, line: Seq<char>)
    ensures
        keys::keys_on(Seq::<Seq<char>>::empty()) == Ok::<Seq<Key>, Problem>(Seq::empty()),
        is_passed_over(line) ==> keys::keys_on(ls.push(line)) == keys::keys_on(ls),
        !is_passed_over(line) ==> (keys::keys_on(ls.push(line)) is Ok <==> keys::keys_on(ls) is Ok
            && keys::key_of(text::trim(line)) is Ok),
        !is_passed_over(line) && keys::keys_on(ls.push(line)) is Ok ==> keys::keys_on(
            ls.push(line),
        )->Ok_0 == keys::keys_on(ls)->Ok_0.push(keys::key_of(text::trim(line))->Ok_0),
        keys::keys_on(ls) is Err ==> keys::keys_on(ls.push(line)) == keys::keys_on(ls),
        keys::is_key_line(line) <==> !is_passed_over(line),
{
    lemma_blank(line);
    assert(ls.push(line).drop_last() =~= ls);
}

// ---------------------------------------------------------------------------
// Operations
// ---------------------------------------------------------------------------

/// A key is added exactly if the block can be read, holds no key of that fingerprint
/// and fewer than 32 keys; it comes behind the others.
pub proof fn law_a_key_is_added_exactly_if(contents: Seq<char>, key: Key)
    ensures
        ops::added(contents, key) is Ok <==> {
            &&& keys::block_keys(contents) matches Ok(ks)
            &&& ks.len() < 32
            &&& forall|i: int|
                0 <= i < ks.len() ==> keys::key_fingerprint((#[trigger] ks[i]).blob)
                    != keys::key_fingerprint(key.blob)
        },
        ops::added(contents, key) matches Ok(now) ==> now == keys::block_keys(contents)->Ok_0.push(
            key,
        ),
        keys::block_keys(contents) matches Err(p) ==> ops::added(contents, key) == Err::<
            Seq<Key>,
            Problem,
        >(p),
        keys::block_keys(contents) matches Ok(ks) ==> {
            let there = exists|i: int|
                0 <= i < ks.len() && keys::key_fingerprint((#[trigger] ks[i]).blob)
                    == keys::key_fingerprint(key.blob);
            &&& there ==> error::refused(ops::added(contents, key), ErrorCode::AlreadyExists, None)
            &&& !there && ks.len() >= 32 ==> error::refused(
                ops::added(contents, key),
                ErrorCode::QuotaExceeded,
                None,
            )
        },
{
}

/// Removing takes the keys of a fingerprint and leaves every other, in order.
pub proof fn law_removing_leaves_every_other_key(ks: Seq<Key>, fingerprint: Seq<char>)
    ensures
        ops::kept(ks, fingerprint) == ks.filter(
            |k: Key| keys::key_fingerprint(k.blob) != fingerprint,
        ),
    decreases ks.len(),
{
    reveal(Seq::filter);
    if ks.len() > 0 {
        law_removing_leaves_every_other_key(ks.drop_last(), fingerprint);
    } else {
        assert(ks =~= Seq::<Key>::empty());
    }
}

/// A list shows every key as what it is, in order.
pub proof fn law_a_list_shows_every_key(vs: Seq<KeyView>, ks: Seq<Key>, i: int)
    requires
        ops::shows_all(vs, ks),
    ensures
        vs.len() == ks.len(),
        0 <= i < ks.len() ==> {
            &&& vs[i].fingerprint@ == keys::key_fingerprint(ks[i].blob)
            &&& vs[i].algorithm@ == ks[i].algorithm
            &&& vs[i].comment is Some <==> ks[i].comment is Some
            &&& vs[i].comment matches Some(c) ==> c@ == ks[i].comment->0
            &&& vs[i].bits is Some <==> keys::key_bits(ks[i]) is Some
            &&& vs[i].bits matches Some(n) ==> n == keys::key_bits(ks[i])->0
        },
{
    if 0 <= i < ks.len() {
        assert(ops::shows(vs[i], ks[i]));
    }
}

/// Keys are managed by an administrator, or where the plan includes SSH; and for an
/// account that is usable.
pub proof fn law_who_may_manage_keys(role: Role, subscription: Subscription, plan: Option<Plan>)
    ensures
        ops::key_account(role, subscription, plan) is Ok <==> {
            &&& role is Admin || plan is Some && plan->0.can_ssh
            &&& model::is_linux_user(subscription.linux_user@)
        },
        ops::key_account(role, subscription, plan) matches Ok(user) ==> user
            == subscription.linux_user@,
        !(role is Admin) && !(plan is Some && plan->0.can_ssh) ==> error::refused(
            ops::key_account(role, subscription, plan),
            ErrorCode::PlanFeatureDisabled,
            None,
        ),
        (role is Admin || plan is Some && plan->0.can_ssh) && !model::is_linux_user(
            subscription.linux_user@,
        ) ==> error::refused(
            ops::key_account(role, subscription, plan),
            ErrorCode::InvalidInput,
            None,
        ),
{
}

/// A file that is not there is an empty one; one that was cut off or is no text is not
/// touched; any other is read as what its bytes say.
pub proof fn law_how_a_file_is_read(truncated: bool, bytes: Vec<u8>, e: FerrumError)
    ensures
        e.code == ErrorCode::NotFound ==> ops::file_text(Err(e)) == Ok::<Seq<char>, Problem>(
            Seq::empty(),
        ),
        e.code != ErrorCode::NotFound ==> ops::file_text(Err(e)) == Err::<Seq<char>, Problem>(e@),
        truncated || !vstd::utf8::valid_utf8(bytes@) ==> error::refused(
            ops::file_text(Ok((truncated, bytes))),
            ErrorCode::InvalidInput,
            None,
        ),
        !truncated && vstd::utf8::valid_utf8(bytes@) ==> (ops::file_text(Ok((truncated, bytes)))
            matches Ok(s) && vstd::utf8::encode_utf8(s) == bytes@),
{
    if vstd::utf8::valid_utf8(bytes@) {
        vstd::utf8::decode_utf8_encode_utf8(bytes@);
    }
}

/// What is written: the directory, closed to others, then the file, closed to others,
/// and nothing else; and nothing at all where the block cannot be told apart.
pub proof fn law_what_a_write_asks_for(existing: Seq<char>, ks: Seq<Key>)
    ensures
        ops::write_requests(existing, ks) is Ok <==> keys::spliced(
            existing,
            keys::block_text(ks),
        ) is Ok,
        ops::write_requests(existing, ks) matches Ok(v) ==> {
            &&& v.len() == 4
            &&& v[0] == Request::Mkdir { path: ".ssh"@ }
            &&& v[1] == Request::Chmod { path: ".ssh"@, mode: 0o700 }
            &&& v[2] == Request::Write {
                path: ".ssh/authorized_keys"@,
                text: keys::spliced(existing, keys::block_text(ks))->Ok_0,
            }
            &&& v[3] == Request::Chmod { path: ".ssh/authorized_keys"@, mode: 0o600 }
        },
{
}

/// A directory that is there already is as good as one that was made; any other failure
/// stops the write under its own code.
pub proof fn law_when_a_write_goes_on(e: FerrumError)
    ensures
        ops::mkdir_outcome(Ok(())) is Ok,
        ops::mkdir_outcome(Err(e)) is Ok <==> e.code == ErrorCode::AlreadyExists,
        e.code != ErrorCode::AlreadyExists ==> (ops::mkdir_outcome(Err(e)) matches Err(p) && p.code
            == e.code),
{
}

/// There are keys outside the block exactly if some line above or below it is neither
/// blank nor a comment; what is inside does not count.
pub proof fn law_which_keys_are_not_managed(
    above: Seq<Seq<char>>,
    begin: Seq<char>,
    inner: Seq<Seq<char>>,
    end: Seq<char>,
    below: Seq<Seq<char>>,
    contents: Seq<char>,
)
    requires
        forall|i: int| 0 <= i < above.len() ==> !begins_block(#[trigger] above[i]),
        forall|i: int| 0 <= i < inner.len() ==> !ends_block(#[trigger] inner[i]),
        begins_block(begin),
        ends_block(end),
        text::lines(contents) == above + seq![begin] + inner + seq![end] + below,
    ensures
        keys::unmanaged_keys(contents) == Ok::<bool, Problem>(
            (exists|i: int| 0 <= i < above.len() && !is_passed_over(#[trigger] above[i])) || (
            exists|i: int| 0 <= i < below.len() && !is_passed_over(#[trigger] below[i])),
        ),
{
    let ls = text::lines(contents);
    let b = above.len() as int;
    let e = b + 1 + inner.len();
    law_the_block_stands_between_the_markers(above, begin, inner, end, below);
    assert forall|l: Seq<char>| #[trigger] keys::is_key_line(l) <==> !is_passed_over(l) by {
        law_every_line_of_a_block_counts(Seq::empty(), l);
    }
    assert forall|i: int| 0 <= i < above.len() implies ls[i] == #[trigger] above[i] by {}
    assert forall|i: int| 0 <= i < below.len() implies ls[e + 1 + i] == #[trigger] below[i] by {}
    if exists|i: int| (0 <= i < b || e < i < ls.len()) && keys::is_key_line(#[trigger] ls[i]) {
        let i = choose|i: int|
            (0 <= i < b || e < i < ls.len()) && keys::is_key_line(#[trigger] ls[i]);
        if i < b {
            assert(!is_passed_over(above[i]));
        } else {
            assert(ls[i] == below[i - e - 1]);
            assert(!is_passed_over(below[i - e - 1]));
        }
    }
    if exists|i: int| 0 <= i < above.len() && !is_passed_over(#[trigger] above[i]) {
        let i = choose|i: int| 0 <= i < above.len() && !is_passed_over(#[trigger] above[i]);
        assert(keys::is_key_line(ls[i]));
    }
    if exists|i: int| 0 <= i < below.len() && !is_passed_over(#[trigger] below[i]) {
        let i = choose|i: int| 0 <= i < below.len() && !is_passed_over(#[trigger] below[i]);
        assert(keys::is_key_line(ls[e + 1 + i]));
    }
}

proof fn lemma_markers(begin: Seq<char>, end: Seq<char>)
    requires
        begin == "# ---- BEGIN FERRUM-MANAGED KEYS ----"@,
        end == "# ---- END FERRUM-MANAGED KEYS ----"@,
    ensures
        begins_block(begin),
        ends_block(end),
{
    reveal_strlit("# ---- BEGIN FERRUM-MANAGED KEYS ----");
    reveal_strlit("# ---- END FERRUM-MANAGED KEYS ----");
    let none = Seq::<char>::empty();
    laws::law_trimming_takes_the_ends_off(none, begin, none);
    laws::law_trimming_takes_the_ends_off(none, end, none);
    assert(none + begin + none =~= begin);
    assert(none + end + none =~= end);
}

/// The same of a file without a block.
pub proof fn law_which_keys_are_not_managed_without_a_block(contents: Seq<char>)
    requires
        forall|i: int|
            0 <= i < text::lines(contents).len() ==> !begins_block(
                #[trigger] text::lines(contents)[i],
            ) && !ends_block(text::lines(contents)[i]),
    ensures
        keys::unmanaged_keys(contents) == Ok::<bool, Problem>(
            exists|i: int|
                0 <= i < text::lines(contents).len() && !is_passed_over(
                    #[trigger] text::lines(contents)[i],
                ),
        ),
{
    let ls = text::lines(contents);
    let none = Seq::<Seq<char>>::empty();
    let begin = keys::BEGIN_MARKER@;
    let end = keys::END_MARKER@;
    lemma_markers(begin, end);
    law_the_block_stands_between_the_markers(ls, begin, none, end, none);
    assert forall|l: Seq<char>| #[trigger] keys::is_key_line(l) <==> !is_passed_over(l) by {
        law_every_line_of_a_block_counts(Seq::empty(), l);
    }
    if exists|i: int| 0 <= i < ls.len() && !is_passed_over(#[trigger] ls[i]) {
        let i = choose|i: int| 0 <= i < ls.len() && !is_passed_over(#[trigger] ls[i]);
        assert(keys::is_key_line(ls[i]));
    }
}


/// The bounds of what is kept, where it is kept and with which modes.
pub proof fn law_what_bounds_keys()
    ensures
        keys::MAX_KEYS == 32,
        keys::MAX_KEY_CHARS == 8 * 1024,
        keys::MAX_COMMENT_CHARS == 255,
        keys::MIN_RSA_BITS == 2048,
        ops::MAX_FILE_BYTES == 512 * 1024,
        ops::FS_TIMEOUT_SECS == 20,
        ops::SSH_DIR@ == ".ssh"@,
        ops::AUTHORIZED_KEYS@ == ".ssh"@ + "/"@ + "authorized_keys"@,
        ops::SSH_DIR_MODE == 0o700,
        ops::AUTHORIZED_KEYS_MODE == 0o600,
{
    reveal_strlit(".ssh");
    reveal_strlit("/");
    reveal_strlit("authorized_keys");
    reveal_strlit(".ssh/authorized_keys");
    assert(".ssh/authorized_keys"@ =~= ".ssh"@ + "/"@ + "authorized_keys"@);
}


} // verus!
