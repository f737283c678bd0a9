//! What a plugin needs to be let in, and what is made of it: no more and no less.
use vstd::prelude::*;
use crate::codec;
use crate::error;
use crate::error::{ErrorCode, Problem};
use crate::plugin::minisign;
use crate::plugin::minisign::{Detached, Key};
use crate::plugin::ops;
use crate::text;
use crate::text::laws;

verus! {

// ---------------------------------------------------------------------------
// Signature files
// ---------------------------------------------------------------------------

/// A signature file: a first line that says nothing, the base64 of the algorithm, the
/// key's id and the signature, the trusted comment, and the base64 of the signature
/// over that comment.
pub open spec fn signature_file(
    first: Seq<char>,
    alg: Seq<u8>,
    id: Seq<u8>,
    signature: Seq<u8>,
    comment: Seq<char>,
    global: Seq<u8>,
) -> Seq<char> {
    laws::block(
        seq![
            first,
            codec::base64_text(alg + id + signature),
            "trusted comment: "@ + comment,
            codec::base64_text(global),
        ],
    )
}

proof fn lemma_base64_line(raw: Seq<u8>)
    requires
        raw.len() > 0,
    ensures
        laws::is_line(codec::base64_text(raw)),
        text::trim(codec::base64_text(raw)) == codec::base64_text(raw),
        codec::base64_text(raw).len() > 0,
        codec::base64_text(raw).len() == (raw.len() + 2) / 3 * 4,
        forall|i: int|
            0 <= i < codec::base64_text(raw).len() ==> codec::is_base64_char(
                #[trigger] codec::base64_text(raw)[i],
            ),
{
    codec::lemma_base64_text(raw);
    let b = codec::base64_text(raw);
    assert forall|i: int| 0 <= i < b.len() implies #[trigger] b[i] != '\n' && b[i] != '\r'
        && !text::is_space(b[i]) by {
        assert(codec::is_base64_char(b[i]));
    }
    let none = Seq::<char>::empty();
    laws::law_trimming_takes_the_ends_off(none, b, none);
    assert(none + b + none =~= b);
}

/// A signature file says what it was made from, each part in its place.
pub proof fn law_a_signature_file_is_read(
    first: Seq<char>,
    alg: Seq<u8>,
    id: Seq<u8>,
    signature: Seq<u8>,
    comment: Seq<char>,
    global: Seq<u8>,
)
    requires
        laws::is_line(first),
        laws::is_line("trusted comment: "@ + comment),
        alg.len() == 2,
        id.len() == 8,
        signature.len() == 64,
        global.len() == 64,
    ensures
        minisign::detached(signature_file(first, alg, id, signature, comment, global)) == Ok::<
            Detached,
            Problem,
        >(Detached { alg, key_id: id, signature, trusted_comment: comment, global }),
{
    reveal_strlit("trusted comment: ");
    let raw = alg + id + signature;
    let third = "trusted comment: "@ + comment;
    let ls = seq![first, codec::base64_text(raw), third, codec::base64_text(global)];
    lemma_base64_line(raw);
    lemma_base64_line(global);
    codec::law_base64_round_trip(raw);
    codec::law_base64_round_trip(global);
    laws::law_a_block_has_its_lines(ls);
    assert(third.take("trusted comment: "@.len() as int) =~= "trusted comment: "@);
    assert(third.skip("trusted comment: "@.len() as int) =~= comment);
    assert(raw.take(2) =~= alg);
    assert(raw.subrange(2, 10) =~= id);
    assert(raw.subrange(10, 74) =~= signature);
}

/// A file is no signature file without a second line that is the base64 of 74 bytes, a
/// third that starts as a trusted comment does, and a fourth that is the base64 of 64.
pub proof fn law_a_malformed_signature_file_is_refused(
    first: Seq<char>,
    raw: Seq<u8>,
    third: Seq<char>,
    global: Seq<u8>,
)
    requires
        laws::is_line(first),
        laws::is_line(third),
        raw.len() > 0,
        global.len() > 0,
    ensures
        ({
            let file = laws::block(
                seq![first, codec::base64_text(raw), third, codec::base64_text(global)],
            );
            let r = minisign::detached(file);
            &&& r is Ok <==> raw.len() == 74 && global.len() == 64 && text::starts_with(
                third,
                "trusted comment: "@,
            )
            &&& r is Err ==> r->Err_0.code == ErrorCode::InvalidInput
        }),
        minisign::detached(Seq::<char>::empty()) is Err,
        minisign::detached(first) is Err,
{
    let ls = seq![first, codec::base64_text(raw), third, codec::base64_text(global)];
    lemma_base64_line(raw);
    lemma_base64_line(global);
    codec::law_base64_round_trip(raw);
    codec::law_base64_round_trip(global);
    laws::law_a_block_has_its_lines(ls);
    laws::law_lines_are_what_stands_between_line_feeds(first, Seq::empty());
    lemma_nothing_is_no_signature();
    if first.len() == 0 {
        assert(first =~= Seq::<char>::empty());
    }
}

proof fn lemma_nothing_is_no_signature()
    ensures
        codec::base64_bytes(text::trim(Seq::<char>::empty())) == Some(Seq::<u8>::empty()),
{
    let none = Seq::<char>::empty();
    laws::law_trimming_takes_the_ends_off(none, none, none);
    assert(none + none + none =~= none);
    let b = Seq::<u8>::empty();
    codec::lemma_base64_text(b);
    codec::law_base64_round_trip(b);
    assert(codec::base64_text(b) =~= none);
}

proof fn lemma_key_at(keys: Seq<Key>, id: Seq<u8>, i: int)
    requires
        0 <= i < keys.len(),
        keys[i].key_id == id,
        forall|j: int| 0 <= j < i ==> (#[trigger] keys[j]).key_id != id,
    ensures
        minisign::key_with_id(keys, id) == Some(keys[i]),
    decreases keys.len(),
{
    if i > 0 {
        assert(keys[0].key_id != id);
        let rest = keys.skip(1);
        assert(rest[i - 1] == keys[i]);
        assert forall|j: int| 0 <= j < i - 1 implies (#[trigger] rest[j]).key_id != id by {
            assert(rest[j] == keys[j + 1]);
        }
        lemma_key_at(rest, id, i - 1);
    }
}

/// The message as it is signed: by the older algorithm as it stands, by the newer one
/// its digest.
pub open spec fn as_signed(message: Seq<u8>, alg: Seq<u8>) -> Seq<u8>
    recommends
        alg == seq!['E' as u8, 'd' as u8] || alg == seq!['E' as u8, 'D' as u8],
{
    if alg[1] == 'd' as u8 {
        message
    } else {
        codec::blake2b512(message)
    }
}

/// A signature file is accepted wherever it ought to be, whichever of the trusted keys it
/// was made with: where the first trusted key of the id that it names is a valid key and
/// both signatures hold under that key, over the message and over the signature with the
/// comment behind it, the answer is the comment.
pub proof fn law_a_signature_that_holds_is_accepted(
    message: Seq<u8>,
    first: Seq<char>,
    alg: Seq<u8>,
    signature: Seq<u8>,
    comment: Seq<char>,
    global: Seq<u8>,
    keys: Seq<Key>,
    i: int,
)
    requires
        laws::is_line(first),
        laws::is_line("trusted comment: "@ + comment),
        alg == seq!['E' as u8, 'd' as u8] || alg == seq!['E' as u8, 'D' as u8],
        signature.len() == 64,
        global.len() == 64,
        0 <= i < keys.len(),
        keys[i].key_id.len() == 8,
        forall|j: int| 0 <= j < i ==> (#[trigger] keys[j]).key_id != keys[i].key_id,
        codec::ed25519_key(keys[i].key),
        codec::ed25519_verifies(keys[i].key, as_signed(message, alg), signature),
        codec::ed25519_verifies(
            keys[i].key,
            signature + vstd::utf8::encode_utf8(comment),
            global,
        ),
    ensures
        minisign::verified(
            message,
            signature_file(first, alg, keys[i].key_id, signature, comment, global),
            keys,
        ) == Ok::<Seq<char>, Problem>(comment),
{
    law_a_signature_file_is_read(first, alg, keys[i].key_id, signature, comment, global);
    lemma_key_at(keys, keys[i].key_id, i);
    assert('E' as u8 == 0x45u8 && 'd' as u8 == 0x64u8 && 'D' as u8 == 0x44u8);
    assert(alg[1] == 'd' as u8 <==> alg =~= minisign::legacy());
    assert(alg[1] == 'D' as u8 <==> alg =~= minisign::prehashed());
}

/// The same of any file that reads as a signature file, with what every other outcome is
/// answered with: no trusted key of that id, an invalid key, an algorithm that is neither
/// of the two, a message that was not signed, a comment that was not signed, in that order.
pub proof fn law_how_a_signature_is_judged(
    message: Seq<u8>,
    file: Seq<char>,
    d: Detached,
    keys: Seq<Key>,
)
    requires
        minisign::detached(file) == Ok::<Detached, Problem>(d),
    ensures
        (forall|j: int| 0 <= j < keys.len() ==> (#[trigger] keys[j]).key_id != d.key_id)
            ==> error::refused(
            minisign::verified(message, file, keys),
            ErrorCode::PermissionDenied,
            None,
        ),
        forall|i: int|
            0 <= i < keys.len() && (#[trigger] keys[i]).key_id == d.key_id && (forall|j: int|
                0 <= j < i ==> (#[trigger] keys[j]).key_id != d.key_id) ==> {
                let r = minisign::verified(message, file, keys);
                let known = d.alg == seq![0x45u8, 0x64u8] || d.alg == seq![0x45u8, 0x44u8];
                let message_holds = codec::ed25519_verifies(
                    keys[i].key,
                    as_signed(message, d.alg),
                    d.signature,
                );
                let comment_holds = codec::ed25519_verifies(
                    keys[i].key,
                    d.signature + vstd::utf8::encode_utf8(d.trusted_comment),
                    d.global,
                );
                &&& !codec::ed25519_key(keys[i].key) ==> error::refused(
                    r,
                    ErrorCode::InvalidInput,
                    None,
                )
                &&& codec::ed25519_key(keys[i].key) && !known ==> error::refused(
                    r,
                    ErrorCode::InvalidInput,
                    None,
                )
                &&& codec::ed25519_key(keys[i].key) && known && !(message_holds && comment_holds)
                    ==> error::refused(r, ErrorCode::PermissionDenied, None)
                &&& codec::ed25519_key(keys[i].key) && known && message_holds && comment_holds
                    ==> r == Ok::<Seq<char>, Problem>(d.trusted_comment)
            },
{
    lemma_no_key(keys, d.key_id);
    assert forall|i: int|
        0 <= i < keys.len() && (#[trigger] keys[i]).key_id == d.key_id && (forall|j: int|
            0 <= j < i ==> (#[trigger] keys[j]).key_id != d.key_id) implies minisign::key_with_id(
        keys,
        d.key_id,
    ) == Some(keys[i]) by {
        lemma_key_at(keys, d.key_id, i);
    }
    assert('d' as u8 == 0x64u8);
    assert(d.alg == minisign::legacy() ==> d.alg[1] == 0x64u8);
    assert(d.alg == minisign::prehashed() ==> d.alg[1] == 0x44u8);
}

proof fn lemma_no_key(keys: Seq<Key>, id: Seq<u8>)
    ensures
        (forall|j: int| 0 <= j < keys.len() ==> (#[trigger] keys[j]).key_id != id)
            ==> minisign::key_with_id(keys, id) is None,
    decreases keys.len(),
{
    if keys.len() > 0 {
        lemma_no_key(keys.skip(1), id);
        if forall|j: int| 0 <= j < keys.len() ==> (#[trigger] keys[j]).key_id != id {
            assert(keys[0].key_id != id);
            assert forall|j: int| 0 <= j < keys.skip(1).len() implies (#[trigger] keys.skip(
                1,
            )[j]).key_id != id by {
                assert(keys.skip(1)[j] == keys[j + 1]);
            }
        }
    }
}

// ---------------------------------------------------------------------------
// Keys
// ---------------------------------------------------------------------------

/// A public key is read from its file, with the comment line ahead of it and blank
/// lines around it, and from its one line alone; it is what the 42 bytes hold behind `Ed`.
pub proof fn law_a_public_key_is_read(about: Seq<char>, id: Seq<u8>, key: Seq<u8>)
    requires
        laws::is_line("untrusted comment:"@ + about),
        id.len() == 8,
        key.len() == 32,
    ensures
        ({
            let line = codec::base64_text(seq!['E' as u8, 'd' as u8] + id + key);
            let blank = Seq::<char>::empty();
            let ok = Ok::<Key, Problem>(Key { key_id: id, key });
            &&& minisign::public_key(line) == ok
            &&& minisign::public_key(
                laws::block(seq!["untrusted comment:"@ + about, line]),
            ) == ok
            &&& minisign::public_key(
                laws::block(seq![blank, "untrusted comment:"@ + about, blank, line]),
            ) == ok
        }),
{
    reveal_strlit("untrusted comment:");
    let raw = seq!['E' as u8, 'd' as u8] + id + key;
    let line = codec::base64_text(raw);
    let blank = Seq::<char>::empty();
    let note = "untrusted comment:"@ + about;
    assert('E' as u8 == 0x45u8 && 'd' as u8 == 0x64u8);
    lemma_base64_line(raw);
    codec::law_base64_round_trip(raw);
    assert(raw.take(2) =~= minisign::legacy());
    assert(raw.subrange(2, 10) =~= id);
    assert(raw.subrange(10, 42) =~= key);
    lemma_no_comment(raw);
    lemma_comment_stays(about);
    laws::law_trimming_takes_the_ends_off(blank, blank, blank);
    assert(blank + blank + blank =~= blank);
    laws::law_lines_are_what_stands_between_line_feeds(line, blank);
    let one = seq![line];
    assert(text::lines(line) == one);
    assert(minisign::key_line(one) == Some(line));
    let two = seq![note, line];
    laws::law_a_block_has_its_lines(two);
    assert(two.skip(1) =~= one);
    assert(minisign::key_line(two) == Some(line));
    let three = seq![blank, line];
    assert(three.skip(1) =~= one);
    assert(minisign::key_line(three) == Some(line));
    let four = seq![blank, note, blank, line];
    laws::law_a_block_has_its_lines(four);
    assert(four.skip(1) =~= seq![note] + three);
    assert(four.skip(1).skip(1) =~= three);
    assert(minisign::key_line(four.skip(1)) == Some(line));
    assert(minisign::key_line(four) == Some(line));
}

proof fn lemma_no_comment(raw: Seq<u8>)
    requires
        raw.len() > 0,
    ensures
        !text::starts_with(codec::base64_text(raw), "untrusted comment:"@),
{
    reveal_strlit("untrusted comment:");
    lemma_base64_line(raw);
    let b = codec::base64_text(raw);
    if text::starts_with(b, "untrusted comment:"@) {
        assert(b.take(18)[9] == "untrusted comment:"@[9]);
        assert(b[9] == ' ');
        assert(codec::is_base64_char(b[9]));
        assert(false);
    }
}

proof fn lemma_comment_stays(about: Seq<char>)
    ensures
        text::starts_with(text::trim("untrusted comment:"@ + about), "untrusted comment:"@),
{
    reveal_strlit("untrusted comment:");
    let s = "untrusted comment:"@ + about;
    assert(s[0] == 'u');
    assert(text::trim_start(s) == s);
    lemma_trim_end_keeps(s, 17);
    let t = text::trim_end(s);
    assert(s[17] == ':');
    assert(t.len() >= 18);
    assert forall|i: int| 0 <= i < 18 implies t[i] == #[trigger] "untrusted comment:"@[i] by {
        assert(s.take(t.len() as int)[i] == s[i]);
    }
    assert(t.take(18) =~= "untrusted comment:"@);
}

/// What is ahead of a character that is no white space stays.
proof fn lemma_trim_end_keeps(s: Seq<char>, i: int)
    requires
        0 <= i < s.len(),
        !text::is_space(s[i]),
    ensures
        s.len() >= text::trim_end(s).len() > i,
        text::trim_end(s) == s.take(text::trim_end(s).len() as int),
    decreases s.len(),
{
    if text::is_space(s.last()) {
        let f = s.drop_last();
        lemma_trim_end_keeps(f, i);
        assert(f.take(text::trim_end(f).len() as int) =~= s.take(text::trim_end(f).len() as int));
    } else {
        assert(s.take(s.len() as int) =~= s);
    }
}

/// Anything but the base64 of 42 bytes that start with `Ed` is no public key.
pub proof fn law_what_is_no_public_key(raw: Seq<u8>)
    requires
        raw.len() > 0,
    ensures
        minisign::public_key(codec::base64_text(raw)) is Ok <==> raw.len() == 42 && raw[0]
            == 'E' as u8 && raw[1] == 'd' as u8,
        minisign::public_key(codec::base64_text(raw)) is Err ==> error::refused(
            minisign::public_key(codec::base64_text(raw)),
            ErrorCode::InvalidInput,
            None,
        ),
        error::refused(
            minisign::public_key(Seq::<char>::empty()),
            ErrorCode::InvalidInput,
            None,
        ),
{
    let line = codec::base64_text(raw);
    lemma_base64_line(raw);
    codec::law_base64_round_trip(raw);
    lemma_no_comment(raw);
    laws::law_lines_are_what_stands_between_line_feeds(line, Seq::empty());
    let one = seq![line];
    assert(text::lines(line) == one);
    assert(minisign::key_line(one) == Some(line));
    assert('E' as u8 == 0x45u8 && 'd' as u8 == 0x64u8);
    if raw.len() == 42 {
        assert(raw.take(2)[0] == raw[0] && raw.take(2)[1] == raw[1]);
        if raw[0] == 0x45u8 && raw[1] == 0x64u8 {
            assert(raw.take(2) =~= minisign::legacy());
        }
    }
}

/// The trusted keys are the keys of all the texts, in their order; one that is no key
/// leaves none.
pub proof fn law_every_trusted_key_counts(texts: Seq<Seq<char>>, n: nat)
    requires
        n <= texts.len(),
    ensures
        ops::trusted(texts, n) is Ok <==> forall|i: int|
            0 <= i < n ==> minisign::public_key(#[trigger] texts[i]) is Ok,
        ops::trusted(texts, n) is Ok ==> {
            &&& ops::trusted(texts, n)->Ok_0.len() == n
            &&& forall|i: int|
                0 <= i < n ==> minisign::public_key(#[trigger] texts[i]) == Ok::<Key, Problem>(
                    ops::trusted(texts, n)->Ok_0[i],
                )
        },
    decreases n,
{
    if n > 0 {
        law_every_trusted_key_counts(texts, (n - 1) as nat);
        if ops::trusted(texts, n) is Ok {
            let before = ops::trusted(texts, (n - 1) as nat)->Ok_0;
            let after = ops::trusted(texts, n)->Ok_0;
            assert forall|i: int| 0 <= i < n implies minisign::public_key(#[trigger] texts[i])
                == Ok::<Key, Problem>(after[i]) by {
                if i < n - 1 {
                    assert(after[i] == before[i]);
                }
            }
        }
    }
}

} // verus!
