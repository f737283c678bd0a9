//! What holds of stored keys and of the managed block as a whole.
use vstd::prelude::*;
use crate::codec;
use crate::error::Problem;
use crate::terminal::keys;
use crate::terminal::keys::Key;
use crate::text;

verus! {

// ---------------------------------------------------------------------------
// Lines of keys
// ---------------------------------------------------------------------------

pub open spec fn utf8_size(s: Seq<char>) -> nat {
    vstd::utf8::encode_utf8(s).len()
}

proof fn lemma_size_append(a: Seq<char>, b: Seq<char>)
    ensures
        utf8_size(a + b) == utf8_size(a) + utf8_size(b),
    decreases a.len(),
{
    if a.len() == 0 {
        assert(a + b =~= b);
    } else {
        assert((a + b).drop_first() =~= a.drop_first() + b);
        lemma_size_append(a.drop_first(), b);
    }
}

/// A part of a text is no longer than the text.
proof fn lemma_size_part(s: Seq<char>, lo: int, hi: int)
    requires
        0 <= lo <= hi <= s.len(),
    ensures
        utf8_size(s.subrange(lo, hi)) <= utf8_size(s),
{
    let mid = s.subrange(lo, hi);
    assert(s =~= s.take(lo) + mid + s.skip(hi));
    lemma_size_append(s.take(lo) + mid, s.skip(hi));
    lemma_size_append(s.take(lo), mid);
}

/// Where a trimmed text stands in the text.
proof fn lemma_trim_part(s: Seq<char>) -> (at: int)
    ensures
        0 <= at,
        at + text::trim(s).len() <= s.len(),
        text::trim(s) == s.subrange(at, at + text::trim(s).len()),
{
    text::lemma_trim_start_len(s);
    text::lemma_trim_end_len(text::trim_start(s));
    let t = text::trim_start(s);
    let at = s.len() - t.len();
    assert(t =~= s.skip(at));
    assert(text::trim(s) =~= s.subrange(at, at + text::trim(s).len()));
    at
}

proof fn lemma_trim_again(s: Seq<char>)
    ensures
        text::trim(text::trim(s)) == text::trim(s),
{
    text::lemma_trim_len(s);
}

/// A text with something in it but white space is not blank when trimmed.
proof fn lemma_not_blank(s: Seq<char>, i: int)
    requires
        0 <= i < s.len(),
        !text::is_space(s[i]),
    ensures
        text::trim(s).len() > 0,
{
    lemma_not_blank_start(s, i);
    text::lemma_trim_start_len(s);
    let t = text::trim_start(s);
    lemma_not_blank_end(t, 0);
}

proof fn lemma_not_blank_start(s: Seq<char>, i: int)
    requires
        0 <= i < s.len(),
        !text::is_space(s[i]),
    ensures
        text::trim_start(s).len() > 0,
    decreases s.len(),
{
    if text::is_space(s[0]) {
        assert(s.skip(1)[i - 1] == s[i]);
        lemma_not_blank_start(s.skip(1), i - 1);
    }
}

proof fn lemma_not_blank_end(s: Seq<char>, i: int)
    requires
        0 <= i < s.len(),
        !text::is_space(s[i]),
    ensures
        text::trim_end(s).len() > 0,
    decreases s.len(),
{
    if text::is_space(s.last()) {
        assert(s.drop_last()[i] == s[i]);
        lemma_not_blank_end(s.drop_last(), i);
    }
}

proof fn lemma_before_space_is(s: Seq<char>, k: nat)
    requires
        k <= s.len(),
        k < s.len() ==> text::is_space(s[k as int]),
        forall|i: int| 0 <= i < k ==> !text::is_space(#[trigger] s[i]),
    ensures
        text::before_space(s) == k,
    decreases s.len(),
{
    if k > 0 {
        assert(!text::is_space(s[0]));
        assert forall|i: int| 0 <= i < k - 1 implies !text::is_space(#[trigger] s.skip(1)[i]) by {
            assert(!text::is_space(s[i + 1]));
        }
        lemma_before_space_is(s.skip(1), (k - 1) as nat);
    }
}

/// What is known of the parts of a line that is read as a key.
proof fn lemma_key_parts(input: Seq<char>)
    requires
        keys::key_of(input) is Ok,
    ensures
        ({
            let k = keys::key_of(input)->Ok_0;
            &&& keys::is_allowed(k.algorithm)
            &&& keys::fields(text::trim(input)) == (
                k.algorithm,
                codec::base64_text(k.blob),
                k.comment,
            )
            &&& codec::base64_text(k.blob).len() > 0
            &&& k.algorithm.len() > 0
            &&& forall|i: int|
                0 <= i < k.algorithm.len() ==> !text::is_space(#[trigger] k.algorithm[i])
            &&& forall|i: int|
                0 <= i < codec::base64_text(k.blob).len() ==> !text::is_space(
                    #[trigger] codec::base64_text(k.blob)[i],
                )
            &&& k.algorithm[0] == text::trim(input)[0]
        }),
{
    let k = keys::key_of(input)->Ok_0;
    let line = text::trim(input);
    text::lemma_trim_len(input);
    text::lemma_before_space(line);
    codec::lemma_base64_text(k.blob);
    assert forall|i: int| 0 <= i < codec::base64_text(k.blob).len() implies !text::is_space(
        #[trigger] codec::base64_text(k.blob)[i],
    ) by {
        assert(codec::is_base64_char(codec::base64_text(k.blob)[i]));
    }
    assert forall|i: int| 0 <= i < k.algorithm.len() implies !text::is_space(
        #[trigger] k.algorithm[i],
    ) by {
        assert(k.algorithm[i] == line[i]);
    }
}

/// The trimmed line, of no more bytes and without control characters.
proof fn lemma_trimmed_line(input: Seq<char>)
    requires
        keys::key_of(input) is Ok,
    ensures
        keys::key_of(text::trim(input)) == keys::key_of(input),
{
    let line = text::trim(input);
    let at = lemma_trim_part(input);
    lemma_size_part(input, at, at + line.len());
    lemma_trim_again(input);
    assert(!keys::has_control(line)) by {
        if keys::has_control(line) {
            let i = choose|i: int| 0 <= i < line.len() && text::is_control(#[trigger] line[i]);
            assert(text::is_control(input[at + i]));
        }
    }
}

/// The canonical line of a key is no longer than the line it was read from.
proof fn lemma_line_size(input: Seq<char>)
    requires
        keys::key_of(input) is Ok,
    ensures
        utf8_size(keys::key_line(keys::key_of(input)->Ok_0)) <= utf8_size(input),
        !keys::has_control(keys::key_line(keys::key_of(input)->Ok_0)),
{
    let k = keys::key_of(input)->Ok_0;
    let line = text::trim(input);
    let at = lemma_trim_part(input);
    lemma_size_part(input, at, at + line.len());
    lemma_key_parts(input);
    text::lemma_before_space(line);
    reveal_strlit(" ");
    let sep = " "@;
    let body = codec::base64_text(k.blob);
    let out = keys::key_line(k);
    assert forall|i: int| 0 <= i < line.len() implies !text::is_control(#[trigger] line[i]) by {
        assert(line[i] == input[at + i]);
    }
    let first = text::before_space(line) as int;
    assert(first < line.len());
    let rest = line.skip(first + 1);
    text::lemma_before_space(rest);
    let gap = line.subrange(first, first + 1);
    assert(line =~= k.algorithm + gap + rest);
    lemma_size_append(k.algorithm + gap, rest);
    lemma_size_append(k.algorithm, gap);
    text::lemma_utf8_len(gap);
    assert(utf8_size(sep) == 1) by {
        reveal_with_fuel(vstd::utf8::encode_utf8, 2);
        assert(sep.drop_first().len() == 0);
        assert(sep[0] as u32 == 32);
    }
    let second = text::before_space(rest) as int;
    assert(body =~= rest.take(second));
    lemma_size_append(k.algorithm + sep, body);
    lemma_size_append(k.algorithm, sep);
    match k.comment {
        None => {
            lemma_size_part(rest, 0, second);
            assert(rest.subrange(0, second) =~= body);
            assert forall|i: int| 0 <= i < out.len() implies !text::is_control(
                #[trigger] out[i],
            ) by {
                if i < first {
                    assert(out[i] == line[i]);
                } else if i == first {
                    assert(out[i] == ' ');
                } else {
                    assert(out[i] == line[i]);
                }
            }
        },
        Some(c) => {
            let tail = rest.skip(second + 1);
            let cat = lemma_trim_part(tail);
            lemma_size_part(tail, cat, cat + c.len());
            let gap2 = rest.subrange(second, second + 1);
            assert(rest =~= body + gap2 + tail);
            lemma_size_append(body + gap2, tail);
            lemma_size_append(body, gap2);
            text::lemma_utf8_len(gap2);
            let head = k.algorithm + sep + body;
            lemma_size_append(head + sep, c);
            lemma_size_append(head, sep);
            assert forall|i: int| 0 <= i < out.len() implies !text::is_control(
                #[trigger] out[i],
            ) by {
                if i < first {
                    assert(out[i] == line[i]);
                } else if i == first {
                    assert(out[i] == ' ');
                } else if i < first + 1 + second {
                    assert(out[i] == rest[i - first - 1]);
                    assert(out[i] == line[i]);
                } else if i == first + 1 + second {
                    assert(out[i] == ' ');
                } else {
                    let j = i - first - 2 - second;
                    assert(out[i] == c[j]);
                    assert(c[j] == tail[cat + j]);
                    assert(tail[cat + j] == line[first + 2 + second + cat + j]);
                }
            }
        },
    }
}

/// A stored line reads back: the line made from a key that was read is read as
/// the same key.
pub proof fn law_a_stored_line_reads_back(input: Seq<char>)
    requires
        keys::key_of(input) is Ok,
    ensures
        keys::key_of(keys::key_line(keys::key_of(input)->Ok_0)) == keys::key_of(input),
{
    let k = keys::key_of(input)->Ok_0;
    let out = keys::key_line(k);
    let body = codec::base64_text(k.blob);
    lemma_key_parts(input);
    lemma_line_size(input);
    codec::law_base64_round_trip(k.blob);
    reveal_strlit(" ");
    let n = k.algorithm.len() as int;
    assert(out[0] == k.algorithm[0]);
    assert forall|i: int| 0 <= i < n implies !text::is_space(#[trigger] out[i]) by {
        assert(out[i] == k.algorithm[i]);
    }
    assert(out[n] == ' ');
    lemma_before_space_is(out, n as nat);
    assert(out.take(n) =~= k.algorithm);
    let rest = out.skip(n + 1);
    match k.comment {
        None => {
            assert(rest =~= body);
            lemma_before_space_is(rest, body.len());
            assert(out.last() == body.last());
            assert(text::trim(out) == out);
        },
        Some(c) => {
            let line = text::trim(input);
            let after = line.skip(text::before_space(line) as int + 1);
            let tail = after.skip(text::before_space(after) as int + 1);
            assert(c == text::trim(tail));
            text::lemma_trim_len(tail);
            lemma_trim_again(tail);
            assert(rest =~= body + " "@ + c);
            assert forall|i: int| 0 <= i < body.len() implies !text::is_space(
                #[trigger] rest[i],
            ) by {
                assert(rest[i] == body[i]);
            }
            assert(rest[body.len() as int] == ' ');
            lemma_before_space_is(rest, body.len());
            assert(rest.take(body.len() as int) =~= body);
            assert(rest.skip(body.len() as int + 1) =~= c);
            assert(out.last() == c.last());
            assert(text::trim(out) == out);
        },
    }
}

// ---------------------------------------------------------------------------
// Lines of files
// ---------------------------------------------------------------------------

/// Each line without one carriage return at its end.
pub open spec fn without_cr(ls: Seq<Seq<char>>) -> Seq<Seq<char>> {
    ls.map_values(|l: Seq<char>| text::strip_cr(l))
}

pub open spec fn unbroken(l: Seq<char>) -> bool {
    forall|j: int| 0 <= j < l.len() ==> #[trigger] l[j] != '\n'
}

/// No line holds a line feed.
pub open spec fn all_unbroken(ls: Seq<Seq<char>>) -> bool {
    forall|i: int| 0 <= i < ls.len() ==> unbroken(#[trigger] ls[i])
}

proof fn lemma_lines_unbroken(s: Seq<char>)
    ensures
        all_unbroken(text::lines(s)),
    decreases s.len(),
{
    text::lemma_before(s, '\n');
    let k = text::before(s, '\n') as int;
    if s.len() > 0 && k < s.len() {
        lemma_lines_unbroken(s.skip(k + 1));
        let first = text::strip_cr(s.take(k));
        assert(unbroken(first)) by {
            assert forall|j: int| 0 <= j < first.len() implies #[trigger] first[j] != '\n' by {
                assert(first[j] == s[j]);
            }
        }
        let ls = text::lines(s);
        let rest = text::lines(s.skip(k + 1));
        assert forall|i: int| 0 <= i < ls.len() implies unbroken(#[trigger] ls[i]) by {
            if i > 0 {
                assert(ls[i] == rest[i - 1]);
            }
        }
    }
}

proof fn lemma_lines_front(a: Seq<char>, rest: Seq<char>)
    requires
        unbroken(a),
    ensures
        text::lines(a + "\n"@ + rest) == seq![text::strip_cr(a)] + text::lines(rest),
{
    reveal_strlit("\n");
    let s = a + "\n"@ + rest;
    let k = a.len();
    assert(s[k as int] == '\n');
    assert forall|i: int| 0 <= i < k implies #[trigger] s[i] != '\n' by {
        assert(s[i] == a[i]);
    }
    text::lemma_before_is(s, '\n', k);
    assert(s.take(k as int) =~= a);
    assert(s.skip(k as int + 1) =~= rest);
}

proof fn lemma_join_front(ls: Seq<Seq<char>>, sep: Seq<char>)
    requires
        ls.len() >= 2,
    ensures
        text::join(ls, sep) == ls[0] + sep + text::join(ls.skip(1), sep),
    decreases ls.len(),
{
    if ls.len() == 2 {
        assert(text::join(ls.drop_last(), sep) == ls[0]);
        assert(text::join(ls.skip(1), sep) == ls[1]);
    } else {
        lemma_join_front(ls.drop_last(), sep);
        assert(ls.drop_last().skip(1) =~= ls.skip(1).drop_last());
        assert(text::join(ls, sep) =~= ls[0] + sep + text::join(ls.skip(1), sep));
    }
}

/// The lines of a file are the lines it was made of, but for a carriage return
/// at the end of one.
proof fn lemma_lines_of_file(ls: Seq<Seq<char>>)
    requires
        all_unbroken(ls),
    ensures
        text::lines(keys::file_of(ls)) == without_cr(ls),
    decreases ls.len(),
{
    if ls.len() == 0 {
        assert(without_cr(ls) =~= Seq::empty());
    } else {
        assert(unbroken(ls[0]));
        let rest = ls.skip(1);
        assert forall|i: int| 0 <= i < rest.len() implies unbroken(#[trigger] rest[i]) by {
            assert(unbroken(ls[i + 1]));
        }
        lemma_lines_of_file(rest);
        lemma_lines_front(ls[0], keys::file_of(rest));
        if ls.len() == 1 {
            assert(ls[0] + "\n"@ =~= ls[0] + "\n"@ + keys::file_of(rest));
        } else {
            lemma_join_front(ls, "\n"@);
            assert(keys::file_of(ls) =~= ls[0] + "\n"@ + keys::file_of(rest));
        }
        assert(without_cr(ls) =~= seq![text::strip_cr(ls[0])] + without_cr(rest));
    }
}

proof fn lemma_trim_start_push(s: Seq<char>, c: char)
    requires
        text::is_space(c),
    ensures
        text::trim_start(s).len() == 0 ==> text::trim_start(s.push(c)).len() == 0,
        text::trim_start(s).len() > 0 ==> text::trim_start(s.push(c)) == text::trim_start(s).push(
            c,
        ),
    decreases s.len(),
{
    if s.len() == 0 {
        assert(s.push(c).skip(1).len() == 0);
        assert(text::trim_start(s.push(c).skip(1)).len() == 0);
    } else {
        assert(s.push(c)[0] == s[0]);
        if text::is_space(s[0]) {
            assert(s.push(c).skip(1) =~= s.skip(1).push(c));
            lemma_trim_start_push(s.skip(1), c);
        }
    }
}

/// A carriage return at the end of a line is white space.
proof fn lemma_trim_cr(l: Seq<char>)
    ensures
        text::trim(text::strip_cr(l)) == text::trim(l),
{
    if l.len() > 0 && l.last() == '\r' {
        let s = l.drop_last();
        assert(s.push('\r') =~= l);
        lemma_trim_start_push(s, '\r');
        let t = text::trim_start(s);
        if t.len() > 0 {
            assert(t.push('\r').drop_last() =~= t);
        } else {
            assert(text::trim_start(l) =~= t);
        }
    }
}

proof fn lemma_without_cr(ls: Seq<Seq<char>>)
    ensures
        without_cr(ls).len() == ls.len(),
        forall|i: int|
            0 <= i < ls.len() ==> text::trim(#[trigger] without_cr(ls)[i]) == text::trim(ls[i]),
{
    assert forall|i: int| 0 <= i < ls.len() implies text::trim(#[trigger] without_cr(ls)[i])
        == text::trim(ls[i]) by {
        lemma_trim_cr(ls[i]);
    }
}

// ---------------------------------------------------------------------------
// Finding the block
// ---------------------------------------------------------------------------

proof fn lemma_first_begin_is(ls: Seq<Seq<char>>, k: nat)
    requires
        k <= ls.len(),
        k < ls.len() ==> keys::is_begin(ls[k as int]),
        forall|i: int| 0 <= i < k ==> !keys::is_begin(#[trigger] ls[i]),
    ensures
        keys::first_begin(ls) == k,
    decreases ls.len(),
{
    if k > 0 {
        assert(!keys::is_begin(ls[0]));
        assert forall|i: int| 0 <= i < k - 1 implies !keys::is_begin(#[trigger] ls.skip(1)[i]) by {
            assert(!keys::is_begin(ls[i + 1]));
        }
        lemma_first_begin_is(ls.skip(1), (k - 1) as nat);
    }
}

proof fn lemma_first_end_is(ls: Seq<Seq<char>>, k: nat)
    requires
        k <= ls.len(),
        k < ls.len() ==> keys::is_end(ls[k as int]),
        forall|i: int| 0 <= i < k ==> !keys::is_end(#[trigger] ls[i]),
    ensures
        keys::first_end(ls) == k,
    decreases ls.len(),
{
    if k > 0 {
        assert(!keys::is_end(ls[0]));
        assert forall|i: int| 0 <= i < k - 1 implies !keys::is_end(#[trigger] ls.skip(1)[i]) by {
            assert(!keys::is_end(ls[i + 1]));
        }
        lemma_first_end_is(ls.skip(1), (k - 1) as nat);
    }
}

proof fn lemma_markers()
    ensures
        keys::is_begin(keys::BEGIN_MARKER@),
        !keys::is_end(keys::BEGIN_MARKER@),
        keys::is_end(keys::END_MARKER@),
        !keys::is_begin(keys::END_MARKER@),
        text::strip_cr(keys::BEGIN_MARKER@) == keys::BEGIN_MARKER@,
        text::strip_cr(keys::END_MARKER@) == keys::END_MARKER@,
        unbroken(keys::BEGIN_MARKER@),
        unbroken(keys::END_MARKER@),
        text::trim(keys::END_MARKER@).len() > 0,
        keys::BEGIN_MARKER@.len() > 0,
        keys::BEGIN_MARKER@[0] == '#',
        keys::END_MARKER@.len() > 0,
        keys::END_MARKER@[0] == '#',
{
    reveal_strlit("# ---- BEGIN FERRUM-MANAGED KEYS ----");
    reveal_strlit("# ---- END FERRUM-MANAGED KEYS ----");
}

/// The lines of a block between its markers.
pub open spec fn marked(inner: Seq<Seq<char>>) -> Seq<Seq<char>> {
    seq![keys::BEGIN_MARKER@] + inner + seq![keys::END_MARKER@]
}

pub open spec fn no_begin(ls: Seq<Seq<char>>) -> bool {
    forall|i: int| 0 <= i < ls.len() ==> !keys::is_begin(#[trigger] ls[i])
}

pub open spec fn no_end(ls: Seq<Seq<char>>) -> bool {
    forall|i: int| 0 <= i < ls.len() ==> !keys::is_end(#[trigger] ls[i])
}

/// Where a block is found that was put between `pre` and `post`.
proof fn lemma_span_of_marked(
    pre: Seq<Seq<char>>,
    inner: Seq<Seq<char>>,
    post: Seq<Seq<char>>,
)
    requires
        no_begin(pre),
        no_end(inner),
    ensures
        keys::block_span(pre + marked(inner) + post) == Ok::<Option<(int, int)>, Problem>(
            Some((pre.len() as int, pre.len() as int + 1 + inner.len())),
        ),
{
    lemma_markers();
    let ls = pre + marked(inner) + post;
    let b = pre.len();
    assert(ls[b as int] == keys::BEGIN_MARKER@);
    assert forall|i: int| 0 <= i < b implies !keys::is_begin(#[trigger] ls[i]) by {
        assert(ls[i] == pre[i]);
    }
    lemma_first_begin_is(ls, b);
    let rest = ls.skip(b as int + 1);
    let e = inner.len();
    assert(rest[e as int] == keys::END_MARKER@);
    assert forall|i: int| 0 <= i < e implies !keys::is_end(#[trigger] rest[i]) by {
        assert(rest[i] == inner[i]);
    }
    lemma_first_end_is(rest, e);
}

// ---------------------------------------------------------------------------
// Writing
// ---------------------------------------------------------------------------

/// What stands before and behind the block in a file that is written.
pub open spec fn around(contents: Seq<char>) -> (Seq<char>, Seq<char>) {
    match keys::block_span(text::lines(contents)) {
        Ok(Some(_)) => keys::outside(contents),
        _ => (keys::spaced(contents), Seq::empty()),
    }
}

/// A block in a file is made of ended lines: the markers with its own between
/// them.
proof fn lemma_block_of(block: Seq<char>)
    ensures
        text::is_ended(keys::block_of(block)),
        keys::block_of(block).len() > 0,
        text::lines(keys::block_of(block)) == marked(without_cr(text::lines(block))),
        without_cr(text::lines(block)).len() == text::lines(block).len(),
{
    let inner = text::lines(block);
    let ls = keys::with_markers(block);
    lemma_markers();
    lemma_lines_unbroken(block);
    assert forall|i: int| 0 <= i < ls.len() implies unbroken(#[trigger] ls[i]) by {
        if 0 < i < inner.len() + 1 {
            assert(ls[i] == inner[i - 1]);
            assert(unbroken(inner[i - 1]));
        }
    }
    lemma_lines_of_file(ls);
    assert(without_cr(ls) =~= marked(without_cr(inner)));
    reveal_strlit("\n");
}

/// What is added above a block is line feeds, so no marker.
proof fn lemma_spaced(contents: Seq<char>)
    ensures
        text::is_ended(keys::spaced(contents)),
        text::starts_with(keys::spaced(contents), contents),
        keys::spaced(contents).len() <= contents.len() + 2,
        no_begin(text::lines(contents)) ==> no_begin(text::lines(keys::spaced(contents))),
        no_end(text::lines(contents)) ==> no_end(text::lines(keys::spaced(contents))),
{
    let c = contents;
    let ended = if text::is_ended(c) {
        c
    } else {
        c.push('\n')
    };
    let ls = text::lines(c);
    let es = text::lines(ended);
    let ss = text::lines(keys::spaced(c));
    if !text::is_ended(c) {
        text::lemma_lines_end(c);
        lemma_trim_cr(ls.last());
    }
    assert(keys::spaced(c).take(c.len() as int) =~= c);
    text::lemma_lines_feed(ended);
    lemma_markers();
    assert forall|i: int| 0 <= i < ss.len() && i < ls.len() implies text::trim(#[trigger] ss[i])
        == text::trim(ls[i]) by {
        assert(ss[i] == es[i]);
    }
    assert forall|i: int| ls.len() <= i < ss.len() implies #[trigger] ss[i] == Seq::<
        char,
    >::empty() by {}
    if no_begin(ls) {
        assert forall|i: int| 0 <= i < ss.len() implies !keys::is_begin(#[trigger] ss[i]) by {
            if i < ls.len() {
                assert(!keys::is_begin(ls[i]));
            }
        }
    }
    if no_end(ls) {
        assert forall|i: int| 0 <= i < ss.len() implies !keys::is_end(#[trigger] ss[i]) by {
            if i < ls.len() {
                assert(!keys::is_end(ls[i]));
            }
        }
    }
}

/// What is outside a block is cut at the starts of lines.
proof fn lemma_outside(contents: Seq<char>)
    requires
        keys::block_span(text::lines(contents)) matches Ok(Some(_)),
    ensures
        ({
            let ls = text::lines(contents);
            let (begin, end) = keys::block_span(ls)->Ok_0->0;
            let (before, after) = keys::outside(contents);
            &&& 0 <= begin < end < ls.len()
            &&& text::is_ended(before)
            &&& text::lines(before) == ls.take(begin)
            &&& text::lines(after) == ls.skip(end + 1)
            &&& no_begin(text::lines(before))
        }),
{
    let ls = text::lines(contents);
    let (begin, end) = keys::block_span(ls)->Ok_0->0;
    keys::lemma_first_begin(ls);
    keys::lemma_first_end(ls.skip(begin + 1));
    text::lemma_line_start(contents, begin as nat);
    text::lemma_line_start(contents, (end + 1) as nat);
    assert forall|i: int| 0 <= i < begin implies !keys::is_begin(#[trigger] ls.take(begin)[i]) by {
        assert(!keys::is_begin(ls[i]));
    }
}

/// A file with a block that is not blank put into it.
proof fn lemma_written(contents: Seq<char>, block: Seq<char>)
    requires
        keys::block_span(text::lines(contents)) is Ok,
        !keys::is_blank(block),
        no_end(text::lines(block)),
    ensures
        ({
            let (pre, post) = around(contents);
            let inner = without_cr(text::lines(block));
            let file = pre + keys::block_of(block) + post;
            let now = text::lines(file);
            let b = text::lines(pre).len();
            &&& keys::spliced(contents, block) == Ok::<Seq<char>, Problem>(file)
            &&& text::is_ended(pre)
            &&& now == text::lines(pre) + marked(inner) + text::lines(post)
            &&& keys::block_span(now) == Ok::<Option<(int, int)>, Problem>(
                Some((b as int, b as int + 1 + inner.len())),
            )
            &&& keys::outside(file) == (pre, post)
        }),
{
    let ls = text::lines(contents);
    let (pre, post) = around(contents);
    let inner = without_cr(text::lines(block));
    let mid = keys::block_of(block);
    let file = pre + mid + post;
    let b = text::lines(pre).len();
    lemma_block_of(block);
    match keys::block_span(ls)->Ok_0 {
        Some(_) => {
            lemma_outside(contents);
        },
        None => {
            keys::lemma_first_begin(ls);
            lemma_spaced(contents);
            assert(file =~= keys::spaced(contents) + mid);
        },
    }
    assert(text::is_ended(pre + mid)) by {
        assert((pre + mid).last() == mid.last());
    }
    text::lemma_lines_add(pre, mid);
    text::lemma_lines_add(pre + mid, post);
    lemma_without_cr(text::lines(block));
    assert forall|i: int| 0 <= i < inner.len() implies !keys::is_end(#[trigger] inner[i]) by {
        assert(!keys::is_end(text::lines(block)[i]));
    }
    lemma_span_of_marked(text::lines(pre), inner, text::lines(post));
    text::lemma_line_start_add(pre, mid + post, 0);
    assert(pre + (mid + post) =~= file);
    text::lemma_line_start_add(pre + mid, post, 0);
    assert(file.take(pre.len() as int) =~= pre);
    assert(file.skip((pre + mid).len() as int) =~= post);
}

/// A key that is read back from its line: every key that was ever read is one.
pub open spec fn stored(k: Key) -> bool {
    keys::key_of(keys::key_line(k)) == Ok::<Key, Problem>(k)
}

pub open spec fn all_stored(ks: Seq<Key>) -> bool {
    forall|i: int| 0 <= i < ks.len() ==> stored(#[trigger] ks[i])
}

pub open spec fn lines_for(ks: Seq<Key>) -> Seq<Seq<char>> {
    ks.map_values(|k: Key| keys::key_line(k))
}

proof fn lemma_block_text(ks: Seq<Key>)
    ensures
        keys::block_text(ks) == keys::file_of(lines_for(ks)),
    decreases ks.len(),
{
    let ls = lines_for(ks);
    if ks.len() > 0 {
        lemma_block_text(ks.drop_last());
        assert(ls.drop_last() =~= lines_for(ks.drop_last()));
        assert(ls.last() == keys::key_line(ks.last()));
        if ks.len() == 1 {
            assert(keys::block_text(ks) =~= keys::file_of(ls));
        }
    }
}

proof fn lemma_stored_line(k: Key)
    requires
        stored(k),
    ensures
        unbroken(keys::key_line(k)),
        text::strip_cr(keys::key_line(k)) == keys::key_line(k),
        keys::is_key_line(keys::key_line(k)),
        keys::key_of(text::trim(keys::key_line(k))) == Ok::<Key, Problem>(k),
        !keys::is_end(keys::key_line(k)),
        exists|i: int|
            0 <= i < keys::key_line(k).len() && !text::is_space(#[trigger] keys::key_line(k)[i]),
{
    let l = keys::key_line(k);
    lemma_key_parts(l);
    lemma_trimmed_line(l);
    lemma_markers();
    let a = k.algorithm;
    assert(a[0] != '#') by {
        reveal_strlit("ssh-ed25519");
        reveal_strlit("sk-ssh-ed25519@openssh.com");
        reveal_strlit("ssh-rsa");
        reveal_strlit("rsa-sha2-256");
        reveal_strlit("rsa-sha2-512");
        reveal_strlit("ecdsa-sha2-nistp256");
        reveal_strlit("ecdsa-sha2-nistp384");
        reveal_strlit("ecdsa-sha2-nistp521");
        reveal_strlit("sk-ecdsa-sha2-nistp256@openssh.com");
    }
    text::lemma_trim_len(l);
    assert(!keys::has_control(l));
    assert(l[0] == a[0]);
    assert(!text::is_space(l[0]));
    assert forall|j: int| 0 <= j < l.len() implies #[trigger] l[j] != '\n' by {
        assert(!text::is_control(l[j]));
    }
    assert(!text::is_control(l.last()));
}

proof fn lemma_keys_on_stored(ks: Seq<Key>)
    requires
        all_stored(ks),
    ensures
        keys::keys_on(lines_for(ks)) == Ok::<Seq<Key>, Problem>(ks),
    decreases ks.len(),
{
    let ls = lines_for(ks);
    if ks.len() == 0 {
        assert(ks =~= Seq::empty());
    } else {
        assert forall|i: int| 0 <= i < ks.drop_last().len() implies stored(
            #[trigger] ks.drop_last()[i],
        ) by {
            assert(stored(ks[i]));
        }
        lemma_keys_on_stored(ks.drop_last());
        assert(ls.drop_last() =~= lines_for(ks.drop_last()));
        assert(stored(ks[ks.len() - 1]));
        lemma_stored_line(ks.last());
        assert(ks.drop_last().push(ks.last()) =~= ks);
    }
}

/// The lines of a rendered block.
proof fn lemma_rendered(ks: Seq<Key>)
    requires
        ks.len() > 0,
        all_stored(ks),
    ensures
        text::lines(keys::block_text(ks)) == lines_for(ks),
        without_cr(lines_for(ks)) == lines_for(ks),
        no_end(lines_for(ks)),
        !keys::is_blank(keys::block_text(ks)),
{
    let ls = lines_for(ks);
    lemma_block_text(ks);
    assert forall|i: int| 0 <= i < ls.len() implies unbroken(#[trigger] ls[i]) by {
        assert(stored(ks[i]));
        lemma_stored_line(ks[i]);
    }
    assert forall|i: int| 0 <= i < ls.len() implies !keys::is_end(#[trigger] ls[i]) by {
        assert(stored(ks[i]));
        lemma_stored_line(ks[i]);
    }
    assert forall|i: int| 0 <= i < ls.len() implies without_cr(ls)[i] == #[trigger] ls[i] by {
        assert(stored(ks[i]));
        lemma_stored_line(ks[i]);
    }
    assert(without_cr(ls) =~= ls);
    lemma_lines_of_file(ls);
    let last = keys::key_line(ks.last());
    assert(stored(ks[ks.len() - 1]));
    lemma_stored_line(ks.last());
    let j = choose|i: int| 0 <= i < last.len() && !text::is_space(#[trigger] last[i]);
    let before = keys::block_text(ks.drop_last());
    assert(keys::block_text(ks)[before.len() + j] == last[j]);
    lemma_not_blank(keys::block_text(ks), before.len() + j);
}

/// What is written is what is read: after the block for some keys has been put
/// into a file, the file's block holds exactly those keys, in order.
pub proof fn law_the_block_reads_back(contents: Seq<char>, ks: Seq<Key>)
    requires
        keys::block_span(text::lines(contents)) is Ok,
        ks.len() > 0,
        all_stored(ks),
    ensures
        keys::spliced(contents, keys::block_text(ks)) is Ok,
        keys::block_keys(keys::spliced(contents, keys::block_text(ks))->Ok_0) == Ok::<
            Seq<Key>,
            Problem,
        >(ks),
{
    let block = keys::block_text(ks);
    lemma_rendered(ks);
    lemma_written(contents, block);
    let (pre, post) = around(contents);
    let now = text::lines(keys::spliced(contents, block)->Ok_0);
    let inner = lines_for(ks);
    let b = text::lines(pre).len() as int;
    assert(now.subrange(b + 1, b + 1 + inner.len()) =~= inner);
    lemma_keys_on_stored(ks);
}

/// Everything outside the markers is the tenant's: a block is put between what
/// stood before the old one and what stood behind it, character for character;
/// where there was none, it comes behind the whole file. There at most two line
/// feeds come between, one that ends the last line and one for an empty line.
pub proof fn law_everything_outside_the_block_survives(contents: Seq<char>, block: Seq<char>)
    requires
        keys::block_span(text::lines(contents)) is Ok,
        !keys::is_blank(block),
        no_end(text::lines(block)),
    ensures
        keys::spliced(contents, block) is Ok,
        ({
            let (before, after) = keys::outside(contents);
            let file = keys::spliced(contents, block)->Ok_0;
            let (pre, post) = keys::outside(file);
            &&& file == pre + keys::block_of(block) + post
            &&& post == after
            &&& match keys::block_span(text::lines(contents))->Ok_0 {
                Some(_) => pre == before,
                None => text::starts_with(pre, contents) && pre.len() <= contents.len() + 2
                    && forall|i: int|
                    contents.len() <= i < pre.len() ==> #[trigger] pre[i] == '\n',
            }
        }),
{
    lemma_written(contents, block);
    lemma_spaced(contents);
}

/// A blank block takes the block out and leaves what is outside it, character
/// for character: before and behind it, or, at the end of a file, before it
/// without the empty line that set it off. A file without a block is not
/// touched. If no other marker is in the file, it then reads as holding no
/// keys.
pub proof fn law_a_blank_block_leaves_no_keys(contents: Seq<char>, block: Seq<char>)
    requires
        keys::block_span(text::lines(contents)) is Ok,
        keys::is_blank(block),
    ensures
        keys::spliced(contents, block) is Ok,
        ({
            let (before, after) = keys::outside(contents);
            let file = keys::spliced(contents, block)->Ok_0;
            let others = text::lines(before) + text::lines(after);
            &&& file == before + after || keys::is_spaced(before) && after.len() == 0
                && file.push('\n') == before
            &&& no_begin(others) && no_end(others) ==> keys::block_keys(file) == Ok::<
                Seq<Key>,
                Problem,
            >(Seq::empty())
        }),
{
    let ls = text::lines(contents);
    let (before, after) = keys::outside(contents);
    let file = keys::spliced(contents, block)->Ok_0;
    let others = text::lines(before) + text::lines(after);
    match keys::block_span(ls)->Ok_0 {
        None => {
            assert(before + after =~= contents);
        },
        Some(_) => {
            lemma_outside(contents);
            text::lemma_lines_add(before, after);
            assert(after.len() == 0 ==> before + after =~= before);
            if after.len() == 0 && keys::is_spaced(before) {
                let d = before.drop_last();
                assert(d.push('\n') =~= before);
                assert(d.last() == before[before.len() - 2]);
                text::lemma_lines_feed(d);
                assert(text::lines(d) =~= others.drop_last());
            }
            let now = text::lines(file);
            if no_begin(others) && no_end(others) {
                assert forall|i: int| 0 <= i < now.len() implies !keys::is_begin(
                    #[trigger] now[i],
                ) by {
                    assert(now[i] == others[i]);
                }
                assert forall|i: int| 0 <= i < now.len() implies !keys::is_end(
                    #[trigger] now[i],
                ) by {
                    assert(now[i] == others[i]);
                }
                lemma_first_begin_is(now, now.len());
                lemma_first_end_is(now, now.len());
            }
        },
    }
}

/// A file that shows, when a block at its end is taken out, where it ended: its
/// last line is ended, and it does not end in one empty line with something
/// above it, as a file with a block set off does.
pub open spec fn ends_plainly(contents: Seq<char>) -> bool {
    text::is_ended(contents) && !keys::is_spaced(contents)
}

proof fn lemma_unspaced(contents: Seq<char>)
    requires
        ends_plainly(contents),
    ensures
        keys::unspaced(keys::spaced(contents)) == contents,
{
    if !keys::last_line_is_empty(contents) {
        assert(contents.len() > 0);
        assert(keys::spaced(contents).drop_last() =~= contents);
    }
}

/// The last write wins: a block written over another block leaves the file as
/// if the other had never been written. Where the other was the first of the
/// file and is only taken out, the file must end plainly.
pub proof fn law_the_last_write_wins(contents: Seq<char>, first: Seq<char>, second: Seq<char>)
    requires
        keys::block_span(text::lines(contents)) is Ok,
        !keys::is_blank(first),
        no_end(text::lines(first)),
        keys::is_blank(second) && keys::block_span(text::lines(contents))->Ok_0 is None
            ==> ends_plainly(contents),
    ensures
        keys::spliced(contents, first) is Ok,
        keys::spliced(keys::spliced(contents, first)->Ok_0, second) == keys::spliced(
            contents,
            second,
        ),
{
    lemma_written(contents, first);
    let (pre, post) = around(contents);
    if keys::block_span(text::lines(contents))->Ok_0 is None {
        if keys::is_blank(second) {
            lemma_unspaced(contents);
        } else {
            assert(pre + keys::block_of(second) + post =~= pre + keys::block_of(second));
        }
    }
}

/// Taking the last key out takes the block out and nothing else: a file without
/// a block that ends plainly is there again, character for character, after a
/// block was written and taken out.
pub proof fn law_removing_the_block_restores_the_file(contents: Seq<char>, block: Seq<char>)
    requires
        keys::block_span(text::lines(contents)) == Ok::<Option<(int, int)>, Problem>(None),
        ends_plainly(contents),
        !keys::is_blank(block),
        no_end(text::lines(block)),
    ensures
        keys::spliced(contents, block) is Ok,
        keys::spliced(keys::spliced(contents, block)->Ok_0, Seq::empty()) == Ok::<
            Seq<char>,
            Problem,
        >(contents),
{
    law_the_last_write_wins(contents, block, Seq::empty());
}

/// After a write each marker stands in the file exactly once, if neither the
/// block nor what is outside it holds one.
pub proof fn law_each_marker_stands_once(contents: Seq<char>, block: Seq<char>)
    requires
        keys::block_span(text::lines(contents)) is Ok,
        !keys::is_blank(block),
        no_begin(text::lines(block)),
        no_end(text::lines(block)),
        no_begin(text::lines(keys::outside(contents).1)),
        no_end(text::lines(keys::outside(contents).0)),
        no_end(text::lines(keys::outside(contents).1)),
    ensures
        keys::spliced(contents, block) is Ok,
        ({
            let now = text::lines(keys::spliced(contents, block)->Ok_0);
            &&& keys::block_span(now) matches Ok(Some((begin, end)))
            &&& 0 <= begin < end < now.len()
            &&& forall|i: int|
                0 <= i < now.len() ==> (keys::is_begin(#[trigger] now[i]) <==> i == begin)
            &&& forall|i: int|
                0 <= i < now.len() ==> (keys::is_end(#[trigger] now[i]) <==> i == end)
        }),
{
    let ls = text::lines(contents);
    lemma_written(contents, block);
    lemma_markers();
    lemma_without_cr(text::lines(block));
    let (pre, post) = around(contents);
    let above = text::lines(pre);
    let below = text::lines(post);
    let inner = without_cr(text::lines(block));
    let now = text::lines(keys::spliced(contents, block)->Ok_0);
    match keys::block_span(ls)->Ok_0 {
        Some(_) => {
            lemma_outside(contents);
        },
        None => {
            keys::lemma_first_begin(ls);
            keys::lemma_first_end(ls);
            lemma_spaced(contents);
        },
    }
    let b = above.len();
    let e = b + 1 + inner.len();
    assert forall|i: int| 0 <= i < now.len() implies (keys::is_begin(#[trigger] now[i]) <==> i == b)
        && (keys::is_end(now[i]) <==> i == e) by {
        if i < b {
            assert(now[i] == above[i]);
        } else if i == b {
            assert(now[i] == keys::BEGIN_MARKER@);
        } else if i < e {
            assert(now[i] == inner[i - b - 1]);
            assert(text::trim(inner[i - b - 1]) == text::trim(text::lines(block)[i - b - 1]));
            assert(!keys::is_begin(text::lines(block)[i - b - 1]));
            assert(!keys::is_end(text::lines(block)[i - b - 1]));
        } else if i == e {
            assert(now[i] == keys::END_MARKER@);
        } else {
            assert(now[i] == below[i - e - 1]);
        }
    }
}

/// Half a block is refused by everything that looks for the block: a begin
/// marker with no end marker after it, and an end marker with no begin marker.
pub proof fn law_half_a_block_is_refused(contents: Seq<char>, block: Seq<char>, at: int)
    requires
        ({
            let ls = text::lines(contents);
            &&& 0 <= at < ls.len()
            &&& {
                ||| keys::is_begin(ls[at]) && no_begin(ls.take(at)) && no_end(ls.skip(at + 1))
                ||| keys::is_end(ls[at]) && no_begin(ls)
            }
        }),
    ensures
        keys::block_span(text::lines(contents)) is Err,
        keys::block_keys(contents) is Err,
        keys::spliced(contents, block) is Err,
        keys::unmanaged_keys(contents) is Err,
{
    let ls = text::lines(contents);
    if no_begin(ls) {
        lemma_first_begin_is(ls, ls.len());
        keys::lemma_first_end(ls);
        if keys::first_end(ls) >= ls.len() {
            assert(!keys::is_end(ls[at]));
        }
    } else {
        assert(keys::is_begin(ls[at]));
        assert forall|i: int| 0 <= i < at implies !keys::is_begin(#[trigger] ls[i]) by {
            assert(ls.take(at)[i] == ls[i]);
        }
        lemma_first_begin_is(ls, at as nat);
        lemma_first_end_is(ls.skip(at + 1), ls.skip(at + 1).len());
    }
}

} // verus!
