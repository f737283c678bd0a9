//! Text as sequences of characters.
//!
//! Contracts across the crate speak of `Seq<char>`; this module holds the
//! vocabulary (trimming, lines, words, decimal numbers, ...) and the executable
//! functions that compute it.
use vstd::prelude::*;
use vstd::string::StringExecFns;
use vstd::string::StrSliceExecFns;

pub mod laws;

verus! {

/// `String::push` appends one character at the end.
pub assume_specification[ String::push ](s: &mut String, c: char)
    ensures
        final(s)@ == old(s)@.push(c),
;

// ---------------------------------------------------------------------------
// Characters
// ---------------------------------------------------------------------------

/// The Unicode `White_Space` property.
pub open spec fn is_space(c: char) -> bool {
    let n = c as int;
    ||| 9 <= n <= 13
    ||| n == 0x20
    ||| n == 0x85
    ||| n == 0xA0
    ||| n == 0x1680
    ||| 0x2000 <= n <= 0x200A
    ||| n == 0x2028
    ||| n == 0x2029
    ||| n == 0x202F
    ||| n == 0x205F
    ||| n == 0x3000
}

/// The Unicode general category `Cc`: the two blocks of control codes.
pub open spec fn is_control(c: char) -> bool {
    let n = c as int;
    n <= 0x1F || 0x7F <= n <= 0x9F
}

pub open spec fn is_digit(c: char) -> bool {
    '0' as int <= c as int <= '9' as int
}

pub open spec fn is_lower(c: char) -> bool {
    'a' as int <= c as int <= 'z' as int
}

pub open spec fn is_upper(c: char) -> bool {
    'A' as int <= c as int <= 'Z' as int
}

/// An ASCII letter.
pub open spec fn is_letter(c: char) -> bool {
    is_lower(c) || is_upper(c)
}

pub open spec fn is_hex_digit(c: char) -> bool {
    is_digit(c) || 'a' as int <= c as int <= 'f' as int || 'A' as int <= c as int <= 'F' as int
}

/// The number a hexadecimal digit stands for.
pub open spec fn hex_digit_value(c: char) -> int {
    if is_digit(c) {
        c as int - '0' as int
    } else if is_lower(c) {
        c as int - 'a' as int + 10
    } else {
        c as int - 'A' as int + 10
    }
}

/// ASCII upper case to ASCII lower case; every other character stays.
pub open spec fn lower(c: char) -> char {
    if is_upper(c) {
        (c as int + 32) as char
    } else {
        c
    }
}

pub open spec fn lower_all(s: Seq<char>) -> Seq<char> {
    s.map_values(|c: char| lower(c))
}

/// The code point of a character.
pub fn code_point(c: char) -> (r: u32)
    ensures
        r == c as int,
{
    c as u32
}

pub fn char_is_space(c: char) -> (r: bool)
    ensures
        r == is_space(c),
{
    let n: u32 = c as u32;
    (9 <= n && n <= 13) || n == 0x20 || n == 0x85 || n == 0xA0 || n == 0x1680 || (0x2000 <= n && n
        <= 0x200A) || n == 0x2028 || n == 0x2029 || n == 0x202F || n == 0x205F || n == 0x3000
}

pub fn char_is_control(c: char) -> (r: bool)
    ensures
        r == is_control(c),
{
    let n: u32 = c as u32;
    n <= 0x1F || (0x7F <= n && n <= 0x9F)
}

pub fn char_is_digit(c: char) -> (r: bool)
    ensures
        r == is_digit(c),
{
    let n: u32 = c as u32;
    48 <= n && n <= 57
}

pub fn char_is_lower(c: char) -> (r: bool)
    ensures
        r == is_lower(c),
{
    let n: u32 = c as u32;
    97 <= n && n <= 122
}

pub fn char_is_upper(c: char) -> (r: bool)
    ensures
        r == is_upper(c),
{
    let n: u32 = c as u32;
    65 <= n && n <= 90
}

pub fn char_is_hex_digit(c: char) -> (r: bool)
    ensures
        r == is_hex_digit(c),
{
    let n: u32 = c as u32;
    (48 <= n && n <= 57) || (97 <= n && n <= 102) || (65 <= n && n <= 70)
}

pub fn hex_digit(c: char) -> (r: u32)
    requires
        is_hex_digit(c),
    ensures
        r == hex_digit_value(c),
        r < 16,
{
    let n: u32 = c as u32;
    if 48 <= n && n <= 57 {
        n - 48
    } else if 97 <= n && n <= 102 {
        n - 97 + 10
    } else {
        n - 65 + 10
    }
}

pub fn char_lower(c: char) -> (r: char)
    ensures
        r == lower(c),
{
    let n: u32 = c as u32;
    if 65 <= n && n <= 90 {
        let m: u8 = (n + 32) as u8;
        m as char
    } else {
        c
    }
}

// ---------------------------------------------------------------------------
// Moving between strings and characters
// ---------------------------------------------------------------------------

pub fn chars_of(s: &str) -> (r: Vec<char>)
    ensures
        r@ == s@,
{
    let mut out: Vec<char> = Vec::new();
    for c in it: s.chars()
        invariant
            out@ =~= it.seq().take(it.index() as int),
            it.seq() == s@,
    {
        out.push(c);
    }
    out
}

/// The characters from `lo` up to `hi` as a string.
pub fn string_of(v: &[char], lo: usize, hi: usize) -> (r: String)
    requires
        lo <= hi <= v@.len(),
    ensures
        r@ == v@.subrange(lo as int, hi as int),
{
    let mut out: String = String::new();
    let mut i: usize = lo;
    while i < hi
        invariant
            lo <= i <= hi <= v@.len(),
            out@ =~= v@.subrange(lo as int, i as int),
        decreases hi - i,
    {
        out.push(v[i]);
        i = i + 1;
    }
    out
}

/// The length of the UTF-8 encoding.
pub fn utf8_len(s: &str) -> (r: usize)
    ensures
        r == vstd::utf8::encode_utf8(s@).len(),
{
    s.as_bytes().len()
}

/// The UTF-8 encoding of a text has at least one byte for each character.
pub proof fn lemma_utf8_len(s: Seq<char>)
    ensures
        s.len() <= vstd::utf8::encode_utf8(s).len(),
    decreases s.len(),
{
    if s.len() > 0 {
        lemma_utf8_len(s.drop_first());
    }
}

pub fn same(a: &str, b: &str) -> (r: bool)
    ensures
        r == (a@ == b@),
{
    let x: String = a.to_owned();
    let y: String = b.to_owned();
    x == y
}

/// The texts of a sequence of strings.
pub open spec fn texts(v: Seq<String>) -> Seq<Seq<char>> {
    v.map_values(|s: String| s@)
}

// ---------------------------------------------------------------------------
// Trimming
// ---------------------------------------------------------------------------

pub open spec fn trim_start(s: Seq<char>) -> Seq<char>
    decreases s.len(),
{
    if s.len() > 0 && is_space(s[0]) {
        trim_start(s.skip(1))
    } else {
        s
    }
}

pub open spec fn trim_end(s: Seq<char>) -> Seq<char>
    decreases s.len(),
{
    if s.len() > 0 && is_space(s.last()) {
        trim_end(s.drop_last())
    } else {
        s
    }
}

pub open spec fn trim(s: Seq<char>) -> Seq<char> {
    trim_end(trim_start(s))
}

/// Where the first non-space at or after `lo` stands.
pub fn skip_spaces(v: &[char], lo: usize, hi: usize) -> (r: usize)
    requires
        lo <= hi <= v@.len(),
    ensures
        lo <= r <= hi,
        v@.subrange(r as int, hi as int) == trim_start(v@.subrange(lo as int, hi as int)),
        r < hi ==> !is_space(v@[r as int]),
{
    let mut i: usize = lo;
    while i < hi && char_is_space(v[i])
        invariant
            lo <= i <= hi <= v@.len(),
            trim_start(v@.subrange(i as int, hi as int)) == trim_start(
                v@.subrange(lo as int, hi as int),
            ),
        decreases hi - i,
    {
        assert(v@.subrange(i as int, hi as int).skip(1) =~= v@.subrange(i + 1, hi as int));
        i = i + 1;
    }
    i
}

/// Where the text between `lo` and `hi` ends once trailing spaces are dropped.
pub fn drop_spaces(v: &[char], lo: usize, hi: usize) -> (r: usize)
    requires
        lo <= hi <= v@.len(),
    ensures
        lo <= r <= hi,
        v@.subrange(lo as int, r as int) == trim_end(v@.subrange(lo as int, hi as int)),
{
    let mut i: usize = hi;
    while i > lo && char_is_space(v[i - 1])
        invariant
            lo <= i <= hi <= v@.len(),
            trim_end(v@.subrange(lo as int, i as int)) == trim_end(
                v@.subrange(lo as int, hi as int),
            ),
        decreases i,
    {
        assert(v@.subrange(lo as int, i as int).drop_last() =~= v@.subrange(lo as int, i - 1));
        i = i - 1;
    }
    i
}

/// The text without leading and trailing white space.
pub fn trimmed(s: &str) -> (r: String)
    ensures
        r@ == trim(s@),
{
    let v = chars_of(s);
    let n: usize = v.len();
    let lo: usize = skip_spaces(v.as_slice(), 0, n);
    let hi: usize = drop_spaces(v.as_slice(), lo, n);
    assert(v@.subrange(0, n as int) =~= v@);
    string_of(v.as_slice(), lo, hi)
}

pub fn trimmed_end(s: &str) -> (r: String)
    ensures
        r@ == trim_end(s@),
{
    let v = chars_of(s);
    let n: usize = v.len();
    let hi: usize = drop_spaces(v.as_slice(), 0, n);
    assert(v@.subrange(0, n as int) =~= v@);
    string_of(v.as_slice(), 0, hi)
}

pub proof fn lemma_trim_start_len(s: Seq<char>)
    ensures
        trim_start(s).len() <= s.len(),
        trim_start(s).len() > 0 ==> !is_space(trim_start(s)[0]),
        forall|i: int|
            0 <= i < trim_start(s).len() ==> #[trigger] trim_start(s)[i] == s[i + s.len()
                - trim_start(s).len()],
    decreases s.len(),
{
    if s.len() > 0 && is_space(s[0]) {
        lemma_trim_start_len(s.skip(1));
    }
}

pub proof fn lemma_trim_end_len(s: Seq<char>)
    ensures
        trim_end(s).len() <= s.len(),
        trim_end(s).len() > 0 ==> !is_space(trim_end(s).last()),
        trim_end(s) == s.take(trim_end(s).len() as int),
    decreases s.len(),
{
    if s.len() > 0 && is_space(s.last()) {
        lemma_trim_end_len(s.drop_last());
        assert(s.drop_last().take(trim_end(s).len() as int) =~= s.take(trim_end(s).len() as int));
    } else {
        assert(s.take(s.len() as int) =~= s);
    }
}

/// A trimmed text is a part of the text, and no space stands at either end.
pub proof fn lemma_trim_len(s: Seq<char>)
    ensures
        trim(s).len() <= s.len(),
        trim(s).len() > 0 ==> !is_space(trim(s)[0]) && !is_space(trim(s).last()),
{
    lemma_trim_start_len(s);
    lemma_trim_end_len(trim_start(s));
}

// ---------------------------------------------------------------------------
// Splitting
// ---------------------------------------------------------------------------

/// How many characters stand before the first `c` (all of them, if there is none).
pub open spec fn before(s: Seq<char>, c: char) -> nat
    decreases s.len(),
{
    if s.len() == 0 || s[0] == c {
        0
    } else {
        1 + before(s.skip(1), c)
    }
}

/// How many characters stand before the first white space.
pub open spec fn before_space(s: Seq<char>) -> nat
    decreases s.len(),
{
    if s.len() == 0 || is_space(s[0]) {
        0
    } else {
        1 + before_space(s.skip(1))
    }
}

pub proof fn lemma_before(s: Seq<char>, c: char)
    ensures
        before(s, c) <= s.len(),
        before(s, c) < s.len() ==> s[before(s, c) as int] == c,
        forall|i: int| 0 <= i < before(s, c) ==> #[trigger] s[i] != c,
    decreases s.len(),
{
    if s.len() > 0 && s[0] != c {
        lemma_before(s.skip(1), c);
        assert forall|i: int| 0 <= i < before(s, c) implies #[trigger] s[i] != c by {
            if i > 0 {
                assert(s.skip(1)[i - 1] == s[i]);
            }
        }
    }
}

pub proof fn lemma_before_is(s: Seq<char>, c: char, k: nat)
    requires
        k <= s.len(),
        k < s.len() ==> s[k as int] == c,
        forall|i: int| 0 <= i < k ==> #[trigger] s[i] != c,
    ensures
        before(s, c) == k,
    decreases s.len(),
{
    if k > 0 {
        assert(s[0] != c);
        assert forall|i: int| 0 <= i < k - 1 implies #[trigger] s.skip(1)[i] != c by {
            assert(s[i + 1] != c);
        }
        lemma_before_is(s.skip(1), c, (k - 1) as nat);
    }
}

pub proof fn lemma_before_space(s: Seq<char>)
    ensures
        before_space(s) <= s.len(),
        before_space(s) < s.len() ==> is_space(s[before_space(s) as int]),
        forall|i: int| 0 <= i < before_space(s) ==> !is_space(#[trigger] s[i]),
        s.len() > 0 && !is_space(s[0]) ==> before_space(s) > 0,
    decreases s.len(),
{
    if s.len() > 0 && !is_space(s[0]) {
        lemma_before_space(s.skip(1));
        assert forall|i: int| 0 <= i < before_space(s) implies !is_space(#[trigger] s[i]) by {
            if i > 0 {
                assert(s.skip(1)[i - 1] == s[i]);
            }
        }
    }
}

/// The index of the first `c` at or after `lo`, or `hi`.
pub fn find_char(v: &[char], lo: usize, hi: usize, c: char) -> (r: usize)
    requires
        lo <= hi <= v@.len(),
    ensures
        lo <= r <= hi,
        r == lo + before(v@.subrange(lo as int, hi as int), c),
        r < hi ==> v@[r as int] == c,
        forall|i: int| lo <= i < r ==> #[trigger] v@[i] != c,
{
    let mut i: usize = lo;
    while i < hi && v[i] != c
        invariant
            lo <= i <= hi <= v@.len(),
            forall|j: int| lo <= j < i ==> #[trigger] v@[j] != c,
        decreases hi - i,
    {
        i = i + 1;
    }
    proof {
        lemma_before_is(v@.subrange(lo as int, hi as int), c, (i - lo) as nat);
    }
    i
}

/// The index of the first white space at or after `lo`, or `hi`.
pub fn find_space(v: &[char], lo: usize, hi: usize) -> (r: usize)
    requires
        lo <= hi <= v@.len(),
    ensures
        lo <= r <= hi,
        r == lo + before_space(v@.subrange(lo as int, hi as int)),
        r < hi ==> is_space(v@[r as int]),
{
    let mut i: usize = lo;
    proof {
        lemma_before_space(v@.subrange(lo as int, hi as int));
    }
    while i < hi && !char_is_space(v[i])
        invariant
            lo <= i <= hi <= v@.len(),
            i - lo + before_space(v@.subrange(i as int, hi as int)) == before_space(
                v@.subrange(lo as int, hi as int),
            ),
        decreases hi - i,
    {
        assert(v@.subrange(i as int, hi as int).skip(1) =~= v@.subrange(i + 1, hi as int));
        i = i + 1;
    }
    i
}

/// The part before the first `c`, or all of it.
pub open spec fn head(s: Seq<char>, c: char) -> Seq<char> {
    s.take(before(s, c) as int)
}

/// The part behind the first `c`; nothing if there is none.
pub open spec fn tail(s: Seq<char>, c: char) -> Seq<char> {
    let k = before(s, c) as int;
    if k < s.len() {
        s.skip(k + 1)
    } else {
        Seq::empty()
    }
}

/// `Some((key, rest))` around the first white space, if there is one.
pub open spec fn split_space(s: Seq<char>) -> Option<(Seq<char>, Seq<char>)> {
    let k = before_space(s) as int;
    if k < s.len() {
        Some((s.take(k), s.skip(k + 1)))
    } else {
        None
    }
}

/// Without one trailing carriage return.
pub open spec fn strip_cr(s: Seq<char>) -> Seq<char> {
    if s.len() > 0 && s.last() == '\r' {
        s.drop_last()
    } else {
        s
    }
}

/// The lines of a text. `\n` and `\r\n` end a line; nothing follows the last
/// line ending.
pub open spec fn lines(s: Seq<char>) -> Seq<Seq<char>>
    decreases s.len(),
{
    let k = before(s, '\n') as int;
    if s.len() == 0 {
        Seq::empty()
    } else if k >= s.len() {
        seq![s]
    } else {
        seq![strip_cr(s.take(k))] + lines(s.skip(k + 1))
    }
}

/// How many characters stand before the line of an index: all of them, if there
/// is no such line.
pub open spec fn line_start(s: Seq<char>, i: nat) -> nat
    decreases s.len(),
{
    let k = before(s, '\n');
    if i == 0 || s.len() == 0 {
        0
    } else if k >= s.len() {
        s.len()
    } else {
        k + 1 + line_start(s.skip(k as int + 1), (i - 1) as nat)
    }
}

/// A text that is made of ended lines.
pub open spec fn is_ended(s: Seq<char>) -> bool {
    s.len() > 0 ==> s.last() == '\n'
}

/// Where a text is cut before a line, its lines are cut there too.
pub proof fn lemma_line_start(s: Seq<char>, i: nat)
    requires
        i <= lines(s).len(),
    ensures
        line_start(s, i) <= s.len(),
        lines(s.take(line_start(s, i) as int)) == lines(s).take(i as int),
        lines(s.skip(line_start(s, i) as int)) == lines(s).skip(i as int),
        i < lines(s).len() ==> is_ended(s.take(line_start(s, i) as int)),
    decreases s.len(),
{
    lemma_before(s, '\n');
    let k = before(s, '\n') as int;
    let at = line_start(s, i) as int;
    if i == 0 || s.len() == 0 {
        assert(s.take(0) =~= Seq::empty());
        assert(s.skip(0) =~= s);
        assert(lines(s).take(0) =~= Seq::empty());
        assert(lines(s).skip(0) =~= lines(s));
    } else if k >= s.len() {
        assert(s.take(at) =~= s);
        assert(s.skip(at) =~= Seq::empty());
        assert(lines(s).take(i as int) =~= lines(s));
        assert(lines(s).skip(i as int) =~= Seq::empty());
    } else {
        let rest = s.skip(k + 1);
        lemma_line_start(rest, (i - 1) as nat);
        let b = line_start(rest, (i - 1) as nat) as int;
        assert(at == k + 1 + b);
        assert(s.skip(at) =~= rest.skip(b));
        assert(lines(s).skip(i as int) =~= lines(rest).skip(i - 1));
        assert(s.take(at) =~= s.take(k + 1) + rest.take(b));
        assert(s.take(k + 1).last() == '\n');
        lemma_lines_add(s.take(k + 1), rest.take(b));
        lemma_before_is(s.take(k + 1), '\n', k as nat);
        assert(s.take(k + 1).take(k) =~= s.take(k));
        assert(s.take(k + 1).skip(k + 1) =~= Seq::empty());
        assert(lines(Seq::<char>::empty()) =~= Seq::<Seq<char>>::empty());
        assert(lines(s.take(k + 1)) =~= seq![strip_cr(s.take(k))]);
        assert(lines(s).take(i as int) =~= seq![strip_cr(s.take(k))] + lines(rest).take(i - 1));
    }
}

/// The lines of a text behind ended lines come behind theirs.
pub proof fn lemma_lines_add(a: Seq<char>, b: Seq<char>)
    requires
        is_ended(a),
    ensures
        lines(a + b) == lines(a) + lines(b),
    decreases a.len(),
{
    if a.len() == 0 {
        assert(a + b =~= b);
        assert(lines(a) + lines(b) =~= lines(b));
    } else {
        lemma_before(a, '\n');
        let k = before(a, '\n') as int;
        assert(k < a.len()) by {
            assert(a[a.len() - 1] == '\n');
        }
        assert forall|j: int| 0 <= j < k implies #[trigger] (a + b)[j] != '\n' by {
            assert((a + b)[j] == a[j]);
        }
        lemma_before_is(a + b, '\n', k as nat);
        assert((a + b).take(k) =~= a.take(k));
        assert((a + b).skip(k + 1) =~= a.skip(k + 1) + b);
        lemma_lines_add(a.skip(k + 1), b);
        assert(lines(a + b) =~= lines(a) + lines(b));
    }
}

/// Ending the last line adds none. A carriage return at its end then belongs to
/// the ending.
pub proof fn lemma_lines_end(s: Seq<char>)
    requires
        !is_ended(s),
    ensures
        lines(s).len() > 0,
        lines(s).last().len() > 0,
        lines(s.push('\n')) == lines(s).drop_last().push(
            strip_cr(lines(s).last()),
        ),
    decreases s.len(),
{
    lemma_before(s, '\n');
    let k = before(s, '\n') as int;
    let t = s.push('\n');
    assert forall|j: int| 0 <= j < k implies #[trigger] t[j] != '\n' by {
        assert(t[j] == s[j]);
    }
    lemma_before_is(t, '\n', k as nat);
    assert(t.take(k) =~= s.take(k));
    if k >= s.len() {
        assert(s.take(k) =~= s);
        assert(t.skip(k + 1) =~= Seq::empty());
        assert(lines(Seq::<char>::empty()) =~= Seq::<Seq<char>>::empty());
        assert(lines(t) =~= seq![strip_cr(s)]);
        assert(lines(s).drop_last() =~= Seq::empty());
    } else {
        assert(t.skip(k + 1) =~= s.skip(k + 1).push('\n'));
        lemma_lines_end(s.skip(k + 1));
        let rest = lines(s.skip(k + 1));
        assert(lines(s).drop_last() =~= seq![strip_cr(s.take(k))] + rest.drop_last());
        assert(lines(t) =~= lines(s).drop_last().push(strip_cr(rest.last())));
    }
}

/// An empty line behind ended lines.
pub proof fn lemma_lines_feed(s: Seq<char>)
    requires
        is_ended(s),
    ensures
        lines(s.push('\n')) == lines(s).push(Seq::empty()),
{
    let feed = seq!['\n'];
    lemma_before_is(feed, '\n', 0);
    assert(feed.take(0) =~= Seq::empty());
    assert(feed.skip(1) =~= Seq::empty());
    assert(lines(Seq::<char>::empty()) =~= Seq::<Seq<char>>::empty());
    assert(lines(feed) =~= seq![Seq::<char>::empty()]);
    lemma_lines_add(s, feed);
    assert(s + feed =~= s.push('\n'));
    assert(lines(s) + lines(feed) =~= lines(s).push(Seq::empty()));
}

/// Behind ended lines, lines start as much later as those are long.
pub proof fn lemma_line_start_add(a: Seq<char>, b: Seq<char>, i: nat)
    requires
        is_ended(a),
    ensures
        line_start(a + b, lines(a).len() + i) == a.len() + line_start(b, i),
    decreases a.len(),
{
    if a.len() == 0 {
        assert(a + b =~= b);
    } else {
        lemma_before(a, '\n');
        let k = before(a, '\n') as int;
        assert(k < a.len()) by {
            assert(a[a.len() - 1] == '\n');
        }
        assert forall|j: int| 0 <= j < k implies #[trigger] (a + b)[j] != '\n' by {
            assert((a + b)[j] == a[j]);
        }
        lemma_before_is(a + b, '\n', k as nat);
        assert((a + b).skip(k + 1) =~= a.skip(k + 1) + b);
        lemma_line_start_add(a.skip(k + 1), b, i);
    }
}

/// The index of the character that a line starts with.
pub fn line_start_of(v: &[char], i: usize) -> (r: usize)
    ensures
        r == line_start(v@, i as nat),
        r <= v@.len(),
{
    let n: usize = v.len();
    let mut at: usize = 0;
    let mut left: usize = i;
    assert(v@.skip(0) =~= v@);
    while left > 0 && at < n
        invariant
            at <= n,
            n == v@.len(),
            left <= i,
            line_start(v@, i as nat) == at + line_start(v@.skip(at as int), left as nat),
        decreases n - at,
    {
        let ghost rest = v@.skip(at as int);
        let k: usize = find_char(v, at, n, '\n');
        assert(v@.subrange(at as int, n as int) =~= rest);
        if k < n {
            assert(rest.skip(k - at + 1) =~= v@.skip(k + 1));
            at = k + 1;
        } else {
            assert(v@.skip(n as int).len() == 0);
            at = n;
        }
        left = left - 1;
    }
    assert(at == n ==> v@.skip(at as int).len() == 0);
    at
}

pub fn lines_of(s: &str) -> (r: Vec<String>)
    ensures
        texts(r@) == lines(s@),
{
    let v = chars_of(s);
    let n: usize = v.len();
    let mut out: Vec<String> = Vec::new();
    let mut at: usize = 0;
    assert(v@.skip(0) =~= s@);
    assert(texts(out@) + lines(v@.skip(0)) =~= lines(s@));
    while at < n
        invariant
            at <= n,
            n == v@.len(),
            texts(out@) + lines(v@.skip(at as int)) == lines(s@),
        decreases n - at,
    {
        let end: usize = find_char(v.as_slice(), at, n, '\n');
        let ghost rest = v@.skip(at as int);
        let ghost old_out = out@;
        assert(v@.subrange(at as int, n as int) =~= rest);
        if end < n {
            let stop: usize = if end > at && v[end - 1] == '\r' {
                end - 1
            } else {
                end
            };
            let line = string_of(v.as_slice(), at, stop);
            let ghost taken = rest.take(end - at);
            assert(taken =~= v@.subrange(at as int, end as int));
            assert(line@ =~= strip_cr(taken));
            out.push(line);
            assert(rest.skip(end - at + 1) =~= v@.skip(end + 1));
            assert(texts(out@) =~= texts(old_out).push(strip_cr(taken)));
            assert(texts(out@) + lines(v@.skip(end + 1)) =~= texts(old_out) + lines(rest));
            at = end + 1;
        } else {
            let line = string_of(v.as_slice(), at, n);
            assert(line@ =~= rest);
            out.push(line);
            assert(texts(out@) =~= texts(old_out).push(rest));
            assert(v@.skip(n as int).len() == 0);
            assert(texts(out@) + lines(v@.skip(n as int)) =~= texts(old_out) + lines(rest));
            at = n;
        }
    }
    assert(v@.skip(n as int).len() == 0);
    assert(texts(out@) + lines(v@.skip(n as int)) =~= texts(out@));
    out
}

/// The maximal runs of non-space characters.
pub open spec fn words(s: Seq<char>) -> Seq<Seq<char>>
    decreases s.len(),
{
    let t = trim_start(s);
    let k = before_space(t) as int;
    if t.len() == 0 {
        Seq::empty()
    } else {
        proof {
            lemma_trim_start_len(s);
            lemma_before_space(t);
        }
        seq![t.take(k)] + words(t.skip(k))
    }
}

pub fn words_of(s: &str) -> (r: Vec<String>)
    ensures
        texts(r@) == words(s@),
{
    let v = chars_of(s);
    let n: usize = v.len();
    let mut out: Vec<String> = Vec::new();
    let mut at: usize = 0;
    assert(v@.skip(0) =~= s@);
    assert(texts(out@) + words(v@.skip(0)) =~= words(s@));
    while at < n
        invariant
            at <= n,
            n == v@.len(),
            texts(out@) + words(v@.skip(at as int)) == words(s@),
        decreases n - at,
    {
        let ghost rest = v@.skip(at as int);
        let ghost old_out = out@;
        assert(v@.subrange(at as int, n as int) =~= rest);
        let lo: usize = skip_spaces(v.as_slice(), at, n);
        if lo < n {
            let hi: usize = find_space(v.as_slice(), lo, n);
            let ghost t = v@.subrange(lo as int, n as int);
            proof {
                lemma_before_space(t);
            }
            assert(t[0] == v@[lo as int]);
            let word = string_of(v.as_slice(), lo, hi);
            assert(word@ =~= t.take(hi - lo));
            out.push(word);
            assert(t.skip(hi - lo) =~= v@.skip(hi as int));
            assert(texts(out@) =~= texts(old_out).push(t.take(hi - lo)));
            assert(texts(out@) + words(v@.skip(hi as int)) =~= texts(old_out) + words(rest));
            at = hi;
        } else {
            assert(v@.subrange(n as int, n as int).len() == 0);
            assert(words(rest) =~= Seq::empty());
            assert(v@.skip(n as int).len() == 0);
            assert(texts(out@) + words(v@.skip(n as int)) =~= texts(out@) + words(rest));
            at = n;
        }
    }
    assert(v@.skip(n as int).len() == 0);
    assert(texts(out@) + words(v@.skip(n as int)) =~= texts(out@));
    out
}

// ---------------------------------------------------------------------------
// Searching
// ---------------------------------------------------------------------------

pub open spec fn starts_with(s: Seq<char>, p: Seq<char>) -> bool {
    p.len() <= s.len() && s.take(p.len() as int) == p
}

pub open spec fn ends_with(s: Seq<char>, p: Seq<char>) -> bool {
    p.len() <= s.len() && s.skip(s.len() - p.len()) == p
}

/// `p` occurs in `s` at `i`.
pub open spec fn occurs_at(s: Seq<char>, p: Seq<char>, i: int) -> bool {
    0 <= i && i + p.len() <= s.len() && s.subrange(i, i + p.len()) == p
}

pub open spec fn contains(s: Seq<char>, p: Seq<char>) -> bool {
    exists|i: int| occurs_at(s, p, i)
}

/// Whether the characters of `p` stand in `v` at `at`.
pub fn matches_at(v: &[char], p: &[char], at: usize) -> (r: bool)
    requires
        at <= v@.len(),
    ensures
        r == occurs_at(v@, p@, at as int),
{
    if p.len() > v.len() - at {
        return false;
    }
    let mut i: usize = 0;
    while i < p.len()
        invariant
            i <= p@.len(),
            at + p@.len() <= v@.len() <= usize::MAX,
            forall|j: int| 0 <= j < i ==> v@[at + j] == #[trigger] p@[j],
        decreases p@.len() - i,
    {
        if v[at + i] != p[i] {
            assert(v@.subrange(at as int, at + p@.len())[i as int] != p@[i as int]);
            return false;
        }
        i = i + 1;
    }
    assert(v@.subrange(at as int, at + p@.len()) =~= p@);
    true
}

pub fn has_prefix(s: &str, p: &str) -> (r: bool)
    ensures
        r == starts_with(s@, p@),
{
    let v = chars_of(s);
    let q = chars_of(p);
    assert(q@.len() <= v@.len() ==> v@.subrange(0, q@.len() as int) =~= v@.take(q@.len() as int));
    matches_at(v.as_slice(), q.as_slice(), 0)
}

pub fn has_suffix(s: &str, p: &str) -> (r: bool)
    ensures
        r == ends_with(s@, p@),
{
    let v = chars_of(s);
    let q = chars_of(p);
    if q.len() > v.len() {
        return false;
    }
    let at: usize = v.len() - q.len();
    assert(v@.subrange(at as int, at + q@.len()) =~= v@.skip(at as int));
    matches_at(v.as_slice(), q.as_slice(), at)
}

pub fn has_text(s: &str, p: &str) -> (r: bool)
    ensures
        r == contains(s@, p@),
{
    let v = chars_of(s);
    let q = chars_of(p);
    let mut i: usize = 0;
    while i < v.len()
        invariant
            i <= v@.len(),
            v@ == s@,
            q@ == p@,
            forall|j: int| 0 <= j < i ==> !#[trigger] occurs_at(v@, q@, j),
        decreases v@.len() - i,
    {
        if matches_at(v.as_slice(), q.as_slice(), i) {
            assert(occurs_at(s@, p@, i as int));
            return true;
        }
        i = i + 1;
    }
    let last = matches_at(v.as_slice(), q.as_slice(), i);
    assert(last == occurs_at(s@, p@, i as int));
    last
}

pub fn has_char(s: &str, c: char) -> (r: bool)
    ensures
        r == s@.contains(c),
{
    let v = chars_of(s);
    let n: usize = v.len();
    let i: usize = find_char(v.as_slice(), 0, n, c);
    if i < n {
        assert(s@[i as int] == c);
    }
    i < n
}

/// Whether a text is one of a list.
pub fn listed(list: &Vec<String>, s: &str) -> (r: bool)
    ensures
        r == texts(list@).contains(s@),
{
    let ghost all = texts(list@);
    let mut i: usize = 0;
    while i < list.len()
        invariant
            i <= list@.len(),
            all == texts(list@),
            forall|j: int| 0 <= j < i ==> #[trigger] all[j] != s@,
        decreases list@.len() - i,
    {
        if same(list[i].as_str(), s) {
            assert(all[i as int] == s@);
            return true;
        }
        assert(all[i as int] == list@[i as int]@);
        i = i + 1;
    }
    false
}

// ---------------------------------------------------------------------------
// Case
// ---------------------------------------------------------------------------

pub fn lowered(s: &str) -> (r: String)
    ensures
        r@ == lower_all(s@),
{
    let v = chars_of(s);
    let mut out = String::new();
    let mut i: usize = 0;
    while i < v.len()
        invariant
            i <= v@.len(),
            out@ =~= lower_all(v@.take(i as int)),
        decreases v@.len() - i,
    {
        out.push(char_lower(v[i]));
        i = i + 1;
    }
    assert(v@.take(i as int) =~= s@);
    out
}

/// Equal but for the case of ASCII letters.
pub open spec fn same_but_case(a: Seq<char>, b: Seq<char>) -> bool {
    lower_all(a) == lower_all(b)
}

pub fn equals_ignoring_case(a: &str, b: &str) -> (r: bool)
    ensures
        r == same_but_case(a@, b@),
{
    let x = lowered(a);
    let y = lowered(b);
    x == y
}

// ---------------------------------------------------------------------------
// Numbers
// ---------------------------------------------------------------------------

pub open spec fn digit_char(d: nat) -> char {
    if d < 10 {
        ('0' as int + d) as char
    } else {
        ('a' as int + (d - 10)) as char
    }
}

/// A number in base `b`, most significant digit first.
pub open spec fn numeral(n: nat, b: nat) -> Seq<char>
    decreases n,
{
    if b < 2 || n < b {
        seq![digit_char(n)]
    } else {
        proof {
            assert(n / b < n) by (nonlinear_arith)
                requires
                    n >= b,
                    b >= 2,
            ;
        }
        numeral(n / b, b).push(digit_char(n % b))
    }
}

pub open spec fn decimal(n: nat) -> Seq<char> {
    numeral(n, 10)
}

pub open spec fn signed_decimal(n: int) -> Seq<char> {
    if n < 0 {
        seq!['-'] + decimal((-n) as nat)
    } else {
        decimal(n as nat)
    }
}

pub fn digit(d: u64) -> (r: char)
    requires
        d < 16,
    ensures
        r == digit_char(d as nat),
{
    let n: u8 = if d < 10 {
        48 + d as u8
    } else {
        87 + d as u8
    };
    n as char
}

pub fn numeral_of(n: u64, b: u64) -> (r: String)
    requires
        2 <= b <= 16,
    ensures
        r@ == numeral(n as nat, b as nat),
    decreases n,
{
    if n < b {
        let mut out = String::new();
        out.push(digit(n));
        assert(out@ =~= numeral(n as nat, b as nat));
        out
    } else {
        assert(n / b < n) by (nonlinear_arith)
            requires
                n >= b,
                b >= 2,
        ;
        let mut out = numeral_of(n / b, b);
        out.push(digit(n % b));
        out
    }
}

pub fn decimal_of(n: u64) -> (r: String)
    ensures
        r@ == decimal(n as nat),
{
    numeral_of(n, 10)
}

pub fn signed_decimal_of(n: i64) -> (r: String)
    ensures
        r@ == signed_decimal(n as int),
{
    if n < 0 {
        let mut out = String::new();
        out.push('-');
        let m: u64 = if n == i64::MIN {
            0x8000_0000_0000_0000
        } else {
            (-n) as u64
        };
        let digits = decimal_of(m);
        assert(out@ =~= seq!['-']);
        out.append(digits.as_str());
        out
    } else {
        decimal_of(n as u64)
    }
}

/// A text of at least `w` characters, `0` filled in on the left.
pub open spec fn zero_padded(s: Seq<char>, w: nat) -> Seq<char> {
    if s.len() < w {
        Seq::new((w - s.len()) as nat, |i: int| '0') + s
    } else {
        s
    }
}

pub fn zero_padded_of(s: &str, w: usize) -> (r: String)
    ensures
        r@ == zero_padded(s@, w as nat),
{
    let mut out = String::new();
    let have: usize = s.unicode_len();
    let mut i: usize = have;
    while i < w
        invariant
            have <= i,
            have < w ==> i <= w,
            have >= w ==> i == have,
            out@ =~= Seq::new((i - have) as nat, |j: int| '0'),
        decreases w - i,
    {
        out.push('0');
        i = i + 1;
    }
    out.append(s);
    assert(out@ =~= zero_padded(s@, w as nat));
    out
}

// ---------------------------------------------------------------------------
// Joining
// ---------------------------------------------------------------------------

/// The parts with `sep` between each two of them.
pub open spec fn join(parts: Seq<Seq<char>>, sep: Seq<char>) -> Seq<char>
    decreases parts.len(),
{
    if parts.len() == 0 {
        Seq::empty()
    } else if parts.len() == 1 {
        parts[0]
    } else {
        join(parts.drop_last(), sep) + sep + parts.last()
    }
}

pub fn joined(parts: &Vec<String>, sep: &str) -> (r: String)
    ensures
        r@ == join(texts(parts@), sep@),
{
    let mut out = String::new();
    let mut i: usize = 0;
    while i < parts.len()
        invariant
            i <= parts@.len(),
            out@ == join(texts(parts@).take(i as int), sep@),
        decreases parts@.len() - i,
    {
        let ghost before = texts(parts@).take(i as int);
        let ghost after = texts(parts@).take(i + 1);
        assert(after.drop_last() =~= before);
        assert(after.last() == parts@[i as int]@);
        if i > 0 {
            out.append(sep);
        }
        out.append(parts[i].as_str());
        proof {
            if i == 0 {
                assert(out@ =~= after[0]);
            }
        }
        i = i + 1;
    }
    assert(texts(parts@).take(i as int) =~= texts(parts@));
    out
}

// ---------------------------------------------------------------------------
// Order
// ---------------------------------------------------------------------------

/// Code point order, which is also the byte order of UTF-8.
pub open spec fn text_le(a: Seq<char>, b: Seq<char>) -> bool
    decreases a.len(),
{
    if a.len() == 0 {
        true
    } else if b.len() == 0 {
        false
    } else if a[0] == b[0] {
        text_le(a.skip(1), b.skip(1))
    } else {
        (a[0] as int) < b[0] as int
    }
}

pub proof fn lemma_text_le_total(a: Seq<char>, b: Seq<char>)
    ensures
        text_le(a, b) || text_le(b, a),
        text_le(a, b) && text_le(b, a) ==> a == b,
    decreases a.len(),
{
    if a.len() > 0 && b.len() > 0 {
        if a[0] == b[0] {
            lemma_text_le_total(a.skip(1), b.skip(1));
            if text_le(a, b) && text_le(b, a) {
                assert(a =~= seq![a[0]] + a.skip(1));
                assert(b =~= seq![b[0]] + b.skip(1));
            }
        }
    } else if a.len() == 0 && b.len() == 0 {
        assert(a =~= b);
    }
}

pub proof fn lemma_text_le_transitive(a: Seq<char>, b: Seq<char>, c: Seq<char>)
    requires
        text_le(a, b),
        text_le(b, c),
    ensures
        text_le(a, c),
    decreases a.len(),
{
    if a.len() > 0 && b.len() > 0 && c.len() > 0 && a[0] == b[0] && b[0] == c[0] {
        lemma_text_le_transitive(a.skip(1), b.skip(1), c.skip(1));
    }
}

pub fn text_le_of(a: &str, b: &str) -> (r: bool)
    ensures
        r == text_le(a@, b@),
{
    let x = chars_of(a);
    let y = chars_of(b);
    let mut i: usize = 0;
    assert(x@.skip(0) =~= a@);
    assert(y@.skip(0) =~= b@);
    while i < x.len() && i < y.len()
        invariant
            i <= x@.len(),
            i <= y@.len(),
            text_le(x@.skip(i as int), y@.skip(i as int)) == text_le(a@, b@),
        decreases x@.len() - i,
    {
        let ghost p = x@.skip(i as int);
        let ghost q = y@.skip(i as int);
        assert(p[0] == x@[i as int]);
        assert(q[0] == y@[i as int]);
        let c: u32 = code_point(x[i]);
        let d: u32 = code_point(y[i]);
        if c != d {
            return c < d;
        }
        assert(p.skip(1) =~= x@.skip(i + 1));
        assert(q.skip(1) =~= y@.skip(i + 1));
        i = i + 1;
    }
    i == x.len()
}

} // verus!
