//! What the vocabulary of texts means, said another way.
use vstd::prelude::*;
use crate::text;

verus! {

// ---------------------------------------------------------------------------
// Characters
// ---------------------------------------------------------------------------

/// Letters, digits and their cases, by the alphabet.
pub proof fn law_letters_and_digits(c: char, i: int)
    ensures
        text::is_lower(c) <==> "abcdefghijklmnopqrstuvwxyz"@.contains(c),
        text::is_upper(c) <==> "ABCDEFGHIJKLMNOPQRSTUVWXYZ"@.contains(c),
        text::is_letter(c) <==> "abcdefghijklmnopqrstuvwxyzABCDEFGHIJKLMNOPQRSTUVWXYZ"@.contains(c),
        text::is_digit(c) <==> "0123456789"@.contains(c),
        text::is_hex_digit(c) <==> "0123456789abcdefABCDEF"@.contains(c),
        0 <= i < 26 ==> text::lower("ABCDEFGHIJKLMNOPQRSTUVWXYZ"@[i])
            == "abcdefghijklmnopqrstuvwxyz"@[i],
        !"ABCDEFGHIJKLMNOPQRSTUVWXYZ"@.contains(c) ==> text::lower(c) == c,
        0 <= i < 16 ==> text::hex_digit_value("0123456789abcdef"@[i]) == i
            && text::hex_digit_value("0123456789ABCDEF"@[i]) == i,
        0 <= i < 16 ==> text::digit_char(i as nat) == "0123456789abcdef"@[i],
{
    reveal_strlit("abcdefghijklmnopqrstuvwxyz");
    reveal_strlit("ABCDEFGHIJKLMNOPQRSTUVWXYZ");
    reveal_strlit("abcdefghijklmnopqrstuvwxyzABCDEFGHIJKLMNOPQRSTUVWXYZ");
    reveal_strlit("0123456789");
    reveal_strlit("0123456789abcdefABCDEF");
    reveal_strlit("0123456789abcdef");
    reveal_strlit("0123456789ABCDEF");
    let n = c as int;
    let low = "abcdefghijklmnopqrstuvwxyz"@;
    let up = "ABCDEFGHIJKLMNOPQRSTUVWXYZ"@;
    let both = "abcdefghijklmnopqrstuvwxyzABCDEFGHIJKLMNOPQRSTUVWXYZ"@;
    let hex = "0123456789abcdefABCDEF"@;
    if text::is_lower(c) {
        assert(low[n - 97] == c);
        assert(both[n - 97] == c);
    }
    if text::is_upper(c) {
        assert(up[n - 65] == c);
        assert(both[n - 39] == c);
    }
    if text::is_digit(c) {
        assert("0123456789"@[n - 48] == c);
        assert(hex[n - 48] == c);
    }
    if 97 <= n <= 102 {
        assert(hex[n - 87] == c);
    }
    if 65 <= n <= 70 {
        assert(hex[n - 49] == c);
    }
}

/// White space, code point by code point.
pub proof fn law_white_space(c: char)
    ensures
        text::is_space(c) <==> {
            ||| c == '\t'
            ||| c == '\n'
            ||| c == '\u{b}'
            ||| c == '\u{c}'
            ||| c == '\r'
            ||| c == ' '
            ||| c == '\u{85}'
            ||| c == '\u{a0}'
            ||| c == '\u{1680}'
            ||| '\u{2000}' <= c <= '\u{200a}'
            ||| c == '\u{2028}'
            ||| c == '\u{2029}'
            ||| c == '\u{202f}'
            ||| c == '\u{205f}'
            ||| c == '\u{3000}'
        },
        text::is_control(c) <==> c < ' ' || '\u{7f}' <= c <= '\u{9f}',
{
}

/// Nothing but white space.
pub open spec fn is_blank(s: Seq<char>) -> bool {
    forall|i: int| 0 <= i < s.len() ==> text::is_space(#[trigger] s[i])
}

/// No white space at all.
pub open spec fn is_solid(s: Seq<char>) -> bool {
    forall|i: int| 0 <= i < s.len() ==> !text::is_space(#[trigger] s[i])
}

// ---------------------------------------------------------------------------
// Parts
// ---------------------------------------------------------------------------

/// A text starts with another, ends with it or holds it exactly if it is that text
/// with something behind it, before it or around it.
pub proof fn law_parts_of_a_text(a: Seq<char>, p: Seq<char>, b: Seq<char>, s: Seq<char>)
    ensures
        text::starts_with(p + b, p),
        text::ends_with(a + p, p),
        text::contains(a + p + b, p),
        text::starts_with(s, p) ==> s == p + s.skip(p.len() as int),
        text::ends_with(s, p) ==> s == s.take(s.len() - p.len()) + p,
        text::contains(s, p) ==> exists|i: int|
            0 <= i <= s.len() - p.len() && s == #[trigger] s.take(i) + p + s.skip(i + p.len()),
{
    assert((p + b).take(p.len() as int) =~= p);
    assert((a + p).skip(a.len() as int) =~= p);
    assert((a + p + b).subrange(a.len() as int, a.len() as int + p.len()) =~= p);
    assert(text::occurs_at(a + p + b, p, a.len() as int));
    if text::starts_with(s, p) {
        assert(s =~= s.take(p.len() as int) + s.skip(p.len() as int));
    }
    if text::ends_with(s, p) {
        assert(s =~= s.take(s.len() - p.len()) + s.skip(s.len() - p.len()));
    }
    if text::contains(s, p) {
        let i = choose|i: int| text::occurs_at(s, p, i);
        assert(s =~= s.take(i) + s.subrange(i, i + p.len()) + s.skip(i + p.len()));
        assert(s == s.take(i) + p + s.skip(i + p.len()));
    }
}

/// The first `c` of a text parts it: what stands before it, and what stands behind.
pub proof fn law_the_first_one_parts_a_text(a: Seq<char>, c: char, b: Seq<char>)
    requires
        !a.contains(c),
    ensures
        text::head(a + seq![c] + b, c) == a,
        text::tail(a + seq![c] + b, c) == b,
        text::head(a, c) == a,
        text::tail(a, c) == Seq::<char>::empty(),
{
    let s = a + seq![c] + b;
    assert forall|i: int| 0 <= i < a.len() implies #[trigger] s[i] != c by {
        assert(s[i] == a[i]);
        assert(a.contains(a[i]));
    }
    assert forall|i: int| 0 <= i < a.len() implies #[trigger] a[i] != c by {
        assert(a.contains(a[i]));
    }
    text::lemma_before_is(s, c, a.len());
    text::lemma_before_is(a, c, a.len());
    assert(s.take(a.len() as int) =~= a);
    assert(s.skip(a.len() as int + 1) =~= b);
    assert(a.take(a.len() as int) =~= a);
}

/// Texts are ordered by their first difference, and a start of a text comes before
/// it.
pub proof fn law_the_first_difference_orders(p: Seq<char>, x: char, y: char, s: Seq<char>, t: Seq<char>)
    ensures
        text::text_le(p, p + s),
        (x as int) < y as int ==> text::text_le(p + seq![x] + s, p + seq![y] + t) && !text::text_le(
            p + seq![y] + t,
            p + seq![x] + s,
        ),
        s.len() > 0 ==> !text::text_le(p + s, p),
    decreases p.len(),
{
    let a = p + seq![x] + s;
    let b = p + seq![y] + t;
    if p.len() > 0 {
        law_the_first_difference_orders(p.skip(1), x, y, s, t);
        assert(a.skip(1) =~= p.skip(1) + seq![x] + s);
        assert(b.skip(1) =~= p.skip(1) + seq![y] + t);
        assert((p + s).skip(1) =~= p.skip(1) + s);
    }
}

// ---------------------------------------------------------------------------
// Trimming and words
// ---------------------------------------------------------------------------

proof fn lemma_trim_start_blank(lead: Seq<char>, s: Seq<char>)
    requires
        is_blank(lead),
    ensures
        text::trim_start(lead + s) == text::trim_start(s),
    decreases lead.len(),
{
    if lead.len() == 0 {
        assert(lead + s =~= s);
    } else {
        assert(text::is_space(lead[0]));
        assert((lead + s).skip(1) =~= lead.skip(1) + s);
        assert forall|i: int| 0 <= i < lead.skip(1).len() implies text::is_space(
            #[trigger] lead.skip(1)[i],
        ) by {
            assert(text::is_space(lead[i + 1]));
        }
        lemma_trim_start_blank(lead.skip(1), s);
    }
}

proof fn lemma_trim_end_blank(s: Seq<char>, trail: Seq<char>)
    requires
        is_blank(trail),
    ensures
        text::trim_end(s + trail) == text::trim_end(s),
    decreases trail.len(),
{
    if trail.len() == 0 {
        assert(s + trail =~= s);
    } else {
        assert(text::is_space(trail[trail.len() - 1]));
        assert((s + trail).drop_last() =~= s + trail.drop_last());
        assert forall|i: int| 0 <= i < trail.drop_last().len() implies text::is_space(
            #[trigger] trail.drop_last()[i],
        ) by {
            assert(text::is_space(trail[i]));
        }
        lemma_trim_end_blank(s, trail.drop_last());
    }
}

/// Trimming takes white space off both ends, all of it, and nothing else.
pub proof fn law_trimming_takes_the_ends_off(lead: Seq<char>, core: Seq<char>, trail: Seq<char>)
    requires
        is_blank(lead),
        is_blank(trail),
        core.len() > 0 ==> !text::is_space(core[0]) && !text::is_space(core.last()),
    ensures
        text::trim(lead + core + trail) == core,
        text::trim_end(core + trail) == core,
        text::trim_start(lead + core) == core,
{
    assert(lead + core + trail =~= lead + (core + trail));
    lemma_trim_start_blank(lead, core + trail);
    lemma_trim_start_blank(lead, core);
    lemma_trim_end_blank(core, trail);
    if core.len() == 0 {
        assert(core =~= Seq::<char>::empty());
        assert(core + trail =~= trail + core);
        lemma_trim_start_blank(trail, core);
        assert(text::trim_start(core) == core);
        assert(text::trim_end(core) == core);
    } else {
        assert((core + trail)[0] == core[0]);
    }
}

/// The words of a text are what stands between white space: leading white space
/// makes no word, a word ends at the next white space, and what follows has words of
/// its own.
pub proof fn law_words_stand_between_white_space(lead: Seq<char>, word: Seq<char>, gap: Seq<char>, rest: Seq<char>)
    requires
        is_blank(lead),
        is_blank(gap),
        is_solid(word),
        word.len() > 0,
        gap.len() > 0 || rest.len() == 0,
    ensures
        text::words(lead + word + gap + rest) == seq![word] + text::words(rest),
        text::words(lead) == Seq::<Seq<char>>::empty(),
{
    let s = lead + word + gap + rest;
    let t = word + gap + rest;
    assert(s =~= lead + t);
    lemma_trim_start_blank(lead, t);
    assert(t[0] == word[0]);
    assert(text::trim_start(t) == t);
    let k = word.len();
    assert forall|i: int| 0 <= i < k implies !text::is_space(#[trigger] t[i]) by {
        assert(t[i] == word[i]);
    }
    if k < t.len() {
        assert(t[k as int] == gap[0]);
    }
    lemma_before_space_is(t, k);
    assert(t.take(k as int) =~= word);
    assert(t.skip(k as int) =~= gap + rest);
    lemma_words_blank(gap, rest);
    assert(text::words(s) =~= seq![word] + text::words(gap + rest));
    assert(lead + Seq::<char>::empty() =~= lead);
    lemma_trim_start_blank(lead, Seq::<char>::empty());
}

proof fn lemma_words_blank(lead: Seq<char>, s: Seq<char>)
    requires
        is_blank(lead),
    ensures
        text::words(lead + s) == text::words(s),
{
    lemma_trim_start_blank(lead, s);
}

pub proof fn lemma_before_space_is(s: Seq<char>, k: nat)
    requires
        k <= s.len(),
        k < s.len() ==> text::is_space(s[k as int]),
        forall|i: int| 0 <= i < k ==> !text::is_space(#[trigger] s[i]),
    ensures
        text::before_space(s) == k,
    decreases s.len(),
{
    if k > 0 {
        assert(!text::is_space(s[0]));
        assert forall|i: int| 0 <= i < k - 1 implies !text::is_space(#[trigger] s.skip(1)[i]) by {
            assert(!text::is_space(s[i + 1]));
        }
        lemma_before_space_is(s.skip(1), (k - 1) as nat);
    }
}

// ---------------------------------------------------------------------------
// Lines
// ---------------------------------------------------------------------------

/// A text that can stand on a line: no line feed in it, and no carriage return at
/// its end.
pub open spec fn is_line(s: Seq<char>) -> bool {
    &&& forall|i: int| 0 <= i < s.len() ==> #[trigger] s[i] != '\n'
    &&& s.len() > 0 ==> s.last() != '\r'
}

/// Lines, each ended by a line feed.
pub open spec fn block(ls: Seq<Seq<char>>) -> Seq<char>
    decreases ls.len(),
{
    if ls.len() == 0 {
        Seq::empty()
    } else {
        block(ls.drop_last()) + ls.last() + seq!['\n']
    }
}

/// The lines of a text are those it was put together from, whether they were ended
/// by a line feed or by a carriage return and a line feed; the last one need not be
/// ended.
pub proof fn law_lines_are_what_stands_between_line_feeds(line: Seq<char>, rest: Seq<char>)
    requires
        is_line(line),
    ensures
        text::lines(line + seq!['\n'] + rest) == seq![line] + text::lines(rest),
        text::lines(line + seq!['\r', '\n'] + rest) == seq![line] + text::lines(rest),
        line.len() > 0 ==> text::lines(line) == seq![line],
        text::lines(Seq::<char>::empty()) == Seq::<Seq<char>>::empty(),
{
    let a = line + seq!['\n'] + rest;
    let n = line.len();
    assert forall|i: int| 0 <= i < n implies #[trigger] a[i] != '\n' by {
        assert(a[i] == line[i]);
    }
    text::lemma_before_is(a, '\n', n);
    assert(a.take(n as int) =~= line);
    assert(a.skip(n as int + 1) =~= rest);
    let b = line + seq!['\r', '\n'] + rest;
    assert forall|i: int| 0 <= i < n + 1 implies #[trigger] b[i] != '\n' by {
        if i < n {
            assert(b[i] == line[i]);
        }
    }
    text::lemma_before_is(b, '\n', n + 1);
    assert(b.take(n as int + 1) =~= line.push('\r'));
    assert(line.push('\r').drop_last() =~= line);
    assert(b.skip(n as int + 2) =~= rest);
    text::lemma_before_is(line, '\n', n);
}

/// The lines of a block are its lines.
pub proof fn law_a_block_has_its_lines(ls: Seq<Seq<char>>)
    requires
        forall|i: int| 0 <= i < ls.len() ==> is_line(#[trigger] ls[i]),
    ensures
        text::lines(block(ls)) == ls,
        text::is_ended(block(ls)),
    decreases ls.len(),
{
    if ls.len() > 0 {
        let front = ls.drop_last();
        assert forall|i: int| 0 <= i < front.len() implies is_line(#[trigger] front[i]) by {
            assert(is_line(ls[i]));
        }
        law_a_block_has_its_lines(front);
        let last = ls[ls.len() - 1];
        let end = last + seq!['\n'];
        law_lines_are_what_stands_between_line_feeds(last, Seq::empty());
        assert(end + Seq::<char>::empty() =~= end);
        assert(text::lines(end) =~= seq![last]);
        text::lemma_lines_add(block(front), end);
        assert(block(ls) =~= block(front) + end);
        assert(front + seq![last] =~= ls);
    } else {
        assert(ls =~= Seq::<Seq<char>>::empty());
    }
}

// ---------------------------------------------------------------------------
// Numbers and joining
// ---------------------------------------------------------------------------

/// The number that some decimal digits write.
pub open spec fn decimal_value(s: Seq<char>) -> int
    decreases s.len(),
{
    if s.len() == 0 {
        0
    } else {
        10 * decimal_value(s.drop_last()) + (s.last() as int - '0' as int)
    }
}

/// A decimal text is digits only, without a needless zero in front, and reads back
/// as its number.
pub proof fn law_decimals_read_back(n: nat)
    ensures
        text::decimal(n).len() > 0,
        forall|i: int| 0 <= i < text::decimal(n).len() ==> text::is_digit(#[trigger] text::decimal(n)[i]),
        decimal_value(text::decimal(n)) == n,
        text::decimal(n).len() > 1 ==> text::decimal(n)[0] != '0',
        text::signed_decimal(n as int) == text::decimal(n),
        n > 0 ==> text::signed_decimal(-(n as int)) == seq!['-'] + text::decimal(n),
    decreases n,
{
    let s = text::decimal(n);
    if n >= 10 {
        law_decimals_read_back(n / 10);
        let t = text::decimal(n / 10);
        assert(s.drop_last() =~= t);
        assert(s.last() as int - '0' as int == n % 10);
        assert forall|i: int| 0 <= i < s.len() implies text::is_digit(#[trigger] s[i]) by {
            if i < t.len() {
                assert(s[i] == t[i]);
            }
        }
        assert(s[0] == t[0]);
        if t.len() == 1 {
            assert(t.drop_last().len() == 0);
            assert(decimal_value(t) == t[0] as int - '0' as int) by {
                assert(decimal_value(t.drop_last()) == 0);
            }
        }
    } else {
        assert(s.drop_last().len() == 0);
        assert(decimal_value(s.drop_last()) == 0);
    }
}

/// Parts are joined with what separates them between each two, and nowhere else.
pub proof fn law_joining_separates_each_two(parts: Seq<Seq<char>>, more: Seq<char>, sep: Seq<char>)
    ensures
        text::join(seq![more], sep) == more,
        text::join(Seq::<Seq<char>>::empty(), sep) == Seq::<char>::empty(),
        parts.len() > 0 ==> text::join(parts.push(more), sep) == text::join(parts, sep) + sep + more,
        parts.len() > 0 ==> text::join(seq![more] + parts, sep) == more + sep + text::join(
            parts,
            sep,
        ),
    decreases parts.len(),
{
    assert(parts.push(more).drop_last() =~= parts);
    if parts.len() == 1 {
        let both = seq![more] + parts;
        assert(both.drop_last() =~= seq![more]);
        assert(both.last() == parts[0]);
    } else if parts.len() > 1 {
        law_joining_separates_each_two(parts.drop_last(), more, sep);
        let both = seq![more] + parts;
        assert(both.drop_last() =~= seq![more] + parts.drop_last());
        assert(both.last() == parts.last());
        assert(text::join(both, sep) =~= more + sep + text::join(parts, sep));
    }
}

} // verus!
