//! What each kind of line that a check reads says, and what it does not say.
use vstd::prelude::*;
use crate::codec;
use crate::model::{CmdOutput, Family};
use crate::net;
use crate::posture;
use crate::posture::gather;
use crate::posture::{PublicListener, Setting, SshdFacts, SshdSource};
use crate::text;
use crate::text::laws;

verus! {

// ---------------------------------------------------------------------------
// Words at a line's end
// ---------------------------------------------------------------------------

proof fn lemma_words_push(s: Seq<char>, c: char)
    requires
        text::is_space(c),
    ensures
        text::words(s.push(c)) == text::words(s),
    decreases s.len(),
{
    let u = s.push(c);
    let t = text::trim_start(s);
    lemma_trim_start_push(s, c);
    if t.len() > 0 {
        lemma_start_is_solid(s);
        assert(t[0] == t.push(c)[0]);
        let k = text::before_space(t);
        text::lemma_before_space(t);
        assert(text::trim_start(u) == t.push(c));
        assert forall|i: int| 0 <= i < k implies !text::is_space(#[trigger] t.push(c)[i]) by {
            assert(t.push(c)[i] == t[i]);
        }
        if k < t.len() {
            assert(t.push(c)[k as int] == t[k as int]);
        }
        laws::lemma_before_space_is(t.push(c), k);
        assert(t.push(c).take(k as int) =~= t.take(k as int));
        assert(t.push(c).skip(k as int) =~= t.skip(k as int).push(c));
        text::lemma_trim_start_len(s);
        lemma_words_push(t.skip(k as int), c);
    }
}

proof fn lemma_start_is_solid(s: Seq<char>)
    ensures
        text::trim_start(s).len() > 0 ==> !text::is_space(text::trim_start(s)[0]),
    decreases s.len(),
{
    if s.len() > 0 && text::is_space(s[0]) {
        lemma_start_is_solid(s.skip(1));
    }
}

proof fn lemma_trim_start_push(s: Seq<char>, c: char)
    requires
        text::is_space(c),
    ensures
        text::trim_start(s).len() > 0 ==> text::trim_start(s.push(c)) == text::trim_start(s).push(c),
        text::trim_start(s).len() == 0 ==> text::trim_start(s.push(c)).len() == 0,
    decreases s.len(),
{
    let u = s.push(c);
    if s.len() == 0 {
        assert(u.skip(1).len() == 0);
        assert(text::trim_start(u) == text::trim_start(u.skip(1)));
    } else {
        assert(u[0] == s[0]);
        if text::is_space(s[0]) {
            assert(u.skip(1) =~= s.skip(1).push(c));
            lemma_trim_start_push(s.skip(1), c);
        }
    }
}

proof fn lemma_words_without_end(s: Seq<char>)
    ensures
        text::words(text::trim_end(s)) == text::words(s),
        text::trim_end(s).len() <= s.len(),
        text::trim_end(s) == s.take(text::trim_end(s).len() as int),
        text::trim_end(s).len() > 0 ==> !text::is_space(text::trim_end(s).last()),
        forall|i: int| text::trim_end(s).len() <= i < s.len() ==> text::is_space(#[trigger] s[i]),
    decreases s.len(),
{
    if s.len() > 0 && text::is_space(s.last()) {
        let f = s.drop_last();
        lemma_words_without_end(f);
        lemma_words_push(f, s.last());
        assert(f.push(s.last()) =~= s);
        let n = text::trim_end(s).len() as int;
        assert(f.take(n) =~= s.take(n));
        assert forall|i: int| n <= i < s.len() implies text::is_space(#[trigger] s[i]) by {
            if i < f.len() {
                assert(f[i] == s[i]);
            }
        }
    } else {
        assert(s.take(s.len() as int) =~= s);
    }
}

proof fn lemma_trim_start_suffix(s: Seq<char>)
    ensures
        text::trim_start(s).len() <= s.len(),
        text::trim_start(s) == s.skip(s.len() - text::trim_start(s).len()),
    decreases s.len(),
{
    if s.len() > 0 && text::is_space(s[0]) {
        lemma_trim_start_suffix(s.skip(1));
        let n = text::trim_start(s).len();
        assert(s.skip(1).skip(s.skip(1).len() - n) =~= s.skip(s.len() - n));
    } else {
        assert(s.skip(0) =~= s);
    }
}

/// The last word ends with the line's last character that is no white space.
proof fn lemma_last_word(s: Seq<char>)
    requires
        s.len() > 0,
        !text::is_space(s.last()),
    ensures
        text::words(s).len() > 0,
        text::words(s).last().len() > 0,
        text::words(s).last().last() == s.last(),
    decreases s.len(),
{
    let t = text::trim_start(s);
    lemma_trim_start_suffix(s);
    lemma_start_is_solid(s);
    if t.len() == 0 {
        lemma_all_blank(s);
        assert(text::is_space(s[s.len() - 1]));
    }
    assert(t.last() == s.last());
    let k = text::before_space(t);
    text::lemma_before_space(t);
    if k == 0 {
        assert(!text::is_space(t[0]));
    }
    let rest = t.skip(k as int);
    if rest.len() > 0 {
        assert(rest.last() == t.last());
        lemma_last_word(rest);
    } else {
        assert(t.take(k as int) =~= t);
        assert(text::trim_start(rest).len() == 0);
        assert(text::words(rest) =~= Seq::<Seq<char>>::empty());
    }
}

proof fn lemma_all_blank(s: Seq<char>)
    requires
        text::trim_start(s).len() == 0,
    ensures
        forall|i: int| 0 <= i < s.len() ==> text::is_space(#[trigger] s[i]),
    decreases s.len(),
{
    if s.len() > 0 {
        lemma_all_blank(s.skip(1));
        assert forall|i: int| 0 <= i < s.len() implies text::is_space(#[trigger] s[i]) by {
            if i > 0 {
                assert(s.skip(1)[i - 1] == s[i]);
            }
        }
    }
}

/// Taking white space off the end changes nothing of how a text starts, where what it
/// starts with ends in something else.
proof fn lemma_start_without_end(s: Seq<char>, p: Seq<char>)
    requires
        p.len() > 0,
        !text::is_space(p.last()),
    ensures
        text::starts_with(text::trim_end(s), p) == text::starts_with(s, p),
{
    lemma_words_without_end(s);
    let t = text::trim_end(s);
    let n = p.len() as int;
    if text::starts_with(t, p) {
        assert(s.take(n) =~= t.take(n));
    }
    if text::starts_with(s, p) {
        assert(s.take(n)[n - 1] == p[n - 1]);
        assert(s[n - 1] == p.last());
        assert(t.len() >= n);
        assert(t.take(n) =~= s.take(n));
    }
}

// ---------------------------------------------------------------------------
// Updates
// ---------------------------------------------------------------------------

proof fn lemma_one_line(line: Seq<char>, p: spec_fn(Seq<char>) -> bool)
    requires
        laws::is_line(line),
    ensures
        posture::count_lines(text::lines(line + seq!['\n']), p) == if p(line) {
            1nat
        } else {
            0nat
        },
{
    laws::law_lines_are_what_stands_between_line_feeds(line, Seq::empty());
    assert(line + seq!['\n'] + Seq::<char>::empty() =~= line + seq!['\n']);
    let one = seq![line];
    assert(one + Seq::<Seq<char>>::empty() =~= one);
    assert(one.drop_last() =~= Seq::<Seq<char>>::empty());
    assert(posture::count_lines(one.drop_last(), p) == 0);
    assert(one.last() == line);
}

/// A line that `dnf` prints is a pending update exactly if it holds three words, the
/// first with a dot in it, does not end with a colon, and is none of the notes. It then
/// counts once; any other line does not count.
pub proof fn law_a_dnf_line_is_an_update_exactly_if(line: Seq<char>)
    requires
        laws::is_line(line),
    ensures
        ({
            let w = text::words(line);
            let counts = {
                &&& w.len() == 3
                &&& exists|i: int| 0 <= i < w[0].len() && #[trigger] w[0][i] == '.'
                &&& w[2].last() != ':'
                &&& !text::starts_with(line, "Last metadata"@)
                &&& !text::starts_with(line, "Obsoleting"@)
                &&& !text::starts_with(line, "Security:"@)
            };
            &&& counts ==> posture::dnf_security_updates(line + seq!['\n']) == 1
            &&& !counts ==> posture::dnf_security_updates(line + seq!['\n']) == 0
        }),
{
    reveal_strlit("Last metadata");
    reveal_strlit("Obsoleting");
    reveal_strlit("Security:");
    let p = |l: Seq<char>| posture::is_dnf_update_line(l);
    lemma_one_line(line, p);
    lemma_words_without_end(line);
    lemma_start_without_end(line, "Last metadata"@);
    lemma_start_without_end(line, "Obsoleting"@);
    lemma_start_without_end(line, "Security:"@);
    let t = text::trim_end(line);
    let w = text::words(line);
    if t.len() > 0 {
        lemma_last_word(t);
    } else {
        assert(text::trim_start(t).len() == 0);
        assert(text::words(t).len() == 0);
    }
    if w.len() == 3 {
        assert(w.last() == w[2]);
    }
}

/// A line of three words, put together from them with any white space between: a pending
/// update, whatever the architecture behind the dot.
pub proof fn law_a_package_with_an_architecture_is_an_update(
    package: Seq<char>,
    arch: Seq<char>,
    version: Seq<char>,
    repository: Seq<char>,
)
    requires
        laws::is_solid(package),
        laws::is_solid(arch),
        laws::is_solid(version),
        laws::is_solid(repository),
        package.len() > 0,
        version.len() > 0,
        repository.len() > 0,
        repository.last() != ':',
        !text::starts_with(package + "."@ + arch, "Obsoleting"@),
        !text::starts_with(package + "."@ + arch, "Security:"@),
    ensures
        posture::dnf_security_updates(
            package + "."@ + arch + "    "@ + version + "    "@ + repository + "\n"@,
        ) == 1,
        posture::dnf_security_updates(
            package + "."@ + arch + " "@ + version + "\t"@ + repository + " \n"@,
        ) == 1,
{
    reveal_strlit(".");
    reveal_strlit("    ");
    reveal_strlit(" ");
    reveal_strlit("\t");
    reveal_strlit("\n");
    reveal_strlit(" \n");
    let a = package + "."@ + arch;
    let one = a + "    "@ + version + "    "@ + repository + Seq::<char>::empty();
    let two = a + " "@ + version + "\t"@ + repository + " "@;
    lemma_dnf_counts(package, arch, "    "@, version, "    "@, repository, Seq::empty());
    lemma_dnf_counts(package, arch, " "@, version, "\t"@, repository, " "@);
    assert(one + seq!['\n'] =~= package + "."@ + arch + "    "@ + version + "    "@ + repository
        + "\n"@);
    assert(two + seq!['\n'] =~= package + "."@ + arch + " "@ + version + "\t"@ + repository
        + " \n"@);
}

proof fn lemma_three_words(
    a: Seq<char>,
    g: Seq<char>,
    b: Seq<char>,
    h: Seq<char>,
    c: Seq<char>,
    end: Seq<char>,
)
    requires
        laws::is_solid(a) && a.len() > 0,
        laws::is_solid(b) && b.len() > 0,
        laws::is_solid(c) && c.len() > 0,
        laws::is_blank(g) && g.len() > 0,
        laws::is_blank(h) && h.len() > 0,
        laws::is_blank(end),
    ensures
        text::words(a + g + b + h + c + end) == seq![a, b, c],
{
    let none = Seq::<char>::empty();
    laws::law_words_stand_between_white_space(none, c, end, none);
    assert(none + c + end + none =~= c + end);
    assert(text::words(none) =~= Seq::<Seq<char>>::empty());
    laws::law_words_stand_between_white_space(none, b, h, c + end);
    assert(none + b + h + (c + end) =~= b + h + c + end);
    laws::law_words_stand_between_white_space(none, a, g, b + h + c + end);
    assert(none + a + g + (b + h + c + end) =~= a + g + b + h + c + end);
    assert(seq![a] + (seq![b] + (seq![c] + Seq::<Seq<char>>::empty())) =~= seq![a, b, c]);
}

proof fn lemma_dnf_counts(
    package: Seq<char>,
    arch: Seq<char>,
    g: Seq<char>,
    version: Seq<char>,
    h: Seq<char>,
    repository: Seq<char>,
    end: Seq<char>,
)
    requires
        laws::is_solid(package),
        laws::is_solid(arch),
        laws::is_solid(version),
        laws::is_solid(repository),
        package.len() > 0,
        version.len() > 0,
        repository.len() > 0,
        repository.last() != ':',
        laws::is_blank(g) && g.len() > 0,
        laws::is_blank(h) && h.len() > 0,
        laws::is_blank(end),
        forall|i: int| 0 <= i < g.len() ==> g[i] == ' ' || g[i] == '\t',
        forall|i: int| 0 <= i < h.len() ==> h[i] == ' ' || h[i] == '\t',
        forall|i: int| 0 <= i < end.len() ==> end[i] == ' ' || end[i] == '\t',
        !text::starts_with(package + "."@ + arch, "Obsoleting"@),
        !text::starts_with(package + "."@ + arch, "Security:"@),
    ensures
        posture::dnf_security_updates(
            package + "."@ + arch + g + version + h + repository + end + seq!['\n'],
        ) == 1,
{
    reveal_strlit(".");
    reveal_strlit("Last metadata");
    reveal_strlit("Obsoleting");
    reveal_strlit("Security:");
    let a = package + "."@ + arch;
    let line = a + g + version + h + repository + end;
    assert forall|i: int| 0 <= i < a.len() implies !text::is_space(#[trigger] a[i]) by {
        if i < package.len() {
            assert(a[i] == package[i]);
        } else if i > package.len() {
            assert(a[i] == arch[i - package.len() - 1]);
        } else {
            assert(a[i] == '.');
        }
    }
    assert(laws::is_solid(a));
    lemma_three_words(a, g, version, h, repository, end);
    let na = a.len() as int;
    let nb = na + g.len();
    let nc = nb + version.len();
    let nd = nc + h.len();
    let ne = nd + repository.len();
    assert forall|i: int| 0 <= i < line.len() implies #[trigger] line[i] != '\n' && line[i] != '\r' by {
        if i < na {
            assert(line[i] == a[i]);
        } else if i < nb {
            assert(line[i] == g[i - na]);
        } else if i < nc {
            assert(line[i] == version[i - nb]);
            assert(!text::is_space(version[i - nb]));
        } else if i < nd {
            assert(line[i] == h[i - nc]);
        } else if i < ne {
            assert(line[i] == repository[i - nd]);
            assert(!text::is_space(repository[i - nd]));
        } else {
            assert(line[i] == end[i - ne]);
        }
    }
    law_a_dnf_line_is_an_update_exactly_if(line);
    let w = text::words(line);
    assert(w[0][package.len() as int] == '.');
    assert(line.take(na) =~= a);
    // a note would have to start with the first word, or have white space in it
    if text::starts_with(line, "Last metadata"@) {
        assert(line.take(13)[4] == ' ');
        assert(line[4] == ' ');
        assert(na <= 4);
        assert(a[package.len() as int] == '.');
        assert(line[package.len() as int] == '.');
        assert(line.take(13)[package.len() as int] == "Last metadata"@[package.len() as int]);
    }
    if text::starts_with(line, "Obsoleting"@) {
        lemma_start_in_first(line, a, "Obsoleting"@);
    }
    if text::starts_with(line, "Security:"@) {
        lemma_start_in_first(line, a, "Security:"@);
    }
}

/// What starts a line and holds no white space starts its first word.
proof fn lemma_start_in_first(line: Seq<char>, a: Seq<char>, p: Seq<char>)
    requires
        text::starts_with(line, p),
        laws::is_solid(p),
        a.len() < line.len(),
        line.take(a.len() as int) == a,
        text::is_space(line[a.len() as int]),
    ensures
        text::starts_with(a, p),
{
    if p.len() > a.len() {
        let n = a.len() as int;
        assert(line.take(p.len() as int)[n] == p[n]);
        assert(!text::is_space(p[n]));
    } else {
        assert(a.take(p.len() as int) =~= line.take(p.len() as int));
    }
}

/// A line that `apt-get` prints is a pending security update exactly if it announces an
/// installation and its archive, which stands in the first brackets behind the version,
/// names security in whatever case.
pub proof fn law_an_apt_line_is_an_update_exactly_if(
    ahead: Seq<char>,
    version: Seq<char>,
    archive: Seq<char>,
    behind: Seq<char>,
)
    requires
        !ahead.contains('('),
        !version.contains(' ') && !version.contains(')'),
        !archive.contains(')'),
        laws::is_line(ahead + "("@ + version + " "@ + archive + ")"@ + behind),
    ensures
        ({
            let line = ahead + "("@ + version + " "@ + archive + ")"@ + behind;
            let counts = text::starts_with(line, "Inst "@) && text::contains(
                text::lower_all(archive),
                "security"@,
            );
            &&& counts ==> posture::apt_security_updates(line + seq!['\n']) == 1
            &&& !counts ==> posture::apt_security_updates(line + seq!['\n']) == 0
        }),
{
    reveal_strlit("(");
    reveal_strlit(")");
    reveal_strlit(" ");
    let line = ahead + "("@ + version + " "@ + archive + ")"@ + behind;
    let inside = version + " "@ + archive;
    let p = |l: Seq<char>| posture::is_apt_security_line(l);
    lemma_one_line(line, p);
    assert(line =~= ahead + seq!['('] + (inside + ")"@ + behind));
    laws::law_the_first_one_parts_a_text(ahead, '(', inside + ")"@ + behind);
    assert(!inside.contains(')')) by {
        if inside.contains(')') {
            let i = choose|i: int| 0 <= i < inside.len() && inside[i] == ')';
            if i < version.len() {
                assert(version[i] == ')');
            } else if i > version.len() {
                assert(archive[i - version.len() - 1] == ')');
            }
        }
    }
    assert(inside + ")"@ + behind =~= inside + seq![')'] + behind);
    laws::law_the_first_one_parts_a_text(inside, ')', behind);
    assert(inside =~= version + seq![' '] + archive);
    laws::law_the_first_one_parts_a_text(version, ' ', archive);
}

/// A line without brackets names no archive, and is no security update.
pub proof fn law_an_apt_line_without_an_archive_does_not_count(line: Seq<char>)
    requires
        laws::is_line(line),
        !line.contains('('),
    ensures
        posture::apt_security_updates(line + seq!['\n']) == 0,
{
    reveal_strlit("security");
    let p = |l: Seq<char>| posture::is_apt_security_line(l);
    let none = Seq::<char>::empty();
    lemma_one_line(line, p);
    laws::law_the_first_one_parts_a_text(line, '(', none);
    assert(!none.contains(')') && !none.contains(' '));
    laws::law_the_first_one_parts_a_text(none, ')', none);
    laws::law_the_first_one_parts_a_text(none, ' ', none);
    let s = text::lower_all(posture::apt_source(line));
    assert(s.len() == 0);
    if text::contains(s, "security"@) {
        laws::law_parts_of_a_text(none, "security"@, none, s);
    }
}

/// Which answers of the package manager count: a status of nought, and from `dnf` also
/// the hundred that says that there are updates; and whose counting applies.
pub proof fn law_which_answers_are_counted(family: Family, status: i32, output: Seq<char>)
    ensures
        gather::updates_status_ok(family, status) <==> status == 0 || (family == Family::Rhel
            && status == 100),
        family == Family::Debian ==> gather::updates_counted(family, output)
            == posture::apt_security_updates(output),
        family == Family::Rhel ==> gather::updates_counted(family, output)
            == posture::dnf_security_updates(output),
{
}

// ---------------------------------------------------------------------------
// sshd
// ---------------------------------------------------------------------------

/// `sshd -T` is believed exactly if it succeeded and printed something.
pub proof fn law_when_sshd_is_believed(answer: Option<CmdOutput>)
    ensures
        gather::sshd_t_counts(answer) <==> answer is Some && answer->0.status == 0 && exists|
            i: int,
        |
            0 <= i < answer->0.stdout@.len() && !text::is_space(#[trigger] answer->0.stdout@[i]),
{
    if let Some(out) = answer {
        let s = out.stdout@;
        let t = text::trim_start(s);
        lemma_trim_start_suffix(s);
        lemma_words_without_end(t);
        lemma_start_is_solid(s);
        if t.len() == 0 {
            lemma_all_blank(s);
        } else {
            let k = s.len() - t.len();
            assert(s[k] == t[0]);
            if text::trim(s).len() == 0 {
                assert(text::is_space(t[0]));
            }
        }
    }
}

/// Each line that `sshd -T` printed is one setting: its keyword is what stands before the
/// first white space, its value the rest. A line of one word is none.
pub proof fn law_a_printed_line_is_a_setting(
    before: Seq<Seq<char>>,
    lead: Seq<char>,
    key: Seq<char>,
    gap: Seq<char>,
    value: Seq<char>,
    trail: Seq<char>,
)
    requires
        laws::is_blank(lead) && laws::is_blank(gap) && laws::is_blank(trail),
        gap.len() > 0,
        laws::is_solid(key) && key.len() > 0,
        value.len() > 0 && !text::is_space(value[0]) && !text::is_space(value.last()),
    ensures
        posture::printed_settings(before.push(lead + key + gap + value + trail))
            == posture::printed_settings(before).push((key, value)),
        posture::printed_settings(before.push(lead + key + trail)) == posture::printed_settings(
            before,
        ),
{
    lemma_key_and_value(lead, key, gap, value, trail);
    let a = lead + key + gap + value + trail;
    assert(before.push(a).drop_last() =~= before);
    let none = Seq::<char>::empty();
    laws::law_trimming_takes_the_ends_off(none, key, none);
    assert(none + key + none =~= key);
    laws::law_trimming_takes_the_ends_off(lead, key, trail);
    let b = lead + key + trail;
    assert(before.push(b).drop_last() =~= before);
    laws::lemma_before_space_is(key, key.len());
}

proof fn lemma_key_and_value(
    lead: Seq<char>,
    key: Seq<char>,
    gap: Seq<char>,
    value: Seq<char>,
    trail: Seq<char>,
)
    requires
        laws::is_blank(lead) && laws::is_blank(gap) && laws::is_blank(trail),
        gap.len() > 0,
        laws::is_solid(key) && key.len() > 0,
        value.len() > 0 && !text::is_space(value[0]) && !text::is_space(value.last()),
    ensures
        text::trim(lead + key + gap + value + trail) == key + gap + value,
        text::before_space(key + gap + value) == key.len(),
        (key + gap + value).take(key.len() as int) == key,
        text::trim((key + gap + value).skip(key.len() as int + 1)) == value,
{
    let core = key + gap + value;
    assert(core[0] == key[0]);
    assert(core.last() == value.last());
    laws::law_trimming_takes_the_ends_off(lead, core, trail);
    assert(lead + core + trail =~= lead + key + gap + value + trail);
    assert forall|i: int| 0 <= i < key.len() implies !text::is_space(#[trigger] core[i]) by {
        assert(core[i] == key[i]);
    }
    assert(core[key.len() as int] == gap[0]);
    laws::lemma_before_space_is(core, key.len());
    assert(core.take(key.len() as int) =~= key);
    let none = Seq::<char>::empty();
    laws::law_trimming_takes_the_ends_off(gap.skip(1), value, none);
    assert(core.skip(key.len() as int + 1) =~= gap.skip(1) + value + none);
}

/// A line of a configuration file, before any `Match`, is one setting, its keyword in
/// whatever case, whatever comment stands behind it; blank lines are none.
pub proof fn law_a_configured_line_is_a_setting(
    lead: Seq<char>,
    key: Seq<char>,
    gap: Seq<char>,
    value: Seq<char>,
    trail: Seq<char>,
    comment: Seq<char>,
    rest: Seq<Seq<char>>,
)
    requires
        laws::is_blank(lead) && laws::is_blank(gap) && laws::is_blank(trail),
        gap.len() > 0,
        laws::is_solid(key) && key.len() > 0,
        value.len() > 0 && !text::is_space(value[0]) && !text::is_space(value.last()),
        !(lead + key + gap + value + trail).contains('#'),
    ensures
        ({
            let bare = lead + key + gap + value + trail;
            let held = seq![(text::lower_all(key), value)];
            &&& text::lower_all(key) != "match"@ ==> {
                &&& posture::global_settings(seq![bare] + rest) == held + posture::global_settings(
                    rest,
                )
                &&& posture::global_settings(seq![bare + "#"@ + comment] + rest) == held
                    + posture::global_settings(rest)
            }
            &&& text::lower_all(key) == "match"@ ==> {
                &&& posture::global_settings(seq![bare] + rest) == Seq::<Setting>::empty()
                &&& posture::global_settings(seq![bare + "#"@ + comment] + rest)
                    == Seq::<Setting>::empty()
            }
        }),
        posture::global_settings(seq![lead] + rest) == posture::global_settings(rest),
{
    reveal_strlit("#");
    let bare = lead + key + gap + value + trail;
    lemma_key_and_value(lead, key, gap, value, trail);
    laws::law_the_first_one_parts_a_text(bare, '#', comment);
    let noted = bare + "#"@ + comment;
    assert(noted =~= bare + seq!['#'] + comment);
    assert(posture::bare_line(bare) == key + gap + value);
    assert(posture::bare_line(noted) == key + gap + value);
    assert((seq![bare] + rest)[0] == bare && (seq![bare] + rest).skip(1) =~= rest);
    assert((seq![noted] + rest)[0] == noted && (seq![noted] + rest).skip(1) =~= rest);
    let blank = seq![lead] + rest;
    assert(blank[0] == lead && blank.skip(1) =~= rest);
    let none = Seq::<char>::empty();
    assert(!lead.contains('#')) by {
        if lead.contains('#') {
            let i = choose|i: int| 0 <= i < lead.len() && lead[i] == '#';
            assert(bare[i] == '#');
        }
    }
    laws::law_the_first_one_parts_a_text(lead, '#', none);
    laws::law_trimming_takes_the_ends_off(lead, none, none);
    assert(lead + none + none =~= lead);
}

/// Files are read one behind the other.
pub proof fn law_files_are_read_in_order(files: Seq<(String, String)>, more: (String, String))
    ensures
        posture::settings_of_files(files.push(more)) == posture::settings_of_files(files)
            + posture::global_settings(text::lines(more.1@)),
        posture::settings_of_files(Seq::<(String, String)>::empty()) == Seq::<Setting>::empty(),
{
    assert(files.push(more).drop_last() =~= files);
}

/// What settings come to: the first value given for a keyword holds; a switch is on where
/// that value is `yes` in whatever case, and both are on where nothing was said; root may
/// then log in with a key only.
pub proof fn law_what_settings_come_to(
    f: SshdFacts,
    source: SshdSource,
    before: Seq<Setting>,
    key: Seq<char>,
    value: Seq<char>,
    after: Seq<Setting>,
)
    requires
        posture::sshd_facts_hold(f, before + seq![(key, value)] + after, source),
        forall|i: int| 0 <= i < before.len() ==> (#[trigger] before[i]).0 != key,
    ensures
        key == "passwordauthentication"@ ==> f.password_authentication == (text::lower_all(value)
            == "yes"@),
        key == "kbdinteractiveauthentication"@ ==> f.keyboard_interactive == (text::lower_all(value)
            == "yes"@),
        key == "permitrootlogin"@ ==> f.permit_root_login@ == text::lower_all(value),
        f.source == source,
{
    reveal_strlit("yes");
    lemma_first_value_at(before, key, value, after);
    assert(text::lower_all("yes"@) =~= "yes"@);
}

proof fn lemma_first_value_at(
    before: Seq<Setting>,
    key: Seq<char>,
    value: Seq<char>,
    after: Seq<Setting>,
)
    requires
        forall|i: int| 0 <= i < before.len() ==> (#[trigger] before[i]).0 != key,
    ensures
        posture::first_value(before + seq![(key, value)] + after, key) == Some(value),
    decreases before.len(),
{
    let all = before + seq![(key, value)] + after;
    if before.len() == 0 {
        assert(all[0] == (key, value));
    } else {
        assert(all[0] == before[0]);
        assert(all.skip(1) =~= before.skip(1) + seq![(key, value)] + after);
        assert forall|i: int| 0 <= i < before.skip(1).len() implies (#[trigger] before.skip(
            1,
        )[i]).0 != key by {
            assert(before.skip(1)[i] == before[i + 1]);
        }
        lemma_first_value_at(before.skip(1), key, value, after);
    }
}

proof fn lemma_no_value(all: Seq<Setting>, key: Seq<char>)
    requires
        forall|i: int| 0 <= i < all.len() ==> (#[trigger] all[i]).0 != key,
    ensures
        posture::first_value(all, key) is None,
    decreases all.len(),
{
    if all.len() > 0 {
        assert forall|i: int| 0 <= i < all.skip(1).len() implies (#[trigger] all.skip(1)[i]).0
            != key by {
            assert(all.skip(1)[i] == all[i + 1]);
        }
        lemma_no_value(all.skip(1), key);
    }
}

/// What holds where nothing was said.
pub proof fn law_what_holds_unsaid(f: SshdFacts, source: SshdSource, all: Seq<Setting>)
    requires
        posture::sshd_facts_hold(f, all, source),
    ensures
        (forall|i: int| 0 <= i < all.len() ==> (#[trigger] all[i]).0 != "passwordauthentication"@)
            ==> f.password_authentication,
        (forall|i: int|
            0 <= i < all.len() ==> (#[trigger] all[i]).0 != "kbdinteractiveauthentication"@)
            ==> f.keyboard_interactive,
        (forall|i: int| 0 <= i < all.len() ==> (#[trigger] all[i]).0 != "permitrootlogin"@)
            ==> f.permit_root_login@ == "prohibit-password"@,
{
    if forall|i: int|
        0 <= i < all.len() ==> (#[trigger] all[i]).0 != "passwordauthentication"@ {
        lemma_no_value(all, "passwordauthentication"@);
    }
    if forall|i: int|
        0 <= i < all.len() ==> (#[trigger] all[i]).0 != "kbdinteractiveauthentication"@ {
        lemma_no_value(all, "kbdinteractiveauthentication"@);
    }
    if forall|i: int| 0 <= i < all.len() ==> (#[trigger] all[i]).0 != "permitrootlogin"@ {
        lemma_no_value(all, "permitrootlogin"@);
    }
}

// ---------------------------------------------------------------------------
// Sockets
// ---------------------------------------------------------------------------

proof fn lemma_last_index(a: Seq<char>, c: char, b: Seq<char>)
    requires
        !b.contains(c),
    ensures
        posture::last_index(a + seq![c] + b, c) == a.len(),
    decreases b.len(),
{
    let s = a + seq![c] + b;
    if b.len() > 0 {
        assert(s.last() == b.last());
        assert(b.contains(b[b.len() - 1]));
        assert(s.drop_last() =~= a + seq![c] + b.drop_last());
        assert(!b.drop_last().contains(c)) by {
            if b.drop_last().contains(c) {
                let i = choose|i: int| 0 <= i < b.drop_last().len() && b.drop_last()[i] == c;
                assert(b[i] == c);
            }
        }
        lemma_last_index(a, c, b.drop_last());
    } else {
        assert(s.last() == c);
    }
}

/// A socket of the kernel's table is reported exactly if it is listening, on the port
/// asked for, at an address off loopback; and it is reported by that address.
pub proof fn law_a_socket_is_reported_exactly_if(
    line: Seq<char>,
    number: Seq<char>,
    address: Seq<char>,
    port: Seq<char>,
    remote: Seq<char>,
    state: Seq<char>,
    others: Seq<Seq<char>>,
    asked: int,
)
    requires
        text::words(line) == seq![number, address + seq![':'] + port, remote, state] + others,
        !port.contains(':'),
    ensures
        ({
            let at = net::proc_address(address);
            let counts = state == "0A"@ && net::hex_number(port, 0xffff) == Some(asked) && at is Some
                && !net::is_loopback(at->0);
            &&& counts ==> posture::listening_address(line, asked) == Some(
                net::address_text(at->0),
            )
            &&& !counts ==> posture::listening_address(line, asked) is None
        }),
{
    lemma_last_index(address, ':', port);
    let local = address + seq![':'] + port;
    let w = text::words(line);
    assert(w[1] == local && w[3] == state);
    assert(local.skip(address.len() as int + 1) =~= port);
    assert(local.take(address.len() as int) =~= address);
}

/// The first line of a table is its heading; every other line counts on its own, in order.
pub proof fn law_every_socket_of_a_table_counts(
    heading: Seq<char>,
    sockets: Seq<Seq<char>>,
    line: Seq<char>,
    port: int,
)
    requires
        laws::is_line(heading),
        laws::is_line(line),
        forall|i: int| 0 <= i < sockets.len() ==> laws::is_line(#[trigger] sockets[i]),
    ensures
        posture::table_addresses(laws::block(seq![heading] + sockets.push(line)), port)
            == posture::table_addresses(laws::block(seq![heading] + sockets), port)
            + (match posture::listening_address(line, port) {
            Some(a) => seq![a],
            None => Seq::empty(),
        }),
        posture::table_addresses(laws::block(seq![heading]), port) == Seq::<Seq<char>>::empty(),
{
    let all = seq![heading] + sockets.push(line);
    let most = seq![heading] + sockets;
    assert forall|i: int| 0 <= i < all.len() implies laws::is_line(#[trigger] all[i]) by {
        if 0 < i < all.len() - 1 {
            assert(all[i] == sockets[i - 1]);
        }
    }
    assert forall|i: int| 0 <= i < most.len() implies laws::is_line(#[trigger] most[i]) by {
        if 0 < i {
            assert(most[i] == sockets[i - 1]);
        }
    }
    laws::law_a_block_has_its_lines(all);
    laws::law_a_block_has_its_lines(most);
    laws::law_a_block_has_its_lines(seq![heading]);
    assert(all.skip(1) =~= sockets.push(line));
    assert(most.skip(1) =~= sockets);
    assert(sockets.push(line).drop_last() =~= sockets);
    assert(seq![heading].skip(1) =~= Seq::<Seq<char>>::empty());
}

proof fn lemma_hex_pair(b: u8)
    ensures
        net::hex_number(codec::hex_text(seq![b]), 0xff) == Some(b as int),
{
    let s = codec::hex_text(seq![b]);
    let x = (b / 16) as nat;
    let y = (b % 16) as nat;
    assert(s.len() == 2);
    assert(s[0] == text::digit_char(x));
    assert(s[1] == text::digit_char(y));
    reveal_strlit("0123456789abcdef");
    laws::law_letters_and_digits(s[0], x as int);
    laws::law_letters_and_digits(s[1], y as int);
    assert(text::is_hex_digit(s[0]) && text::is_hex_digit(s[1]));
    assert(s[0] != '+');
    assert(net::hex_value(s.drop_last().drop_last()) == 0);
    assert(s.drop_last().last() == s[0]);
    assert(net::hex_value(s.drop_last()) == x);
    assert(net::hex_value(s) == 16 * x + y);
}

/// Digits in pairs read back as the bytes that they write.
pub proof fn law_hexadecimal_bytes_read_back(b: Seq<u8>)
    ensures
        net::hex_bytes(codec::hex_text(b)) == Some(b),
    decreases b.len(),
{
    let s = codec::hex_text(b);
    if b.len() == 0 {
        assert(b =~= Seq::<u8>::empty());
    } else {
        let f = b.drop_last();
        law_hexadecimal_bytes_read_back(f);
        assert(s.take(s.len() - 2) =~= codec::hex_text(f));
        assert(s.skip(s.len() - 2) =~= codec::hex_text(seq![b.last()]));
        lemma_hex_pair(b.last());
        assert(f.push(b.last()) =~= b);
    }
}

/// The kernel writes an address as words of four bytes, each with its last byte first: an
/// IPv4 address is read back as itself, and an IPv6 address too, unless it stands for an
/// IPv4 one, which is then meant.
pub proof fn law_an_address_of_the_table_is_read_back(o: Seq<u8>)
    requires
        o.len() == 4 || o.len() == 16,
    ensures
        ({
            let turned = Seq::new(o.len(), |i: int| o[i - i % 4 + (3 - i % 4)]);
            let mapped = o.len() == 16 && o.take(12) == seq![
                0u8,
                0u8,
                0u8,
                0u8,
                0u8,
                0u8,
                0u8,
                0u8,
                0u8,
                0u8,
                0xffu8,
                0xffu8,
            ];
            &&& mapped ==> net::proc_address(codec::hex_text(turned)) == Some(o.skip(12))
            &&& !mapped ==> net::proc_address(codec::hex_text(turned)) == Some(o)
        }),
        net::is_loopback(o) <==> (o.len() == 4 && o[0] == 127) || (o.len() == 16 && o.take(15)
            == Seq::new(15, |i: int| 0u8) && o[15] == 1),
{
    let turned = Seq::new(o.len(), |i: int| o[i - i % 4 + (3 - i % 4)]);
    law_hexadecimal_bytes_read_back(turned);
    let back = net::swap_words(turned);
    assert forall|i: int| 0 <= i < o.len() implies #[trigger] back[i] == o[i] by {
        let j = 4 * (i / 4) + 3 - i % 4;
        assert(0 <= j < o.len());
        assert(j % 4 == 3 - i % 4);
        assert(j - j % 4 + (3 - j % 4) == i);
    }
    assert(back =~= o);
    let lead = seq![
        0u8,
        0u8,
        0u8,
        0u8,
        0u8,
        0u8,
        0u8,
        0u8,
        0u8,
        0u8,
        0xffu8,
        0xffu8,
    ];
    if o.len() == 16 {
        if net::is_ipv4_mapped(o) {
            assert(o.take(12) =~= lead);
        }
        if o.take(12) == lead {
            assert forall|i: int| 0 <= i < 12 implies #[trigger] o[i] == lead[i] by {
                assert(o.take(12)[i] == o[i]);
            }
        }
        let zeroes = Seq::new(15, |i: int| 0u8);
        if net::is_loopback(o) {
            assert(o.take(15) =~= zeroes);
        }
        if o.take(15) == zeroes {
            assert forall|i: int| 0 <= i < 15 implies #[trigger] o[i] == 0 by {
                assert(o.take(15)[i] == zeroes[i]);
            }
        }
    }
}

/// Hexadecimal numerals read back as the numbers that they write.
pub proof fn law_hexadecimal_numbers_read_back(n: nat, max: int)
    ensures
        net::hex_number(text::numeral(n, 16), max) == if n <= max {
            Some(n as int)
        } else {
            None
        },
{
    lemma_hex_value(n);
    let s = text::numeral(n, 16);
    assert(text::is_hex_digit(s[0]));
}

proof fn lemma_hex_value(n: nat)
    ensures
        text::numeral(n, 16).len() > 0,
        net::all_hex(text::numeral(n, 16)),
        net::hex_value(text::numeral(n, 16)) == n,
    decreases n,
{
    let s = text::numeral(n, 16);
    reveal_strlit("0123456789abcdef");
    if n >= 16 {
        lemma_hex_value(n / 16);
        let t = text::numeral(n / 16, 16);
        assert(s.drop_last() =~= t);
        laws::law_letters_and_digits(s.last(), (n % 16) as int);
        assert forall|i: int| 0 <= i < s.len() implies text::is_hex_digit(#[trigger] s[i]) by {
            if i < t.len() {
                assert(s[i] == t[i]);
            } else {
                assert(s[i] == text::digit_char(n % 16));
            }
        }
    } else {
        laws::law_letters_and_digits(s[0], n as int);
        assert(net::hex_value(s.drop_last()) == 0);
    }
}

/// Both tables are read, the one for IPv4 first; one that could not be read shows nothing.
pub proof fn law_both_tables_are_read(a: Seq<char>, b: Seq<char>, port: int)
    ensures
        ({
            let x = posture::table_addresses(a, port);
            let y = posture::table_addresses(b, port);
            &&& posture::observed_addresses(Some(a), Some(b), port) == x + y
            &&& posture::observed_addresses(Some(a), None, port) == x
            &&& posture::observed_addresses(None, Some(b), port) == y
            &&& posture::observed_addresses(None, None, port).len() == 0
        }),
{
    let x = posture::table_addresses(a, port);
    let y = posture::table_addresses(b, port);
    assert(x + Seq::<Seq<char>>::empty() =~= x);
    assert(Seq::<Seq<char>>::empty() + y =~= y);
}

/// Listeners are the addresses, one for one, each with the port.
pub proof fn law_listeners_show_the_addresses(
    found: Seq<PublicListener>,
    addresses: Seq<Seq<char>>,
    port: u16,
    i: int,
)
    requires
        posture::listeners_are(found, addresses, port),
        0 <= i < addresses.len(),
    ensures
        found.len() == addresses.len(),
        found[i].address@ == addresses[i],
        found[i].port == port,
{
}

/// What the package managers are asked: to say what they would do, and to do nothing.
pub proof fn law_what_package_managers_are_asked()
    ensures
        gather::updates_command(Family::Debian) == seq![
            "apt-get"@,
            "--simulate"@,
            "--quiet"@,
            "--no-download"@,
            "upgrade"@,
        ],
        gather::updates_command(Family::Rhel) == seq![
            "dnf"@,
            "--cacheonly"@,
            "--quiet"@,
            "--security"@,
            "check-update"@,
        ],
{
}

/// Files are ordered by their names, and by what they hold where the names are the same.
pub proof fn law_how_files_are_ordered(a: (String, String), b: (String, String))
    ensures
        a.0@ != b.0@ ==> (gather::file_le(a, b) <==> text::text_le(a.0@, b.0@)),
        a.0@ == b.0@ ==> (gather::file_le(a, b) <==> text::text_le(a.1@, b.1@)),
{
}


/// Of sorted files no later one belongs before an earlier one.
pub proof fn law_sorted_files_stand_in_order(v: Seq<(String, String)>, i: int, j: int)
    requires
        gather::sorted_files(v),
        0 <= i < j < v.len(),
    ensures
        text::text_le(v[i].0@, v[j].0@),
        v[i].0@ == v[j].0@ ==> text::text_le(v[i].1@, v[j].1@),
{
    assert(gather::file_le(v[i], v[j]));
    text::lemma_text_le_total(v[i].0@, v[i].0@);
}


} // verus!
