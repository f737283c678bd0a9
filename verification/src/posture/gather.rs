//! Judging what files and commands gave: from raw answers to facts.
use vstd::prelude::*;
use vstd::string::StringExecFns;

use crate::model::{CmdOutput, Family};
use crate::posture;
use crate::posture::rules;
use crate::posture::{Finding, Observed, PostureFacts, Severity, SshdFacts, SshdSource};
use crate::text;

verus! {

// ---------------------------------------------------------------------------
// sshd
// ---------------------------------------------------------------------------

/// Files in the order of their paths (and, for one path, of their contents).
pub open spec fn file_le(a: (String, String), b: (String, String)) -> bool {
    if a.0@ == b.0@ {
        text::text_le(a.1@, b.1@)
    } else {
        text::text_le(a.0@, b.0@)
    }
}

pub open spec fn sorted_files(v: Seq<(String, String)>) -> bool {
    forall|i: int, j: int| 0 <= i < j < v.len() ==> file_le(#[trigger] v[i], #[trigger] v[j])
}

proof fn lemma_file_le(a: (String, String), b: (String, String), c: (String, String))
    ensures
        file_le(a, b) || file_le(b, a),
        file_le(a, b) && file_le(b, c) ==> file_le(a, c),
{
    text::lemma_text_le_total(a.0@, b.0@);
    text::lemma_text_le_total(b.0@, c.0@);
    text::lemma_text_le_total(a.0@, c.0@);
    text::lemma_text_le_total(a.1@, b.1@);
    if file_le(a, b) && file_le(b, c) {
        if a.0@ == b.0@ && b.0@ == c.0@ {
            text::lemma_text_le_transitive(a.1@, b.1@, c.1@);
        } else {
            text::lemma_text_le_total(a.0@, a.0@);
            text::lemma_text_le_transitive(a.0@, b.0@, c.0@);
            if a.0@ == c.0@ {
                text::lemma_text_le_total(a.0@, b.0@);
            }
        }
    }
}

fn file_le_of(a: &(String, String), b: &(String, String)) -> (r: bool)
    ensures
        r == file_le(*a, *b),
{
    if text::same(a.0.as_str(), b.0.as_str()) {
        text::text_le_of(a.1.as_str(), b.1.as_str())
    } else {
        text::text_le_of(a.0.as_str(), b.0.as_str())
    }
}

/// Put a file in its place among sorted ones.
fn insert_file(files: &mut Vec<(String, String)>, file: (String, String))
    requires
        sorted_files(old(files)@),
    ensures
        sorted_files(final(files)@),
        final(files)@.to_multiset() == old(files)@.to_multiset().insert(file),
{
    let mut i: usize = 0;
    let ghost before = files@;
    while i < files.len() && file_le_of(&files[i], &file)
        invariant
            files@ == before,
            i <= files@.len(),
            forall|j: int| 0 <= j < i ==> file_le(#[trigger] before[j], file),
        decreases files@.len() - i,
    {
        i = i + 1;
    }
    files.insert(i, file);
    proof {
        broadcast use vstd::seq_lib::to_multiset_insert;

        let after = files@;
        assert forall|p: int, q: int| 0 <= p < q < after.len() implies file_le(
            #[trigger] after[p],
            #[trigger] after[q],
        ) by {
            if q == i {
                assert(after[p] == before[p]);
            } else if p == i {
                assert(after[q] == before[q - 1]);
                lemma_file_le(before[i as int], file, file);
                if q - 1 > i {
                    lemma_file_le(file, before[i as int], before[q - 1]);
                }
            } else {
                let p0 = if p < i {
                    p
                } else {
                    p - 1
                };
                let q0 = if q < i {
                    q
                } else {
                    q - 1
                };
                assert(after[p] == before[p0]);
                assert(after[q] == before[q0]);
            }
        }
    }
}

/// The drop-ins in the order of their paths, then the main file. The first
/// value of a keyword wins, and this is how `50-ferrum.conf` overrides a stock
/// `sshd_config`.
pub fn order_sshd_files(main: Option<(String, String)>, dropins: Vec<(String, String)>) -> (r: Vec<
    (String, String),
>)
    ensures
        ({
            let n = dropins@.len() as int;
            &&& r@.len() == n + (if main is Some {
                1int
            } else {
                0int
            })
            &&& sorted_files(r@.take(n))
            &&& r@.take(n).to_multiset() == dropins@.to_multiset()
            &&& main is Some ==> r@[n] == main.unwrap()
        }),
{
    let mut out: Vec<(String, String)> = Vec::new();
    assert(dropins@.take(0) =~= out@);
    for file in it: dropins.into_iter()
        invariant
            it.seq() == dropins@,
            sorted_files(out@),
            out@.to_multiset() == dropins@.take(it.index() as int).to_multiset(),
    {
        proof {
            broadcast use vstd::seq_lib::to_multiset_build;

            assert(dropins@.take(it.index() + 1) =~= dropins@.take(it.index() as int).push(file));
        }
        insert_file(&mut out, file);
    }
    assert(dropins@.take(dropins@.len() as int) =~= dropins@);
    proof {
        broadcast use vstd::seq_lib::to_multiset_len;

        assert(out@.len() == out@.to_multiset().len());
        assert(dropins@.len() == dropins@.to_multiset().len());
    }
    let ghost sorted = out@;
    match main {
        Some(file) => {
            out.push(file);
            assert(out@.take(dropins@.len() as int) =~= sorted);
        },
        None => {
            assert(out@.take(dropins@.len() as int) =~= sorted);
        },
    }
    out
}

/// Whether a directory entry of `sshd_config.d` is a drop-in: `<stem>.conf`.
pub fn is_sshd_dropin(file_name: &str) -> (r: bool)
    ensures
        r == (text::ends_with(file_name@, ".conf"@) && file_name@.len() > 5),
{
    text::has_suffix(file_name, ".conf") && text::chars_of(file_name).len() > 5
}

pub const NO_SSHD: &'static str = "`sshd -T` did not run and neither /etc/ssh/sshd_config nor \
     /etc/ssh/sshd_config.d could be read";

/// Whether the answer of `sshd -T` counts: it ran, succeeded and said something.
pub open spec fn sshd_t_counts(answer: Option<CmdOutput>) -> bool {
    answer matches Some(out) && out.status == 0 && text::trim(out.stdout@).len() > 0
}

/// Settle the SSH facts: `sshd -T` where it answered, else the files, else
/// nothing is known.
pub fn observe_sshd(answer: &Option<CmdOutput>, files: &[(String, String)]) -> (r: Observed<
    SshdFacts,
>)
    ensures
        match r {
            Observed::Known(f) => if sshd_t_counts(*answer) {
                posture::sshd_facts_hold(
                    f,
                    posture::printed_settings(text::lines(answer.unwrap().stdout@)),
                    SshdSource::SshdT,
                )
            } else {
                files@.len() > 0 && posture::sshd_facts_hold(
                    f,
                    posture::settings_of_files(files@),
                    SshdSource::Files,
                )
            },
            Observed::Unavailable { reason } => !sshd_t_counts(*answer) && files@.len() == 0
                && reason@ == NO_SSHD@,
        },
{
    match answer {
        Some(out) => {
            let said = text::trimmed(out.stdout.as_str());
            if out.success() && !said.as_str().is_empty() {
                return Observed::Known(posture::parse_sshd_t(out.stdout.as_str()));
            }
        },
        None => {},
    }
    if files.len() == 0 {
        Observed::Unavailable { reason: NO_SSHD.to_owned() }
    } else {
        Observed::Known(posture::parse_sshd_files(files))
    }
}

// ---------------------------------------------------------------------------
// Pending security updates
// ---------------------------------------------------------------------------

/// The command that lists pending updates from cached metadata alone.
pub open spec fn updates_command(family: Family) -> Seq<Seq<char>> {
    match family {
        Family::Debian => seq![
            "apt-get"@,
            "--simulate"@,
            "--quiet"@,
            "--no-download"@,
            "upgrade"@,
        ],
        Family::Rhel => seq!["dnf"@, "--cacheonly"@, "--quiet"@, "--security"@, "check-update"@],
    }
}

pub fn updates_argv(family: Family) -> (r: Vec<String>)
    ensures
        text::texts(r@) == updates_command(family),
{
    let mut v: Vec<String> = Vec::new();
    match family {
        Family::Debian => {
            v.push("apt-get".to_owned());
            v.push("--simulate".to_owned());
            v.push("--quiet".to_owned());
            v.push("--no-download".to_owned());
            v.push("upgrade".to_owned());
        },
        Family::Rhel => {
            v.push("dnf".to_owned());
            v.push("--cacheonly".to_owned());
            v.push("--quiet".to_owned());
            v.push("--security".to_owned());
            v.push("check-update".to_owned());
        },
    }
    assert(text::texts(v@) =~= updates_command(family));
    v
}

pub const NO_PACKAGE_MANAGER: &'static str = "the package manager could not be asked about pending \
     updates: ";

/// Whether the package manager's exit status is an answer. `check-update` exits
/// 100 when updates exist.
pub open spec fn updates_status_ok(family: Family, status: i32) -> bool {
    match family {
        Family::Debian => status == 0,
        Family::Rhel => status == 0 || status == 100,
    }
}

pub open spec fn updates_counted(family: Family, stdout: Seq<char>) -> nat {
    match family {
        Family::Debian => posture::apt_security_updates(stdout),
        Family::Rhel => posture::dnf_security_updates(stdout),
    }
}

/// Judge the package manager's answer; `Err` says why it could not be run.
pub fn observe_updates(family: Family, answer: &Result<CmdOutput, String>) -> (r: Observed<usize>)
    ensures
        match r {
            Observed::Known(n) => answer matches Ok(out) && updates_status_ok(family, out.status)
                && n == updates_counted(family, out.stdout@),
            Observed::Unavailable { reason } => match answer {
                Ok(out) => !updates_status_ok(family, out.status) && reason@
                    == NO_PACKAGE_MANAGER@ + out.failure@,
                Err(e) => reason@ == NO_PACKAGE_MANAGER@ + e@,
            },
        },
{
    let mut reason = NO_PACKAGE_MANAGER.to_owned();
    match answer {
        Ok(out) => {
            let failed = match family {
                Family::Debian => !out.success(),
                Family::Rhel => out.status != 0 && out.status != 100,
            };
            if failed {
                reason.append(out.failure.as_str());
                return Observed::Unavailable { reason };
            }
            let counted: usize = match family {
                Family::Debian => posture::count_apt_security_updates(out.stdout.as_str()),
                Family::Rhel => posture::count_dnf_security_updates(out.stdout.as_str()),
            };
            Observed::Known(counted)
        },
        Err(e) => {
            reason.append(e.as_str());
            Observed::Unavailable { reason }
        },
    }
}

// ---------------------------------------------------------------------------
// The tally
// ---------------------------------------------------------------------------

/// How many findings a report holds at one severity.
pub open spec fn tally(v: Seq<Finding>, severity: Severity) -> nat
    decreases v.len(),
{
    if v.len() == 0 {
        0
    } else {
        tally(v.drop_last(), severity) + if v.last().severity == severity {
            1nat
        } else {
            0nat
        }
    }
}

pub fn count_at(findings: &Vec<Finding>, severity: Severity) -> (r: usize)
    ensures
        r == tally(findings@, severity),
{
    let mut n: usize = 0;
    let mut i: usize = 0;
    assert(findings@.take(0) =~= Seq::empty());
    while i < findings.len()
        invariant
            n <= i <= findings@.len(),
            n == tally(findings@.take(i as int), severity),
        decreases findings@.len() - i,
    {
        assert(findings@.take(i + 1).drop_last() =~= findings@.take(i as int));
        if findings[i].severity == severity {
            n = n + 1;
        }
        i = i + 1;
    }
    assert(findings@.take(i as int) =~= findings@);
    n
}

/// One line of the tally, left out where nothing was found.
pub open spec fn tally_line(v: Seq<Finding>, severity: Severity) -> Seq<(Severity, nat)> {
    if tally(v, severity) > 0 {
        seq![(severity, tally(v, severity))]
    } else {
        Seq::empty()
    }
}

/// The severities that occur, with their counts, in the order of their names.
pub open spec fn tally_lines(v: Seq<Finding>) -> Seq<(Severity, nat)> {
    tally_line(v, Severity::Critical) + tally_line(v, Severity::High) + tally_line(v, Severity::Low)
        + tally_line(v, Severity::Medium) + tally_line(v, Severity::Unknown)
}

pub open spec fn count_views(v: Seq<(Severity, usize)>) -> Seq<(Severity, nat)> {
    v.map_values(|p: (Severity, usize)| (p.0, p.1 as nat))
}

fn add_line(out: &mut Vec<(Severity, usize)>, findings: &Vec<Finding>, severity: Severity)
    ensures
        count_views(final(out)@) == count_views(old(out)@) + tally_line(findings@, severity),
{
    let n: usize = count_at(findings, severity);
    if n > 0 {
        out.push((severity, n));
        assert(count_views(out@) =~= count_views(old(out)@) + tally_line(findings@, severity));
    } else {
        assert(count_views(out@) =~= count_views(old(out)@) + tally_line(findings@, severity));
    }
}

/// How many findings are at each severity, for a dashboard.
pub fn counts(findings: &Vec<Finding>) -> (r: Vec<(Severity, usize)>)
    ensures
        count_views(r@) == tally_lines(findings@),
{
    let mut out: Vec<(Severity, usize)> = Vec::new();
    assert(count_views(out@) =~= Seq::empty());
    add_line(&mut out, findings, Severity::Critical);
    add_line(&mut out, findings, Severity::High);
    add_line(&mut out, findings, Severity::Low);
    add_line(&mut out, findings, Severity::Medium);
    add_line(&mut out, findings, Severity::Unknown);
    assert(count_views(out@) =~= tally_lines(findings@));
    out
}

// ---------------------------------------------------------------------------
// The operation
// ---------------------------------------------------------------------------

#[derive(Debug)]
pub struct PostureInput {}

#[derive(Debug)]
pub struct PostureOutput {
    /// Seconds since the epoch.
    pub checked_at: i64,
    pub findings: Vec<Finding>,
    /// How many findings are at each severity.
    pub counts: Vec<(Severity, usize)>,
    /// What the findings were derived from.
    pub facts: PostureFacts,
}

/// `security.posture`.
pub struct Posture;

impl Posture {
    /// The report on what was observed at some time.
    pub fn report(facts: PostureFacts, checked_at: i64) -> (r: PostureOutput)
        requires
            facts.panel_tls.days_remaining != Some(i64::MIN),
        ensures
            r.checked_at == checked_at,
            posture::views(r.findings@) == rules::evaluation(facts),
            count_views(r.counts@) == tally_lines(r.findings@),
            r.facts == facts,
    {
        let findings = rules::evaluate(&facts);
        let counts = counts(&findings);
        PostureOutput { checked_at, findings, counts, facts }
    }
}

} // verus!
