//! What holds of every security report.
use vstd::prelude::*;

use crate::error;
use crate::net;
use crate::posture;
use crate::posture::rules;
use crate::posture::{FindingView, Observed, PostureFacts, Setting, Severity, SiteCertFact};
use crate::text;

verus! {

// ---------------------------------------------------------------------------
// Order and completeness
// ---------------------------------------------------------------------------

proof fn lemma_group(v: Seq<FindingView>, s: Severity)
    ensures
        forall|k: int|
            0 <= k < rules::of_severity(v, s).len() ==> (#[trigger] rules::of_severity(v, s)[k]).severity
                == s && v.contains(rules::of_severity(v, s)[k]),
    decreases v.len(),
{
    if v.len() > 0 {
        lemma_group(v.drop_last(), s);
        assert forall|k: int| 0 <= k < rules::of_severity(v, s).len() implies (
        #[trigger] rules::of_severity(v, s)[k]).severity == s && v.contains(
            rules::of_severity(v, s)[k],
        ) by {
            let rest = rules::of_severity(v.drop_last(), s);
            if k < rest.len() {
                let x = rest[k];
                assert(v.drop_last().contains(x));
                let p = choose|p: int| 0 <= p < v.drop_last().len() && v.drop_last()[p] == x;
                assert(v[p] == x);
            } else {
                assert(v[v.len() - 1] == v.last());
            }
        }
    }
}

proof fn lemma_group_has(v: Seq<FindingView>, i: int)
    requires
        0 <= i < v.len(),
    ensures
        rules::of_severity(v, v[i].severity).contains(v[i]),
    decreases v.len(),
{
    let s = v[i].severity;
    let rest = rules::of_severity(v.drop_last(), s);
    if i == v.len() - 1 {
        assert(rules::of_severity(v, s)[rest.len() as int] == v[i]);
    } else {
        assert(v.drop_last()[i] == v[i]);
        lemma_group_has(v.drop_last(), i);
        let k = choose|k: int| 0 <= k < rest.len() && rest[k] == v[i];
        assert(rules::of_severity(v, s)[k] == v[i]);
    }
}

proof fn lemma_group_in_report(v: Seq<FindingView>, s: Severity, x: FindingView)
    requires
        rules::of_severity(v, s).contains(x),
    ensures
        rules::by_severity(v).contains(x),
{
    let a = rules::of_severity(v, Severity::Critical);
    let b = rules::of_severity(v, Severity::High);
    let c = rules::of_severity(v, Severity::Medium);
    let d = rules::of_severity(v, Severity::Low);
    let e = rules::of_severity(v, Severity::Unknown);
    let g = rules::of_severity(v, s);
    let k = choose|k: int| 0 <= k < g.len() && g[k] == x;
    let base: int = match s {
        Severity::Critical => 0,
        Severity::High => a.len() as int,
        Severity::Medium => (a.len() + b.len()) as int,
        Severity::Low => (a.len() + b.len() + c.len()) as int,
        Severity::Unknown => (a.len() + b.len() + c.len() + d.len()) as int,
    };
    assert(rules::by_severity(v)[base + k] == x);
}

/// A report lists the most severe findings first.
pub proof fn law_most_severe_first(f: PostureFacts, i: int, j: int)
    requires
        0 <= i <= j < rules::evaluation(f).len(),
    ensures
        rules::evaluation(f)[i].severity.rank() <= rules::evaluation(f)[j].severity.rank(),
{
    let v = rules::checks(f);
    lemma_group(v, Severity::Critical);
    lemma_group(v, Severity::High);
    lemma_group(v, Severity::Medium);
    lemma_group(v, Severity::Low);
    lemma_group(v, Severity::Unknown);
}

/// Sorting a report loses nothing and adds nothing.
pub proof fn law_report_holds_exactly_the_findings(f: PostureFacts, x: FindingView)
    ensures
        rules::evaluation(f).contains(x) <==> rules::checks(f).contains(x),
        rules::evaluation(f).len() == rules::checks(f).len(),
{
    let v = rules::checks(f);
    lemma_group(v, Severity::Critical);
    lemma_group(v, Severity::High);
    lemma_group(v, Severity::Medium);
    lemma_group(v, Severity::Low);
    lemma_group(v, Severity::Unknown);
    lemma_lengths(v);
    if v.contains(x) {
        let i = choose|i: int| 0 <= i < v.len() && v[i] == x;
        lemma_group_has(v, i);
        lemma_group_in_report(v, x.severity, x);
    }
}

proof fn lemma_lengths(v: Seq<FindingView>)
    ensures
        rules::by_severity(v).len() == v.len(),
    decreases v.len(),
{
    if v.len() > 0 {
        lemma_lengths(v.drop_last());
    }
}

// ---------------------------------------------------------------------------
// Clean and unknown
// ---------------------------------------------------------------------------

/// Every check could be run and passed.
pub open spec fn nothing_wrong(f: PostureFacts) -> bool {
    &&& f.sshd matches Observed::Known(s) && !rules::takes_passwords(s) && s.permit_root_login@
        != "yes"@
    &&& f.firewall.backend@ != "none"@ && f.firewall.active == Some(true)
    &&& f.mysql_listeners matches Observed::Known(l) && l@.len() == 0
    &&& f.panel_tls.days_remaining matches Some(d) && d >= posture::PANEL_CERT_WARN_DAYS
    &&& forall|i: int| 0 <= i < f.sites@.len() ==> (#[trigger] f.sites@[i]).has_certificate
    &&& f.sentinel_enabled
    &&& f.security_updates matches Observed::Known(n) && n == 0
}

proof fn lemma_uncertified(sites: Seq<SiteCertFact>)
    ensures
        rules::uncertified(sites).len() == 0 <==> forall|i: int|
            0 <= i < sites.len() ==> (#[trigger] sites[i]).has_certificate,
    decreases sites.len(),
{
    if sites.len() > 0 {
        lemma_uncertified(sites.drop_last());
        if rules::uncertified(sites).len() == 0 {
            assert forall|i: int| 0 <= i < sites.len() implies (
            #[trigger] sites[i]).has_certificate by {
                if i < sites.len() - 1 {
                    assert(sites.drop_last()[i].has_certificate);
                }
            }
        } else if forall|i: int| 0 <= i < sites.len() ==> (#[trigger] sites[i]).has_certificate {
            assert(sites[sites.len() - 1].has_certificate);
            assert forall|i: int| 0 <= i < sites.drop_last().len() implies (
            #[trigger] sites.drop_last()[i]).has_certificate by {
                assert(sites[i].has_certificate);
            }
        }
    }
}

/// A report is empty exactly when every check ran and passed.
pub proof fn law_empty_report_means_nothing_wrong(f: PostureFacts)
    ensures
        rules::evaluation(f).len() == 0 <==> nothing_wrong(f),
{
    lemma_lengths(rules::checks(f));
    lemma_uncertified(f.sites@);
    let a = rules::ssh_findings(f.sshd);
    let b = rules::firewall_findings(f.firewall.backend@, f.firewall.active);
    let c = rules::database_findings(f.mysql_listeners);
    let d = rules::tls_findings(f.panel_tls.days_remaining, error::opt_text(f.panel_tls.domain));
    let e = rules::site_findings(f.sites@);
    let g = rules::sentinel_findings(f.sentinel_enabled);
    let h = rules::update_findings(f.security_updates);
    assert(rules::checks(f).len() == a.len() + b.len() + c.len() + d.len() + e.len() + g.len()
        + h.len());
    assert(a.len() == 0 <==> (f.sshd matches Observed::Known(s) && !rules::takes_passwords(s)
        && s.permit_root_login@ != "yes"@));
    assert(b.len() == 0 <==> f.firewall.backend@ != "none"@ && f.firewall.active == Some(true)) by {
        if let Some(on) = f.firewall.active {
            assert(on || !on);
        }
    }
    assert(c.len() == 0 <==> (f.mysql_listeners matches Observed::Known(l) && l@.len() == 0));
    assert(d.len() == 0 <==> (f.panel_tls.days_remaining matches Some(n) && n
        >= posture::PANEL_CERT_WARN_DAYS));
    assert(h.len() == 0 <==> (f.security_updates matches Observed::Known(n) && n == 0));
}

/// The report holds a finding of that identifier which says "unknown".
pub open spec fn reports_unknown(f: PostureFacts, id: Seq<char>) -> bool {
    exists|i: int|
        0 <= i < rules::evaluation(f).len() && (#[trigger] rules::evaluation(f)[i]).id == id
            && rules::evaluation(f)[i].severity == Severity::Unknown
}

proof fn lemma_reported(f: PostureFacts, x: FindingView)
    requires
        rules::checks(f).contains(x),
        x.severity == Severity::Unknown,
    ensures
        reports_unknown(f, x.id),
{
    law_report_holds_exactly_the_findings(f, x);
    let i = choose|i: int| 0 <= i < rules::evaluation(f).len() && rules::evaluation(f)[i] == x;
    assert(rules::evaluation(f)[i].id == x.id);
}

/// A check that could not be run is reported as unknown, never passed over.
pub proof fn law_a_check_that_could_not_run_is_reported(f: PostureFacts)
    ensures
        f.sshd is Unavailable ==> reports_unknown(f, "ssh.unknown"@),
        f.firewall.backend@ != "none"@ && f.firewall.active is None ==> reports_unknown(
            f,
            "firewall.unknown"@,
        ),
        f.mysql_listeners is Unavailable ==> reports_unknown(f, "mariadb.exposure_unknown"@),
        f.security_updates is Unavailable ==> reports_unknown(f, "updates.unknown"@),
{
    let a = rules::ssh_findings(f.sshd);
    let b = rules::firewall_findings(f.firewall.backend@, f.firewall.active);
    let c = rules::database_findings(f.mysql_listeners);
    let d = rules::tls_findings(f.panel_tls.days_remaining, error::opt_text(f.panel_tls.domain));
    let e = rules::site_findings(f.sites@);
    let g = rules::sentinel_findings(f.sentinel_enabled);
    let h = rules::update_findings(f.security_updates);
    let v = rules::checks(f);
    assert(v =~= a + b + c + d + e + g + h);
    if f.sshd is Unavailable {
        assert(v[0] == a[0]);
        lemma_reported(f, a[0]);
    }
    if f.firewall.backend@ != "none"@ && f.firewall.active is None {
        assert(v[a.len() as int] == b[0]);
        lemma_reported(f, b[0]);
    }
    if f.mysql_listeners is Unavailable {
        assert(v[(a.len() + b.len()) as int] == c[0]);
        lemma_reported(f, c[0]);
    }
    if f.security_updates is Unavailable {
        assert(v[(a.len() + b.len() + c.len() + d.len() + e.len() + g.len()) as int] == h[0]);
        lemma_reported(f, h[0]);
    }
}

// ---------------------------------------------------------------------------
// Identifiers
// ---------------------------------------------------------------------------

pub open spec fn distinct_ids(v: Seq<FindingView>) -> bool {
    forall|i: int, j: int| 0 <= i < j < v.len() ==> (#[trigger] v[i]).id != (#[trigger] v[j]).id
}

pub open spec fn dotted_ids(v: Seq<FindingView>) -> bool {
    forall|i: int| 0 <= i < v.len() ==> (#[trigger] v[i]).id.contains('.')
}

/// Identifiers that start with these two characters.
spec fn family(v: Seq<FindingView>, a: char, b: char) -> bool {
    forall|i: int|
        0 <= i < v.len() ==> (#[trigger] v[i]).id.len() >= 2 && v[i].id[0] == a && v[i].id[1] == b
}

proof fn lemma_concat(a: Seq<FindingView>, b: Seq<FindingView>)
    requires
        distinct_ids(a),
        distinct_ids(b),
        dotted_ids(a),
        dotted_ids(b),
        forall|i: int, j: int|
            0 <= i < a.len() && 0 <= j < b.len() ==> (#[trigger] a[i]).id != (#[trigger] b[j]).id,
    ensures
        distinct_ids(a + b),
        dotted_ids(a + b),
{
    let v = a + b;
    assert forall|i: int, j: int| 0 <= i < j < v.len() implies (#[trigger] v[i]).id != (
    #[trigger] v[j]).id by {
        if i < a.len() {
            assert(v[i] == a[i]);
        } else {
            assert(v[i] == b[i - a.len()]);
        }
        if j < a.len() {
            assert(v[j] == a[j]);
        } else {
            assert(v[j] == b[j - a.len()]);
        }
    }
}

proof fn lemma_check_ids(f: PostureFacts)
    ensures
        distinct_ids(rules::checks(f)),
        dotted_ids(rules::checks(f)),
{
    reveal_strlit("ssh.unknown");
    reveal_strlit("ssh.password_auth");
    reveal_strlit("ssh.root_login");
    reveal_strlit("firewall.absent");
    reveal_strlit("firewall.inactive");
    reveal_strlit("firewall.unknown");
    reveal_strlit("mariadb.exposure_unknown");
    reveal_strlit("mariadb.off_loopback");
    reveal_strlit("panel.tls_missing");
    reveal_strlit("panel.tls_expired");
    reveal_strlit("panel.tls_expiring");
    reveal_strlit("sites.no_certificate");
    reveal_strlit("sentinel.disabled");
    reveal_strlit("updates.unknown");
    reveal_strlit("updates.security_pending");
    assert("ssh.password_auth"@[4] != "ssh.root_login"@[4]);
    assert("ssh.unknown"@[3] == '.');
    assert("ssh.password_auth"@[3] == '.');
    assert("ssh.root_login"@[3] == '.');
    assert("firewall.absent"@[8] == '.');
    assert("firewall.inactive"@[8] == '.');
    assert("firewall.unknown"@[8] == '.');
    assert("mariadb.exposure_unknown"@[7] == '.');
    assert("mariadb.off_loopback"@[7] == '.');
    assert("panel.tls_missing"@[5] == '.');
    assert("panel.tls_expired"@[5] == '.');
    assert("panel.tls_expiring"@[5] == '.');
    assert("sites.no_certificate"@[5] == '.');
    assert("sentinel.disabled"@[8] == '.');
    assert("updates.unknown"@[7] == '.');
    assert("updates.security_pending"@[7] == '.');
    let a = rules::ssh_findings(f.sshd);
    let b = rules::firewall_findings(f.firewall.backend@, f.firewall.active);
    let c = rules::database_findings(f.mysql_listeners);
    let d = rules::tls_findings(f.panel_tls.days_remaining, error::opt_text(f.panel_tls.domain));
    let e = rules::site_findings(f.sites@);
    let g = rules::sentinel_findings(f.sentinel_enabled);
    let h = rules::update_findings(f.security_updates);
    assert(family(a, 's', 's'));
    assert(family(b, 'f', 'i'));
    assert(family(c, 'm', 'a'));
    assert(family(d, 'p', 'a'));
    assert(family(e, 's', 'i'));
    assert(family(g, 's', 'e'));
    assert(family(h, 'u', 'p'));
    lemma_concat(a, b);
    lemma_concat(a + b, c);
    lemma_concat(a + b + c, d);
    lemma_concat(a + b + c + d, e);
    lemma_concat(a + b + c + d + e, g);
    lemma_concat(a + b + c + d + e + g, h);
}

proof fn lemma_group_distinct(v: Seq<FindingView>, s: Severity)
    requires
        distinct_ids(v),
        dotted_ids(v),
    ensures
        distinct_ids(rules::of_severity(v, s)),
        dotted_ids(rules::of_severity(v, s)),
    decreases v.len(),
{
    if v.len() > 0 {
        let w = v.drop_last();
        assert(distinct_ids(w)) by {
            assert forall|i: int, j: int| 0 <= i < j < w.len() implies (#[trigger] w[i]).id != (
            #[trigger] w[j]).id by {
                assert(w[i] == v[i] && w[j] == v[j]);
            }
        }
        assert(dotted_ids(w)) by {
            assert forall|i: int| 0 <= i < w.len() implies (#[trigger] w[i]).id.contains('.') by {
                assert(w[i] == v[i]);
            }
        }
        lemma_group_distinct(w, s);
        lemma_group(w, s);
        let rest = rules::of_severity(w, s);
        assert forall|i: int| 0 <= i < rest.len() implies (#[trigger] rest[i]).id != v.last().id by {
            let p = choose|p: int| 0 <= p < w.len() && w[p] == rest[i];
            assert(v[p] == rest[i]);
            assert(v[v.len() - 1] == v.last());
        }
    }
}

proof fn lemma_groups_apart(v: Seq<FindingView>, s: Severity, t: Severity)
    requires
        distinct_ids(v),
        s != t,
    ensures
        forall|i: int, j: int|
            0 <= i < rules::of_severity(v, s).len() && 0 <= j < rules::of_severity(v, t).len() ==> (
            #[trigger] rules::of_severity(v, s)[i]).id != (#[trigger] rules::of_severity(
                v,
                t,
            )[j]).id,
{
    lemma_group(v, s);
    lemma_group(v, t);
    assert forall|i: int, j: int|
        0 <= i < rules::of_severity(v, s).len() && 0 <= j < rules::of_severity(v, t).len() implies (
    #[trigger] rules::of_severity(v, s)[i]).id != (#[trigger] rules::of_severity(v, t)[j]).id by {
        let x = rules::of_severity(v, s)[i];
        let y = rules::of_severity(v, t)[j];
        let p = choose|p: int| 0 <= p < v.len() && v[p] == x;
        let q = choose|q: int| 0 <= q < v.len() && v[q] == y;
        assert(p != q);
    }
}

/// No report holds two findings of one identifier, and every identifier is
/// dotted.
pub proof fn law_identifiers_are_unique_and_dotted(f: PostureFacts)
    ensures
        distinct_ids(rules::evaluation(f)),
        dotted_ids(rules::evaluation(f)),
{
    let v = rules::checks(f);
    lemma_check_ids(f);
    let a = rules::of_severity(v, Severity::Critical);
    let b = rules::of_severity(v, Severity::High);
    let c = rules::of_severity(v, Severity::Medium);
    let d = rules::of_severity(v, Severity::Low);
    let e = rules::of_severity(v, Severity::Unknown);
    lemma_group_distinct(v, Severity::Critical);
    lemma_group_distinct(v, Severity::High);
    lemma_group_distinct(v, Severity::Medium);
    lemma_group_distinct(v, Severity::Low);
    lemma_group_distinct(v, Severity::Unknown);
    lemma_groups_apart(v, Severity::Critical, Severity::High);
    lemma_concat(a, b);
    lemma_groups_apart(v, Severity::Critical, Severity::Medium);
    lemma_groups_apart(v, Severity::High, Severity::Medium);
    lemma_concat(a + b, c);
    lemma_groups_apart(v, Severity::Critical, Severity::Low);
    lemma_groups_apart(v, Severity::High, Severity::Low);
    lemma_groups_apart(v, Severity::Medium, Severity::Low);
    lemma_concat(a + b + c, d);
    lemma_groups_apart(v, Severity::Critical, Severity::Unknown);
    lemma_groups_apart(v, Severity::High, Severity::Unknown);
    lemma_groups_apart(v, Severity::Medium, Severity::Unknown);
    lemma_groups_apart(v, Severity::Low, Severity::Unknown);
    lemma_concat(a + b + c + d, e);
}

// ---------------------------------------------------------------------------
// sshd settings
// ---------------------------------------------------------------------------

/// The first value given for a keyword wins: what is read later matters only
/// where nothing was said before.
pub proof fn law_first_value_wins(earlier: Seq<Setting>, later: Seq<Setting>, key: Seq<char>)
    ensures
        posture::first_value(earlier + later, key) == match posture::first_value(earlier, key) {
            Some(v) => Some(v),
            None => posture::first_value(later, key),
        },
    decreases earlier.len(),
{
    if earlier.len() == 0 {
        assert(earlier + later =~= later);
    } else {
        assert((earlier + later).skip(1) =~= earlier.skip(1) + later);
        law_first_value_wins(earlier.skip(1), later, key);
    }
}

/// What follows a `Match` in a file says nothing about connections in general.
pub proof fn law_match_blocks_are_ignored(
    before: Seq<Seq<char>>,
    line: Seq<char>,
    after: Seq<Seq<char>>,
)
    requires
        posture::bare_line(line).len() > 0,
        posture::key_value(posture::bare_line(line)).0 == "match"@,
    ensures
        posture::global_settings(before + seq![line] + after) == posture::global_settings(before),
    decreases before.len(),
{
    let all = before + seq![line] + after;
    if before.len() == 0 {
        assert(all[0] == line);
    } else {
        assert(all[0] == before[0]);
        assert(all.skip(1) =~= before.skip(1) + seq![line] + after);
        law_match_blocks_are_ignored(before.skip(1), line, after);
    }
}

/// A commented-out line sets nothing.
pub proof fn law_a_comment_is_not_a_setting(line: Seq<char>, rest: Seq<Seq<char>>)
    requires
        line.len() > 0,
        line[0] == '#',
    ensures
        posture::global_settings(seq![line] + rest) == posture::global_settings(rest),
{
    assert(text::before(line, '#') == 0);
    assert(text::head(line, '#').len() == 0);
    assert((seq![line] + rest).skip(1) =~= rest);
}

// ---------------------------------------------------------------------------
// Listeners
// ---------------------------------------------------------------------------

/// Whatever is reported as a listener is an address off loopback.
pub proof fn law_listeners_are_off_loopback(lines: Seq<Seq<char>>, port: int, i: int)
    requires
        0 <= i < posture::listening_addresses(lines, port).len(),
    ensures
        exists|octets: Seq<u8>|
            !net::is_loopback(octets) && #[trigger] net::address_text(octets)
                == posture::listening_addresses(lines, port)[i],
    decreases lines.len(),
{
    let rest = posture::listening_addresses(lines.drop_last(), port);
    if i < rest.len() {
        law_listeners_are_off_loopback(lines.drop_last(), port, i);
    } else {
        let fields = text::words(lines.last());
        let colon = posture::last_index(fields[1], ':');
        let octets = net::proc_address(fields[1].take(colon)).unwrap();
        assert(net::address_text(octets) == posture::listening_addresses(lines, port)[i]);
    }
}

} // verus!
