//! Which facts make which findings.
use vstd::prelude::*;
use crate::error;
use crate::posture;
use crate::posture::gather;
use crate::posture::laws;
use crate::posture::rules;
use crate::posture::{Finding, FindingView, Observed, PostureFacts, PublicListener, Severity, SiteCertFact};
use crate::text;

verus! {

/// Among some findings there is one of this identifier and severity.
pub open spec fn says(v: Seq<FindingView>, id: Seq<char>, severity: Severity) -> bool {
    exists|i: int| 0 <= i < v.len() && (#[trigger] v[i]).id == id && v[i].severity == severity
}

proof fn lemma_says_either(a: Seq<FindingView>, b: Seq<FindingView>, id: Seq<char>, s: Severity)
    ensures
        says(a + b, id, s) <==> says(a, id, s) || says(b, id, s),
{
    let v = a + b;
    if says(v, id, s) {
        let i = choose|i: int| 0 <= i < v.len() && (#[trigger] v[i]).id == id && v[i].severity == s;
        if i < a.len() {
            assert(a[i] == v[i]);
        } else {
            assert(b[i - a.len()] == v[i]);
        }
    }
    if says(a, id, s) {
        let i = choose|i: int| 0 <= i < a.len() && (#[trigger] a[i]).id == id && a[i].severity == s;
        assert(v[i] == a[i]);
    }
    if says(b, id, s) {
        let i = choose|i: int| 0 <= i < b.len() && (#[trigger] b[i]).id == id && b[i].severity == s;
        assert(v[i + a.len()] == b[i]);
    }
}

proof fn lemma_says_one(x: FindingView, id: Seq<char>, s: Severity)
    ensures
        says(seq![x], id, s) <==> x.id == id && x.severity == s,
        !says(Seq::<FindingView>::empty(), id, s),
{
    assert(seq![x][0] == x);
}

/// Sorting changes nothing of what is said.
proof fn lemma_says_sorted(f: PostureFacts, id: Seq<char>, s: Severity)
    ensures
        says(rules::evaluation(f), id, s) <==> says(rules::checks(f), id, s),
{
    let a = rules::evaluation(f);
    let b = rules::checks(f);
    if says(a, id, s) {
        let i = choose|i: int| 0 <= i < a.len() && (#[trigger] a[i]).id == id && a[i].severity == s;
        laws::law_report_holds_exactly_the_findings(f, a[i]);
        assert(a.contains(a[i]));
        let j = choose|j: int| 0 <= j < b.len() && b[j] == a[i];
        assert(b[j].id == id);
    }
    if says(b, id, s) {
        let i = choose|i: int| 0 <= i < b.len() && (#[trigger] b[i]).id == id && b[i].severity == s;
        laws::law_report_holds_exactly_the_findings(f, b[i]);
        assert(b.contains(b[i]));
        let j = choose|j: int| 0 <= j < a.len() && a[j] == b[i];
        assert(a[j].id == id);
    }
}

proof fn lemma_report_says(f: PostureFacts, id: Seq<char>, s: Severity)
    ensures
        says(rules::evaluation(f), id, s) <==> {
            ||| says(rules::ssh_findings(f.sshd), id, s)
            ||| says(rules::firewall_findings(f.firewall.backend@, f.firewall.active), id, s)
            ||| says(rules::database_findings(f.mysql_listeners), id, s)
            ||| says(
                rules::tls_findings(
                    f.panel_tls.days_remaining,
                    error::opt_text(f.panel_tls.domain),
                ),
                id,
                s,
            )
            ||| says(rules::site_findings(f.sites@), id, s)
            ||| says(rules::sentinel_findings(f.sentinel_enabled), id, s)
            ||| says(rules::update_findings(f.security_updates), id, s)
        },
{
    lemma_says_sorted(f, id, s);
    let a = rules::ssh_findings(f.sshd);
    let b = rules::firewall_findings(f.firewall.backend@, f.firewall.active);
    let c = rules::database_findings(f.mysql_listeners);
    let d = rules::tls_findings(f.panel_tls.days_remaining, error::opt_text(f.panel_tls.domain));
    let e = rules::site_findings(f.sites@);
    let g = rules::sentinel_findings(f.sentinel_enabled);
    let h = rules::update_findings(f.security_updates);
    lemma_says_either(a, b, id, s);
    lemma_says_either(a + b, c, id, s);
    lemma_says_either(a + b + c, d, id, s);
    lemma_says_either(a + b + c + d, e, id, s);
    lemma_says_either(a + b + c + d + e, g, id, s);
    lemma_says_either(a + b + c + d + e + g, h, id, s);
}

/// Identifiers that start with these two characters.
spec fn kin(v: Seq<FindingView>, a: char, b: char) -> bool {
    forall|i: int|
        0 <= i < v.len() ==> (#[trigger] v[i]).id.len() >= 2 && v[i].id[0] == a && v[i].id[1] == b
}

proof fn lemma_kin(f: PostureFacts)
    ensures
        kin(rules::ssh_findings(f.sshd), 's', 's'),
        kin(rules::firewall_findings(f.firewall.backend@, f.firewall.active), 'f', 'i'),
        kin(rules::database_findings(f.mysql_listeners), 'm', 'a'),
        kin(
            rules::tls_findings(f.panel_tls.days_remaining, error::opt_text(f.panel_tls.domain)),
            'p',
            'a',
        ),
        kin(rules::site_findings(f.sites@), 's', 'i'),
        kin(rules::sentinel_findings(f.sentinel_enabled), 's', 'e'),
        kin(rules::update_findings(f.security_updates), 'u', 'p'),
{
    reveal_strlit("ssh.unknown");
    reveal_strlit("ssh.password_auth");
    reveal_strlit("ssh.root_login");
    reveal_strlit("firewall.absent");
    reveal_strlit("firewall.inactive");
    reveal_strlit("firewall.unknown");
    reveal_strlit("mariadb.exposure_unknown");
    reveal_strlit("mariadb.off_loopback");
    reveal_strlit("panel.tls_missing");
    reveal_strlit("panel.tls_expired");
    reveal_strlit("panel.tls_expiring");
    reveal_strlit("sites.no_certificate");
    reveal_strlit("sentinel.disabled");
    reveal_strlit("updates.unknown");
    reveal_strlit("updates.security_pending");
}

/// A report says of a matter what the check of that matter says.
proof fn lemma_one_check(f: PostureFacts, id: Seq<char>, s: Severity)
    requires
        id.len() >= 2,
    ensures
        id[0] == 's' && id[1] == 's' ==> (says(rules::evaluation(f), id, s) <==> says(
            rules::ssh_findings(f.sshd),
            id,
            s,
        )),
        id[0] == 'f' ==> (says(rules::evaluation(f), id, s) <==> says(
            rules::firewall_findings(f.firewall.backend@, f.firewall.active),
            id,
            s,
        )),
        id[0] == 'm' ==> (says(rules::evaluation(f), id, s) <==> says(
            rules::database_findings(f.mysql_listeners),
            id,
            s,
        )),
        id[0] == 'p' ==> (says(rules::evaluation(f), id, s) <==> says(
            rules::tls_findings(f.panel_tls.days_remaining, error::opt_text(f.panel_tls.domain)),
            id,
            s,
        )),
        id[0] == 's' && id[1] == 'i' ==> (says(rules::evaluation(f), id, s) <==> says(
            rules::site_findings(f.sites@),
            id,
            s,
        )),
        id[0] == 's' && id[1] == 'e' ==> (says(rules::evaluation(f), id, s) <==> says(
            rules::sentinel_findings(f.sentinel_enabled),
            id,
            s,
        )),
        id[0] == 'u' ==> (says(rules::evaluation(f), id, s) <==> says(
            rules::update_findings(f.security_updates),
            id,
            s,
        )),
{
    lemma_kin(f);
    lemma_report_says(f, id, s);
}

proof fn lemma_both(a: Seq<FindingView>, b: Seq<FindingView>, id: Seq<char>, s: Severity, p: bool, x: FindingView, q: bool, y: FindingView)
    requires
        a == if p {
            seq![x]
        } else {
            Seq::empty()
        },
        b == if q {
            seq![y]
        } else {
            Seq::empty()
        },
    ensures
        says(a + b, id, s) <==> (p && x.id == id && x.severity == s) || (q && y.id == id
            && y.severity == s),
{
    lemma_says_either(a, b, id, s);
    lemma_says_one(x, id, s);
    lemma_says_one(y, id, s);
}

/// What is said of SSH: that it could not be looked at; that a password opens a session,
/// by either of the two switches; that root may log in, which is critical together with a
/// password and less so without.
pub proof fn law_what_is_said_of_ssh(f: PostureFacts, s: Severity)
    ensures
        says(rules::evaluation(f), "ssh.unknown"@, s) <==> f.sshd is Unavailable && s
            == Severity::Unknown,
        says(rules::evaluation(f), "ssh.password_auth"@, s) <==> f.sshd is Known && (
        f.sshd->Known_0.password_authentication || f.sshd->Known_0.keyboard_interactive) && s
            == Severity::High,
        says(rules::evaluation(f), "ssh.root_login"@, s) <==> f.sshd is Known
            && f.sshd->Known_0.permit_root_login@ == "yes"@ && s == if (
        f.sshd->Known_0.password_authentication || f.sshd->Known_0.keyboard_interactive) {
            Severity::Critical
        } else {
            Severity::Medium
        },
{
    reveal_strlit("ssh.unknown");
    reveal_strlit("ssh.password_auth");
    reveal_strlit("ssh.root_login");
    assert("ssh.unknown"@[4] != "ssh.password_auth"@[4]);
    assert("ssh.unknown"@[4] != "ssh.root_login"@[4]);
    assert("ssh.root_login"@[4] != "ssh.password_auth"@[4]);
    lemma_one_check(f, "ssh.unknown"@, s);
    lemma_one_check(f, "ssh.password_auth"@, s);
    lemma_one_check(f, "ssh.root_login"@, s);
    match f.sshd {
        Observed::Unavailable { reason } => {
            let v = rules::ssh_findings(f.sshd);
            lemma_says_one(v[0], "ssh.unknown"@, s);
            lemma_says_one(v[0], "ssh.password_auth"@, s);
            lemma_says_one(v[0], "ssh.root_login"@, s);
            assert(v =~= seq![v[0]]);
        },
        Observed::Known(k) => {
            let a = rules::password_findings(k);
            let b = rules::root_findings(k);
            let p = k.password_authentication || k.keyboard_interactive;
            let q = k.permit_root_login@ == "yes"@;
            assert(a.len() > 0 ==> a =~= seq![a[0]]);
            assert(b.len() > 0 ==> b =~= seq![b[0]]);
            lemma_both(a, b, "ssh.unknown"@, s, p, a[0], q, b[0]);
            lemma_both(a, b, "ssh.password_auth"@, s, p, a[0], q, b[0]);
            lemma_both(a, b, "ssh.root_login"@, s, p, a[0], q, b[0]);
        },
    }
}

/// What is said of the firewall: that there is none, that it is off, or that it could not
/// be asked.
pub proof fn law_what_is_said_of_the_firewall(f: PostureFacts, s: Severity)
    ensures
        says(rules::evaluation(f), "firewall.absent"@, s) <==> f.firewall.backend@ == "none"@ && s
            == Severity::High,
        says(rules::evaluation(f), "firewall.inactive"@, s) <==> f.firewall.backend@ != "none"@
            && f.firewall.active == Some(false) && s == Severity::High,
        says(rules::evaluation(f), "firewall.unknown"@, s) <==> f.firewall.backend@ != "none"@
            && f.firewall.active is None && s == Severity::Unknown,
{
    reveal_strlit("firewall.absent");
    reveal_strlit("firewall.inactive");
    reveal_strlit("firewall.unknown");
    assert("firewall.absent"@[9] != "firewall.inactive"@[9]);
    assert("firewall.absent"@[9] != "firewall.unknown"@[9]);
    assert("firewall.inactive"@[9] != "firewall.unknown"@[9]);
    lemma_one_check(f, "firewall.absent"@, s);
    lemma_one_check(f, "firewall.inactive"@, s);
    lemma_one_check(f, "firewall.unknown"@, s);
    let v = rules::firewall_findings(f.firewall.backend@, f.firewall.active);
    lemma_says_one(v[0], "firewall.absent"@, s);
    lemma_says_one(v[0], "firewall.inactive"@, s);
    lemma_says_one(v[0], "firewall.unknown"@, s);
    assert(v.len() > 0 ==> v =~= seq![v[0]]);
}

/// What is said of the database: that it listens off loopback, which is critical, with
/// every address at which it does; or that this could not be told.
pub proof fn law_what_is_said_of_the_database(f: PostureFacts, s: Severity)
    ensures
        says(rules::evaluation(f), "mariadb.exposure_unknown"@, s) <==> f.mysql_listeners
            is Unavailable && s == Severity::Unknown,
        says(rules::evaluation(f), "mariadb.off_loopback"@, s) <==> f.mysql_listeners is Known
            && f.mysql_listeners->Known_0@.len() > 0 && s == Severity::Critical,
        posture::MYSQL_PORT == 3306,
{
    reveal_strlit("mariadb.exposure_unknown");
    reveal_strlit("mariadb.off_loopback");
    assert("mariadb.exposure_unknown"@[8] != "mariadb.off_loopback"@[8]);
    lemma_one_check(f, "mariadb.exposure_unknown"@, s);
    lemma_one_check(f, "mariadb.off_loopback"@, s);
    let v = rules::database_findings(f.mysql_listeners);
    lemma_says_one(v[0], "mariadb.exposure_unknown"@, s);
    lemma_says_one(v[0], "mariadb.off_loopback"@, s);
    assert(v.len() > 0 ==> v =~= seq![v[0]]);
}

/// What is said of the panel's certificate: that there is none, that it has expired, or
/// that fewer than a fortnight's days are left.
pub proof fn law_what_is_said_of_the_panels_certificate(f: PostureFacts, s: Severity)
    ensures
        says(rules::evaluation(f), "panel.tls_missing"@, s) <==> f.panel_tls.days_remaining is None
            && s == Severity::High,
        says(rules::evaluation(f), "panel.tls_expired"@, s) <==> f.panel_tls.days_remaining is Some
            && f.panel_tls.days_remaining->0 < 0 && s == Severity::High,
        says(rules::evaluation(f), "panel.tls_expiring"@, s) <==> f.panel_tls.days_remaining is Some
            && 0 <= f.panel_tls.days_remaining->0 < 14 && s == Severity::Medium,
{
    reveal_strlit("panel.tls_missing");
    reveal_strlit("panel.tls_expired");
    reveal_strlit("panel.tls_expiring");
    assert("panel.tls_missing"@[10] != "panel.tls_expired"@[10]);
    assert("panel.tls_missing"@[10] != "panel.tls_expiring"@[10]);
    lemma_one_check(f, "panel.tls_missing"@, s);
    lemma_one_check(f, "panel.tls_expired"@, s);
    lemma_one_check(f, "panel.tls_expiring"@, s);
    let v = rules::tls_findings(f.panel_tls.days_remaining, error::opt_text(f.panel_tls.domain));
    lemma_says_one(v[0], "panel.tls_missing"@, s);
    lemma_says_one(v[0], "panel.tls_expired"@, s);
    lemma_says_one(v[0], "panel.tls_expiring"@, s);
    assert(v.len() > 0 ==> v =~= seq![v[0]]);
}

/// The sites without a certificate are exactly those, in their order.
pub proof fn law_which_sites_lack_a_certificate(sites: Seq<SiteCertFact>, more: SiteCertFact)
    ensures
        rules::uncertified(Seq::<SiteCertFact>::empty()) == Seq::<Seq<char>>::empty(),
        more.has_certificate ==> rules::uncertified(sites.push(more)) == rules::uncertified(sites),
        !more.has_certificate ==> rules::uncertified(sites.push(more)) == rules::uncertified(
            sites,
        ).push(more.domain@),
{
    assert(sites.push(more).drop_last() =~= sites);
}

proof fn lemma_some_uncertified(sites: Seq<SiteCertFact>)
    ensures
        rules::uncertified(sites).len() > 0 <==> exists|i: int|
            0 <= i < sites.len() && !(#[trigger] sites[i]).has_certificate,
    decreases sites.len(),
{
    if sites.len() > 0 {
        let rest = sites.drop_last();
        lemma_some_uncertified(rest);
        if rules::uncertified(rest).len() > 0 {
            let i = choose|i: int| 0 <= i < rest.len() && !(#[trigger] rest[i]).has_certificate;
            assert(!sites[i].has_certificate);
        }
        if exists|i: int| 0 <= i < sites.len() && !(#[trigger] sites[i]).has_certificate {
            let i = choose|i: int| 0 <= i < sites.len() && !(#[trigger] sites[i]).has_certificate;
            if i < rest.len() {
                assert(!rest[i].has_certificate);
            }
        }
        if !sites.last().has_certificate {
            assert(!sites[sites.len() - 1].has_certificate);
        }
    }
}

/// What is said of the sites, the watcher and the updates.
pub proof fn law_what_else_is_said(f: PostureFacts, s: Severity)
    ensures
        says(rules::evaluation(f), "sites.no_certificate"@, s) <==> (exists|i: int|
            0 <= i < f.sites@.len() && !(#[trigger] f.sites@[i]).has_certificate) && s
            == Severity::Medium,
        says(rules::evaluation(f), "sentinel.disabled"@, s) <==> !f.sentinel_enabled && s
            == Severity::Low,
        says(rules::evaluation(f), "updates.unknown"@, s) <==> f.security_updates is Unavailable && s
            == Severity::Unknown,
        says(rules::evaluation(f), "updates.security_pending"@, s) <==> f.security_updates is Known
            && f.security_updates->Known_0 > 0 && s == Severity::High,
{
    reveal_strlit("sites.no_certificate");
    reveal_strlit("sentinel.disabled");
    reveal_strlit("updates.unknown");
    reveal_strlit("updates.security_pending");
    assert("updates.unknown"@[8] != "updates.security_pending"@[8]);
    lemma_some_uncertified(f.sites@);
    lemma_one_check(f, "sites.no_certificate"@, s);
    lemma_one_check(f, "sentinel.disabled"@, s);
    lemma_one_check(f, "updates.unknown"@, s);
    lemma_one_check(f, "updates.security_pending"@, s);
    let a = rules::site_findings(f.sites@);
    lemma_says_one(a[0], "sites.no_certificate"@, s);
    assert(a.len() > 0 ==> a =~= seq![a[0]]);
    let b = rules::sentinel_findings(f.sentinel_enabled);
    lemma_says_one(b[0], "sentinel.disabled"@, s);
    assert(b.len() > 0 ==> b =~= seq![b[0]]);
    let c = rules::update_findings(f.security_updates);
    lemma_says_one(c[0], "updates.unknown"@, s);
    lemma_says_one(c[0], "updates.security_pending"@, s);
    assert(c.len() > 0 ==> c =~= seq![c[0]]);
}

/// What a finding is about: the addresses of the database, each with its port; the panel's
/// domain; the sites without a certificate.
pub proof fn law_what_a_finding_is_about(f: PostureFacts, i: int)
    requires
        0 <= i < rules::checks(f).len(),
    ensures
        ({
            let x = rules::checks(f)[i];
            &&& x.id[0] == 'm' && x.severity == Severity::Critical ==> x.subject == Some(
                text::join(
                    f.mysql_listeners->Known_0@.map_values(
                        |l: PublicListener| l.address@ + ":"@ + text::decimal(l.port as nat),
                    ),
                    ", "@,
                ),
            )
            &&& x.id[0] == 'p' ==> x.subject == error::opt_text(f.panel_tls.domain)
            &&& x.id[0] == 's' && x.id[1] == 'i' ==> x.subject == Some(
                text::join(rules::uncertified(f.sites@), ", "@),
            )
            &&& x.id[0] == 'f' || x.id[0] == 'u' || (x.id[0] == 's' && x.id[1] != 'i')
                ==> x.subject is None
        }),
{
    lemma_kin(f);
    let a = rules::ssh_findings(f.sshd);
    let b = rules::firewall_findings(f.firewall.backend@, f.firewall.active);
    let c = rules::database_findings(f.mysql_listeners);
    let d = rules::tls_findings(f.panel_tls.days_remaining, error::opt_text(f.panel_tls.domain));
    let e = rules::site_findings(f.sites@);
    let g = rules::sentinel_findings(f.sentinel_enabled);
    let h = rules::update_findings(f.security_updates);
    let x = rules::checks(f)[i];
    let na = a.len() as int;
    let nb = na + b.len();
    let nc = nb + c.len();
    let nd = nc + d.len();
    let ne = nd + e.len();
    let ng = ne + g.len();
    if i < na {
        assert(x == a[i]);
        match f.sshd {
            Observed::Unavailable { reason } => {},
            Observed::Known(k) => {
                let p = rules::password_findings(k);
                if i < p.len() {
                    assert(x == p[i]);
                } else {
                    assert(x == rules::root_findings(k)[i - p.len()]);
                }
            },
        }
    } else if i < nb {
        assert(x == b[i - na]);
    } else if i < nc {
        assert(x == c[i - nb]);
        assert(rules::socket_texts(f.mysql_listeners->Known_0@)
            =~= f.mysql_listeners->Known_0@.map_values(
            |l: PublicListener| l.address@ + ":"@ + text::decimal(l.port as nat),
        ));
    } else if i < nd {
        assert(x == d[i - nc]);
    } else if i < ne {
        assert(x == e[i - nd]);
    } else if i < ng {
        assert(x == g[i - ne]);
    } else {
        assert(x == h[i - ng]);
    }
}

// ---------------------------------------------------------------------------
// Counting
// ---------------------------------------------------------------------------

/// A tally grows by one with each finding of its severity, and with no other.
pub proof fn law_a_tally_counts_each_finding(v: Seq<Finding>, x: Finding, s: Severity)
    ensures
        gather::tally(Seq::<Finding>::empty(), s) == 0,
        x.severity == s ==> gather::tally(v.push(x), s) == gather::tally(v, s) + 1,
        x.severity != s ==> gather::tally(v.push(x), s) == gather::tally(v, s),
{
    assert(v.push(x).drop_last() =~= v);
}

/// The tallies hold every severity that occurs, once, with its count, and no other.
pub proof fn law_tallies_hold_what_occurs(v: Seq<Finding>, s: Severity, n: nat)
    ensures
        gather::tally_lines(v).contains((s, n)) <==> n > 0 && gather::tally(v, s) == n,
        forall|i: int, j: int|
            0 <= i < j < gather::tally_lines(v).len() ==> (#[trigger] gather::tally_lines(v)[i]).0 != (
            #[trigger] gather::tally_lines(v)[j]).0,
{
    let a = gather::tally_line(v, Severity::Critical);
    let b = gather::tally_line(v, Severity::High);
    let c = gather::tally_line(v, Severity::Low);
    let d = gather::tally_line(v, Severity::Medium);
    let e = gather::tally_line(v, Severity::Unknown);
    let all = gather::tally_lines(v);
    assert(all =~= a + b + c + d + e);
    if n > 0 && gather::tally(v, s) == n {
        let k: int = match s {
            Severity::Critical => 0,
            Severity::High => a.len() as int,
            Severity::Low => (a.len() + b.len()) as int,
            Severity::Medium => (a.len() + b.len() + c.len()) as int,
            Severity::Unknown => (a.len() + b.len() + c.len() + d.len()) as int,
        };
        assert(all[k] == (s, n));
    }
}

/// What severities are called, and which of two is the more severe.
pub proof fn law_what_severities_are_called(s: Severity)
    ensures
        s.name() == match s {
            Severity::Critical => "critical"@,
            Severity::High => "high"@,
            Severity::Medium => "medium"@,
            Severity::Low => "low"@,
            Severity::Unknown => "unknown"@,
        },
        Severity::Critical.rank() < Severity::High.rank() < Severity::Medium.rank()
            < Severity::Low.rank() < Severity::Unknown.rank(),
{
}


} // verus!
