//! The rules of the security advisor: which facts make which finding.
use vstd::prelude::*;
use vstd::string::StringExecFns;

use crate::error;
use crate::posture;
use crate::posture::{
    Finding, FindingView, Observed, PanelTlsFacts, PostureFacts, PublicListener, Severity,
    SiteCertFact, SshdFacts, SshdSource,
};
use crate::text;

verus! {

// ---------------------------------------------------------------------------
// What findings say
// ---------------------------------------------------------------------------

pub const SSH_UNKNOWN_TITLE: &'static str = "The SSH configuration could not be read";

pub const SSH_UNKNOWN_RISK: &'static str = "The panel cannot tell whether this server accepts password \
     logins over SSH, which is the single most common way a \
     hosting server is taken over.";

pub const VIA_SSHD_T: &'static str = "reported by `sshd -T`";

pub const VIA_FILES: &'static str = "parsed from sshd_config and its drop-ins; `sshd -T` could \
     not be run, so `Match` blocks were not evaluated";

pub const BOTH_ON: &'static str = "PasswordAuthentication and KbdInteractiveAuthentication";

pub const PASSWORD_ON: &'static str = "PasswordAuthentication";

pub const KEYBOARD_ON: &'static str = "KbdInteractiveAuthentication (which still accepts passwords \
     through PAM even with PasswordAuthentication off)";

pub const PASSWORD_AUTH_RISK: &'static str = "Anybody on the internet can try passwords against \
     every account on this server, for as long as they \
     like. Automated guessing runs constantly on every \
     public SSH port.";

pub const PASSWORD_AUTH_REMEDY: &'static str = "Add an SSH key for your account, confirm you can log in \
     with it, then set `PasswordAuthentication no` and \
     `KbdInteractiveAuthentication no` in \
     /etc/ssh/sshd_config.d/ and reload sshd. Turn Sentinel on \
     as well, so guessing attempts are banned rather than \
     merely slowed. (";

pub const ROOT_LOGIN_TITLE: &'static str = "SSH permits logging in directly as root";

pub const ROOT_LOGIN_RISK: &'static str = "An attacker guessing one password gets the whole \
     machine in one step, and every action afterwards is \
     logged as `root` with nothing to say who it really \
     was.";

pub const ROOT_LOGIN_REMEDY: &'static str = "Set `PermitRootLogin prohibit-password` (key-only) or `no` \
     in /etc/ssh/sshd_config.d/ and reload sshd. Confirm you \
     can reach an account with sudo first. (";

pub const FIREWALL_ABSENT_TITLE: &'static str = "No firewall is installed";

pub const FIREWALL_ABSENT_RISK: &'static str = "Every port anything on this server listens on is reachable \
     from the internet, including ones opened by a package you \
     did not choose to expose. Ferrum cannot ban an address \
     without a firewall either, so brute-force defence is \
     unavailable.";

pub const FIREWALL_ABSENT_REMEDY: &'static str = "Install firewalld (RHEL family) or ufw (Debian family) and \
     let the panel manage the rules from the firewall page.";

pub const FIREWALL_INACTIVE_RISK: &'static str = "Rules the panel has recorded are not filtering anything, so \
     the firewall page shows ports as closed while they are open.";

pub const FIREWALL_INACTIVE_REMEDY_TAIL: &'static str = " , then re-apply the rules from the firewall \
     page so the running ruleset matches what the panel recorded.";

pub const FIREWALL_UNKNOWN_TITLE: &'static str = "The firewall could not be queried";

pub const FIREWALL_UNKNOWN_RISK: &'static str = "The panel cannot confirm that the rules it recorded are the \
     rules in force.";

pub const FIREWALL_UNKNOWN_REMEDY_TAIL: &'static str = " service by hand; the panel will report again on the \
     next scan.";

pub const DB_UNKNOWN_TITLE: &'static str = "Whether the database is reachable from the network is unknown";

pub const DB_UNKNOWN_RISK: &'static str = "The panel could not enumerate listening sockets, so it cannot \
     confirm the database is bound to loopback only.";

pub const DB_EXPOSED_RISK: &'static str = "The database accepts connections from outside this \
     server. Every tenant's data is one guessed or leaked \
     password away, and password guessing against a database \
     port is neither rate-limited nor logged the way SSH is.";

pub const DB_EXPOSED_REMEDY: &'static str = "Ferrum binds MariaDB to 127.0.0.1 at install time; \
     something has changed that since. Check \
     /etc/my.cnf.d/60-ferrum.cnf (or the Debian equivalent) \
     for drift, restore it from the panel, and restart \
     MariaDB. If remote access is genuinely wanted, open it \
     from the databases page so the firewall rule and the \
     audit entry exist.";

pub const TLS_MISSING_TITLE: &'static str = "The panel has no TLS certificate of its own";

pub const TLS_MISSING_RISK: &'static str = "The panel is served over a self-signed certificate, so every \
     administrator learns to click through a browser warning — \
     which is exactly the habit that makes an interception attack \
     against the panel's login form work.";

pub const TLS_MISSING_REMEDY: &'static str = "Point a domain at this server and issue a certificate from \
     the panel's TLS page (`panel.tls.issue`).";

pub const TLS_EXPIRED_RISK: &'static str = "Browsers refuse the panel outright, and administrators reach \
     for the warning-bypass rather than for the renewal.";

pub const TLS_EXPIRED_REMEDY: &'static str = "Renewal has been failing for at least two weeks. Check the \
     panel TLS page for the last error — usually the domain no \
     longer resolves here, or port 80 is closed to the ACME \
     challenge.";

pub const TLS_EXPIRING_RISK: &'static str = "Automatic renewal starts at 30 days, so a certificate this \
     close to expiry means renewal has already failed repeatedly.";

pub const TLS_EXPIRING_REMEDY: &'static str = "Check the panel TLS page for the last renewal error before \
     the certificate lapses.";

pub const SITES_RISK: &'static str = "These sites are served over plain HTTP, so passwords and \
     session cookies their visitors send cross the network in the \
     clear and anyone on the path can read or change the page.";

pub const SITES_REMEDY: &'static str = "Issue a certificate from each site's page. If a site is not \
     yet pointed at this server, the DNS check on that page will \
     say so — that is the usual reason issuance has not happened.";

pub const SENTINEL_TITLE: &'static str = "Brute-force defence (Sentinel) is switched off";

pub const SENTINEL_RISK: &'static str = "Repeated failed logins against SSH, the panel and WordPress \
     admin pages are neither counted nor blocked, so an attacker \
     can guess passwords at full speed for as long as they like.";

pub const SENTINEL_REMEDY: &'static str = "Turn Sentinel on from the firewall page. Add your own \
     address to the allowlist first if you connect from a fixed \
     address, and note that Ferrum already refuses to ban \
     loopback, this server's own addresses, or the address you \
     are connected from.";

pub const UPDATES_UNKNOWN_TITLE: &'static str = "Pending security updates could not be counted";

pub const UPDATES_UNKNOWN_RISK: &'static str = "The panel cannot tell whether this server is missing patches \
     for publicly known vulnerabilities.";

pub const UPDATES_RISK: &'static str = "Each one closes a publicly documented vulnerability, which \
     means working exploit code usually exists before the patch \
     reaches most servers.";

pub const UPDATES_REMEDY: &'static str = "Install them during a maintenance window. The count comes \
     from the package index as it was last refreshed, so refresh \
     it first if this server has been up for a long time.";

// ---------------------------------------------------------------------------
// The checks
// ---------------------------------------------------------------------------

pub open spec fn finding(
    id: Seq<char>,
    severity: Severity,
    title: Seq<char>,
    risk: Seq<char>,
    remedy: Seq<char>,
    subject: Option<Seq<char>>,
) -> FindingView {
    FindingView { id, severity, title, risk, remedy, subject }
}

/// Whether some kind of password opens an SSH session.
pub open spec fn takes_passwords(f: SshdFacts) -> bool {
    f.password_authentication || f.keyboard_interactive
}

pub open spec fn source_text(source: SshdSource) -> Seq<char> {
    match source {
        SshdSource::SshdT => VIA_SSHD_T@,
        SshdSource::Files => VIA_FILES@,
    }
}

/// Which of the password switches are on.
pub open spec fn switches_text(f: SshdFacts) -> Seq<char> {
    if f.password_authentication && f.keyboard_interactive {
        BOTH_ON@
    } else if f.password_authentication {
        PASSWORD_ON@
    } else {
        KEYBOARD_ON@
    }
}

pub open spec fn password_findings(f: SshdFacts) -> Seq<FindingView> {
    if takes_passwords(f) {
        seq![
            finding(
                "ssh.password_auth"@,
                Severity::High,
                "SSH accepts password logins ("@ + switches_text(f) + " are on)"@,
                PASSWORD_AUTH_RISK@,
                PASSWORD_AUTH_REMEDY@ + source_text(f.source) + ")"@,
                None,
            ),
        ]
    } else {
        Seq::empty()
    }
}

/// Root plus passwords is the combination that gets servers taken over, so it
/// outranks either alone.
pub open spec fn root_findings(f: SshdFacts) -> Seq<FindingView> {
    if f.permit_root_login@ == "yes"@ {
        seq![
            finding(
                "ssh.root_login"@,
                if takes_passwords(f) {
                    Severity::Critical
                } else {
                    Severity::Medium
                },
                ROOT_LOGIN_TITLE@,
                ROOT_LOGIN_RISK@,
                ROOT_LOGIN_REMEDY@ + source_text(f.source) + ")"@,
                None,
            ),
        ]
    } else {
        Seq::empty()
    }
}

pub open spec fn ssh_findings(sshd: Observed<SshdFacts>) -> Seq<FindingView> {
    match sshd {
        Observed::Unavailable { reason } => seq![
            finding(
                "ssh.unknown"@,
                Severity::Unknown,
                SSH_UNKNOWN_TITLE@,
                SSH_UNKNOWN_RISK@,
                "Check by hand: `sshd -T`. ("@ + reason@ + ")"@,
                None,
            ),
        ],
        Observed::Known(f) => password_findings(f) + root_findings(f),
    }
}

pub open spec fn firewall_findings(backend: Seq<char>, active: Option<bool>) -> Seq<FindingView> {
    if backend == "none"@ {
        seq![
            finding(
                "firewall.absent"@,
                Severity::High,
                FIREWALL_ABSENT_TITLE@,
                FIREWALL_ABSENT_RISK@,
                FIREWALL_ABSENT_REMEDY@,
                None,
            ),
        ]
    } else if active == Some(false) {
        seq![
            finding(
                "firewall.inactive"@,
                Severity::High,
                "The firewall ("@ + backend + ") is installed but not running"@,
                FIREWALL_INACTIVE_RISK@,
                "Start and enable "@ + backend + FIREWALL_INACTIVE_REMEDY_TAIL@,
                None,
            ),
        ]
    } else if active is None {
        seq![
            finding(
                "firewall.unknown"@,
                Severity::Unknown,
                FIREWALL_UNKNOWN_TITLE@,
                FIREWALL_UNKNOWN_RISK@,
                "Check the "@ + backend + FIREWALL_UNKNOWN_REMEDY_TAIL@,
                None,
            ),
        ]
    } else {
        Seq::empty()
    }
}

pub open spec fn socket_texts(v: Seq<PublicListener>) -> Seq<Seq<char>> {
    v.map_values(|l: PublicListener| l.address@ + ":"@ + text::decimal(l.port as nat))
}

pub open spec fn database_findings(listeners: Observed<Vec<PublicListener>>) -> Seq<FindingView> {
    match listeners {
        Observed::Unavailable { reason } => seq![
            finding(
                "mariadb.exposure_unknown"@,
                Severity::Unknown,
                DB_UNKNOWN_TITLE@,
                DB_UNKNOWN_RISK@,
                "Check by hand: `ss -ltnp sport = :"@ + text::decimal(posture::MYSQL_PORT as nat)
                    + "`. ("@ + reason@ + ")"@,
                None,
            ),
        ],
        Observed::Known(found) => if found@.len() > 0 {
            let addresses = text::join(socket_texts(found@), ", "@);
            seq![
                finding(
                    "mariadb.off_loopback"@,
                    Severity::Critical,
                    "The database is listening on "@ + addresses + ", not only on loopback"@,
                    DB_EXPOSED_RISK@,
                    DB_EXPOSED_REMEDY@,
                    Some(addresses),
                ),
            ]
        } else {
            Seq::empty()
        },
    }
}

pub open spec fn tls_findings(days: Option<i64>, domain: Option<Seq<char>>) -> Seq<FindingView> {
    match days {
        None => seq![
            finding(
                "panel.tls_missing"@,
                Severity::High,
                TLS_MISSING_TITLE@,
                TLS_MISSING_RISK@,
                TLS_MISSING_REMEDY@,
                domain,
            ),
        ],
        Some(d) => if d < 0 {
            seq![
                finding(
                    "panel.tls_expired"@,
                    Severity::High,
                    "The panel's TLS certificate expired "@ + text::signed_decimal(-d as int)
                        + " days ago"@,
                    TLS_EXPIRED_RISK@,
                    TLS_EXPIRED_REMEDY@,
                    domain,
                ),
            ]
        } else if d < posture::PANEL_CERT_WARN_DAYS {
            seq![
                finding(
                    "panel.tls_expiring"@,
                    Severity::Medium,
                    "The panel's TLS certificate expires in "@ + text::signed_decimal(d as int)
                        + " days"@,
                    TLS_EXPIRING_RISK@,
                    TLS_EXPIRING_REMEDY@,
                    domain,
                ),
            ]
        } else {
            Seq::empty()
        },
    }
}

/// The domains of the sites that have no certificate, in order.
pub open spec fn uncertified(sites: Seq<SiteCertFact>) -> Seq<Seq<char>>
    decreases sites.len(),
{
    if sites.len() == 0 {
        Seq::empty()
    } else {
        let rest = uncertified(sites.drop_last());
        if sites.last().has_certificate {
            rest
        } else {
            rest.push(sites.last().domain@)
        }
    }
}

pub open spec fn site_findings(sites: Seq<SiteCertFact>) -> Seq<FindingView> {
    let names = uncertified(sites);
    if names.len() > 0 {
        seq![
            finding(
                "sites.no_certificate"@,
                Severity::Medium,
                text::decimal(names.len()) + " of "@ + text::decimal(sites.len())
                    + " sites have no TLS certificate"@,
                SITES_RISK@,
                SITES_REMEDY@,
                Some(text::join(names, ", "@)),
            ),
        ]
    } else {
        Seq::empty()
    }
}

pub open spec fn sentinel_findings(enabled: bool) -> Seq<FindingView> {
    if enabled {
        Seq::empty()
    } else {
        seq![
            finding(
                "sentinel.disabled"@,
                Severity::Low,
                SENTINEL_TITLE@,
                SENTINEL_RISK@,
                SENTINEL_REMEDY@,
                None,
            ),
        ]
    }
}

pub open spec fn update_findings(updates: Observed<usize>) -> Seq<FindingView> {
    match updates {
        Observed::Unavailable { reason } => seq![
            finding(
                "updates.unknown"@,
                Severity::Unknown,
                UPDATES_UNKNOWN_TITLE@,
                UPDATES_UNKNOWN_RISK@,
                "Check by hand and refresh the package index. ("@ + reason@ + ")"@,
                None,
            ),
        ],
        Observed::Known(count) => if count > 0 {
            seq![
                finding(
                    "updates.security_pending"@,
                    Severity::High,
                    text::decimal(count as nat) + " security update(s) are waiting to be installed"@,
                    UPDATES_RISK@,
                    UPDATES_REMEDY@,
                    None,
                ),
            ]
        } else {
            Seq::empty()
        },
    }
}

/// Every finding, in the order the checks are written.
pub open spec fn checks(f: PostureFacts) -> Seq<FindingView> {
    ssh_findings(f.sshd) + firewall_findings(f.firewall.backend@, f.firewall.active)
        + database_findings(f.mysql_listeners) + tls_findings(
        f.panel_tls.days_remaining,
        error::opt_text(f.panel_tls.domain),
    ) + site_findings(f.sites@) + sentinel_findings(f.sentinel_enabled) + update_findings(
        f.security_updates,
    )
}

/// The findings of one severity, in order.
pub open spec fn of_severity(v: Seq<FindingView>, severity: Severity) -> Seq<FindingView>
    decreases v.len(),
{
    if v.len() == 0 {
        Seq::empty()
    } else {
        let rest = of_severity(v.drop_last(), severity);
        if v.last().severity == severity {
            rest.push(v.last())
        } else {
            rest
        }
    }
}

/// Most severe first; within a severity the order stays.
pub open spec fn by_severity(v: Seq<FindingView>) -> Seq<FindingView> {
    of_severity(v, Severity::Critical) + of_severity(v, Severity::High) + of_severity(
        v,
        Severity::Medium,
    ) + of_severity(v, Severity::Low) + of_severity(v, Severity::Unknown)
}

/// What `evaluate` answers.
pub open spec fn evaluation(f: PostureFacts) -> Seq<FindingView> {
    by_severity(checks(f))
}

// ---------------------------------------------------------------------------
// Running them
// ---------------------------------------------------------------------------

fn one(f: Finding) -> (r: Vec<Finding>)
    ensures
        posture::views(r@) == seq![f@],
{
    let mut v: Vec<Finding> = Vec::new();
    v.push(f);
    assert(posture::views(v@) =~= seq![f@]);
    v
}

fn none() -> (r: Vec<Finding>)
    ensures
        posture::views(r@) == Seq::<FindingView>::empty(),
{
    let v: Vec<Finding> = Vec::new();
    assert(posture::views(v@) =~= Seq::empty());
    v
}

fn both(first: Vec<Finding>, second: Vec<Finding>) -> (r: Vec<Finding>)
    ensures
        r@ == first@ + second@,
        posture::views(r@) == posture::views(first@) + posture::views(second@),
{
    let mut a = first;
    let mut b = second;
    a.append(&mut b);
    assert(posture::views(a@) =~= posture::views(first@) + posture::views(second@));
    a
}

fn wrapped(before: &str, middle: &str, after: &str) -> (r: String)
    ensures
        r@ == before@ + middle@ + after@,
{
    let mut s = before.to_owned();
    s.append(middle);
    s.append(after);
    s
}

fn source_text_of(source: SshdSource) -> (r: &'static str)
    ensures
        r@ == source_text(source),
{
    match source {
        SshdSource::SshdT => VIA_SSHD_T,
        SshdSource::Files => VIA_FILES,
    }
}

fn check_ssh(sshd: &Observed<SshdFacts>) -> (r: Vec<Finding>)
    ensures
        posture::views(r@) == ssh_findings(*sshd),
{
    match sshd {
        Observed::Unavailable { reason } => one(
            Finding {
                id: "ssh.unknown",
                severity: Severity::Unknown,
                title: SSH_UNKNOWN_TITLE.to_owned(),
                risk: SSH_UNKNOWN_RISK.to_owned(),
                remedy: wrapped("Check by hand: `sshd -T`. (", reason.as_str(), ")"),
                subject: None,
            },
        ),
        Observed::Known(f) => {
            let via = source_text_of(f.source);
            let takes = f.password_authentication || f.keyboard_interactive;
            let passwords = if takes {
                let which = if f.password_authentication && f.keyboard_interactive {
                    BOTH_ON
                } else if f.password_authentication {
                    PASSWORD_ON
                } else {
                    KEYBOARD_ON
                };
                one(
                    Finding {
                        id: "ssh.password_auth",
                        severity: Severity::High,
                        title: wrapped("SSH accepts password logins (", which, " are on)"),
                        risk: PASSWORD_AUTH_RISK.to_owned(),
                        remedy: wrapped(PASSWORD_AUTH_REMEDY, via, ")"),
                        subject: None,
                    },
                )
            } else {
                none()
            };
            let root = if text::same(f.permit_root_login.as_str(), "yes") {
                one(
                    Finding {
                        id: "ssh.root_login",
                        severity: if takes {
                            Severity::Critical
                        } else {
                            Severity::Medium
                        },
                        title: ROOT_LOGIN_TITLE.to_owned(),
                        risk: ROOT_LOGIN_RISK.to_owned(),
                        remedy: wrapped(ROOT_LOGIN_REMEDY, via, ")"),
                        subject: None,
                    },
                )
            } else {
                none()
            };
            both(passwords, root)
        },
    }
}

fn check_firewall(facts: &PostureFacts) -> (r: Vec<Finding>)
    ensures
        posture::views(r@) == firewall_findings(facts.firewall.backend@, facts.firewall.active),
{
    let backend = facts.firewall.backend.as_str();
    if text::same(backend, "none") {
        return one(
            Finding {
                id: "firewall.absent",
                severity: Severity::High,
                title: FIREWALL_ABSENT_TITLE.to_owned(),
                risk: FIREWALL_ABSENT_RISK.to_owned(),
                remedy: FIREWALL_ABSENT_REMEDY.to_owned(),
                subject: None,
            },
        );
    }
    match facts.firewall.active {
        Some(true) => none(),
        Some(false) => one(
            Finding {
                id: "firewall.inactive",
                severity: Severity::High,
                title: wrapped("The firewall (", backend, ") is installed but not running"),
                risk: FIREWALL_INACTIVE_RISK.to_owned(),
                remedy: wrapped("Start and enable ", backend, FIREWALL_INACTIVE_REMEDY_TAIL),
                subject: None,
            },
        ),
        None => one(
            Finding {
                id: "firewall.unknown",
                severity: Severity::Unknown,
                title: FIREWALL_UNKNOWN_TITLE.to_owned(),
                risk: FIREWALL_UNKNOWN_RISK.to_owned(),
                remedy: wrapped("Check the ", backend, FIREWALL_UNKNOWN_REMEDY_TAIL),
                subject: None,
            },
        ),
    }
}

fn socket_texts_of(found: &Vec<PublicListener>) -> (r: Vec<String>)
    ensures
        text::texts(r@) == socket_texts(found@),
{
    let mut out: Vec<String> = Vec::new();
    let mut i: usize = 0;
    while i < found.len()
        invariant
            i <= found@.len(),
            text::texts(out@) =~= socket_texts(found@).take(i as int),
        decreases found@.len() - i,
    {
        let ghost before = out@;
        let port = text::decimal_of(found[i].port as u64);
        let s = wrapped(found[i].address.as_str(), ":", port.as_str());
        out.push(s);
        assert(text::texts(out@) =~= text::texts(before).push(s@));
        i = i + 1;
    }
    assert(socket_texts(found@).take(i as int) =~= socket_texts(found@));
    out
}

fn check_database(listeners: &Observed<Vec<PublicListener>>) -> (r: Vec<Finding>)
    ensures
        posture::views(r@) == database_findings(*listeners),
{
    match listeners {
        Observed::Unavailable { reason } => {
            let port = text::decimal_of(posture::MYSQL_PORT as u64);
            let mut remedy = wrapped("Check by hand: `ss -ltnp sport = :", port.as_str(), "`. (");
            remedy.append(reason.as_str());
            remedy.append(")");
            one(
                Finding {
                    id: "mariadb.exposure_unknown",
                    severity: Severity::Unknown,
                    title: DB_UNKNOWN_TITLE.to_owned(),
                    risk: DB_UNKNOWN_RISK.to_owned(),
                    remedy,
                    subject: None,
                },
            )
        },
        Observed::Known(found) => {
            if found.len() == 0 {
                return none();
            }
            let sockets = socket_texts_of(found);
            let addresses = text::joined(&sockets, ", ");
            one(
                Finding {
                    id: "mariadb.off_loopback",
                    severity: Severity::Critical,
                    title: wrapped(
                        "The database is listening on ",
                        addresses.as_str(),
                        ", not only on loopback",
                    ),
                    risk: DB_EXPOSED_RISK.to_owned(),
                    remedy: DB_EXPOSED_REMEDY.to_owned(),
                    subject: Some(addresses),
                },
            )
        },
    }
}

fn check_panel_tls(tls: &PanelTlsFacts) -> (r: Vec<Finding>)
    requires
        tls.days_remaining != Some(i64::MIN),
    ensures
        posture::views(r@) == tls_findings(tls.days_remaining, error::opt_text(tls.domain)),
{
    let domain = tls.domain.clone();
    match tls.days_remaining {
        None => one(
            Finding {
                id: "panel.tls_missing",
                severity: Severity::High,
                title: TLS_MISSING_TITLE.to_owned(),
                risk: TLS_MISSING_RISK.to_owned(),
                remedy: TLS_MISSING_REMEDY.to_owned(),
                subject: domain,
            },
        ),
        Some(days) => {
            if days < 0 {
                let ago = text::signed_decimal_of(-days);
                one(
                    Finding {
                        id: "panel.tls_expired",
                        severity: Severity::High,
                        title: wrapped(
                            "The panel's TLS certificate expired ",
                            ago.as_str(),
                            " days ago",
                        ),
                        risk: TLS_EXPIRED_RISK.to_owned(),
                        remedy: TLS_EXPIRED_REMEDY.to_owned(),
                        subject: domain,
                    },
                )
            } else if days < posture::PANEL_CERT_WARN_DAYS {
                let left = text::signed_decimal_of(days);
                one(
                    Finding {
                        id: "panel.tls_expiring",
                        severity: Severity::Medium,
                        title: wrapped(
                            "The panel's TLS certificate expires in ",
                            left.as_str(),
                            " days",
                        ),
                        risk: TLS_EXPIRING_RISK.to_owned(),
                        remedy: TLS_EXPIRING_REMEDY.to_owned(),
                        subject: domain,
                    },
                )
            } else {
                none()
            }
        },
    }
}

fn uncertified_of(sites: &Vec<SiteCertFact>) -> (r: Vec<String>)
    ensures
        text::texts(r@) == uncertified(sites@),
{
    let mut out: Vec<String> = Vec::new();
    let mut i: usize = 0;
    assert(sites@.take(0) =~= Seq::empty());
    assert(text::texts(out@) =~= Seq::empty());
    while i < sites.len()
        invariant
            i <= sites@.len(),
            text::texts(out@) == uncertified(sites@.take(i as int)),
        decreases sites@.len() - i,
    {
        let ghost before = out@;
        assert(sites@.take(i + 1).drop_last() =~= sites@.take(i as int));
        if !sites[i].has_certificate {
            out.push(sites[i].domain.clone());
            assert(text::texts(out@) =~= text::texts(before).push(sites@[i as int].domain@));
        }
        i = i + 1;
    }
    assert(sites@.take(i as int) =~= sites@);
    out
}

fn check_sites(sites: &Vec<SiteCertFact>) -> (r: Vec<Finding>)
    ensures
        posture::views(r@) == site_findings(sites@),
{
    let names = uncertified_of(sites);
    assert(names@.len() == uncertified(sites@).len());
    if names.len() == 0 {
        return none();
    }
    let bad = text::decimal_of(names.len() as u64);
    let all = text::decimal_of(sites.len() as u64);
    let mut title = wrapped(bad.as_str(), " of ", all.as_str());
    title.append(" sites have no TLS certificate");
    one(
        Finding {
            id: "sites.no_certificate",
            severity: Severity::Medium,
            title,
            risk: SITES_RISK.to_owned(),
            remedy: SITES_REMEDY.to_owned(),
            subject: Some(text::joined(&names, ", ")),
        },
    )
}

fn check_sentinel(enabled: bool) -> (r: Vec<Finding>)
    ensures
        posture::views(r@) == sentinel_findings(enabled),
{
    if enabled {
        none()
    } else {
        one(
            Finding {
                id: "sentinel.disabled",
                severity: Severity::Low,
                title: SENTINEL_TITLE.to_owned(),
                risk: SENTINEL_RISK.to_owned(),
                remedy: SENTINEL_REMEDY.to_owned(),
                subject: None,
            },
        )
    }
}

fn check_updates(updates: &Observed<usize>) -> (r: Vec<Finding>)
    ensures
        posture::views(r@) == update_findings(*updates),
{
    match updates {
        Observed::Unavailable { reason } => one(
            Finding {
                id: "updates.unknown",
                severity: Severity::Unknown,
                title: UPDATES_UNKNOWN_TITLE.to_owned(),
                risk: UPDATES_UNKNOWN_RISK.to_owned(),
                remedy: wrapped(
                    "Check by hand and refresh the package index. (",
                    reason.as_str(),
                    ")",
                ),
                subject: None,
            },
        ),
        Observed::Known(count) => {
            if *count == 0 {
                return none();
            }
            let mut title = text::decimal_of(*count as u64);
            title.append(" security update(s) are waiting to be installed");
            one(
                Finding {
                    id: "updates.security_pending",
                    severity: Severity::High,
                    title,
                    risk: UPDATES_RISK.to_owned(),
                    remedy: UPDATES_REMEDY.to_owned(),
                    subject: None,
                },
            )
        },
    }
}

/// Stable sort by severity.
fn sorted(findings: Vec<Finding>) -> (r: Vec<Finding>)
    ensures
        posture::views(r@) == by_severity(posture::views(findings@)),
{
    let ghost all = posture::views(findings@);
    let mut critical: Vec<Finding> = none();
    let mut high: Vec<Finding> = none();
    let mut medium: Vec<Finding> = none();
    let mut low: Vec<Finding> = none();
    let mut unknown: Vec<Finding> = none();
    assert(all.take(0) =~= Seq::empty());
    for f in it: findings.into_iter()
        invariant
            it.seq() == findings@,
            all == posture::views(findings@),
            posture::views(critical@) == of_severity(
                all.take(it.index() as int),
                Severity::Critical,
            ),
            posture::views(high@) == of_severity(all.take(it.index() as int), Severity::High),
            posture::views(medium@) == of_severity(all.take(it.index() as int), Severity::Medium),
            posture::views(low@) == of_severity(all.take(it.index() as int), Severity::Low),
            posture::views(unknown@) == of_severity(all.take(it.index() as int), Severity::Unknown),
    {
        let ghost seen = all.take(it.index() + 1);
        assert(seen.drop_last() =~= all.take(it.index() as int));
        assert(seen.last() == f@);
        match f.severity {
            Severity::Critical => {
                let ghost before = critical@;
                critical.push(f);
                assert(posture::views(critical@) =~= posture::views(before).push(f@));
            },
            Severity::High => {
                let ghost before = high@;
                high.push(f);
                assert(posture::views(high@) =~= posture::views(before).push(f@));
            },
            Severity::Medium => {
                let ghost before = medium@;
                medium.push(f);
                assert(posture::views(medium@) =~= posture::views(before).push(f@));
            },
            Severity::Low => {
                let ghost before = low@;
                low.push(f);
                assert(posture::views(low@) =~= posture::views(before).push(f@));
            },
            Severity::Unknown => {
                let ghost before = unknown@;
                unknown.push(f);
                assert(posture::views(unknown@) =~= posture::views(before).push(f@));
            },
        }
    }
    assert(all.take(all.len() as int) =~= all);
    both(both(both(both(critical, high), medium), low), unknown)
}

/// Turn facts into findings: most severe first, and within a severity in the
/// order the checks are written.
pub fn evaluate(facts: &PostureFacts) -> (r: Vec<Finding>)
    requires
        facts.panel_tls.days_remaining != Some(i64::MIN),
    ensures
        posture::views(r@) == evaluation(*facts),
{
    let a = both(check_ssh(&facts.sshd), check_firewall(facts));
    let b = both(a, check_database(&facts.mysql_listeners));
    let c = both(b, check_panel_tls(&facts.panel_tls));
    let d = both(c, check_sites(&facts.sites));
    let e = both(d, check_sentinel(facts.sentinel_enabled));
    let all = both(e, check_updates(&facts.security_updates));
    sorted(all)
}

} // verus!
