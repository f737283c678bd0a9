//! `security.posture`: the one-page security advisor.
//!
//! Every finding is something that can be asserted from evidence that was
//! actually gathered. [`PostureFacts`] says, per fact, what was observed or that
//! it could not be observed; [`evaluate`] is a pure function from those facts to
//! findings. A check whose evidence could not be gathered yields a
//! [`Severity::Unknown`] finding: never silence, and never a clean tick.
use vstd::prelude::*;
use vstd::string::StringExecFns;

use crate::error;
use crate::net;
use crate::text;

pub use crate::posture::rules::evaluate;

pub mod gather;
pub mod laws;
pub mod reading;
pub mod reporting;
pub mod rules;

verus! {

/// The port MariaDB listens on.
pub const MYSQL_PORT: u16 = 3306;

/// A panel certificate with fewer days than this left is worth a finding. The
/// renewal scheduler starts at thirty days, so fewer than fourteen means that
/// renewal has been failing for two weeks.
pub const PANEL_CERT_WARN_DAYS: i64 = 14;

// ---------------------------------------------------------------------------
// Findings
// ---------------------------------------------------------------------------

#[derive(Debug, Clone, Copy, PartialEq, Eq, PartialOrd, Ord, Structural)]
pub enum Severity {
    /// Reachable from the internet without a credential, or a tenant-isolation
    /// failure.
    Critical,
    /// A materially larger attack surface than the panel's own defaults.
    High,
    /// Worth fixing; not what would be tried first.
    Medium,
    /// A hardening opportunity.
    Low,
    /// The check could not be run. Deliberately not the same as "clean".
    Unknown,
}

impl Severity {
    pub open spec fn name(self) -> Seq<char> {
        match self {
            Severity::Critical => "critical"@,
            Severity::High => "high"@,
            Severity::Medium => "medium"@,
            Severity::Low => "low"@,
            Severity::Unknown => "unknown"@,
        }
    }

    /// The place in a report: the most severe comes first.
    pub open spec fn rank(self) -> int {
        match self {
            Severity::Critical => 0,
            Severity::High => 1,
            Severity::Medium => 2,
            Severity::Low => 3,
            Severity::Unknown => 4,
        }
    }

    pub fn as_str(self) -> (r: &'static str)
        ensures
            r@ == self.name(),
    {
        match self {
            Severity::Critical => "critical",
            Severity::High => "high",
            Severity::Medium => "medium",
            Severity::Low => "low",
            Severity::Unknown => "unknown",
        }
    }
}

/// One thing worth telling an operator.
#[derive(Debug, Clone, PartialEq, Eq)]
pub struct Finding {
    /// Stable identifier.
    pub id: &'static str,
    pub severity: Severity,
    /// A short statement of what is true, not of what to do.
    pub title: String,
    /// Why it matters, in one sentence.
    pub risk: String,
    /// What to do about it, concretely enough to act on.
    pub remedy: String,
    /// The site, address or file this is about, when it is about one thing.
    pub subject: Option<String>,
}

/// A [`Finding`] as contracts see it.
#[verifier::ext_equal]
pub struct FindingView {
    pub id: Seq<char>,
    pub severity: Severity,
    pub title: Seq<char>,
    pub risk: Seq<char>,
    pub remedy: Seq<char>,
    pub subject: Option<Seq<char>>,
}

impl View for Finding {
    type V = FindingView;

    open spec fn view(&self) -> FindingView {
        FindingView {
            id: self.id@,
            severity: self.severity,
            title: self.title@,
            risk: self.risk@,
            remedy: self.remedy@,
            subject: error::opt_text(self.subject),
        }
    }
}

pub open spec fn views(v: Seq<Finding>) -> Seq<FindingView> {
    v.map_values(|f: Finding| f@)
}

// ---------------------------------------------------------------------------
// The facts
// ---------------------------------------------------------------------------

/// What one observation produced: a value, or the reason there is none.
#[derive(Debug, Clone, PartialEq, Eq)]
pub enum Observed<T> {
    Known(T),
    Unavailable { reason: String },
}

impl<T> Observed<T> {
    pub fn known(&self) -> (r: Option<&T>)
        ensures
            r == (match self {
                Observed::Known(v) => Some(v),
                Observed::Unavailable { .. } => None,
            }),
    {
        match self {
            Observed::Known(v) => Some(v),
            Observed::Unavailable { .. } => None,
        }
    }
}

/// The effective sshd configuration, as far as it could be determined.
#[derive(Debug, Clone, PartialEq, Eq)]
pub struct SshdFacts {
    /// `PasswordAuthentication yes`.
    pub password_authentication: bool,
    /// `KbdInteractiveAuthentication yes`: the PAM route to the same place.
    pub keyboard_interactive: bool,
    /// `PermitRootLogin`, in lower case.
    pub permit_root_login: String,
    /// How this was established, for the finding to disclose.
    pub source: SshdSource,
}

#[derive(Debug, Clone, Copy, PartialEq, Eq, Structural)]
pub enum SshdSource {
    /// `sshd -T`: sshd's own settled answer, with its includes resolved.
    SshdT,
    /// `sshd_config` plus `sshd_config.d/*.conf`, parsed here.
    Files,
}

/// A listening TCP socket that is not on loopback.
#[derive(Debug, Clone, PartialEq, Eq)]
pub struct PublicListener {
    pub address: String,
    pub port: u16,
}

#[derive(Debug, Clone, PartialEq, Eq)]
pub struct FirewallFacts {
    /// `firewalld`, `ufw`, `nftables`, or `none`.
    pub backend: String,
    /// `None` when the backend could not be asked.
    pub active: Option<bool>,
}

#[derive(Debug, Clone, PartialEq, Eq)]
pub struct PanelTlsFacts {
    pub domain: Option<String>,
    /// `None` when no certificate row exists at all.
    pub days_remaining: Option<i64>,
    pub status: Option<String>,
}

#[derive(Debug, Clone, PartialEq, Eq)]
pub struct SiteCertFact {
    pub site_id: i64,
    pub domain: String,
    pub has_certificate: bool,
}

/// Everything the checks reason over.
#[derive(Debug, Clone, PartialEq, Eq)]
pub struct PostureFacts {
    pub sshd: Observed<SshdFacts>,
    pub firewall: FirewallFacts,
    /// Non-loopback listeners on [`MYSQL_PORT`].
    pub mysql_listeners: Observed<Vec<PublicListener>>,
    pub panel_tls: PanelTlsFacts,
    pub sites: Vec<SiteCertFact>,
    pub sentinel_enabled: bool,
    /// How many pending updates the package manager considers security updates.
    pub security_updates: Observed<usize>,
}

// ---------------------------------------------------------------------------
// sshd
// ---------------------------------------------------------------------------

/// A keyword and its value, in the order they were read.
pub type Setting = (Seq<char>, Seq<char>);

/// The first value given for `key`: the one sshd uses.
pub open spec fn first_value(settings: Seq<Setting>, key: Seq<char>) -> Option<Seq<char>>
    decreases settings.len(),
{
    if settings.len() == 0 {
        None
    } else if settings[0].0 == key {
        Some(settings[0].1)
    } else {
        first_value(settings.skip(1), key)
    }
}

/// Whether `key` is on; where it was never set, `default` holds.
pub open spec fn switched_on(settings: Seq<Setting>, key: Seq<char>, default: bool) -> bool {
    match first_value(settings, key) {
        Some(v) => text::same_but_case(v, "yes"@),
        None => default,
    }
}

/// What a list of settings says about logging in. OpenSSH's own defaults stand
/// where a keyword is absent.
pub open spec fn sshd_facts_hold(f: SshdFacts, settings: Seq<Setting>, source: SshdSource) -> bool {
    &&& f.password_authentication == switched_on(settings, "passwordauthentication"@, true)
    &&& f.keyboard_interactive == switched_on(settings, "kbdinteractiveauthentication"@, true)
    &&& f.permit_root_login@ == match first_value(settings, "permitrootlogin"@) {
        Some(v) => text::lower_all(v),
        None => "prohibit-password"@,
    }
    &&& f.source == source
}

/// The settings that `sshd -T` printed: one `keyword value` per line.
pub open spec fn printed_settings(lines: Seq<Seq<char>>) -> Seq<Setting>
    decreases lines.len(),
{
    if lines.len() == 0 {
        Seq::empty()
    } else {
        let rest = printed_settings(lines.drop_last());
        match text::split_space(text::trim(lines.last())) {
            Some((key, value)) => rest.push((text::trim(key), text::trim(value))),
            None => rest,
        }
    }
}

/// A configuration line without its comment and the space around it.
pub open spec fn bare_line(raw: Seq<char>) -> Seq<char> {
    text::trim(text::head(raw, '#'))
}

/// The keyword, in lower case, and the rest of a configuration line.
pub open spec fn key_value(line: Seq<char>) -> Setting {
    let k = text::before_space(line) as int;
    (
        text::lower_all(line.take(k)),
        if k < line.len() {
            text::trim(line.skip(k + 1))
        } else {
            Seq::empty()
        },
    )
}

/// The settings of one configuration file that apply to every connection: those
/// that stand before its first `Match`.
pub open spec fn global_settings(lines: Seq<Seq<char>>) -> Seq<Setting>
    decreases lines.len(),
{
    if lines.len() == 0 {
        Seq::empty()
    } else {
        let line = bare_line(lines[0]);
        if line.len() == 0 {
            global_settings(lines.skip(1))
        } else if key_value(line).0 == "match"@ {
            Seq::empty()
        } else {
            seq![key_value(line)] + global_settings(lines.skip(1))
        }
    }
}

/// The settings of several files, in the order sshd reads them.
pub open spec fn settings_of_files(files: Seq<(String, String)>) -> Seq<Setting>
    decreases files.len(),
{
    if files.len() == 0 {
        Seq::empty()
    } else {
        settings_of_files(files.drop_last()) + global_settings(text::lines(files.last().1@))
    }
}

pub open spec fn setting_views(v: Seq<(String, String)>) -> Seq<Setting> {
    v.map_values(|p: (String, String)| (p.0@, p.1@))
}

fn first_value_of(settings: &Vec<(String, String)>, key: &str) -> (r: Option<String>)
    ensures
        error::opt_text(r) == first_value(setting_views(settings@), key@),
{
    let mut i: usize = 0;
    assert(setting_views(settings@).skip(0) =~= setting_views(settings@));
    while i < settings.len()
        invariant
            i <= settings@.len(),
            first_value(setting_views(settings@).skip(i as int), key@) == first_value(
                setting_views(settings@),
                key@,
            ),
        decreases settings@.len() - i,
    {
        let ghost rest = setting_views(settings@).skip(i as int);
        assert(rest[0] == (settings@[i as int].0@, settings@[i as int].1@));
        assert(rest.skip(1) =~= setting_views(settings@).skip(i + 1));
        if text::same(settings[i].0.as_str(), key) {
            return Some(settings[i].1.clone());
        }
        i = i + 1;
    }
    None
}

fn is_switched_on(settings: &Vec<(String, String)>, key: &str, default: bool) -> (r: bool)
    ensures
        r == switched_on(setting_views(settings@), key@, default),
{
    match first_value_of(settings, key) {
        Some(v) => text::equals_ignoring_case(v.as_str(), "yes"),
        None => default,
    }
}

fn facts_from(settings: &Vec<(String, String)>, source: SshdSource) -> (r: SshdFacts)
    ensures
        sshd_facts_hold(r, setting_views(settings@), source),
{
    let root = match first_value_of(settings, "permitrootlogin") {
        Some(v) => text::lowered(v.as_str()),
        None => "prohibit-password".to_owned(),
    };
    SshdFacts {
        password_authentication: is_switched_on(settings, "passwordauthentication", true),
        keyboard_interactive: is_switched_on(settings, "kbdinteractiveauthentication", true),
        permit_root_login: root,
        source,
    }
}

/// Parse `sshd -T` output.
///
/// Unset keywords keep OpenSSH's own defaults: a check that assumed the safe
/// value where it sees nothing would report safety on output that it failed to
/// understand.
pub fn parse_sshd_t(output: &str) -> (r: SshdFacts)
    ensures
        sshd_facts_hold(r, printed_settings(text::lines(output@)), SshdSource::SshdT),
{
    let lines = text::lines_of(output);
    let mut settings: Vec<(String, String)> = Vec::new();
    let mut i: usize = 0;
    assert(text::texts(lines@).take(0) =~= Seq::empty());
    assert(setting_views(settings@) =~= Seq::empty());
    while i < lines.len()
        invariant
            i <= lines@.len(),
            setting_views(settings@) == printed_settings(text::texts(lines@).take(i as int)),
        decreases lines@.len() - i,
    {
        let ghost seen = text::texts(lines@).take(i + 1);
        let ghost before = settings@;
        assert(seen.drop_last() =~= text::texts(lines@).take(i as int));
        assert(seen.last() == lines@[i as int]@);
        let line = text::trimmed(lines[i].as_str());
        let v = text::chars_of(line.as_str());
        let n: usize = v.len();
        let k: usize = text::find_space(v.as_slice(), 0, n);
        assert(v@.subrange(0, n as int) =~= line@);
        if k < n {
            let key = text::string_of(v.as_slice(), 0, k);
            let value = text::string_of(v.as_slice(), k + 1, n);
            assert(key@ =~= line@.take(k as int));
            assert(value@ =~= line@.skip(k + 1));
            let pair = (text::trimmed(key.as_str()), text::trimmed(value.as_str()));
            settings.push(pair);
            assert(setting_views(settings@) =~= setting_views(before).push(
                (text::trim(key@), text::trim(value@)),
            ));
        }
        i = i + 1;
    }
    assert(text::texts(lines@).take(i as int) =~= text::texts(lines@));
    facts_from(&settings, SshdSource::SshdT)
}

/// The keyword and the value of a configuration line.
fn key_value_of(line: &str) -> (r: (String, String))
    ensures
        (r.0@, r.1@) == key_value(line@),
{
    let v = text::chars_of(line);
    let n: usize = v.len();
    let k: usize = text::find_space(v.as_slice(), 0, n);
    assert(v@.subrange(0, n as int) =~= line@);
    let key = text::string_of(v.as_slice(), 0, k);
    assert(key@ =~= line@.take(k as int));
    let value = if k < n {
        let rest = text::string_of(v.as_slice(), k + 1, n);
        assert(rest@ =~= line@.skip(k + 1));
        text::trimmed(rest.as_str())
    } else {
        String::new()
    };
    (text::lowered(key.as_str()), value)
}

fn bare_line_of(raw: &str) -> (r: String)
    ensures
        r@ == bare_line(raw@),
{
    let v = text::chars_of(raw);
    let n: usize = v.len();
    let k: usize = text::find_char(v.as_slice(), 0, n, '#');
    assert(v@.subrange(0, n as int) =~= raw@);
    let kept = text::string_of(v.as_slice(), 0, k);
    assert(kept@ =~= text::head(raw@, '#'));
    text::trimmed(kept.as_str())
}

/// The global settings of one configuration file.
fn global_settings_of(contents: &str) -> (r: Vec<(String, String)>)
    ensures
        setting_views(r@) == global_settings(text::lines(contents@)),
{
    let lines = text::lines_of(contents);
    let ghost all = text::texts(lines@);
    let mut out: Vec<(String, String)> = Vec::new();
    let mut i: usize = 0;
    assert(all.skip(0) =~= all);
    assert(setting_views(out@) + global_settings(all) =~= global_settings(all));
    while i < lines.len()
        invariant
            i <= lines@.len(),
            all == text::texts(lines@),
            all == text::lines(contents@),
            setting_views(out@) + global_settings(all.skip(i as int)) == global_settings(all),
        decreases lines@.len() - i,
    {
        let ghost rest = all.skip(i as int);
        let ghost before = out@;
        assert(rest[0] == lines@[i as int]@);
        assert(rest.skip(1) =~= all.skip(i + 1));
        let line = bare_line_of(lines[i].as_str());
        i = i + 1;
        if line.as_str().is_empty() {
            continue;
        }
        let pair = key_value_of(line.as_str());
        if text::same(pair.0.as_str(), "match") {
            assert(setting_views(out@) + global_settings(rest) =~= setting_views(out@));
            return out;
        }
        let ghost added = (pair.0@, pair.1@);
        out.push(pair);
        assert(setting_views(out@) =~= setting_views(before).push(added));
        assert(setting_views(out@) + global_settings(all.skip(i as int)) =~= setting_views(before)
            + global_settings(rest));
    }
    assert(all.skip(i as int).len() == 0);
    assert(setting_views(out@) + global_settings(all.skip(i as int)) =~= setting_views(out@));
    out
}

/// Parse `sshd_config`-style files in the order sshd would read them.
///
/// The first value of a keyword wins, across all files; what stands inside a
/// `Match` block applies conditionally and is not part of the answer.
pub fn parse_sshd_files(ordered: &[(String, String)]) -> (r: SshdFacts)
    ensures
        sshd_facts_hold(r, settings_of_files(ordered@), SshdSource::Files),
{
    let mut settings: Vec<(String, String)> = Vec::new();
    let mut i: usize = 0;
    assert(ordered@.take(0) =~= Seq::empty());
    assert(setting_views(settings@) =~= settings_of_files(ordered@.take(0)));
    while i < ordered.len()
        invariant
            i <= ordered@.len(),
            setting_views(settings@) == settings_of_files(ordered@.take(i as int)),
        decreases ordered@.len() - i,
    {
        let ghost before = settings@;
        let mut more = global_settings_of(ordered[i].1.as_str());
        let ghost added = more@;
        settings.append(&mut more);
        assert(ordered@.take(i + 1).drop_last() =~= ordered@.take(i as int));
        assert(setting_views(settings@) =~= setting_views(before) + setting_views(added));
        i = i + 1;
    }
    assert(ordered@.take(i as int) =~= ordered@);
    facts_from(&settings, SshdSource::Files)
}

// ---------------------------------------------------------------------------
// Listening sockets
// ---------------------------------------------------------------------------

/// The index of the last `c`, or -1.
pub open spec fn last_index(s: Seq<char>, c: char) -> int
    decreases s.len(),
{
    if s.len() == 0 {
        -1
    } else if s.last() == c {
        s.len() - 1
    } else {
        last_index(s.drop_last(), c)
    }
}

/// The non-loopback address that one `/proc/net/tcp` line shows listening on
/// `port`. Columns: `sl local_address rem_address st ..`, where `st` is `0A` for
/// a listening socket.
pub open spec fn listening_address(line: Seq<char>, port: int) -> Option<Seq<char>> {
    let fields = text::words(line);
    if fields.len() < 4 || fields[3] != "0A"@ {
        None
    } else {
        let colon = last_index(fields[1], ':');
        if colon < 0 || net::hex_number(fields[1].skip(colon + 1), 0xffff) != Some(port) {
            None
        } else {
            match net::proc_address(fields[1].take(colon)) {
                Some(octets) => if net::is_loopback(octets) {
                    None
                } else {
                    Some(net::address_text(octets))
                },
                None => None,
            }
        }
    }
}

/// The addresses listening on `port`, line by line.
pub open spec fn listening_addresses(lines: Seq<Seq<char>>, port: int) -> Seq<Seq<char>>
    decreases lines.len(),
{
    if lines.len() == 0 {
        Seq::empty()
    } else {
        let rest = listening_addresses(lines.drop_last(), port);
        match listening_address(lines.last(), port) {
            Some(a) => rest.push(a),
            None => rest,
        }
    }
}

/// The listeners that a whole table shows; its first line is a heading.
pub open spec fn table_addresses(table: Seq<char>, port: int) -> Seq<Seq<char>> {
    let lines = text::lines(table);
    if lines.len() == 0 {
        Seq::empty()
    } else {
        listening_addresses(lines.skip(1), port)
    }
}

/// The listeners are at `addresses`, all on `port`.
pub open spec fn listeners_are(
    listeners: Seq<PublicListener>,
    addresses: Seq<Seq<char>>,
    port: u16,
) -> bool {
    &&& listeners.len() == addresses.len()
    &&& forall|i: int|
        0 <= i < listeners.len() ==> (#[trigger] listeners[i]).address@ == addresses[i]
            && listeners[i].port == port
}

fn last_index_of(v: &Vec<char>, c: char) -> (r: Option<usize>)
    ensures
        match r {
            Some(k) => k < v@.len() && last_index(v@, c) == k,
            None => last_index(v@, c) == -1,
        },
{
    let mut i: usize = v.len();
    assert(v@.take(i as int) =~= v@);
    while i > 0
        invariant
            i <= v@.len(),
            last_index(v@.take(i as int), c) == last_index(v@, c),
        decreases i,
    {
        assert(v@.take(i as int).last() == v@[i - 1]);
        assert(v@.take(i as int).drop_last() =~= v@.take(i - 1));
        if v[i - 1] == c {
            return Some(i - 1);
        }
        i = i - 1;
    }
    None
}

fn listening_address_of(line: &str, port: u16) -> (r: Option<String>)
    ensures
        error::opt_text(r) == listening_address(line@, port as int),
{
    let fields = text::words_of(line);
    let ghost ws = text::words(line@);
    if fields.len() < 4 {
        return None;
    }
    assert(ws[3] == fields@[3]@);
    assert(ws[1] == fields@[1]@);
    if !text::same(fields[3].as_str(), "0A") {
        return None;
    }
    let local = text::chars_of(fields[1].as_str());
    let colon: usize = match last_index_of(&local, ':') {
        Some(k) => k,
        None => {
            return None;
        },
    };
    let n: usize = local.len();
    assert(local@.subrange(colon + 1, n as int) =~= ws[1].skip(colon + 1));
    match net::parse_hex(local.as_slice(), colon + 1, n, 0xffff) {
        Some(found) => {
            if found != port as u32 {
                return None;
            }
        },
        None => {
            return None;
        },
    }
    let hex = text::string_of(local.as_slice(), 0, colon);
    assert(hex@ =~= ws[1].take(colon as int));
    match net::parse_proc_address(hex.as_str()) {
        Some(address) => {
            if address.is_loopback() {
                None
            } else {
                Some(address.to_text())
            }
        },
        None => None,
    }
}

/// Non-loopback listeners on `port`, from a table in `/proc/net/tcp` format.
pub fn listeners_on_port(proc_net_tcp: &str, port: u16) -> (r: Vec<PublicListener>)
    ensures
        listeners_are(r@, table_addresses(proc_net_tcp@, port as int), port),
{
    let lines = text::lines_of(proc_net_tcp);
    let ghost all = text::lines(proc_net_tcp@);
    let mut out: Vec<PublicListener> = Vec::new();
    if lines.len() == 0 {
        return out;
    }
    let ghost body = all.skip(1);
    let mut i: usize = 1;
    assert(body.take(0) =~= Seq::empty());
    while i < lines.len()
        invariant
            1 <= i <= lines@.len(),
            all == text::texts(lines@),
            body == all.skip(1),
            listeners_are(out@, listening_addresses(body.take(i - 1), port as int), port),
        decreases lines@.len() - i,
    {
        assert(body.take(i as int).drop_last() =~= body.take(i - 1));
        assert(body.take(i as int).last() == lines@[i as int]@);
        match listening_address_of(lines[i].as_str(), port) {
            Some(address) => {
                out.push(PublicListener { address, port });
            },
            None => {},
        }
        i = i + 1;
    }
    assert(body.take(i - 1) =~= body);
    out
}

/// What the socket tables of this machine show, where at least one of them
/// could be read.
pub open spec fn observed_addresses(
    tcp: Option<Seq<char>>,
    tcp6: Option<Seq<char>>,
    port: int,
) -> Seq<Seq<char>> {
    (match tcp {
        Some(t) => table_addresses(t, port),
        None => Seq::empty(),
    }) + (match tcp6 {
        Some(t) => table_addresses(t, port),
        None => Seq::empty(),
    })
}

pub const NO_SOCKET_TABLE: &'static str = "/proc/net/tcp is not readable on this host, so listening \
     sockets could not be enumerated";

/// Judge the two socket tables: `None` stands for one that could not be read.
pub fn observe_listeners(tcp: &Option<String>, tcp6: &Option<String>, port: u16) -> (r: Observed<
    Vec<PublicListener>,
>)
    ensures
        match r {
            Observed::Known(found) => (tcp is Some || tcp6 is Some) && listeners_are(
                found@,
                observed_addresses(error::opt_text(*tcp), error::opt_text(*tcp6), port as int),
                port,
            ),
            Observed::Unavailable { reason } => tcp is None && tcp6 is None && reason@
                == NO_SOCKET_TABLE@,
        },
{
    let mut found: Vec<PublicListener> = match tcp {
        Some(t) => listeners_on_port(t.as_str(), port),
        None => Vec::new(),
    };
    let ghost first = found@;
    let mut more: Vec<PublicListener> = match tcp6 {
        Some(t) => listeners_on_port(t.as_str(), port),
        None => Vec::new(),
    };
    if tcp.is_none() && tcp6.is_none() {
        return Observed::Unavailable { reason: NO_SOCKET_TABLE.to_owned() };
    }
    found.append(&mut more);
    Observed::Known(found)
}

// ---------------------------------------------------------------------------
// Pending security updates
// ---------------------------------------------------------------------------

/// Where a pending install comes from: in `Inst pkg [old] (new Origin:suite [arch])`,
/// what stands behind the new version inside the round brackets.
pub open spec fn apt_source(line: Seq<char>) -> Seq<char> {
    text::tail(text::head(text::tail(line, '('), ')'), ' ')
}

/// A pending install (`Inst ..`) that names a security suite. The name of a
/// package does not make it one.
pub open spec fn is_apt_security_line(line: Seq<char>) -> bool {
    text::starts_with(line, "Inst "@) && text::contains(
        text::lower_all(apt_source(line)),
        "security"@,
    )
}

/// An update line: `name.arch version repository`, and not a heading.
pub open spec fn is_dnf_update_line(line: Seq<char>) -> bool {
    let t = text::trim_end(line);
    let fields = text::words(t);
    &&& t.len() > 0
    &&& t.last() != ':'
    &&& !text::starts_with(t, "Last metadata"@)
    &&& !text::starts_with(t, "Obsoleting"@)
    &&& !text::starts_with(t, "Security:"@)
    &&& fields.len() == 3
    &&& fields[0].contains('.')
}

/// How many of the lines satisfy `p`.
pub open spec fn count_lines(lines: Seq<Seq<char>>, p: spec_fn(Seq<char>) -> bool) -> nat
    decreases lines.len(),
{
    if lines.len() == 0 {
        0
    } else {
        count_lines(lines.drop_last(), p) + if p(lines.last()) {
            1nat
        } else {
            0nat
        }
    }
}

pub open spec fn apt_security_updates(output: Seq<char>) -> nat {
    count_lines(text::lines(output), |l: Seq<char>| is_apt_security_line(l))
}

pub open spec fn dnf_security_updates(output: Seq<char>) -> nat {
    count_lines(text::lines(output), |l: Seq<char>| is_dnf_update_line(l))
}

fn apt_source_of(line: &str) -> (r: String)
    ensures
        r@ == apt_source(line@),
{
    let v = text::chars_of(line);
    let n: usize = v.len();
    let open: usize = text::find_char(v.as_slice(), 0, n, '(');
    assert(v@.subrange(0, n as int) =~= line@);
    if open >= n {
        assert(apt_source(line@) =~= Seq::<char>::empty());
        return text::string_of(v.as_slice(), n, n);
    }
    let close: usize = text::find_char(v.as_slice(), open + 1, n, ')');
    let blank: usize = text::find_char(v.as_slice(), open + 1, close, ' ');
    proof {
        let rest = text::tail(line@, '(');
        assert(rest =~= v@.subrange(open + 1, n as int));
        assert(text::head(rest, ')') =~= v@.subrange(open + 1, close as int));
        if blank < close {
            assert(apt_source(line@) =~= v@.subrange(blank + 1, close as int));
        } else {
            assert(apt_source(line@) =~= Seq::<char>::empty());
        }
    }
    if blank < close {
        text::string_of(v.as_slice(), blank + 1, close)
    } else {
        text::string_of(v.as_slice(), n, n)
    }
}

/// Count security updates in `apt-get --simulate upgrade` output.
pub fn count_apt_security_updates(output: &str) -> (r: usize)
    ensures
        r == apt_security_updates(output@),
{
    let lines = text::lines_of(output);
    let ghost p = |l: Seq<char>| is_apt_security_line(l);
    let mut count: usize = 0;
    let mut i: usize = 0;
    assert(text::texts(lines@).take(0) =~= Seq::empty());
    while i < lines.len()
        invariant
            count <= i <= lines@.len(),
            p == (|l: Seq<char>| is_apt_security_line(l)),
            count == count_lines(text::texts(lines@).take(i as int), p),
        decreases lines@.len() - i,
    {
        let ghost seen = text::texts(lines@).take(i + 1);
        assert(seen.drop_last() =~= text::texts(lines@).take(i as int));
        assert(seen.last() == lines@[i as int]@);
        let source = apt_source_of(lines[i].as_str());
        let low = text::lowered(source.as_str());
        if text::has_prefix(lines[i].as_str(), "Inst ") && text::has_text(
            low.as_str(),
            "security",
        ) {
            count = count + 1;
        }
        i = i + 1;
    }
    assert(text::texts(lines@).take(i as int) =~= text::texts(lines@));
    count
}

fn is_dnf_update(line: &str) -> (r: bool)
    ensures
        r == is_dnf_update_line(line@),
{
    let t = text::trimmed_end(line);
    let v = text::chars_of(t.as_str());
    let n: usize = v.len();
    if n == 0 || v[n - 1] == ':' {
        return false;
    }
    if text::has_prefix(t.as_str(), "Last metadata") || text::has_prefix(t.as_str(), "Obsoleting")
        || text::has_prefix(t.as_str(), "Security:") {
        return false;
    }
    let fields = text::words_of(t.as_str());
    if fields.len() != 3 {
        return false;
    }
    assert(text::words(t@)[0] == fields@[0]@);
    text::has_char(fields[0].as_str(), '.')
}

/// Count security updates in `dnf --security check-update` output.
pub fn count_dnf_security_updates(output: &str) -> (r: usize)
    ensures
        r == dnf_security_updates(output@),
{
    let lines = text::lines_of(output);
    let ghost p = |l: Seq<char>| is_dnf_update_line(l);
    let mut count: usize = 0;
    let mut i: usize = 0;
    assert(text::texts(lines@).take(0) =~= Seq::empty());
    while i < lines.len()
        invariant
            count <= i <= lines@.len(),
            p == (|l: Seq<char>| is_dnf_update_line(l)),
            count == count_lines(text::texts(lines@).take(i as int), p),
        decreases lines@.len() - i,
    {
        let ghost seen = text::texts(lines@).take(i + 1);
        assert(seen.drop_last() =~= text::texts(lines@).take(i as int));
        assert(seen.last() == lines@[i as int]@);
        if is_dnf_update(lines[i].as_str()) {
            count = count + 1;
        }
        i = i + 1;
    }
    assert(text::texts(lines@).take(i as int) =~= text::texts(lines@));
    count
}

// ---------------------------------------------------------------------------
// Laws
// ---------------------------------------------------------------------------

/// What two listings that stand one below the other announce is what each does.
pub proof fn law_apt_counts_line_by_line(a: Seq<char>, b: Seq<char>)
    ensures
        apt_security_updates(a + "\n"@ + b) == apt_security_updates(a) + apt_security_updates(b),
{
    reveal_strlit("Inst ");
    let p = |l: Seq<char>| is_apt_security_line(l);
    assert forall|l: Seq<char>| #[trigger] p(text::strip_cr(l)) == p(l) by {
        lemma_apt_line_cr(l);
    }
    lemma_count_joined(a, b, p);
}

/// The same of what `dnf` lists.
pub proof fn law_dnf_counts_line_by_line(a: Seq<char>, b: Seq<char>)
    ensures
        dnf_security_updates(a + "\n"@ + b) == dnf_security_updates(a) + dnf_security_updates(b),
{
    let p = |l: Seq<char>| is_dnf_update_line(l);
    assert forall|l: Seq<char>| #[trigger] p(text::strip_cr(l)) == p(l) by {
        if l.len() > 0 && l.last() == '\r' {
            assert(text::trim_end(l) == text::trim_end(l.drop_last()));
        }
    }
    lemma_count_joined(a, b, p);
}

/// Where no line starts with `Inst `, no update is pending.
pub proof fn law_apt_counts_installs_only(output: Seq<char>)
    requires
        forall|i: int|
            0 <= i < text::lines(output).len() ==> !text::starts_with(
                #[trigger] text::lines(output)[i],
                "Inst "@,
            ),
    ensures
        apt_security_updates(output) == 0,
{
    let p = |l: Seq<char>| is_apt_security_line(l);
    lemma_count_none(text::lines(output), p);
}

proof fn lemma_count_none(lines: Seq<Seq<char>>, p: spec_fn(Seq<char>) -> bool)
    requires
        forall|i: int| 0 <= i < lines.len() ==> !p(#[trigger] lines[i]),
    ensures
        count_lines(lines, p) == 0,
    decreases lines.len(),
{
    if lines.len() > 0 {
        assert(!p(lines[lines.len() - 1]));
        let front = lines.drop_last();
        assert forall|i: int| 0 <= i < front.len() implies !p(#[trigger] front[i]) by {
            assert(!p(lines[i]));
        }
        lemma_count_none(front, p);
    }
}

proof fn lemma_count_add(a: Seq<Seq<char>>, b: Seq<Seq<char>>, p: spec_fn(Seq<char>) -> bool)
    ensures
        count_lines(a + b, p) == count_lines(a, p) + count_lines(b, p),
    decreases b.len(),
{
    if b.len() == 0 {
        assert(a + b =~= a);
    } else {
        assert((a + b).drop_last() =~= a + b.drop_last());
        lemma_count_add(a, b.drop_last(), p);
    }
}

/// Counting goes line by line, where a carriage return at the end of a line does
/// not count and neither does an empty line.
proof fn lemma_count_joined(a: Seq<char>, b: Seq<char>, p: spec_fn(Seq<char>) -> bool)
    requires
        forall|l: Seq<char>| #[trigger] p(text::strip_cr(l)) == p(l),
        !p(Seq::empty()),
    ensures
        count_lines(text::lines(a + "\n"@ + b), p) == count_lines(text::lines(a), p) + count_lines(
            text::lines(b),
            p,
        ),
{
    reveal_strlit("\n");
    let ended = a.push('\n');
    let was = text::lines(a);
    let is = text::lines(ended);
    assert(a + "\n"@ + b =~= ended + b);
    text::lemma_lines_add(ended, b);
    lemma_count_add(is, text::lines(b), p);
    if text::is_ended(a) {
        text::lemma_lines_feed(a);
        assert(is.drop_last() =~= was);
    } else {
        text::lemma_lines_end(a);
        assert(is.drop_last() =~= was.drop_last());
        assert(p(text::strip_cr(was.last())) == p(was.last()));
    }
}

/// The same text, but for a carriage return at its end.
spec fn but_for_cr(a: Seq<char>, b: Seq<char>) -> bool {
    a == b || a == b.push('\r')
}

proof fn lemma_before_cr(s: Seq<char>, c: char)
    requires
        c != '\r',
    ensures
        text::before(s, c) < s.len() ==> text::before(s.push('\r'), c) == text::before(s, c),
        text::before(s, c) >= s.len() ==> text::before(s.push('\r'), c) == s.len() + 1,
{
    let t = s.push('\r');
    text::lemma_before(s, c);
    text::lemma_before(t, c);
    let k = text::before(s, c) as int;
    let m = text::before(t, c) as int;
    if k < s.len() {
        assert(t[k] == s[k]);
        if m < k {
            assert(t[m] == s[m]);
        }
    } else if m < s.len() {
        assert(t[m] == s[m]);
    }
}

proof fn lemma_tail_cr(a: Seq<char>, b: Seq<char>, c: char)
    requires
        but_for_cr(a, b),
        c != '\r',
    ensures
        but_for_cr(text::tail(a, c), text::tail(b, c)),
{
    lemma_before_cr(b, c);
    let k = text::before(b, c) as int;
    if a != b && k < b.len() {
        assert(a.skip(k + 1) =~= b.skip(k + 1).push('\r'));
    }
}

proof fn lemma_head_cr(a: Seq<char>, b: Seq<char>, c: char)
    requires
        but_for_cr(a, b),
        c != '\r',
    ensures
        but_for_cr(text::head(a, c), text::head(b, c)),
{
    lemma_before_cr(b, c);
    text::lemma_before(b, c);
    let k = text::before(b, c) as int;
    if a != b {
        if k < b.len() {
            assert(a.take(k) =~= b.take(k));
        } else {
            assert(a.take(b.len() as int + 1) =~= a);
            assert(b.take(k) =~= b);
        }
    }
}

/// A carriage return at its end does not change whether a line is a pending
/// security update.
proof fn lemma_apt_line_cr(line: Seq<char>)
    ensures
        is_apt_security_line(text::strip_cr(line)) == is_apt_security_line(line),
{
    reveal_strlit("Inst ");
    reveal_strlit("security");
    let b = text::strip_cr(line);
    if line.len() > 0 && line.last() == '\r' {
        assert(line =~= b.push('\r'));
        lemma_tail_cr(line, b, '(');
        let (la, lb) = (text::tail(line, '('), text::tail(b, '('));
        lemma_head_cr(la, lb, ')');
        let (ha, hb) = (text::head(la, ')'), text::head(lb, ')'));
        lemma_tail_cr(ha, hb, ' ');
        let x = text::lower_all(apt_source(line));
        let y = text::lower_all(apt_source(b));
        if x != y {
            assert(x =~= y.push('\r'));
            assert forall|i: int| text::occurs_at(x, "security"@, i) == text::occurs_at(
                y,
                "security"@,
                i,
            ) by {
                if 0 <= i && i + 8 <= y.len() {
                    assert(x.subrange(i, i + 8) =~= y.subrange(i, i + 8));
                } else if 0 <= i && i + 8 == x.len() {
                    assert(x.subrange(i, i + 8)[7] == '\r');
                }
            }
        }
        if line.len() >= 5 {
            if b.len() >= 5 {
                assert(line.take(5) =~= b.take(5));
            } else {
                assert(line.take(5)[4] == '\r');
            }
        }
    }
}

} // verus!
