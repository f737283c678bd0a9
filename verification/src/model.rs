//! The panel's own vocabulary: accounts, plans, subscriptions, sites.
use vstd::prelude::*;
use vstd::string::StringExecFns;

use crate::error;
use crate::error::{ErrorCode, FerrumError, Problem};
use crate::text;

pub mod laws;

verus! {

// ---------------------------------------------------------------------------
// The machine
// ---------------------------------------------------------------------------

/// The distribution family a server belongs to.
#[derive(Debug, Clone, Copy, PartialEq, Eq, Structural)]
pub enum Family {
    Debian,
    Rhel,
}

/// A PHP release line.
#[derive(Debug, Clone, Copy, PartialEq, Eq, Structural)]
pub struct PhpVersion {
    pub major: u8,
    pub minor: u8,
}

impl PhpVersion {
    /// `8.3`.
    pub open spec fn dotted(self) -> Seq<char> {
        text::decimal(self.major as nat) + "."@ + text::decimal(self.minor as nat)
    }

    /// `83`, as Remi's packages spell it.
    pub open spec fn compact(self) -> Seq<char> {
        text::decimal(self.major as nat) + text::decimal(self.minor as nat)
    }

    pub fn as_text(self) -> (r: String)
        ensures
            r@ == self.dotted(),
    {
        let mut s = text::decimal_of(self.major as u64);
        s.append(".");
        s.append(text::decimal_of(self.minor as u64).as_str());
        s
    }

    pub fn compact_text(self) -> (r: String)
        ensures
            r@ == self.compact(),
    {
        let mut s = text::decimal_of(self.major as u64);
        s.append(text::decimal_of(self.minor as u64).as_str());
        s
    }

    /// The release line a caller asks for, if it is one of those there are.
    pub fn vetted(text: &str, known: &Vec<PhpVersion>) -> (r: Result<PhpVersion, FerrumError>)
        ensures
            match r {
                Ok(v) => known@.contains(v) && v.dotted() == text@,
                Err(e) => e@ == unknown_version(text@) && forall|v: PhpVersion| #[trigger]
                    known@.contains(v) ==> v.dotted() != text@,
            },
    {
        let mut i: usize = 0;
        while i < known.len()
            invariant
                i <= known@.len(),
                forall|j: int| 0 <= j < i ==> (#[trigger] known@[j]).dotted() != text@,
            decreases known@.len() - i,
        {
            if text::same(known[i].as_text().as_str(), text) {
                assert(known@.contains(known@[i as int]));
                return Ok(known[i]);
            }
            i = i + 1;
        }
        let mut m = "`".to_owned();
        m.append(text);
        m.append("` is not a PHP version the panel manages");
        Err(FerrumError::new(ErrorCode::InvalidInput, m.as_str()))
    }
}

pub open spec fn unknown_version(text: Seq<char>) -> Problem {
    error::problem(
        ErrorCode::InvalidInput,
        "`"@ + text + "` is not a PHP version the panel manages"@,
    )
}

/// What a caller says who asks for PHP and gives no version.
pub open spec fn missing_version() -> Problem {
    error::problem(ErrorCode::InvalidInput, "PHP is asked for without a version"@)
}

/// The release line of a request that must name one.
pub fn required_version(text: Option<&str>, known: &Vec<PhpVersion>) -> (r: Result<
    PhpVersion,
    FerrumError,
>)
    ensures
        match (text, r) {
            (Some(t), Ok(v)) => known@.contains(v) && v.dotted() == t@,
            (Some(t), Err(e)) => e@ == unknown_version(t@) && forall|v: PhpVersion| #[trigger]
                known@.contains(v) ==> v.dotted() != t@,
            (None, Ok(_)) => false,
            (None, Err(e)) => e@ == missing_version(),
        },
{
    match text {
        Some(t) => PhpVersion::vetted(t, known),
        None => Err(
            FerrumError::new(ErrorCode::InvalidInput, "PHP is asked for without a version"),
        ),
    }
}

/// What a finished command left behind.
#[derive(Debug)]
pub struct CmdOutput {
    pub status: i32,
    pub stdout: String,
    /// The command's own words about why it failed.
    pub failure: String,
}

impl CmdOutput {
    pub fn success(&self) -> (r: bool)
        ensures
            r == (self.status == 0),
    {
        self.status == 0
    }
}

// ---------------------------------------------------------------------------
// Names
// ---------------------------------------------------------------------------

/// Characters of account and application names.
pub open spec fn is_name_char(c: char) -> bool {
    text::is_lower(c) || text::is_digit(c) || c == '_' || c == '-'
}

pub open spec fn all_name_chars(s: Seq<char>) -> bool {
    forall|i: int| 0 <= i < s.len() ==> is_name_char(#[trigger] s[i])
}

/// `[a-z0-9_-]{1,32}`.
pub open spec fn is_linux_user(s: Seq<char>) -> bool {
    1 <= s.len() <= 32 && all_name_chars(s)
}

/// `[a-z0-9][a-z0-9_-]{0,31}`.
pub open spec fn is_app_name(s: Seq<char>) -> bool {
    1 <= s.len() <= 32 && all_name_chars(s) && (text::is_lower(s[0]) || text::is_digit(s[0]))
}

/// Characters systemd accepts in a unit name.
pub open spec fn is_unit_char(c: char) -> bool {
    text::is_letter(c) || text::is_digit(c) || c == ':' || c == '-' || c == '_' || c == '.' || c
        == '@'
}

pub open spec fn is_unit_name(s: Seq<char>) -> bool {
    1 <= s.len() <= 255 && forall|i: int| 0 <= i < s.len() ==> is_unit_char(#[trigger] s[i])
}

/// The components of a `/`-separated path.
pub open spec fn components(s: Seq<char>) -> Seq<Seq<char>>
    decreases s.len(),
{
    let k = text::before(s, '/') as int;
    if k >= s.len() {
        seq![s]
    } else {
        seq![s.take(k)] + components(s.skip(k + 1))
    }
}

/// A path inside a tenant's home: relative, without `..`, without control
/// characters.
pub open spec fn is_tenant_path(s: Seq<char>) -> bool {
    &&& !(s.len() > 0 && s[0] == '/')
    &&& !components(s).contains(".."@)
    &&& forall|i: int| 0 <= i < s.len() ==> !text::is_control(#[trigger] s[i])
}

fn has_name_chars(v: &Vec<char>) -> (r: bool)
    ensures
        r == all_name_chars(v@),
{
    let mut i: usize = 0;
    while i < v.len()
        invariant
            i <= v@.len(),
            forall|j: int| 0 <= j < i ==> is_name_char(#[trigger] v@[j]),
        decreases v@.len() - i,
    {
        let c = v[i];
        if !(text::char_is_lower(c) || text::char_is_digit(c) || c == '_' || c == '-') {
            return false;
        }
        i = i + 1;
    }
    true
}

/// Whether `..` is one of the components of `v[lo..]`.
fn climbs(v: &Vec<char>, lo: usize) -> (r: bool)
    requires
        lo <= v@.len(),
    ensures
        r == components(v@.skip(lo as int)).contains(".."@),
    decreases v@.len() - lo,
{
    let n: usize = v.len();
    let k: usize = text::find_char(v.as_slice(), lo, n, '/');
    let ghost rest = v@.skip(lo as int);
    assert(v@.subrange(lo as int, n as int) =~= rest);
    let part = text::string_of(v.as_slice(), lo, k);
    assert(part@ =~= rest.take(k - lo));
    let up = text::same(part.as_str(), "..");
    if k >= n {
        assert(rest.take(k - lo) =~= rest);
        assert(components(rest) =~= seq![rest]);
        assert(components(rest)[0] == rest);
        up
    } else {
        let more = climbs(v, k + 1);
        assert(rest.skip(k - lo + 1) =~= v@.skip(k + 1));
        let ghost tail = components(v@.skip(k + 1));
        let ghost all = components(rest);
        assert(all =~= seq![part@] + tail);
        proof {
            if up {
                assert(all[0] == ".."@);
            }
            if more {
                let j = choose|j: int| 0 <= j < tail.len() && tail[j] == ".."@;
                assert(all[j + 1] == ".."@);
            }
            if all.contains(".."@) {
                let j = choose|j: int| 0 <= j < all.len() && all[j] == ".."@;
                if j > 0 {
                    assert(tail[j - 1] == ".."@);
                }
            }
        }
        up || more
    }
}

fn quoted(s: &str, rest: &str) -> (r: String)
    ensures
        r@ == "`"@ + s@ + rest@,
{
    let mut m = "`".to_owned();
    m.append(s);
    m.append(rest);
    m
}

/// A domain name that passed the rules for domain names. It is made from their
/// verdict only.
#[derive(Debug)]
pub struct Domain {
    name: String,
}

impl View for Domain {
    type V = Seq<char>;

    closed spec fn view(&self) -> Seq<char> {
        self.name@
    }
}

impl Clone for Domain {
    fn clone(&self) -> (r: Self)
        ensures
            r@ == self@,
    {
        Domain { name: self.name.as_str().to_owned() }
    }
}

pub open spec fn domain_text(d: Option<Domain>) -> Option<Seq<char>> {
    match d {
        Some(d) => Some(d@),
        None => None,
    }
}

impl Domain {
    /// Takes what the rules made of a text: the domain name in the form it is
    /// kept in, or why it is none.
    pub fn vetted(verdict: Result<String, FerrumError>) -> (r: Result<Domain, FerrumError>)
        ensures
            match verdict {
                Ok(name) => r matches Ok(d) && d@ == name@,
                Err(e) => r matches Err(f) && f@ == e@,
            },
    {
        match verdict {
            Ok(name) => Ok(Domain { name }),
            Err(e) => Err(e),
        }
    }

    pub fn as_str(&self) -> (r: &str)
        ensures
            r@ == self@,
    {
        self.name.as_str()
    }
}

/// A tenant's Linux account name.
#[derive(Debug, PartialEq, Eq)]
pub struct LinuxUser {
    name: String,
}

impl Clone for LinuxUser {
    fn clone(&self) -> (r: Self)
        ensures
            r@ == self@,
    {
        proof {
            use_type_invariant(self);
        }
        LinuxUser { name: self.name.clone() }
    }
}

impl View for LinuxUser {
    type V = Seq<char>;

    closed spec fn view(&self) -> Seq<char> {
        self.name@
    }
}

impl LinuxUser {
    #[verifier::type_invariant]
    spec fn valid(self) -> bool {
        is_linux_user(self.name@)
    }

    pub fn parse(s: &str) -> (r: Result<LinuxUser, FerrumError>)
        ensures
            match r {
                Ok(u) => is_linux_user(s@) && u@ == s@,
                Err(e) => !is_linux_user(s@) && e@ == error::problem(
                    ErrorCode::InvalidInput,
                    "`"@ + s@ + "` is not a valid Linux account name"@,
                ),
            },
    {
        let v = text::chars_of(s);
        if v.len() >= 1 && v.len() <= 32 && has_name_chars(&v) {
            Ok(LinuxUser { name: s.to_owned() })
        } else {
            Err(
                FerrumError::new(
                    ErrorCode::InvalidInput,
                    quoted(s, "` is not a valid Linux account name").as_str(),
                ),
            )
        }
    }

    pub fn as_str(&self) -> (r: &str)
        ensures
            r@ == self@,
            is_linux_user(r@),
    {
        proof {
            use_type_invariant(self);
        }
        self.name.as_str()
    }
}

/// The name of a tenant's application.
#[derive(Debug, PartialEq, Eq)]
pub struct AppName {
    name: String,
}

impl Clone for AppName {
    fn clone(&self) -> (r: Self)
        ensures
            r@ == self@,
    {
        proof {
            use_type_invariant(self);
        }
        AppName { name: self.name.clone() }
    }
}

impl View for AppName {
    type V = Seq<char>;

    closed spec fn view(&self) -> Seq<char> {
        self.name@
    }
}

impl AppName {
    #[verifier::type_invariant]
    spec fn valid(self) -> bool {
        is_app_name(self.name@)
    }

    pub fn parse(s: &str) -> (r: Result<AppName, FerrumError>)
        ensures
            match r {
                Ok(u) => is_app_name(s@) && u@ == s@,
                Err(e) => !is_app_name(s@) && e@ == error::problem(
                    ErrorCode::InvalidInput,
                    "`"@ + s@ + "` is not a valid application name"@,
                ),
            },
    {
        let v = text::chars_of(s);
        if v.len() >= 1 && v.len() <= 32 && has_name_chars(&v) && (text::char_is_lower(v[0])
            || text::char_is_digit(v[0])) {
            Ok(AppName { name: s.to_owned() })
        } else {
            Err(
                FerrumError::new(
                    ErrorCode::InvalidInput,
                    quoted(s, "` is not a valid application name").as_str(),
                ),
            )
        }
    }

    pub fn as_str(&self) -> (r: &str)
        ensures
            r@ == self@,
            is_app_name(r@),
    {
        proof {
            use_type_invariant(self);
        }
        self.name.as_str()
    }
}

/// A systemd unit name.
#[derive(Debug, PartialEq, Eq)]
pub struct UnitName {
    name: String,
}

impl Clone for UnitName {
    fn clone(&self) -> (r: Self)
        ensures
            r@ == self@,
    {
        proof {
            use_type_invariant(self);
        }
        UnitName { name: self.name.clone() }
    }
}

impl View for UnitName {
    type V = Seq<char>;

    closed spec fn view(&self) -> Seq<char> {
        self.name@
    }
}

impl UnitName {
    #[verifier::type_invariant]
    spec fn valid(self) -> bool {
        is_unit_name(self.name@)
    }

    pub fn parse(s: &str) -> (r: Result<UnitName, FerrumError>)
        ensures
            match r {
                Ok(u) => is_unit_name(s@) && u@ == s@,
                Err(e) => !is_unit_name(s@) && e@ == error::problem(
                    ErrorCode::InvalidInput,
                    "`"@ + s@ + "` is not a valid unit name"@,
                ),
            },
    {
        let v = text::chars_of(s);
        let mut ok = v.len() >= 1 && v.len() <= 255;
        let mut i: usize = 0;
        while ok && i < v.len()
            invariant
                i <= v@.len(),
                v@ == s@,
                ok ==> 1 <= v@.len() <= 255,
                ok ==> forall|j: int| 0 <= j < i ==> is_unit_char(#[trigger] v@[j]),
                !ok ==> !is_unit_name(v@),
            decreases v@.len() - i,
        {
            let c = v[i];
            if !(text::char_is_lower(c) || text::char_is_upper(c) || text::char_is_digit(c) || c
                == ':' || c == '-' || c == '_' || c == '.' || c == '@') {
                assert(!is_unit_char(v@[i as int]));
                ok = false;
            }
            i = i + 1;
        }
        if ok {
            Ok(UnitName { name: s.to_owned() })
        } else {
            Err(
                FerrumError::new(
                    ErrorCode::InvalidInput,
                    quoted(s, "` is not a valid unit name").as_str(),
                ),
            )
        }
    }

    /// A unit name that is valid by construction.
    pub(crate) fn known(s: String) -> (r: UnitName)
        requires
            is_unit_name(s@),
        ensures
            r@ == s@,
    {
        UnitName { name: s }
    }

    pub fn as_str(&self) -> (r: &str)
        ensures
            r@ == self@,
            is_unit_name(r@),
    {
        proof {
            use_type_invariant(self);
        }
        self.name.as_str()
    }
}

/// A path inside a tenant's home directory.
#[derive(Debug, PartialEq, Eq)]
pub struct TenantPath {
    path: String,
}

impl Clone for TenantPath {
    fn clone(&self) -> (r: Self)
        ensures
            r@ == self@,
    {
        proof {
            use_type_invariant(self);
        }
        TenantPath { path: self.path.clone() }
    }
}

impl View for TenantPath {
    type V = Seq<char>;

    closed spec fn view(&self) -> Seq<char> {
        self.path@
    }
}

impl TenantPath {
    #[verifier::type_invariant]
    spec fn valid(self) -> bool {
        is_tenant_path(self.path@)
    }

    pub fn parse(s: &str) -> (r: Result<TenantPath, FerrumError>)
        ensures
            match r {
                Ok(p) => is_tenant_path(s@) && p@ == s@,
                Err(e) => !is_tenant_path(s@) && e@ == error::problem(
                    ErrorCode::InvalidPath,
                    "`"@ + s@ + "` is not a path inside the home directory"@,
                ),
            },
    {
        let v = text::chars_of(s);
        let absolute = v.len() > 0 && v[0] == '/';
        let up = climbs(&v, 0);
        assert(v@.skip(0) =~= s@);
        let mut clean = true;
        let mut i: usize = 0;
        while clean && i < v.len()
            invariant
                i <= v@.len(),
                v@ == s@,
                clean ==> forall|j: int| 0 <= j < i ==> !text::is_control(#[trigger] v@[j]),
                !clean ==> exists|j: int| 0 <= j < v@.len() && text::is_control(#[trigger] v@[j]),
            decreases v@.len() - i,
        {
            if text::char_is_control(v[i]) {
                assert(text::is_control(v@[i as int]));
                clean = false;
            }
            i = i + 1;
        }
        if !absolute && !up && clean {
            Ok(TenantPath { path: s.to_owned() })
        } else {
            Err(
                FerrumError::new(
                    ErrorCode::InvalidPath,
                    quoted(s, "` is not a path inside the home directory").as_str(),
                ),
            )
        }
    }

    pub fn as_str(&self) -> (r: &str)
        ensures
            r@ == self@,
            is_tenant_path(r@),
    {
        proof {
            use_type_invariant(self);
        }
        self.path.as_str()
    }
}

// ---------------------------------------------------------------------------
// Who is asking
// ---------------------------------------------------------------------------

#[derive(Debug, Clone, Copy, PartialEq, Eq, Structural)]
pub enum Role {
    Admin,
    Reseller,
    Customer,
}

#[derive(Debug, Clone, Copy, PartialEq, Eq, Structural)]
pub enum Permission {
    NodeApps,
    PlanManage,
    ServerManage,
    ServerRead,
    SiteManage,
    SiteRead,
    SshAccess,
    StackManage,
    TerminalAccess,
    UserManage,
}

/// Which tenants' rows a caller may see.
#[derive(Debug, Clone, Copy, PartialEq, Eq, Structural)]
pub enum TenantScope {
    Global,
    Reseller { reseller_id: i64 },
    Customer { customer_id: i64 },
    Subscription { subscription_id: i64, customer_id: i64 },
}

/// Who a request claims to come from.
#[derive(Debug)]
pub struct AuthContext {
    pub actor_user_id: i64,
    pub acting_role: Role,
    pub tenant_scope: TenantScope,
    pub permissions: Vec<Permission>,
    pub impersonator_id: Option<i64>,
    pub request_id: String,
}

/// The permissions as a set.
pub open spec fn granted(v: Seq<Permission>) -> Set<Permission> {
    v.to_set()
}

pub open spec fn denied_problem() -> error::Problem {
    error::problem(ErrorCode::PermissionDenied, "you do not have permission to do that"@)
}

pub fn holds(permissions: &Vec<Permission>, wanted: Permission) -> (r: bool)
    ensures
        r == granted(permissions@).contains(wanted),
{
    let mut i: usize = 0;
    while i < permissions.len()
        invariant
            i <= permissions@.len(),
            forall|j: int| 0 <= j < i ==> #[trigger] permissions@[j] != wanted,
        decreases permissions@.len() - i,
    {
        if permissions[i] == wanted {
            return true;
        }
        i = i + 1;
    }
    false
}

impl AuthContext {
    /// Refuse a caller who does not hold `wanted`.
    pub fn require(&self, wanted: Permission) -> (r: Result<(), FerrumError>)
        ensures
            error::outcome(r) == (if granted(self.permissions@).contains(wanted) {
                Ok::<(), error::Problem>(())
            } else {
                Err::<(), error::Problem>(denied_problem())
            }),
    {
        if holds(&self.permissions, wanted) {
            Ok(())
        } else {
            Err(
                FerrumError::new(
                    ErrorCode::PermissionDenied,
                    "you do not have permission to do that",
                ),
            )
        }
    }
}

// ---------------------------------------------------------------------------
// Plans and subscriptions
// ---------------------------------------------------------------------------

#[derive(Debug)]
pub struct Plan {
    pub id: i64,
    /// `None` for a plan every reseller may hand out.
    pub owner_user_id: Option<i64>,
    pub name: String,
    pub max_sites: i64,
    pub max_dbs: i64,
    pub storage_mb: i64,
    pub can_ssh: bool,
    pub can_cron: bool,
    pub can_node_apps: bool,
}

#[derive(Debug, Clone, Copy, PartialEq, Eq, Structural)]
pub enum SubscriptionStatus {
    Active,
    Suspended,
    PendingDelete,
}

impl SubscriptionStatus {
    pub open spec fn serves(self) -> bool {
        self == SubscriptionStatus::Active
    }

    pub fn can_serve(self) -> (r: bool)
        ensures
            r == self.serves(),
    {
        self == SubscriptionStatus::Active
    }
}

#[derive(Debug)]
pub struct Subscription {
    pub id: i64,
    pub customer_id: i64,
    pub plan_id: Option<i64>,
    pub linux_user: String,
    pub home_dir: String,
    pub status: SubscriptionStatus,
    pub suspended_reason: Option<String>,
}

// ---------------------------------------------------------------------------
// The stack
// ---------------------------------------------------------------------------

/// How far a component of the stack is, as it is recorded.
#[derive(Debug, Clone, Copy, PartialEq, Eq, Structural)]
pub enum ComponentStatus {
    Absent,
    Installing,
    Installed,
    Removing,
    Failed,
}

impl ComponentStatus {
    pub open spec fn name(self) -> Seq<char> {
        match self {
            ComponentStatus::Absent => "absent"@,
            ComponentStatus::Installing => "installing"@,
            ComponentStatus::Installed => "installed"@,
            ComponentStatus::Removing => "removing"@,
            ComponentStatus::Failed => "failed"@,
        }
    }

    pub fn as_str(self) -> (r: &'static str)
        ensures
            r@ == self.name(),
    {
        match self {
            ComponentStatus::Absent => "absent",
            ComponentStatus::Installing => "installing",
            ComponentStatus::Installed => "installed",
            ComponentStatus::Removing => "removing",
            ComponentStatus::Failed => "failed",
        }
    }
}

// ---------------------------------------------------------------------------
// Sites
// ---------------------------------------------------------------------------

#[derive(Debug, Clone, Copy, PartialEq, Eq, Structural)]
pub enum SiteType {
    Php,
    Static,
    Proxy,
    Redirect,
}

#[derive(Debug, Clone, Copy, PartialEq, Eq, Structural)]
pub enum SiteStatus {
    Provisioning,
    Active,
    Suspended,
    Failed,
}

#[derive(Debug, Clone, Copy, PartialEq, Eq, Structural)]
pub enum WwwPolicy {
    /// Serve both spellings as they are.
    Leave,
    Add,
    Strip,
}

/// A site as it is stored.
#[derive(Debug)]
pub struct Site {
    pub id: i64,
    pub subscription_id: i64,
    pub domain: String,
    pub site_type: SiteType,
    pub status: SiteStatus,
    pub php_version: Option<PhpVersion>,
    pub root_dir: String,
    pub www_policy: WwwPolicy,
    pub force_https: bool,
    pub http3: bool,
    pub maintenance_mode: bool,
    pub client_max_body_size: String,
    pub custom_nginx_snippet: Option<String>,
    pub php_ini_overrides: Option<String>,
    pub rate_limit_enabled: bool,
    pub rate_limit_rps: i64,
    pub rate_limit_burst: i64,
    pub conn_limit: i64,
    pub proxy_port: Option<i64>,
    pub redirect_target: Option<String>,
    pub redirect_code: i64,
}

// ---------------------------------------------------------------------------
// Paths
// ---------------------------------------------------------------------------

pub open spec fn home_of(user: Seq<char>) -> Seq<char> {
    "/home/"@ + user
}

pub open spec fn app_dir_of(user: Seq<char>, app: Seq<char>) -> Seq<char> {
    home_of(user) + "/apps/"@ + app
}

pub open spec fn unit_path_of(unit: Seq<char>) -> Seq<char> {
    "/etc/systemd/system/"@ + unit
}

pub open spec fn unit_dropin_of(unit: Seq<char>, name: Seq<char>) -> Seq<char> {
    unit_path_of(unit) + ".d/"@ + name
}

pub fn home_path(user: &str) -> (r: String)
    ensures
        r@ == home_of(user@),
{
    let mut s = "/home/".to_owned();
    s.append(user);
    s
}

pub fn app_dir_path(user: &str, app: &str) -> (r: String)
    ensures
        r@ == app_dir_of(user@, app@),
{
    let mut s = home_path(user);
    s.append("/apps/");
    s.append(app);
    s
}

pub fn unit_path(unit: &str) -> (r: String)
    ensures
        r@ == unit_path_of(unit@),
{
    let mut s = "/etc/systemd/system/".to_owned();
    s.append(unit);
    s
}

pub fn unit_dropin_path(unit: &str, name: &str) -> (r: String)
    ensures
        r@ == unit_dropin_of(unit@, name@),
{
    let mut s = unit_path(unit);
    s.append(".d/");
    s.append(name);
    s
}

/// One path inside another, of which the first does not end in a slash. An
/// absolute second path replaces the first.
pub open spec fn join_path(base: Seq<char>, rest: Seq<char>) -> Seq<char> {
    if rest.len() > 0 && rest[0] == '/' {
        rest
    } else {
        base + "/"@ + rest
    }
}

pub fn joined_path(base: &str, rest: &str) -> (r: String)
    ensures
        r@ == join_path(base@, rest@),
{
    let v = text::chars_of(rest);
    if v.len() > 0 && v[0] == '/' {
        rest.to_owned()
    } else {
        let mut s = base.to_owned();
        s.append("/");
        s.append(rest);
        s
    }
}

// ---------------------------------------------------------------------------
// Services
// ---------------------------------------------------------------------------

/// systemd's view of a unit.
#[derive(Debug, Clone, Copy, PartialEq, Eq, Structural)]
pub enum UnitState {
    Active,
    Inactive,
    Failed,
    NotFound,
    Unknown,
}

impl UnitState {
    pub open spec fn name(self) -> Seq<char> {
        match self {
            UnitState::Active => "active"@,
            UnitState::Inactive => "inactive"@,
            UnitState::Failed => "failed"@,
            UnitState::NotFound => "notfound"@,
            UnitState::Unknown => "unknown"@,
        }
    }

    pub fn as_text(self) -> (r: &'static str)
        ensures
            r@ == self.name(),
    {
        match self {
            UnitState::Active => "active",
            UnitState::Inactive => "inactive",
            UnitState::Failed => "failed",
            UnitState::NotFound => "notfound",
            UnitState::Unknown => "unknown",
        }
    }
}

#[derive(Debug, Clone, Copy, PartialEq, Eq, Structural)]
pub struct UnitStatus {
    pub state: UnitState,
    pub memory_bytes: Option<u64>,
}

impl UnitStatus {
    pub open spec fn installed(self) -> bool {
        self.state != UnitState::NotFound
    }

    pub open spec fn active(self) -> bool {
        self.state == UnitState::Active
    }

    pub fn is_installed(&self) -> (r: bool)
        ensures
            r == self.installed(),
    {
        self.state != UnitState::NotFound
    }

    pub fn is_active(&self) -> (r: bool)
        ensures
            r == self.active(),
    {
        self.state == UnitState::Active
    }
}

/// A page of a listing: how many rows, and from where.
pub open spec fn page_of(limit: Option<i64>, offset: Option<i64>, default: i64) -> (i64, i64) {
    (
        match limit {
            Some(n) => n,
            None => default,
        },
        match offset {
            Some(n) => n,
            None => 0,
        },
    )
}

pub fn page(limit: Option<i64>, offset: Option<i64>, default: i64) -> (r: (i64, i64))
    ensures
        r == page_of(limit, offset, default),
{
    (limit.unwrap_or(default), offset.unwrap_or(0))
}

} // verus!
