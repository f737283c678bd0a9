//! Sites: what turns a domain into something that is served.
//!
//! The order is the same every time: the account and its directories, then the
//! PHP pool, then the vhost that points at it. What the operations decide is
//! here; the rendering itself is the caller's part.
use vstd::prelude::*;
use vstd::string::StringExecFns;
use crate::error;
use crate::error::{ErrorCode, FerrumError, Problem};
use crate::model;
use crate::model::{
    ComponentStatus, Domain, LinuxUser, PhpVersion, Plan, Site, SiteStatus, SiteType, Subscription, UnitStatus, WwwPolicy,
};
use crate::plan;
use crate::procedure;
use crate::procedure::{Attempt, Course, Procedure};
use crate::text;

pub mod laws;

verus! {

/// How long a site's logs are kept, in days.
pub const LOG_KEEP_DAYS: u32 = 14;

/// The largest custom snippet, in bytes.
pub const MAX_SNIPPET: usize = 16384;

// ---------------------------------------------------------------------------
// Inputs
// ---------------------------------------------------------------------------

/// The kind of a site as a caller spells it.
#[derive(Debug, Clone, Copy, PartialEq, Eq, Structural)]
pub enum SiteTypeInput {
    Php,
    Static,
    Proxy,
    Redirect,
}

pub open spec fn stored_type(v: SiteTypeInput) -> SiteType {
    match v {
        SiteTypeInput::Php => SiteType::Php,
        SiteTypeInput::Static => SiteType::Static,
        SiteTypeInput::Proxy => SiteType::Proxy,
        SiteTypeInput::Redirect => SiteType::Redirect,
    }
}

impl From<SiteTypeInput> for SiteType {
    fn from(v: SiteTypeInput) -> (r: SiteType) {
        match v {
            SiteTypeInput::Php => SiteType::Php,
            SiteTypeInput::Static => SiteType::Static,
            SiteTypeInput::Proxy => SiteType::Proxy,
            SiteTypeInput::Redirect => SiteType::Redirect,
        }
    }
}

impl vstd::std_specs::convert::FromSpecImpl<SiteTypeInput> for SiteType {
    open spec fn obeys_from_spec() -> bool {
        true
    }

    open spec fn from_spec(v: SiteTypeInput) -> SiteType {
        stored_type(v)
    }
}

/// What is done about `www.`, as a caller spells it.
#[derive(Debug, Clone, Copy, PartialEq, Eq, Structural)]
pub enum WwwPolicyInput {
    Leave,
    Add,
    Strip,
}

pub open spec fn stored_policy(v: WwwPolicyInput) -> WwwPolicy {
    match v {
        WwwPolicyInput::Leave => WwwPolicy::Leave,
        WwwPolicyInput::Add => WwwPolicy::Add,
        WwwPolicyInput::Strip => WwwPolicy::Strip,
    }
}

impl From<WwwPolicyInput> for WwwPolicy {
    fn from(v: WwwPolicyInput) -> (r: WwwPolicy) {
        match v {
            WwwPolicyInput::Leave => WwwPolicy::Leave,
            WwwPolicyInput::Add => WwwPolicy::Add,
            WwwPolicyInput::Strip => WwwPolicy::Strip,
        }
    }
}

impl vstd::std_specs::convert::FromSpecImpl<WwwPolicyInput> for WwwPolicy {
    open spec fn obeys_from_spec() -> bool {
        true
    }

    open spec fn from_spec(v: WwwPolicyInput) -> WwwPolicy {
        stored_policy(v)
    }
}

/// What a site is where its kind is left out.
pub fn default_site_type() -> (r: SiteTypeInput)
    ensures
        r == SiteTypeInput::Php,
{
    SiteTypeInput::Php
}

// ---------------------------------------------------------------------------
// site.list
// ---------------------------------------------------------------------------

/// `site.list`.
pub struct List;

#[derive(Debug)]
pub struct ListInput {
    pub limit: Option<i64>,
    pub offset: Option<i64>,
}

impl ListInput {
    pub fn page(&self) -> (r: (i64, i64))
        ensures
            r == model::page_of(self.limit, self.offset, 100),
    {
        model::page(self.limit, self.offset, 100)
    }
}

#[derive(Debug)]
pub struct SiteView {
    pub site: Site,
    pub aliases: Vec<String>,
    pub linux_user: String,
    pub has_certificate: bool,
    pub certificate_expires_in_days: Option<i64>,
}

#[derive(Debug)]
pub struct ListOutput {
    pub sites: Vec<SiteView>,
}

/// An active certificate, as far as a list of sites tells of it.
#[derive(Debug, Clone, Copy)]
pub struct CertificateFacts {
    pub days_remaining: Option<i64>,
}

impl List {
    /// One site as it is listed. A site whose subscription is out of sight is
    /// shown without an account.
    pub fn view(
        site: Site,
        aliases: Vec<String>,
        subscription: &Option<Subscription>,
        certificate: Option<CertificateFacts>,
    ) -> (r: SiteView)
        ensures
            r.site == site,
            r.aliases == aliases,
            r.linux_user@ == (match subscription {
                Some(s) => s.linux_user@,
                None => Seq::<char>::empty(),
            }),
            r.has_certificate == (certificate is Some),
            r.certificate_expires_in_days == (match certificate {
                Some(c) => c.days_remaining,
                None => None,
            }),
    {
        let linux_user = match subscription {
            Some(s) => s.linux_user.as_str().to_owned(),
            None => String::new(),
        };
        SiteView {
            site,
            aliases,
            linux_user,
            has_certificate: certificate.is_some(),
            certificate_expires_in_days: match certificate {
                Some(c) => c.days_remaining,
                None => None,
            },
        }
    }
}

// ---------------------------------------------------------------------------
// PHP
// ---------------------------------------------------------------------------

/// What is known of a PHP version: what is recorded, and what the service
/// manager says of its unit (`None` if it could not say).
#[derive(Debug, Clone, Copy)]
pub struct PhpFacts {
    pub component: Option<ComponentStatus>,
    pub unit: Option<UnitStatus>,
}

/// The version is there: on record, or, failing that, as an installed unit.
pub open spec fn php_present(facts: PhpFacts) -> bool {
    facts.component == Some(ComponentStatus::Installed) || match facts.unit {
        Some(u) => u.installed(),
        None => false,
    }
}

pub open spec fn php_missing(version: PhpVersion) -> Problem {
    error::field_problem(
        ErrorCode::NotFound,
        "PHP "@ + version.dotted()
            + " is not installed. Install it from the Stack Manager first."@,
        "php_version"@,
    )
}

/// Refuses a PHP version that is not installed: its sites would answer nothing
/// but errors.
pub fn require_php_installed(version: PhpVersion, facts: &PhpFacts) -> (r: Result<(), FerrumError>)
    ensures
        error::outcome(r) == (if php_present(*facts) {
            Ok::<(), Problem>(())
        } else {
            Err::<(), Problem>(php_missing(version))
        }),
{
    if let Some(status) = facts.component {
        if status == ComponentStatus::Installed {
            return Ok(());
        }
    }
    if let Some(u) = &facts.unit {
        if u.is_installed() {
            return Ok(());
        }
    }
    let mut m = "PHP ".to_owned();
    let v = version.as_text();
    m.append(v.as_str());
    m.append(" is not installed. Install it from the Stack Manager first.");
    Err(FerrumError::new(ErrorCode::NotFound, m.as_str()).with_field("php_version"))
}

// ---------------------------------------------------------------------------
// site.create
// ---------------------------------------------------------------------------

/// `site.create`.
pub struct Create;

#[derive(Debug)]
pub struct CreateInput {
    pub domain: Domain,
    pub site_type: SiteTypeInput,
    pub php_version: Option<PhpVersion>,
    /// Which subscription owns it; the caller's own if left out.
    pub subscription_id: Option<i64>,
    /// Also serve `www.` and the domain.
    pub with_www: bool,
    pub proxy_port: Option<u16>,
    pub redirect_target: Option<Domain>,
}

#[derive(Debug)]
pub struct CreateOutput {
    pub site_id: i64,
    pub domain: String,
    pub document_root: String,
    pub linux_user: String,
    pub next_steps: Vec<String>,
}

/// A site that is to be stored.
#[derive(Debug)]
pub struct NewSite {
    pub subscription_id: i64,
    pub domain: String,
    pub site_type: SiteType,
    pub php_version: Option<PhpVersion>,
    pub root_dir: String,
    pub proxy_port: Option<u16>,
    pub redirect_target: Option<String>,
}

/// What the store and the machine say about a site to create.
#[derive(Debug)]
pub struct CreateFacts {
    /// Of the PHP version that is asked for.
    pub php: PhpFacts,
    /// The subscription that is named, if the caller's scope has it, or the
    /// caller's own.
    pub subscription: Option<Subscription>,
    pub plan: Option<Plan>,
    /// How many sites of the subscription count against the plan.
    pub used: i64,
    /// The site that has the domain already, whoever owns it.
    pub existing: Option<Site>,
}

/// A site that may be created.
#[derive(Debug)]
pub struct Accepted {
    pub linux_user: LinuxUser,
    pub wanted: NewSite,
    /// The failed site whose row is used again.
    pub reclaim: Option<i64>,
}

/// An [`Accepted`] as contracts see it.
#[verifier::ext_equal]
pub struct Acceptance {
    pub linux_user: Seq<char>,
    pub subscription_id: i64,
    pub domain: Seq<char>,
    pub site_type: SiteType,
    pub php_version: Option<PhpVersion>,
    pub root_dir: Seq<char>,
    pub proxy_port: Option<u16>,
    pub redirect_target: Option<Seq<char>>,
    pub reclaim: Option<i64>,
}

impl View for Accepted {
    type V = Acceptance;

    open spec fn view(&self) -> Acceptance {
        Acceptance {
            linux_user: self.linux_user@,
            subscription_id: self.wanted.subscription_id,
            domain: self.wanted.domain@,
            site_type: self.wanted.site_type,
            php_version: self.wanted.php_version,
            root_dir: self.wanted.root_dir@,
            proxy_port: self.wanted.proxy_port,
            redirect_target: error::opt_text(self.wanted.redirect_target),
            reclaim: self.reclaim,
        }
    }
}

impl DeepView for Accepted {
    type V = Acceptance;

    open spec fn deep_view(&self) -> Acceptance {
        self@
    }
}

/// What is wrong with the input itself.
pub open spec fn input_refusal(input: CreateInput, php: PhpFacts) -> Option<Problem> {
    if input.site_type is Php && input.php_version is None {
        Some(
            error::field_problem(
                ErrorCode::InvalidInput,
                "a PHP site needs a PHP version"@,
                "php_version"@,
            ),
        )
    } else if input.site_type is Php && !php_present(php) {
        Some(php_missing(input.php_version->0))
    } else if input.site_type is Proxy && input.proxy_port is None {
        Some(
            error::field_problem(
                ErrorCode::InvalidInput,
                "a proxy site needs a port"@,
                "proxy_port"@,
            ),
        )
    } else if input.site_type is Redirect && input.redirect_target is None {
        Some(
            error::field_problem(
                ErrorCode::InvalidInput,
                "a redirect site needs a target"@,
                "redirect_target"@,
            ),
        )
    } else {
        None
    }
}

/// Who may host it.
pub open spec fn host_refusal(facts: CreateFacts) -> Option<Problem> {
    match facts.subscription {
        None => Some(error::not_found_problem("subscription"@)),
        Some(s) => if !s.status.serves() {
            Some(
                error::problem(
                    ErrorCode::AccountSuspended,
                    "this subscription is suspended and cannot host new sites"@,
                ),
            )
        } else if plan::site_limit_refusal(facts.plan, facts.used) is Some {
            plan::site_limit_refusal(facts.plan, facts.used)
        } else if !model::is_linux_user(s.linux_user@) {
            Some(
                error::problem(
                    ErrorCode::InvalidInput,
                    "`"@ + s.linux_user@ + "` is not a valid Linux account name"@,
                ),
            )
        } else {
            None
        },
    }
}

/// Whether a domain may be taken: it is free, or its last attempt failed and
/// the same subscription tries again. Anything else stays a conflict.
pub open spec fn reclaimable(
    existing: Option<Site>,
    domain: Seq<char>,
    subscription_id: i64,
) -> Result<Option<i64>, Problem> {
    match existing {
        None => Ok(None),
        Some(site) => if site.subscription_id != subscription_id {
            Err(
                error::problem(
                    ErrorCode::DomainAlreadyExists,
                    "`"@ + domain + "` already belongs to another subscription"@,
                ),
            )
        } else {
            match site.status {
                SiteStatus::Failed => Ok(Some(site.id)),
                SiteStatus::Provisioning => Err(
                    error::problem(
                        ErrorCode::Conflict,
                        "`"@ + domain
                            + "` is still being provisioned; wait for that task to finish"@,
                    ),
                ),
                _ => Err(
                    error::problem(
                        ErrorCode::DomainAlreadyExists,
                        "`"@ + domain
                            + "` is already a site; delete it first if you want to recreate it"@,
                    ),
                ),
            }
        },
    }
}

/// Where a site's files are served from.
pub open spec fn public_dir(user: Seq<char>, domain: Seq<char>) -> Seq<char> {
    model::home_of(user) + "/sites/"@ + domain + "/public"@
}

pub open spec fn redirect_url(target: Option<Domain>) -> Option<Seq<char>> {
    match target {
        Some(t) => Some("https://"@ + t@),
        None => None,
    }
}

/// What becomes of a site to create: the input is looked at first, then who
/// hosts it, then the domain.
pub open spec fn acceptance(input: CreateInput, facts: CreateFacts) -> Result<Acceptance, Problem> {
    match input_refusal(input, facts.php) {
        Some(p) => Err(p),
        None => match host_refusal(facts) {
            Some(p) => Err(p),
            None => {
                let s = facts.subscription->0;
                match reclaimable(facts.existing, input.domain@, s.id) {
                    Err(p) => Err(p),
                    Ok(reclaim) => Ok(
                        Acceptance {
                            linux_user: s.linux_user@,
                            subscription_id: s.id,
                            domain: input.domain@,
                            site_type: stored_type(input.site_type),
                            php_version: if input.site_type is Php {
                                input.php_version
                            } else {
                                None
                            },
                            root_dir: public_dir(s.linux_user@, input.domain@),
                            proxy_port: input.proxy_port,
                            redirect_target: redirect_url(input.redirect_target),
                            reclaim,
                        },
                    ),
                }
            },
        },
    }
}

fn domain_message(domain: &str, rest: &str) -> (r: String)
    ensures
        r@ == "`"@ + domain@ + rest@,
{
    let mut m = "`".to_owned();
    m.append(domain);
    m.append(rest);
    m
}

/// Whether a create request is a retry of a failed site of the same
/// subscription: the row to use again, if so.
pub fn retryable_site(existing: &Option<Site>, domain: &str, subscription_id: i64) -> (r: Result<
    Option<i64>,
    FerrumError,
>)
    ensures
        match r {
            Ok(id) => reclaimable(*existing, domain@, subscription_id) == Ok::<
                Option<i64>,
                Problem,
            >(id),
            Err(e) => reclaimable(*existing, domain@, subscription_id) == Err::<
                Option<i64>,
                Problem,
            >(e@),
        },
{
    match existing {
        None => Ok(None),
        Some(site) => {
            if site.subscription_id != subscription_id {
                let m = domain_message(domain, "` already belongs to another subscription");
                return Err(FerrumError::new(ErrorCode::DomainAlreadyExists, m.as_str()));
            }
            match site.status {
                SiteStatus::Failed => Ok(Some(site.id)),
                SiteStatus::Provisioning => {
                    let m = domain_message(
                        domain,
                        "` is still being provisioned; wait for that task to finish",
                    );
                    Err(FerrumError::new(ErrorCode::Conflict, m.as_str()))
                },
                _ => {
                    let m = domain_message(
                        domain,
                        "` is already a site; delete it first if you want to recreate it",
                    );
                    Err(FerrumError::new(ErrorCode::DomainAlreadyExists, m.as_str()))
                },
            }
        },
    }
}

fn site_public(user: &str, domain: &str) -> (r: String)
    ensures
        r@ == public_dir(user@, domain@),
{
    let mut s = model::home_path(user);
    s.append("/sites/");
    s.append(domain);
    s.append("/public");
    s
}

/// What provisioning a site takes.
#[derive(Debug, Clone, Copy, PartialEq, Eq, Structural)]
pub enum SiteStep {
    /// Add `www.` as an alias. Where it is taken, the site goes on without it.
    AddAlias,
    /// Hold the domain in the row against the rules for domain names once more.
    CheckDomain,
    EnsureAccount,
    EnsureDirectories,
    WritePlaceholder,
    RenderPool,
    RenderVhost,
    RenderLogrotate,
    /// Leave the row behind as failed, so that it can be seen what went wrong.
    MarkFailed,
}

/// The steps between a row and a site that is served.
pub open spec fn provision_steps(with_www: bool, php: bool) -> Seq<(SiteStep, bool)> {
    let alias = if with_www {
        seq![(SiteStep::AddAlias, true)]
    } else {
        Seq::empty()
    };
    let pool = if php {
        seq![(SiteStep::RenderPool, false)]
    } else {
        Seq::empty()
    };
    alias + seq![
        (SiteStep::CheckDomain, false),
        (SiteStep::EnsureAccount, false),
        (SiteStep::EnsureDirectories, false),
        (SiteStep::WritePlaceholder, false),
    ] + pool + seq![(SiteStep::RenderVhost, false), (SiteStep::RenderLogrotate, false)]
}

impl Create {
    /// Looks at the input itself, before anything else is asked for.
    pub fn check(input: &CreateInput, php: &PhpFacts) -> (r: Result<(), FerrumError>)
        ensures
            match r {
                Ok(()) => input_refusal(*input, *php) is None,
                Err(e) => input_refusal(*input, *php) == Some(e@),
            },
    {
        if input.site_type == SiteTypeInput::Php {
            match input.php_version {
                None => {
                    return Err(
                        FerrumError::new(
                            ErrorCode::InvalidInput,
                            "a PHP site needs a PHP version",
                        ).with_field("php_version"),
                    );
                },
                Some(version) => {
                    match require_php_installed(version, php) {
                        Ok(()) => {},
                        Err(e) => return Err(e),
                    }
                },
            }
        }
        if input.site_type == SiteTypeInput::Proxy && input.proxy_port.is_none() {
            return Err(
                FerrumError::new(ErrorCode::InvalidInput, "a proxy site needs a port").with_field(
                    "proxy_port",
                ),
            );
        }
        if input.site_type == SiteTypeInput::Redirect && input.redirect_target.is_none() {
            return Err(
                FerrumError::new(ErrorCode::InvalidInput, "a redirect site needs a target").with_field(
                    "redirect_target",
                ),
            );
        }
        Ok(())
    }

    /// Decides whether a site may be created, and what is stored for it.
    pub fn accept(input: &CreateInput, facts: &CreateFacts) -> (r: Result<Accepted, FerrumError>)
        ensures
            error::outcome(r) == acceptance(*input, *facts),
    {
        match Create::check(input, &facts.php) {
            Ok(()) => {},
            Err(e) => return Err(e),
        }
        let subscription = match &facts.subscription {
            Some(s) => s,
            None => return Err(FerrumError::not_found("subscription")),
        };
        if !subscription.status.can_serve() {
            return Err(
                FerrumError::new(
                    ErrorCode::AccountSuspended,
                    "this subscription is suspended and cannot host new sites",
                ),
            );
        }
        match plan::enforce_site_limit(&facts.plan, facts.used) {
            Ok(()) => {},
            Err(e) => return Err(e),
        }
        let linux_user = match LinuxUser::parse(subscription.linux_user.as_str()) {
            Ok(u) => u,
            Err(e) => return Err(e),
        };
        let reclaim = match retryable_site(
            &facts.existing,
            input.domain.as_str(),
            subscription.id,
        ) {
            Ok(id) => id,
            Err(e) => return Err(e),
        };
        let redirect_target = match &input.redirect_target {
            Some(t) => {
                let mut url = "https://".to_owned();
                url.append(t.as_str());
                Some(url)
            },
            None => None,
        };
        let root_dir = site_public(linux_user.as_str(), input.domain.as_str());
        let wanted = NewSite {
            subscription_id: subscription.id,
            domain: input.domain.as_str().to_owned(),
            site_type: SiteType::from(input.site_type),
            php_version: if input.site_type == SiteTypeInput::Php {
                input.php_version
            } else {
                None
            },
            root_dir,
            proxy_port: input.proxy_port,
            redirect_target,
        };
        let accepted = Accepted { linux_user, wanted, reclaim };
        proof {
            let want = acceptance(*input, *facts)->Ok_0;
            assert(accepted@.redirect_target == want.redirect_target);
            assert(accepted@ =~= want);
        }
        Ok(accepted)
    }

    /// Provisions a site whose row is there. A failure marks the row.
    pub fn course(with_www: bool, php: bool) -> (r: Procedure<SiteStep>)
        ensures
            r@ == Course::fresh(provision_steps(with_www, php), seq![SiteStep::MarkFailed]),
    {
        let mut steps: Vec<(SiteStep, bool)> = Vec::new();
        if with_www {
            steps.push((SiteStep::AddAlias, true));
        }
        steps.push((SiteStep::CheckDomain, false));
        steps.push((SiteStep::EnsureAccount, false));
        steps.push((SiteStep::EnsureDirectories, false));
        steps.push((SiteStep::WritePlaceholder, false));
        if php {
            steps.push((SiteStep::RenderPool, false));
        }
        steps.push((SiteStep::RenderVhost, false));
        steps.push((SiteStep::RenderLogrotate, false));
        assert(steps@ =~= provision_steps(with_www, php));
        let undo = vec![SiteStep::MarkFailed];
        assert(undo@ =~= seq![SiteStep::MarkFailed]);
        Procedure::new(steps, undo)
    }

    /// The answer, once the site is served.
    pub fn finish(site: &Site, subscription: &Subscription) -> (r: CreateOutput)
        ensures
            r.site_id == site.id,
            r.domain@ == site.domain@,
            r.document_root@ == site.root_dir@,
            r.linux_user@ == subscription.linux_user@,
            text::texts(r.next_steps@) == seq![
                "Point "@ + site.domain@ + " at this server's IP address"@,
                "Issue a certificate once DNS has propagated"@,
                "Upload your files, or use the file manager"@,
            ],
    {
        let mut point = "Point ".to_owned();
        point.append(site.domain.as_str());
        point.append(" at this server's IP address");
        let next_steps = vec![
            point,
            "Issue a certificate once DNS has propagated".to_owned(),
            "Upload your files, or use the file manager".to_owned(),
        ];
        assert(text::texts(next_steps@) =~= seq![
            "Point "@ + site.domain@ + " at this server's IP address"@,
            "Issue a certificate once DNS has propagated"@,
            "Upload your files, or use the file manager"@,
        ]);
        CreateOutput {
            site_id: site.id,
            domain: site.domain.as_str().to_owned(),
            document_root: site.root_dir.as_str().to_owned(),
            linux_user: subscription.linux_user.as_str().to_owned(),
            next_steps,
        }
    }
}

/// The home of a tenant that is being provisioned.
pub fn provision_home(found: &Option<Subscription>) -> (r: Result<String, FerrumError>)
    ensures
        error::outcome(r) == (match found {
            Some(s) => Ok::<Seq<char>, Problem>(s.home_dir@),
            None => Err::<Seq<char>, Problem>(
                error::problem(
                    ErrorCode::Internal,
                    "the subscription vanished mid-provision"@,
                ),
            ),
        }),
{
    match found {
        Some(s) => Ok(s.home_dir.as_str().to_owned()),
        None => Err(FerrumError::internal("the subscription vanished mid-provision")),
    }
}

// ---------------------------------------------------------------------------
// Rendering
// ---------------------------------------------------------------------------

/// The lock under which the pools of one PHP version are changed.
pub fn pool_service(version: PhpVersion) -> (r: String)
    ensures
        r@ == "php-fpm-"@ + version.dotted(),
{
    let mut s = "php-fpm-".to_owned();
    let v = version.as_text();
    s.append(v.as_str());
    s
}

/// What a vhost is rendered from.
#[derive(Debug)]
pub struct SiteContext {
    pub domain: String,
    pub linux_user: String,
    pub site_type: SiteType,
    pub php_version: PhpVersion,
    pub force_https: bool,
    pub http3: bool,
    pub maintenance_mode: bool,
    pub client_max_body_size: String,
    pub custom_snippet: Option<String>,
    pub rate_limit_enabled: bool,
    pub rate_limit_rps: u32,
    pub rate_limit_burst: u32,
    pub conn_limit: u32,
    pub proxy_port: Option<u16>,
    /// Where a redirect goes, and with which status.
    pub redirect: Option<(String, u16)>,
    pub aliases: Vec<String>,
    /// The directory of the certificate, if there is one on disk.
    pub tls: Option<String>,
}

/// The nearest number between two bounds.
pub open spec fn clamped(n: i64, lo: i64, hi: i64) -> i64 {
    if n < lo {
        lo
    } else if n > hi {
        hi
    } else {
        n
    }
}

fn clamp(n: i64, lo: i64, hi: i64) -> (r: i64)
    requires
        lo <= hi,
    ensures
        r == clamped(n, lo, hi),
        lo <= r <= hi,
{
    if n < lo {
        lo
    } else if n > hi {
        hi
    } else {
        n
    }
}

/// A context says of a site what is stored of it, with its numbers brought into
/// range. A site without a PHP version is rendered as one on 8.3.
pub open spec fn describes(c: SiteContext, site: Site, user: Seq<char>) -> bool {
    &&& c.domain@ == site.domain@
    &&& c.linux_user@ == user
    &&& c.site_type == site.site_type
    &&& c.php_version == (match site.php_version {
        Some(v) => v,
        None => PhpVersion { major: 8, minor: 3 },
    })
    &&& c.force_https == site.force_https
    &&& c.http3 == site.http3
    &&& c.client_max_body_size@ == site.client_max_body_size@
    &&& error::opt_text(c.custom_snippet) == error::opt_text(site.custom_nginx_snippet)
    &&& c.rate_limit_enabled == site.rate_limit_enabled
    &&& c.rate_limit_rps == clamped(site.rate_limit_rps, 1, 10_000)
    &&& c.rate_limit_burst == clamped(site.rate_limit_burst, 1, 100_000)
    &&& c.conn_limit == clamped(site.conn_limit, 1, 10_000)
    &&& match site.proxy_port {
        Some(p) => c.proxy_port matches Some(q) && q == clamped(p, 1, 65_535),
        None => c.proxy_port is None,
    }
    &&& match site.redirect_target {
        Some(t) => c.redirect matches Some((u, code)) && u@ == t@ && code == clamped(
            site.redirect_code,
            300,
            399,
        ),
        None => c.redirect is None,
    }
}

fn copied(s: &Option<String>) -> (r: Option<String>)
    ensures
        error::opt_text(r) == error::opt_text(*s),
{
    match s {
        Some(t) => Some(t.as_str().to_owned()),
        None => None,
    }
}

/// The context of a stored site, without aliases and certificate.
pub fn site_context(site: &Site, linux_user: &LinuxUser) -> (r: SiteContext)
    ensures
        describes(r, *site, linux_user@),
        r.maintenance_mode == site.maintenance_mode,
        r.aliases@.len() == 0,
        r.tls is None,
{
    let php_version = match site.php_version {
        Some(v) => v,
        None => PhpVersion { major: 8, minor: 3 },
    };
    let proxy_port: Option<u16> = match site.proxy_port {
        Some(p) => Some(clamp(p, 1, 65_535) as u16),
        None => None,
    };
    let redirect: Option<(String, u16)> = match &site.redirect_target {
        Some(t) => Some((t.as_str().to_owned(), clamp(site.redirect_code, 300, 399) as u16)),
        None => None,
    };
    SiteContext {
        domain: site.domain.as_str().to_owned(),
        linux_user: linux_user.as_str().to_owned(),
        site_type: site.site_type,
        php_version,
        force_https: site.force_https,
        http3: site.http3,
        maintenance_mode: site.maintenance_mode,
        client_max_body_size: site.client_max_body_size.as_str().to_owned(),
        custom_snippet: copied(&site.custom_nginx_snippet),
        rate_limit_enabled: site.rate_limit_enabled,
        rate_limit_rps: clamp(site.rate_limit_rps, 1, 10_000) as u32,
        rate_limit_burst: clamp(site.rate_limit_burst, 1, 100_000) as u32,
        conn_limit: clamp(site.conn_limit, 1, 10_000) as u32,
        proxy_port,
        redirect,
        aliases: Vec::new(),
        tls: None,
    }
}

/// What a site's vhost is rendered from. The maintenance page can be forced; the
/// site's own setting is not changed by that. TLS is for a certificate that is on
/// disk only.
pub fn vhost_context(
    site: &Site,
    linux_user: &LinuxUser,
    aliases: Vec<String>,
    cert_dir: Option<String>,
    force_maintenance: bool,
) -> (r: SiteContext)
    ensures
        describes(r, *site, linux_user@),
        r.maintenance_mode == (site.maintenance_mode || force_maintenance),
        r.aliases == aliases,
        r.tls == cert_dir,
{
    let mut context = site_context(site, linux_user);
    if force_maintenance {
        context.maintenance_mode = true;
    }
    context.aliases = aliases;
    context.tls = cert_dir;
    context
}

/// What a site's log rotation is rendered from.
#[derive(Debug)]
pub struct LogrotateContext {
    pub domain: String,
    pub keep_days: u32,
    pub user: String,
    pub group: String,
}

pub fn logrotate_context(site: &Site, linux_user: &LinuxUser) -> (r: LogrotateContext)
    ensures
        r.domain@ == site.domain@,
        r.keep_days == LOG_KEEP_DAYS,
        r.user@ == "root"@,
        r.group@ == linux_user@,
{
    LogrotateContext {
        domain: site.domain.as_str().to_owned(),
        keep_days: LOG_KEEP_DAYS,
        user: "root".to_owned(),
        group: linux_user.as_str().to_owned(),
    }
}

// ---------------------------------------------------------------------------
// site.update
// ---------------------------------------------------------------------------

/// `site.update`.
pub struct Update;

#[derive(Debug)]
pub struct UpdateInput {
    pub site_id: i64,
    pub php_version: Option<PhpVersion>,
    pub force_https: Option<bool>,
    pub http3: Option<bool>,
    pub maintenance_mode: Option<bool>,
    pub client_max_body_size: Option<String>,
    /// `Some(None)` takes the snippet away.
    pub custom_nginx_snippet: Option<Option<String>>,
    pub php_ini_overrides: Option<Option<String>>,
    pub rate_limit_enabled: Option<bool>,
    pub www_policy: Option<WwwPolicyInput>,
}

#[derive(Debug)]
pub struct UpdateOutput {
    pub site_id: i64,
    pub domain: String,
    pub reloaded: bool,
}

/// What is to change in a stored site.
#[derive(Debug)]
pub struct SiteUpdate {
    pub php_version: Option<PhpVersion>,
    pub www_policy: Option<WwwPolicy>,
    pub force_https: Option<bool>,
    pub http3: Option<bool>,
    pub maintenance_mode: Option<bool>,
    pub client_max_body_size: Option<String>,
    pub custom_nginx_snippet: Option<Option<String>>,
    pub php_ini_overrides: Option<Option<String>>,
    pub rate_limit_enabled: Option<bool>,
    pub proxy_port: Option<u16>,
    pub redirect_target: Option<String>,
}

/// How many blocks a text leaves open.
pub open spec fn depth(s: Seq<char>) -> int
    decreases s.len(),
{
    if s.len() == 0 {
        0
    } else {
        depth(s.drop_last()) + if s.last() == '{' {
            1int
        } else if s.last() == '}' {
            -1
        } else {
            0
        }
    }
}

/// Some block is closed that was not opened.
pub open spec fn overcloses(s: Seq<char>) -> bool {
    exists|k: int| 0 <= k <= s.len() && #[trigger] depth(s.take(k)) < 0
}

pub open spec fn snippet_problem(s: Seq<char>) -> Option<Problem> {
    if vstd::utf8::encode_utf8(s).len() > MAX_SNIPPET {
        Some(
            error::field_problem(
                ErrorCode::InvalidInput,
                "the custom snippet is too large; put a long configuration in an include file"@,
                "custom_nginx_snippet"@,
            ),
        )
    } else if s.contains('\0') {
        Some(
            error::field_problem(
                ErrorCode::InvalidInput,
                "the snippet contains a NUL byte"@,
                "custom_nginx_snippet"@,
            ),
        )
    } else if overcloses(s) {
        Some(
            error::field_problem(
                ErrorCode::InvalidInput,
                "the snippet closes a block it did not open"@,
                "custom_nginx_snippet"@,
            ),
        )
    } else if depth(s) != 0 {
        Some(
            error::field_problem(
                ErrorCode::InvalidInput,
                "the snippet leaves a block open"@,
                "custom_nginx_snippet"@,
            ),
        )
    } else {
        None
    }
}

fn snippet_error(detail: &str) -> (r: FerrumError)
    ensures
        r@ == error::field_problem(ErrorCode::InvalidInput, detail@, "custom_nginx_snippet"@),
{
    FerrumError::new(ErrorCode::InvalidInput, detail).with_field("custom_nginx_snippet")
}

/// Rejects a snippet that cannot be a fragment of a server block: its braces
/// must balance, or what follows it in the vhost would be swallowed.
pub fn check_snippet(snippet: &str) -> (r: Result<(), FerrumError>)
    ensures
        match r {
            Ok(()) => snippet_problem(snippet@) is None,
            Err(e) => snippet_problem(snippet@) == Some(e@),
        },
{
    if text::utf8_len(snippet) > MAX_SNIPPET {
        return Err(
            snippet_error(
                "the custom snippet is too large; put a long configuration in an include file",
            ),
        );
    }
    if text::has_char(snippet, '\0') {
        return Err(snippet_error("the snippet contains a NUL byte"));
    }
    let v = text::chars_of(snippet);
    let mut open: usize = 0;
    let mut i: usize = 0;
    assert(v@.take(0) =~= Seq::<char>::empty());
    while i < v.len()
        invariant
            i <= v@.len(),
            v@ == snippet@,
            vstd::utf8::encode_utf8(snippet@).len() <= MAX_SNIPPET,
            !snippet@.contains('\0'),
            open <= i,
            open == depth(v@.take(i as int)),
            forall|k: int| 0 <= k <= i ==> #[trigger] depth(v@.take(k)) >= 0,
        decreases v@.len() - i,
    {
        let ghost next = v@.take(i + 1);
        assert(next.drop_last() =~= v@.take(i as int));
        assert(next.last() == v@[i as int]);
        if v[i] == '{' {
            open = open + 1;
        } else if v[i] == '}' {
            if open == 0 {
                assert(depth(snippet@.take(i + 1)) < 0);
                return Err(snippet_error("the snippet closes a block it did not open"));
            }
            open = open - 1;
        }
        i = i + 1;
    }
    assert(v@.take(i as int) =~= snippet@);
    if open != 0 {
        return Err(snippet_error("the snippet leaves a block open"));
    }
    Ok(())
}

/// What is wrong with an update.
pub open spec fn update_refusal(input: UpdateInput, found: Option<Site>, php: PhpFacts) -> Option<
    Problem,
> {
    if found is None {
        Some(error::not_found_problem("site"@))
    } else if input.php_version is Some && !php_present(php) {
        Some(php_missing(input.php_version->0))
    } else {
        match input.custom_nginx_snippet {
            Some(Some(s)) => snippet_problem(s@),
            _ => None,
        }
    }
}

/// What an update does to what is rendered.
#[derive(Debug, Clone, Copy, PartialEq, Eq, Structural)]
pub enum RenderStep {
    Pool { version: PhpVersion },
    Vhost,
    /// A pool that cannot be removed is left behind.
    RemovePool { version: PhpVersion },
}

/// A new PHP version gets its pool before the vhost points at it, and the old
/// pool goes last.
pub open spec fn update_steps(
    before: Option<PhpVersion>,
    asked: Option<PhpVersion>,
    now: Option<PhpVersion>,
) -> Seq<(RenderStep, bool)> {
    if asked is Some && before != asked {
        seq![
            (RenderStep::Pool { version: asked->0 }, false),
            (RenderStep::Vhost, false),
        ] + match before {
            Some(old) => seq![(RenderStep::RemovePool { version: old }, true)],
            None => Seq::empty(),
        }
    } else {
        (match now {
            Some(version) => seq![(RenderStep::Pool { version }, false)],
            None => Seq::empty(),
        }) + seq![(RenderStep::Vhost, false)]
    }
}

impl Update {
    /// Whether an update may be stored.
    pub fn check(input: &UpdateInput, found: &Option<Site>, php: &PhpFacts) -> (r: Result<
        (),
        FerrumError,
    >)
        ensures
            match r {
                Ok(()) => update_refusal(*input, *found, *php) is None,
                Err(e) => update_refusal(*input, *found, *php) == Some(e@),
            },
    {
        if found.is_none() {
            return Err(FerrumError::not_found("site"));
        }
        if let Some(version) = input.php_version {
            match require_php_installed(version, php) {
                Ok(()) => {},
                Err(e) => return Err(e),
            }
        }
        if let Some(Some(snippet)) = &input.custom_nginx_snippet {
            return check_snippet(snippet.as_str());
        }
        Ok(())
    }

    /// What is to change in the row. An update never moves a proxy's port or a
    /// redirect's target.
    pub fn changes(input: UpdateInput) -> (r: SiteUpdate)
        ensures
            r.php_version == input.php_version,
            r.www_policy == (match input.www_policy {
                Some(p) => Some(stored_policy(p)),
                None => None,
            }),
            r.force_https == input.force_https,
            r.http3 == input.http3,
            r.maintenance_mode == input.maintenance_mode,
            r.client_max_body_size == input.client_max_body_size,
            r.custom_nginx_snippet == input.custom_nginx_snippet,
            r.php_ini_overrides == input.php_ini_overrides,
            r.rate_limit_enabled == input.rate_limit_enabled,
            r.proxy_port is None,
            r.redirect_target is None,
    {
        let www_policy = match input.www_policy {
            Some(p) => Some(WwwPolicy::from(p)),
            None => None,
        };
        SiteUpdate {
            php_version: input.php_version,
            www_policy,
            force_https: input.force_https,
            http3: input.http3,
            maintenance_mode: input.maintenance_mode,
            client_max_body_size: input.client_max_body_size,
            custom_nginx_snippet: input.custom_nginx_snippet,
            php_ini_overrides: input.php_ini_overrides,
            rate_limit_enabled: input.rate_limit_enabled,
            proxy_port: None,
            redirect_target: None,
        }
    }

    /// What is rendered, given the PHP version before, the one that was asked
    /// for, and the one the row has now.
    pub fn course(
        before: Option<PhpVersion>,
        asked: Option<PhpVersion>,
        now: Option<PhpVersion>,
    ) -> (r: Procedure<RenderStep>)
        ensures
            r@ == Course::fresh(update_steps(before, asked, now), Seq::<RenderStep>::empty()),
    {
        let mut steps: Vec<(RenderStep, bool)> = Vec::new();
        let fresh = match (asked, before) {
            (Some(a), Some(b)) => a != b,
            (Some(_), None) => true,
            (None, _) => false,
        };
        if fresh {
            if let Some(version) = asked {
                steps.push((RenderStep::Pool { version }, false));
            }
            steps.push((RenderStep::Vhost, false));
            if let Some(old) = before {
                steps.push((RenderStep::RemovePool { version: old }, true));
            }
        } else {
            if let Some(version) = now {
                steps.push((RenderStep::Pool { version }, false));
            }
            steps.push((RenderStep::Vhost, false));
        }
        assert(steps@ =~= update_steps(before, asked, now));
        let undo: Vec<RenderStep> = Vec::new();
        assert(undo@ =~= Seq::<RenderStep>::empty());
        Procedure::new(steps, undo)
    }

    pub fn finish(site: &Site) -> (r: UpdateOutput)
        ensures
            r.site_id == site.id,
            r.domain@ == site.domain@,
            r.reloaded,
    {
        UpdateOutput {
            site_id: site.id,
            domain: site.domain.as_str().to_owned(),
            reloaded: true,
        }
    }
}

// ---------------------------------------------------------------------------
// site.delete and site.drift
// ---------------------------------------------------------------------------

/// `site.delete`.
pub struct Delete;

#[derive(Debug)]
pub struct DeleteInput {
    pub site_id: i64,
    /// Also delete the site's files.
    pub purge_files: bool,
}

#[derive(Debug)]
pub struct DeleteOutput {
    pub domain: String,
    pub files_removed: bool,
}

/// The account behind a site that the caller sees.
pub open spec fn site_account(site: Option<Site>, subscription: Option<Subscription>) -> Result<
    Seq<char>,
    Problem,
> {
    match (site, subscription) {
        (None, _) => Err(error::not_found_problem("site"@)),
        (Some(_), None) => Err(
            error::problem(ErrorCode::Internal, "the site's subscription is missing"@),
        ),
        (Some(_), Some(s)) => if model::is_linux_user(s.linux_user@) {
            Ok(s.linux_user@)
        } else {
            Err(
                error::problem(
                    ErrorCode::InvalidInput,
                    "`"@ + s.linux_user@ + "` is not a valid Linux account name"@,
                ),
            )
        },
    }
}

pub fn account_behind(site: &Option<Site>, subscription: &Option<Subscription>) -> (r: Result<
    LinuxUser,
    FerrumError,
>)
    ensures
        match r {
            Ok(u) => site_account(*site, *subscription) == Ok::<Seq<char>, Problem>(u@),
            Err(e) => site_account(*site, *subscription) == Err::<Seq<char>, Problem>(e@),
        },
{
    if site.is_none() {
        return Err(FerrumError::not_found("site"));
    }
    match subscription {
        None => Err(FerrumError::internal("the site's subscription is missing")),
        Some(s) => LinuxUser::parse(s.linux_user.as_str()),
    }
}

/// What deleting a site takes.
#[derive(Debug, Clone, Copy, PartialEq, Eq, Structural)]
pub enum DeleteStep {
    RemoveVhost,
    RemovePool { version: PhpVersion },
    RemoveLogrotate,
    ForgetVhostRevisions,
    ForgetLogrotateRevisions,
    PurgeFiles,
    DeleteRow,
}

/// The vhost first, so that nothing is served while it goes away; the row last,
/// so that a delete that failed can be run again.
pub open spec fn delete_steps(php: Option<PhpVersion>, purge_files: bool) -> Seq<
    (DeleteStep, bool),
> {
    let pool = match php {
        Some(version) => seq![(DeleteStep::RemovePool { version }, true)],
        None => Seq::empty(),
    };
    let purge = if purge_files {
        seq![(DeleteStep::PurgeFiles, false)]
    } else {
        Seq::empty()
    };
    seq![(DeleteStep::RemoveVhost, false)] + pool + seq![
        (DeleteStep::RemoveLogrotate, true),
        (DeleteStep::ForgetVhostRevisions, true),
        (DeleteStep::ForgetLogrotateRevisions, true),
    ] + purge + seq![(DeleteStep::DeleteRow, false)]
}

/// What a deletion needs: the site and the account behind it, and a stored
/// domain that the rules for domain names accept.
pub open spec fn delete_target(
    site: Option<Site>,
    subscription: Option<Subscription>,
    domain: Result<String, FerrumError>,
) -> Result<(Seq<char>, Seq<char>), Problem> {
    match site_account(site, subscription) {
        Err(p) => Err(p),
        Ok(user) => match domain {
            Err(e) => Err(e@),
            Ok(name) => Ok((user, name@)),
        },
    }
}

impl Delete {
    /// Decides whether a site may be deleted, before anything of it goes.
    /// `domain` is the verdict on the domain in its row.
    pub fn accept(
        site: &Option<Site>,
        subscription: &Option<Subscription>,
        domain: Result<String, FerrumError>,
    ) -> (r: Result<(LinuxUser, Domain), FerrumError>)
        ensures
            match r {
                Ok((user, name)) => delete_target(*site, *subscription, domain) == Ok::<
                    (Seq<char>, Seq<char>),
                    Problem,
                >((user@, name@)),
                Err(e) => delete_target(*site, *subscription, domain) == Err::<
                    (Seq<char>, Seq<char>),
                    Problem,
                >(e@),
            },
    {
        let user = match account_behind(site, subscription) {
            Ok(u) => u,
            Err(e) => return Err(e),
        };
        match Domain::vetted(domain) {
            Ok(name) => Ok((user, name)),
            Err(e) => Err(e),
        }
    }

    pub fn course(php: Option<PhpVersion>, purge_files: bool) -> (r: Procedure<DeleteStep>)
        ensures
            r@ == Course::fresh(delete_steps(php, purge_files), Seq::<DeleteStep>::empty()),
    {
        let mut steps: Vec<(DeleteStep, bool)> = Vec::new();
        steps.push((DeleteStep::RemoveVhost, false));
        if let Some(version) = php {
            steps.push((DeleteStep::RemovePool { version }, true));
        }
        steps.push((DeleteStep::RemoveLogrotate, true));
        steps.push((DeleteStep::ForgetVhostRevisions, true));
        steps.push((DeleteStep::ForgetLogrotateRevisions, true));
        if purge_files {
            steps.push((DeleteStep::PurgeFiles, false));
        }
        steps.push((DeleteStep::DeleteRow, false));
        assert(steps@ =~= delete_steps(php, purge_files));
        let undo: Vec<DeleteStep> = Vec::new();
        assert(undo@ =~= Seq::<DeleteStep>::empty());
        Procedure::new(steps, undo)
    }

    pub fn finish(site: &Site, purge_files: bool) -> (r: DeleteOutput)
        ensures
            r.domain@ == site.domain@,
            r.files_removed == purge_files,
    {
        DeleteOutput { domain: site.domain.as_str().to_owned(), files_removed: purge_files }
    }
}

/// `site.drift`: whether a site's generated files were edited.
pub struct Drift;

#[derive(Debug)]
pub struct DriftInput {
    pub site_id: i64,
}

#[derive(Debug)]
pub struct DriftOutput {
    pub path: String,
    pub state: String,
    pub diff: Vec<String>,
}

// ---------------------------------------------------------------------------
// Laws
// ---------------------------------------------------------------------------

/// Nobody takes over a domain: a site that is accepted for a domain that exists
/// reuses a failed row of the same subscription.
pub proof fn law_a_domain_is_never_taken_over(input: CreateInput, facts: CreateFacts)
    requires
        acceptance(input, facts) is Ok,
        facts.existing is Some,
    ensures
        facts.existing->0.status == SiteStatus::Failed,
        facts.existing->0.subscription_id == facts.subscription->0.id,
        acceptance(input, facts)->Ok_0.reclaim == Some(facts.existing->0.id),
{
}

/// The row of a site once provisioning has run: marked as failed if the mark was
/// written.
pub open spec fn row_after(made: Site, done: Seq<SiteStep>, reports: Seq<bool>) -> Site {
    if exists|i: int|
        0 <= i < done.len() && #[trigger] done[i] == SiteStep::MarkFailed && reports[i] {
        Site { status: SiteStatus::Failed, ..made }
    } else {
        made
    }
}

/// A creation that failed can be run again: provisioning that fails leaves the
/// row behind as failed and hands back the error of the step that failed, and the
/// same domain is then accepted for the same subscription, in that row. The one
/// thing in the way would be a mark that could not be written.
pub proof fn law_a_failed_creation_is_retried_in_its_row(
    made: Site,
    with_www: bool,
    php: bool,
    outcomes: Seq<Result<(), Problem>>,
    again: CreateInput,
    facts: CreateFacts,
) -> (failed: int)
    requires
        ({
            let c = Course::fresh(provision_steps(with_www, php), seq![SiteStep::MarkFailed]);
            let reports = procedure::reports_of(outcomes);
            let done = c.performed(reports);
            &&& c.after_all(reports).next() is Failed
            &&& reports[done.len() - 1]
            &&& facts.existing == Some(row_after(made, done, reports))
        }),
        facts.subscription matches Some(s) && s.id == made.subscription_id,
        input_refusal(again, facts.php) is None,
        host_refusal(facts) is None,
    ensures
        ({
            let steps = provision_steps(with_www, php);
            let c = Course::fresh(steps, seq![SiteStep::MarkFailed]);
            &&& 0 <= failed < steps.len()
            &&& failed < outcomes.len()
            &&& c.performed(procedure::reports_of(outcomes))[failed] == steps[failed].0
            &&& !steps[failed].1
            &&& outcomes[failed] is Err
            &&& forall|j: int| 0 <= j < failed ==> #[trigger] outcomes[j] is Ok || steps[j].1
            &&& Attempt::fresh(c).after_all(outcomes).result() == outcomes[failed]
        }),
        facts.existing == Some(Site { status: SiteStatus::Failed, ..made }),
        acceptance(again, facts) matches Ok(a) && a.reclaim == Some(made.id) && a.domain
            == again.domain@,
{
    let steps = provision_steps(with_www, php);
    let undo = seq![SiteStep::MarkFailed];
    let c = Course::fresh(steps, undo);
    let reports = procedure::reports_of(outcomes);
    let done = c.performed(reports);
    let n = procedure::law_what_was_performed(steps, undo, reports);
    procedure::lemma_within_undo(c, reports);
    assert(done[done.len() - 1] == undo[done.len() - 1 - n]);
    let m = procedure::law_a_failed_run_hands_back_what_failed(steps, undo, outcomes);
    assert(reports[m - 1] == (outcomes[m - 1] is Ok));
    assert(reports[n - 1] == (outcomes[n - 1] is Ok));
    if m < n {
        assert(reports[m - 1] || steps[m - 1].1);
    }
    if n < m {
        assert(outcomes[n - 1] is Ok || steps[n - 1].1);
    }
    m - 1
}

/// A domain that is served, or that anybody else has, is not taken: the request
/// is refused as a conflict of domains and nothing is stored for it.
pub proof fn law_a_domain_in_use_is_refused(input: CreateInput, facts: CreateFacts)
    requires
        input_refusal(input, facts.php) is None,
        host_refusal(facts) is None,
        facts.existing matches Some(e) && (e.subscription_id != facts.subscription->0.id || e.status
            == SiteStatus::Active || e.status == SiteStatus::Suspended),
    ensures
        acceptance(input, facts) matches Err(p) && p.code == ErrorCode::DomainAlreadyExists,
{
}

/// A subscription at its plan's limit gets no further site, and a suspended one
/// none at all.
pub proof fn law_limits_hold_at_creation(input: CreateInput, facts: CreateFacts)
    requires
        acceptance(input, facts) is Ok,
    ensures
        facts.subscription is Some,
        facts.subscription->0.status.serves(),
        facts.plan matches Some(p) ==> facts.used < p.max_sites,
        input.site_type is Php ==> input.php_version is Some && php_present(facts.php),
{
}

/// A vhost is rendered only once the pool it points at is there, and a failure
/// before the end marks the row as failed first of all.
pub proof fn law_the_pool_comes_before_the_vhost(with_www: bool, reports: Seq<bool>)
    ensures
        ({
            let c = Course::fresh(provision_steps(with_www, true), seq![SiteStep::MarkFailed]);
            let done = c.performed(reports);
            &&& forall|i: int|
                0 <= i < done.len() && (#[trigger] done[i]) == SiteStep::RenderVhost ==> i > 0
                    && done[i - 1] == SiteStep::RenderPool && reports[i - 1]
            &&& c.after_all(reports).failed && c.after_all(reports).next() is Failed ==> done.last()
                == SiteStep::MarkFailed
        }),
{
    let steps = provision_steps(with_www, true);
    let undo = seq![SiteStep::MarkFailed];
    let c = Course::fresh(steps, undo);
    let done = c.performed(reports);
    let n = procedure::law_what_was_performed(steps, undo, reports);
    procedure::lemma_within_undo(c, reports);
    lemma_provision_steps(with_www);
    let at = if with_www {
        6int
    } else {
        5int
    };
    assert forall|i: int| 0 <= i < done.len() && (#[trigger] done[i]) == SiteStep::RenderVhost implies i
        > 0 && done[i - 1] == SiteStep::RenderPool && reports[i - 1] by {
        if i < n {
            assert(done[i] == steps[i].0);
            assert(i == at);
            assert(done[i - 1] == steps[i - 1].0);
        }
    }
    if c.after_all(reports).failed && c.after_all(reports).next() is Failed {
        assert(done[done.len() - 1] == undo[done.len() - 1 - n]);
    }
}

proof fn lemma_provision_steps(with_www: bool)
    ensures
        ({
            let steps = provision_steps(with_www, true);
            let at = if with_www {
                6int
            } else {
                5int
            };
            &&& steps.len() == at + 2
            &&& steps[at - 1] == (SiteStep::RenderPool, false)
            &&& steps[at] == (SiteStep::RenderVhost, false)
            &&& forall|i: int|
                0 <= i < steps.len() && i != at ==> (#[trigger] steps[i]).0 != SiteStep::RenderVhost
        }),
{
}

/// A PHP change never leaves a vhost without a pool: the old pool goes only
/// after the new one and the vhost are in place.
pub proof fn law_the_old_pool_goes_last(
    before: Option<PhpVersion>,
    asked: Option<PhpVersion>,
    now: Option<PhpVersion>,
    reports: Seq<bool>,
)
    ensures
        ({
            let done = Course::fresh(
                update_steps(before, asked, now),
                Seq::<RenderStep>::empty(),
            ).performed(reports);
            forall|i: int|
                0 <= i < done.len() && (#[trigger] done[i]) is RemovePool ==> i == 2 && done[0]
                    == (RenderStep::Pool { version: asked->0 }) && done[1] == RenderStep::Vhost
                    && reports[0] && reports[1]
        }),
{
    let steps = update_steps(before, asked, now);
    let none = Seq::<RenderStep>::empty();
    let c = Course::fresh(steps, none);
    let done = c.performed(reports);
    let n = procedure::law_what_was_performed(steps, none, reports);
    assert forall|i: int| 0 <= i < done.len() && (#[trigger] done[i]) is RemovePool implies i == 2
        && done[0] == (RenderStep::Pool { version: asked->0 }) && done[1] == RenderStep::Vhost
        && reports[0] && reports[1] by {
        assert(done[i] == steps[i].0);
        assert(done[0] == steps[0].0);
        assert(done[1] == steps[1].0);
    }
}

/// A site stops being served before anything else of it goes, and its row goes
/// only when all that had to go is gone.
pub proof fn law_serving_stops_first_and_the_row_goes_last(
    php: Option<PhpVersion>,
    purge_files: bool,
    reports: Seq<bool>,
)
    ensures
        ({
            let done = Course::fresh(
                delete_steps(php, purge_files),
                Seq::<DeleteStep>::empty(),
            ).performed(reports);
            &&& done.len() > 0 ==> done[0] == DeleteStep::RemoveVhost
            &&& done.len() > 1 ==> reports[0]
            &&& forall|i: int|
                0 <= i < done.len() && (#[trigger] done[i]) == DeleteStep::DeleteRow ==> i
                    == done.len() - 1 && reports[0] && (purge_files ==> done[i - 1]
                    == DeleteStep::PurgeFiles && reports[i - 1])
        }),
{
    let steps = delete_steps(php, purge_files);
    let none = Seq::<DeleteStep>::empty();
    let c = Course::fresh(steps, none);
    let done = c.performed(reports);
    let n = procedure::law_what_was_performed(steps, none, reports);
    if done.len() > 0 {
        assert(done[0] == steps[0].0);
    }
    assert forall|i: int| 0 <= i < done.len() && (#[trigger] done[i]) == DeleteStep::DeleteRow implies i
        == done.len() - 1 && reports[0] && (purge_files ==> done[i - 1] == DeleteStep::PurgeFiles
        && reports[i - 1]) by {
        assert(done[i] == steps[i].0);
        if i > 0 {
            assert(done[i - 1] == steps[i - 1].0);
        }
    }
}

} // verus!
