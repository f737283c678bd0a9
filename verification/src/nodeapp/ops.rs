//! The `app.*` operations: what they decide, and in which order things happen.
use vstd::prelude::*;
use vstd::string::StringExecFns;

use crate::error;
use crate::error::{ErrorCode, FerrumError, Problem};
use crate::model;
use crate::model::{
    AppName, AuthContext, Domain, LinuxUser, Permission, Plan, Subscription, TenantPath, UnitName,
    UnitState, UnitStatus,
};
use crate::nodeapp;
use crate::nodeapp::{EnvVar, NodeApp};
use crate::procedure;
use crate::procedure::Procedure;
use crate::site::{CreateInput as SiteInput, SiteTypeInput};
use crate::text;

verus! {

// ---------------------------------------------------------------------------
// Shared lookups
// ---------------------------------------------------------------------------

/// The subscription an app is for: found, and serving.
pub open spec fn subscription_refusal(found: Option<Subscription>) -> Option<Problem> {
    match found {
        None => Some(error::not_found_problem("subscription"@)),
        Some(s) => if s.status.serves() {
            None
        } else {
            Some(
                error::problem(
                    ErrorCode::AccountSuspended,
                    "this subscription is suspended and cannot run applications"@,
                ),
            )
        },
    }
}

/// Whether the target tenant's plan grants Node apps. A subscription with no plan
/// is unlimited.
pub open spec fn plan_refusal(plan: Option<Plan>) -> Option<Problem> {
    match plan {
        Some(p) => if p.can_node_apps {
            None
        } else {
            Some(
                error::problem(
                    ErrorCode::PlanFeatureDisabled,
                    "plan `"@ + p.name@ + "` does not include Node applications"@,
                ),
            )
        },
        None => None,
    }
}

pub fn resolve_subscription(found: &Option<Subscription>) -> (r: Result<(), FerrumError>)
    ensures
        match r {
            Ok(()) => subscription_refusal(*found) is None && found is Some,
            Err(e) => subscription_refusal(*found) == Some(e@),
        },
{
    match found {
        None => Err(FerrumError::not_found("subscription")),
        Some(s) => {
            if s.status.can_serve() {
                Ok(())
            } else {
                Err(
                    FerrumError::new(
                        ErrorCode::AccountSuspended,
                        "this subscription is suspended and cannot run applications",
                    ),
                )
            }
        },
    }
}

pub fn ensure_plan_allows_node_apps(plan: &Option<Plan>) -> (r: Result<(), FerrumError>)
    ensures
        match r {
            Ok(()) => plan_refusal(*plan) is None,
            Err(e) => plan_refusal(*plan) == Some(e@),
        },
{
    match plan {
        Some(p) => {
            if p.can_node_apps {
                Ok(())
            } else {
                let mut m = "plan `".to_owned();
                m.append(p.name.as_str());
                m.append("` does not include Node applications");
                Err(FerrumError::new(ErrorCode::PlanFeatureDisabled, m.as_str()))
            }
        },
        None => Ok(()),
    }
}

/// What a stored name that is not one is answered with.
pub open spec fn bad_user_problem(s: Seq<char>) -> Problem {
    error::problem(ErrorCode::InvalidInput, "`"@ + s + "` is not a valid Linux account name"@)
}

pub open spec fn bad_app_problem(s: Seq<char>) -> Problem {
    error::problem(ErrorCode::InvalidInput, "`"@ + s + "` is not a valid application name"@)
}

/// The account and name behind an app row that the caller may see.
pub open spec fn app_identity(app: Option<NodeApp>, subscription: Option<Subscription>) -> Result<
    (Seq<char>, Seq<char>),
    Problem,
> {
    match (app, subscription) {
        (None, _) => Err(error::not_found_problem("node app"@)),
        (Some(_), None) => Err(
            error::problem(ErrorCode::Internal, "the app's subscription is missing"@),
        ),
        (Some(a), Some(s)) => if !model::is_linux_user(s.linux_user@) {
            Err(bad_user_problem(s.linux_user@))
        } else if !model::is_app_name(a.name@) {
            Err(bad_app_problem(a.name@))
        } else {
            Ok((s.linux_user@, a.name@))
        },
    }
}

pub fn app_and_user(app: &Option<NodeApp>, subscription: &Option<Subscription>) -> (r: Result<
    (LinuxUser, AppName),
    FerrumError,
>)
    ensures
        match r {
            Ok(pair) => app_identity(*app, *subscription) == Ok::<(Seq<char>, Seq<char>), Problem>(
                (pair.0@, pair.1@),
            ),
            Err(e) => app_identity(*app, *subscription) == Err::<(Seq<char>, Seq<char>), Problem>(
                e@,
            ),
        },
{
    match (app, subscription) {
        (None, _) => Err(FerrumError::not_found("node app")),
        (Some(_), None) => Err(FerrumError::internal("the app's subscription is missing")),
        (Some(a), Some(s)) => {
            let user = match LinuxUser::parse(s.linux_user.as_str()) {
                Ok(u) => u,
                Err(e) => {
                    return Err(e);
                },
            };
            match AppName::parse(a.name.as_str()) {
                Ok(name) => Ok((user, name)),
                Err(e) => Err(e),
            }
        },
    }
}

// ---------------------------------------------------------------------------
// app.list
// ---------------------------------------------------------------------------

pub struct List;

#[derive(Debug)]
pub struct ListInput {
    pub limit: Option<i64>,
    pub offset: Option<i64>,
}

impl ListInput {
    pub fn page(&self) -> (r: (i64, i64))
        ensures
            r == model::page_of(self.limit, self.offset, 100),
    {
        model::page(self.limit, self.offset, 100)
    }
}

#[derive(Debug)]
pub struct AppView {
    pub app: NodeApp,
    pub unit: String,
    /// systemd's view of the unit.
    pub state: UnitState,
    pub memory_bytes: Option<u64>,
}

#[derive(Debug)]
pub struct ListOutput {
    pub apps: Vec<AppView>,
}

impl List {
    /// The unit whose state a listing shows for an app; none where the app's
    /// subscription is gone.
    pub fn unit_of(app: &NodeApp, subscription: &Option<Subscription>) -> (r: Result<
        Option<UnitName>,
        FerrumError,
    >)
        ensures
            match r {
                Ok(Some(u)) => subscription matches Some(s) && app_identity(
                    Some(*app),
                    *subscription,
                ) == Ok::<(Seq<char>, Seq<char>), Problem>((s.linux_user@, app.name@)) && u@
                    == nodeapp::unit_file_name_of(s.linux_user@, app.name@),
                Ok(None) => subscription is None,
                Err(e) => subscription is Some && app_identity(Some(*app), *subscription) == Err::<
                    (Seq<char>, Seq<char>),
                    Problem,
                >(e@),
            },
    {
        match subscription {
            None => Ok(None),
            Some(s) => {
                let user = match LinuxUser::parse(s.linux_user.as_str()) {
                    Ok(u) => u,
                    Err(e) => {
                        return Err(e);
                    },
                };
                match AppName::parse(app.name.as_str()) {
                    Ok(name) => Ok(Some(nodeapp::app_unit_name(&user, &name))),
                    Err(e) => Err(e),
                }
            },
        }
    }

    /// One row of a listing. A unit that could not be asked is `Unknown`.
    pub fn view(app: NodeApp, unit: &Option<UnitName>, status: Option<UnitStatus>) -> (r: AppView)
        ensures
            r.app == app,
            r.unit@ == (match unit {
                Some(u) => u@,
                None => Seq::empty(),
            }),
            r.state == (match status {
                Some(s) => s.state,
                None => UnitState::Unknown,
            }),
            r.memory_bytes == (match status {
                Some(s) => s.memory_bytes,
                None => None,
            }),
    {
        AppView {
            app,
            unit: match unit {
                Some(u) => u.as_str().to_owned(),
                None => String::new(),
            },
            state: match status {
                Some(s) => s.state,
                None => UnitState::Unknown,
            },
            memory_bytes: match status {
                Some(s) => s.memory_bytes,
                None => None,
            },
        }
    }
}

// ---------------------------------------------------------------------------
// app.create
// ---------------------------------------------------------------------------

/// `app.create`: allocate a port, write a unit, start it, optionally publish it
/// behind a domain.
pub struct Create {
    /// The program looked up to find the interpreter.
    pub node_program: String,
}

#[derive(Debug)]
pub struct CreateInput {
    pub name: AppName,
    /// Tenant-home-relative path to the JS entry point.
    pub entry: TenantPath,
    /// Which subscription owns it. Defaults to the caller's own.
    pub subscription_id: Option<i64>,
    pub env: Vec<EnvVar>,
    pub node_env: String,
    /// Per-app `MemoryMax`, inside the tenant slice's own ceiling.
    pub memory_mb: Option<u32>,
    /// Publish the app behind this domain as a reverse-proxy site.
    pub proxy_domain: Option<Domain>,
}

#[derive(Debug)]
pub struct CreateOutput {
    pub app_id: i64,
    pub name: String,
    pub port: i64,
    pub unit: String,
    pub working_dir: String,
    pub linux_user: String,
    pub site_id: Option<i64>,
    pub next_steps: Vec<String>,
}

/// What an accepted request goes on with.
#[derive(Debug)]
pub struct Accepted {
    pub user: LinuxUser,
    pub node_binary: String,
    pub env: Vec<String>,
}

/// [`Accepted`] as contracts see it.
#[verifier::ext_equal]
pub struct AcceptedView {
    pub user: Seq<char>,
    pub node_binary: Seq<char>,
    pub env: Seq<Seq<char>>,
}

/// Everything that can be refused is refused before a row exists, in this order:
/// the subscription, its plan, the interpreter, the entry point, the
/// environment, the right to manage sites (only where a domain is asked for),
/// the account name.
pub open spec fn acceptance(
    program: Seq<char>,
    input: CreateInput,
    subscription: Option<Subscription>,
    plan: Option<Plan>,
    node: Option<Seq<char>>,
    permissions: Set<Permission>,
) -> Result<AcceptedView, Problem> {
    if let Some(p) = subscription_refusal(subscription) {
        Err(p)
    } else if let Some(p) = plan_refusal(plan) {
        Err(p)
    } else if node is None {
        Err(nodeapp::no_node_problem(program))
    } else if let Some(p) = nodeapp::entry_refusal(input.entry@) {
        Err(p)
    } else {
        match nodeapp::environment(input.env@) {
            Err(p) => Err(p),
            Ok(env) => if input.proxy_domain is Some && !permissions.contains(
                Permission::SiteManage,
            ) {
                Err(model::denied_problem())
            } else if !model::is_linux_user(subscription.unwrap().linux_user@) {
                Err(bad_user_problem(subscription.unwrap().linux_user@))
            } else {
                Ok(
                    AcceptedView {
                        user: subscription.unwrap().linux_user@,
                        node_binary: node.unwrap(),
                        env,
                    },
                )
            },
        }
    }
}

/// Between "there is a row" and "systemd is running the app".
#[derive(Debug, Clone, Copy, PartialEq, Eq, Structural)]
pub enum AppStep {
    /// The tenant's Linux account.
    Account,
    /// The app directory.
    Directory,
    /// The drop-in that joins the unit to the tenant's slice.
    JoinSlice,
    /// The unit file.
    WriteUnit,
    /// Enable and start the unit.
    Start,
    /// The proxy site in front.
    Publish,
    /// Disable and stop the unit.
    Stop,
    /// The unit file goes.
    RemoveUnit,
    /// Its revision history goes.
    ForgetUnit,
    /// The drop-in goes.
    RemoveSlice,
    /// Its revision history goes.
    ForgetSlice,
    /// The row goes, and with it the claim on the port.
    DeleteRow,
}

/// The working directory before the unit that names it, the slice before the
/// first start, the vhost last.
pub open spec fn provision_steps(publish: bool) -> Seq<(AppStep, bool)> {
    let common = seq![
        (AppStep::Account, false),
        (AppStep::Directory, false),
        (AppStep::JoinSlice, false),
        (AppStep::WriteUnit, false),
        (AppStep::Start, false),
    ];
    if publish {
        common.push((AppStep::Publish, false))
    } else {
        common
    }
}

/// The row last: it owns the port, and freeing the port before the unit is gone
/// would let the next app take a number that a stale service still binds.
pub open spec fn rollback_steps() -> Seq<AppStep> {
    seq![
        AppStep::Stop,
        AppStep::RemoveUnit,
        AppStep::ForgetUnit,
        AppStep::RemoveSlice,
        AppStep::ForgetSlice,
        AppStep::DeleteRow,
    ]
}

/// Deleting tolerates everything but a row that will not go.
pub open spec fn deletion_steps() -> Seq<(AppStep, bool)> {
    seq![
        (AppStep::Stop, true),
        (AppStep::RemoveUnit, true),
        (AppStep::ForgetUnit, true),
        (AppStep::RemoveSlice, true),
        (AppStep::ForgetSlice, true),
        (AppStep::DeleteRow, false),
    ]
}

fn rollback_list() -> (r: Vec<AppStep>)
    ensures
        r@ == rollback_steps(),
{
    let mut v: Vec<AppStep> = Vec::new();
    v.push(AppStep::Stop);
    v.push(AppStep::RemoveUnit);
    v.push(AppStep::ForgetUnit);
    v.push(AppStep::RemoveSlice);
    v.push(AppStep::ForgetSlice);
    v.push(AppStep::DeleteRow);
    assert(v@ =~= rollback_steps());
    v
}

pub open spec fn next_steps_texts(domain: Option<Seq<char>>, port: int) -> Seq<Seq<char>> {
    let first = "Your app must listen on port "@ + text::signed_decimal(port)
        + " — read it from process.env.PORT"@;
    match domain {
        Some(d) => seq![
            first,
            "Point "@ + d + " at this server's IP address"@,
            "Issue a certificate once DNS has propagated"@,
        ],
        None => seq![
            first,
            "Create a proxy site for this port to publish the app on a domain"@,
        ],
    }
}

impl Create {
    pub fn live() -> (r: Create)
        ensures
            r.node_program@ == "node"@,
    {
        Create { node_program: "node".to_owned() }
    }

    pub fn with_program(program: &str) -> (r: Create)
        ensures
            r.node_program@ == program@,
    {
        Create { node_program: program.to_owned() }
    }

    /// Accept or refuse a request, before anything exists.
    pub fn accept(
        &self,
        input: &CreateInput,
        subscription: &Option<Subscription>,
        plan: &Option<Plan>,
        node: &Option<String>,
        auth: &AuthContext,
    ) -> (r: Result<Accepted, FerrumError>)
        ensures
            ({
                let wanted = acceptance(
                    self.node_program@,
                    *input,
                    *subscription,
                    *plan,
                    error::opt_text(*node),
                    model::granted(auth.permissions@),
                );
                match r {
                    Ok(a) => wanted == Ok::<AcceptedView, Problem>(
                        AcceptedView {
                            user: a.user@,
                            node_binary: a.node_binary@,
                            env: text::texts(a.env@),
                        },
                    ),
                    Err(e) => wanted == Err::<AcceptedView, Problem>(e@),
                }
            }),
    {
        match resolve_subscription(subscription) {
            Ok(()) => {},
            Err(e) => {
                return Err(e);
            },
        }
        match ensure_plan_allows_node_apps(plan) {
            Ok(()) => {},
            Err(e) => {
                return Err(e);
            },
        }
        let node_binary = match nodeapp::locate_node(self.node_program.as_str(), node) {
            Ok(path) => path,
            Err(e) => {
                return Err(e);
            },
        };
        match nodeapp::check_entry(&input.entry) {
            Ok(()) => {},
            Err(e) => {
                return Err(e);
            },
        }
        let env = match nodeapp::environment_lines(input.env.as_slice()) {
            Ok(lines) => lines,
            Err(e) => {
                return Err(e);
            },
        };
        if input.proxy_domain.is_some() {
            match auth.require(Permission::SiteManage) {
                Ok(()) => {},
                Err(e) => {
                    return Err(e);
                },
            }
        }
        match subscription {
            Some(s) => match LinuxUser::parse(s.linux_user.as_str()) {
                Ok(user) => Ok(Accepted { user, node_binary, env }),
                Err(e) => Err(e),
            },
            None => Err(FerrumError::not_found("subscription")),
        }
    }

    /// The course from a fresh row to a running app.
    pub fn provision(publish: bool) -> (r: Procedure<AppStep>)
        ensures
            r@ == procedure::Course::fresh(provision_steps(publish), rollback_steps()),
    {
        let mut steps: Vec<(AppStep, bool)> = Vec::new();
        steps.push((AppStep::Account, false));
        steps.push((AppStep::Directory, false));
        steps.push((AppStep::JoinSlice, false));
        steps.push((AppStep::WriteUnit, false));
        steps.push((AppStep::Start, false));
        if publish {
            steps.push((AppStep::Publish, false));
        }
        assert(steps@ =~= provision_steps(publish));
        Procedure::new(steps, rollback_list())
    }

    /// What to tell the user once the app runs.
    pub fn next_steps(proxy_domain: &Option<Domain>, port: i64) -> (r: Vec<String>)
        ensures
            text::texts(r@) == next_steps_texts(model::domain_text(*proxy_domain), port as int),
    {
        let mut v: Vec<String> = Vec::new();
        let mut first = "Your app must listen on port ".to_owned();
        first.append(text::signed_decimal_of(port).as_str());
        first.append(" — read it from process.env.PORT");
        v.push(first);
        match proxy_domain {
            Some(d) => {
                let mut point = "Point ".to_owned();
                point.append(d.as_str());
                point.append(" at this server's IP address");
                v.push(point);
                v.push("Issue a certificate once DNS has propagated".to_owned());
            },
            None => {
                v.push(
                    "Create a proxy site for this port to publish the app on a domain".to_owned(),
                );
            },
        }
        assert(text::texts(v@) =~= next_steps_texts(model::domain_text(*proxy_domain), port as int));
        v
    }

    /// What the caller is told of a created app.
    pub fn finish(
        app: &NodeApp,
        input: &CreateInput,
        user: &LinuxUser,
        site_id: Option<i64>,
    ) -> (r: CreateOutput)
        ensures
            r.app_id == app.id,
            r.name@ == app.name@,
            r.port == app.port,
            r.unit@ == nodeapp::unit_file_name_of(user@, input.name@),
            r.working_dir@ == model::app_dir_of(user@, input.name@),
            r.linux_user@ == user@,
            r.site_id == site_id,
            text::texts(r.next_steps@) == next_steps_texts(
                model::domain_text(input.proxy_domain),
                app.port as int,
            ),
    {
        CreateOutput {
            app_id: app.id,
            name: app.name.clone(),
            port: app.port,
            unit: nodeapp::unit_file_name(user, &input.name),
            working_dir: model::app_dir_path(user.as_str(), input.name.as_str()),
            linux_user: user.as_str().to_owned(),
            site_id,
            next_steps: Create::next_steps(&input.proxy_domain, app.port),
        }
    }
}

/// Whatever `accept` accepts was allowed by the subscription, its plan and the
/// caller's permissions, and whatever it refuses leaves nothing to undo: it takes
/// no step.
pub proof fn law_acceptance_is_earned(
    program: Seq<char>,
    input: CreateInput,
    subscription: Option<Subscription>,
    plan: Option<Plan>,
    node: Option<Seq<char>>,
    permissions: Set<Permission>,
)
    requires
        acceptance(program, input, subscription, plan, node, permissions) is Ok,
    ensures
        subscription matches Some(s) && s.status.serves() && model::is_linux_user(s.linux_user@),
        plan matches Some(p) ==> p.can_node_apps,
        node is Some,
        nodeapp::entry_refusal(input.entry@) is None,
        nodeapp::environment(input.env@) is Ok,
        input.proxy_domain is Some ==> permissions.contains(Permission::SiteManage),
{
}

/// An app joins its tenant's slice before it is first started, and nothing is
/// published before it runs.
pub proof fn law_an_app_never_starts_outside_its_slice(publish: bool, reports: Seq<bool>, i: int)
    requires
        ({
            let c = procedure::Course::fresh(provision_steps(publish), rollback_steps());
            0 <= i < c.performed(reports).len() && c.performed(reports)[i] == AppStep::Start
        }),
    ensures
        ({
            let c = procedure::Course::fresh(provision_steps(publish), rollback_steps());
            i >= 4 && c.performed(reports).take(4) =~= seq![
                AppStep::Account,
                AppStep::Directory,
                AppStep::JoinSlice,
                AppStep::WriteUnit,
            ]
        }),
{
    let steps = provision_steps(publish);
    let undo = rollback_steps();
    let c = procedure::Course::fresh(steps, undo);
    let done = c.performed(reports);
    let end = c.after_all(reports);
    procedure::law_steps_run_in_order(steps, undo, reports);
    procedure::law_a_failure_is_followed_by_the_undo_list(steps, undo, reports);
    let named = c.named();
    assert(named.len() == steps.len());
    assert(named[0] == AppStep::Account);
    assert(named[1] == AppStep::Directory);
    assert(named[2] == AppStep::JoinSlice);
    assert(named[3] == AppStep::WriteUnit);
    assert(named[4] == AppStep::Start);
    assert(publish ==> named[5] == AppStep::Publish);
    if end.failed {
        let k = choose|k: int|
            0 <= k < steps.len() && !steps[k].1 && #[trigger] (named.take(k + 1) + undo.take(end.at))
                == done;
        procedure::lemma_within_undo(c, reports);
        if i > k {
            assert(done[i] == undo[i - k - 1]);
        } else {
            assert(done[i] == named[i]);
            assert(done.take(4) =~= named.take(4));
        }
    } else {
        assert(done[i] == named[i]);
        assert(done.take(4) =~= named.take(4));
    }
}

// ---------------------------------------------------------------------------
// app.delete
// ---------------------------------------------------------------------------

pub struct Delete;

#[derive(Debug)]
pub struct DeleteInput {
    pub app_id: i64,
}

#[derive(Debug)]
pub struct DeleteOutput {
    pub name: String,
    pub port: i64,
    /// The proxy site left standing, if there was one.
    pub orphaned_site_id: Option<i64>,
}

impl Delete {
    pub fn course() -> (r: Procedure<AppStep>)
        ensures
            r@ == procedure::Course::fresh(deletion_steps(), Seq::empty()),
    {
        let mut steps: Vec<(AppStep, bool)> = Vec::new();
        steps.push((AppStep::Stop, true));
        steps.push((AppStep::RemoveUnit, true));
        steps.push((AppStep::ForgetUnit, true));
        steps.push((AppStep::RemoveSlice, true));
        steps.push((AppStep::ForgetSlice, true));
        steps.push((AppStep::DeleteRow, false));
        assert(steps@ =~= deletion_steps());
        let none: Vec<AppStep> = Vec::new();
        assert(none@ =~= Seq::empty());
        Procedure::new(steps, none)
    }

    /// What the caller is told of the removed row: the tenant's domain stays.
    pub fn finish(removed: &NodeApp) -> (r: DeleteOutput)
        ensures
            r.name@ == removed.name@,
            r.port == removed.port,
            r.orphaned_site_id == removed.site_id,
    {
        DeleteOutput {
            name: removed.name.clone(),
            port: removed.port,
            orphaned_site_id: removed.site_id,
        }
    }
}

// ---------------------------------------------------------------------------
// app.restart
// ---------------------------------------------------------------------------

pub struct Restart;

#[derive(Debug)]
pub struct RestartInput {
    pub app_id: i64,
}

#[derive(Debug)]
pub struct RestartOutput {
    pub unit: String,
    pub restarted: bool,
}

impl Restart {
    /// A missing unit deserves a sentence.
    pub fn check(unit: &UnitName, status: UnitStatus) -> (r: Result<(), FerrumError>)
        ensures
            match r {
                Ok(()) => status.installed(),
                Err(e) => !status.installed() && e@ == error::problem(
                    ErrorCode::NotFound,
                    "`"@ + unit@
                        + "` is not installed on this server; the app's unit file is missing — delete the app and create it again"@,
                ),
            },
    {
        if status.is_installed() {
            Ok(())
        } else {
            let mut m = "`".to_owned();
            m.append(unit.as_str());
            m.append(
                "` is not installed on this server; the app's unit file is missing — delete the app and create it again",
            );
            Err(FerrumError::new(ErrorCode::NotFound, m.as_str()))
        }
    }
}

// ---------------------------------------------------------------------------
// app.logs
// ---------------------------------------------------------------------------

pub struct Logs;

#[derive(Debug)]
pub struct LogsInput {
    pub app_id: i64,
    pub lines: Option<u32>,
}

#[derive(Debug)]
pub struct LogsOutput {
    pub unit: String,
    pub lines: Vec<String>,
}

/// How many journal lines a request gets.
pub open spec fn log_lines(asked: Option<u32>) -> u32 {
    match asked {
        None => nodeapp::DEFAULT_LOG_LINES,
        Some(n) => if n < 1 {
            1
        } else if n > nodeapp::MAX_LOG_LINES {
            nodeapp::MAX_LOG_LINES
        } else {
            n
        },
    }
}

impl LogsInput {
    pub fn wanted_lines(&self) -> (r: u32)
        ensures
            r == log_lines(self.lines),
            1 <= r <= nodeapp::MAX_LOG_LINES,
    {
        match self.lines {
            None => nodeapp::DEFAULT_LOG_LINES,
            Some(n) => if n < 1 {
                1
            } else if n > nodeapp::MAX_LOG_LINES {
                nodeapp::MAX_LOG_LINES
            } else {
                n
            },
        }
    }
}

// ---------------------------------------------------------------------------
// The site in front of an app
// ---------------------------------------------------------------------------

/// The proxy site that publishes an app under a domain.
pub fn publish_proxy_site(app: &NodeApp, domain: Domain) -> (r: Result<SiteInput, FerrumError>)
    ensures
        match r {
            Ok(input) => {
                &&& 0 <= app.port <= u16::MAX
                &&& input.domain == domain
                &&& input.site_type == SiteTypeInput::Proxy
                &&& input.php_version is None
                &&& input.subscription_id == Some(app.subscription_id)
                &&& !input.with_www
                &&& input.proxy_port matches Some(p)
                &&& p == app.port
                &&& input.redirect_target is None
            },
            Err(e) => !(0 <= app.port <= u16::MAX) && e@ == error::problem(
                ErrorCode::Internal,
                "an allocated app port did not fit in a u16"@,
            ),
        },
{
    if app.port < 0 || app.port > 65535 {
        return Err(FerrumError::internal("an allocated app port did not fit in a u16"));
    }
    Ok(
        SiteInput {
            domain,
            site_type: SiteTypeInput::Proxy,
            php_version: None,
            subscription_id: Some(app.subscription_id),
            with_www: false,
            proxy_port: Some(app.port as u16),
            redirect_target: None,
        },
    )
}

} // verus!
