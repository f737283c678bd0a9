//! Who gets which shell.
//!
//! [`authorize`] turns a verified caller and the target they ask for into a
//! [`SessionPlan`], or refuses. Looking rows and accounts up is the caller's
//! part; deciding what they mean is done here.
use vstd::prelude::*;
use vstd::string::StringExecFns;
use crate::error;
use crate::error::{ErrorCode, FerrumError, Problem};
use crate::model;
use crate::model::{AuthContext, LinuxUser, Permission, Plan, Role, Subscription, TenantScope};
use crate::text;

pub mod keys;
pub mod laws;
pub mod pty;
pub mod session;

verus! {

// ---------------------------------------------------------------------------
// Shells
// ---------------------------------------------------------------------------

/// Login shells a session may be started with, in order of preference.
pub open spec fn allowed_shells() -> Seq<Seq<char>> {
    seq![
        "/bin/bash"@,
        "/usr/bin/bash"@,
        "/bin/sh"@,
        "/usr/bin/sh"@,
        "/bin/zsh"@,
        "/usr/bin/zsh"@,
        "/bin/dash"@,
        "/usr/bin/dash"@,
        "/usr/bin/fish"@,
    ]
}

/// Shells that mean that an account may not log in.
pub open spec fn refused_shells() -> Seq<Seq<char>> {
    seq![
        "/usr/sbin/nologin"@,
        "/sbin/nologin"@,
        "/usr/bin/nologin"@,
        "/bin/false"@,
        "/usr/bin/false"@,
    ]
}

/// [`allowed_shells`] as a list, for a caller to look for on the machine.
pub fn shell_candidates() -> (r: Vec<String>)
    ensures
        text::texts(r@) == allowed_shells(),
{
    let r = vec![
        "/bin/bash".to_owned(),
        "/usr/bin/bash".to_owned(),
        "/bin/sh".to_owned(),
        "/usr/bin/sh".to_owned(),
        "/bin/zsh".to_owned(),
        "/usr/bin/zsh".to_owned(),
        "/bin/dash".to_owned(),
        "/usr/bin/dash".to_owned(),
        "/usr/bin/fish".to_owned(),
    ];
    assert(text::texts(r@) =~= allowed_shells());
    r
}

fn refused_list() -> (r: Vec<String>)
    ensures
        text::texts(r@) == refused_shells(),
{
    let r = vec![
        "/usr/sbin/nologin".to_owned(),
        "/sbin/nologin".to_owned(),
        "/usr/bin/nologin".to_owned(),
        "/bin/false".to_owned(),
        "/usr/bin/false".to_owned(),
    ];
    assert(text::texts(r@) =~= refused_shells());
    r
}

/// What is wrong with an account's login shell.
pub open spec fn shell_refusal(shell: Seq<char>) -> Option<Problem> {
    if refused_shells().contains(shell) {
        Some(
            error::problem(
                ErrorCode::PlanFeatureDisabled,
                "this account has no login shell; enable shell access on its plan first"@,
            ),
        )
    } else if !allowed_shells().contains(shell) {
        Some(
            error::problem(
                ErrorCode::InvalidInput,
                "`"@ + shell + "` is not a login shell the panel will start"@,
            ),
        )
    } else {
        None
    }
}

/// Checks an account's login shell.
pub fn vet_shell(shell: &str) -> (r: Result<String, FerrumError>)
    ensures
        match r {
            Ok(s) => shell_refusal(shell@) is None && s@ == shell@,
            Err(e) => shell_refusal(shell@) == Some(e@),
        },
{
    let refused = refused_list();
    if text::listed(&refused, shell) {
        return Err(
            FerrumError::new(
                ErrorCode::PlanFeatureDisabled,
                "this account has no login shell; enable shell access on its plan first",
            ),
        );
    }
    let allowed = shell_candidates();
    if !text::listed(&allowed, shell) {
        let mut m = "`".to_owned();
        m.append(shell);
        m.append("` is not a login shell the panel will start");
        return Err(FerrumError::new(ErrorCode::InvalidInput, m.as_str()));
    }
    Ok(shell.to_owned())
}

/// The first of some shells that is installed.
pub open spec fn first_installed(shells: Seq<Seq<char>>, installed: Seq<Seq<char>>) -> Option<
    Seq<char>,
>
    decreases shells.len(),
{
    if shells.len() == 0 {
        None
    } else if installed.contains(shells[0]) {
        Some(shells[0])
    } else {
        first_installed(shells.skip(1), installed)
    }
}

pub open spec fn root_shell(installed: Seq<Seq<char>>) -> Result<Seq<char>, Problem> {
    match first_installed(allowed_shells(), installed) {
        Some(s) => Ok(s),
        None => Err(
            error::problem(
                ErrorCode::Internal,
                "no usable login shell is installed on this server"@,
            ),
        ),
    }
}

/// The shell of a root session: the first allowed one that is installed.
pub fn pick_root_shell(installed: &Vec<String>) -> (r: Result<String, FerrumError>)
    ensures
        error::outcome(r) == root_shell(text::texts(installed@)),
{
    let shells = shell_candidates();
    let ghost all = text::texts(shells@);
    let ghost have = text::texts(installed@);
    let mut i: usize = 0;
    assert(all.skip(0) =~= all);
    while i < shells.len()
        invariant
            i <= shells@.len(),
            all == text::texts(shells@),
            all == allowed_shells(),
            have == text::texts(installed@),
            first_installed(all, have) == first_installed(all.skip(i as int), have),
        decreases shells@.len() - i,
    {
        let ghost rest = all.skip(i as int);
        assert(rest[0] == shells@[i as int]@);
        if text::listed(installed, shells[i].as_str()) {
            return Ok(shells[i].as_str().to_owned());
        }
        assert(rest.skip(1) =~= all.skip(i + 1));
        i = i + 1;
    }
    Err(FerrumError::internal("no usable login shell is installed on this server"))
}

// ---------------------------------------------------------------------------
// Plans
// ---------------------------------------------------------------------------

/// What a caller asks for.
#[derive(Debug, Clone, Copy, PartialEq, Eq)]
pub enum TerminalTarget {
    Root,
    Tenant { subscription_id: Option<i64> },
}

/// What a caller may have. Only [`authorize`] makes one.
#[derive(Debug, PartialEq, Eq)]
pub enum SessionPlan {
    /// A root shell. For administrators only.
    Root { home: String, shell: String },
    /// A shell as a tenant's Linux account.
    Tenant {
        uid: u32,
        gid: u32,
        linux_user: LinuxUser,
        subscription_id: i64,
        home: String,
        shell: String,
    },
}

/// A [`SessionPlan`] as contracts see it.
#[verifier::ext_equal]
pub enum Grant {
    Root { home: Seq<char>, shell: Seq<char> },
    Tenant {
        uid: u32,
        gid: u32,
        linux_user: Seq<char>,
        subscription_id: i64,
        home: Seq<char>,
        shell: Seq<char>,
    },
}

impl View for SessionPlan {
    type V = Grant;

    open spec fn view(&self) -> Grant {
        match self {
            SessionPlan::Root { home, shell } => Grant::Root { home: home@, shell: shell@ },
            SessionPlan::Tenant { uid, gid, linux_user, subscription_id, home, shell } =>
                Grant::Tenant {
                uid: *uid,
                gid: *gid,
                linux_user: linux_user@,
                subscription_id: *subscription_id,
                home: home@,
                shell: shell@,
            },
        }
    }
}

impl DeepView for SessionPlan {
    type V = Grant;

    open spec fn deep_view(&self) -> Grant {
        self@
    }
}

impl SessionPlan {
    /// The account the session runs as.
    pub fn account(&self) -> (r: String)
        ensures
            r@ == (match self@ {
                Grant::Root { .. } => "root"@,
                Grant::Tenant { linux_user, .. } => linux_user,
            }),
    {
        match self {
            SessionPlan::Root { .. } => "root".to_owned(),
            SessionPlan::Tenant { linux_user, .. } => linux_user.as_str().to_owned(),
        }
    }

    pub fn is_root(&self) -> (r: bool)
        ensures
            r == (self@ is Root),
    {
        match self {
            SessionPlan::Root { .. } => true,
            SessionPlan::Tenant { .. } => false,
        }
    }

    pub fn home(&self) -> (r: &str)
        ensures
            r@ == (match self@ {
                Grant::Root { home, .. } => home,
                Grant::Tenant { home, .. } => home,
            }),
    {
        match self {
            SessionPlan::Root { home, .. } => home.as_str(),
            SessionPlan::Tenant { home, .. } => home.as_str(),
        }
    }

    pub fn shell(&self) -> (r: &str)
        ensures
            r@ == (match self@ {
                Grant::Root { shell, .. } => shell,
                Grant::Tenant { shell, .. } => shell,
            }),
    {
        match self {
            SessionPlan::Root { shell, .. } => shell.as_str(),
            SessionPlan::Tenant { shell, .. } => shell.as_str(),
        }
    }

    pub fn subscription_id(&self) -> (r: Option<i64>)
        ensures
            r == (match self@ {
                Grant::Root { .. } => None::<i64>,
                Grant::Tenant { subscription_id, .. } => Some(subscription_id),
            }),
    {
        match self {
            SessionPlan::Root { .. } => None,
            SessionPlan::Tenant { subscription_id, .. } => Some(*subscription_id),
        }
    }
}

/// One entry of the account database.
#[derive(Debug, Clone, PartialEq, Eq)]
pub struct Account {
    pub uid: u32,
    pub gid: u32,
    pub home: String,
    pub shell: String,
}

/// Where accounts are looked up.
pub trait AccountSource {
    fn lookup(&self, linux_user: &str) -> Option<Account>;
}

// ---------------------------------------------------------------------------
// Subscriptions
// ---------------------------------------------------------------------------

/// What the caller's own scope holds.
#[derive(Debug)]
pub struct Holdings {
    /// The subscription of the id that was asked for, if the scope has it.
    pub named: Option<Subscription>,
    /// The subscriptions in the scope, when no id was asked for.
    pub mine: Vec<Subscription>,
}

/// The position of the subscription with the least id, the first of them if
/// there are several.
pub open spec fn oldest(mine: Seq<Subscription>) -> Option<int>
    decreases mine.len(),
{
    if mine.len() == 0 {
        None
    } else {
        match oldest(mine.drop_last()) {
            None => Some(0int),
            Some(i) => if mine.last().id < mine[i].id {
                Some(mine.len() - 1)
            } else {
                Some(i)
            },
        }
    }
}

/// The subscription an operation is about: the named one, or else the oldest of
/// the caller's own.
pub open spec fn subscription_for(
    scope: TenantScope,
    subscription_id: Option<i64>,
    held: Holdings,
) -> Result<Subscription, Problem> {
    if subscription_id is Some {
        match held.named {
            Some(s) => Ok(s),
            None => Err(error::not_found_problem("subscription"@)),
        }
    } else if scope is Global {
        Err(
            error::field_problem(
                ErrorCode::InvalidInput,
                "name the subscription to open a tenant shell for"@,
                "subscription_id"@,
            ),
        )
    } else {
        match oldest(held.mine@) {
            Some(i) => Ok(held.mine@[i]),
            None => Err(error::not_found_problem("subscription"@)),
        }
    }
}

fn oldest_of(mine: &Vec<Subscription>) -> (r: Option<usize>)
    ensures
        match r {
            Some(i) => oldest(mine@) == Some(i as int) && i < mine@.len(),
            None => oldest(mine@) is None,
        },
{
    let n: usize = mine.len();
    if n == 0 {
        return None;
    }
    let mut best: usize = 0;
    let mut i: usize = 1;
    proof {
        let one = mine@.take(1);
        assert(oldest(one.drop_last()) is None);
        assert(oldest(one) == Some(0int));
    }
    while i < n
        invariant
            best < i <= n,
            n == mine@.len(),
            oldest(mine@.take(i as int)) == Some(best as int),
        decreases n - i,
    {
        let ghost next = mine@.take(i + 1);
        assert(next.drop_last() =~= mine@.take(i as int));
        assert(next.last() == mine@[i as int]);
        assert(next[best as int] == mine@[best as int]);
        if mine[i].id < mine[best].id {
            best = i;
        }
        i = i + 1;
    }
    assert(mine@.take(n as int) =~= mine@);
    Some(best)
}

/// Resolves the subscription an operation is about. None is ever created.
pub fn resolve_subscription<'a>(
    auth: &AuthContext,
    subscription_id: Option<i64>,
    held: &'a Holdings,
) -> (r: Result<&'a Subscription, FerrumError>)
    ensures
        match r {
            Ok(s) => subscription_for(auth.tenant_scope, subscription_id, *held) == Ok::<
                Subscription,
                Problem,
            >(*s),
            Err(e) => subscription_for(auth.tenant_scope, subscription_id, *held) == Err::<
                Subscription,
                Problem,
            >(e@),
        },
{
    if subscription_id.is_some() {
        return match &held.named {
            Some(s) => Ok(s),
            None => Err(FerrumError::not_found("subscription")),
        };
    }
    if let TenantScope::Global = auth.tenant_scope {
        return Err(
            FerrumError::new(
                ErrorCode::InvalidInput,
                "name the subscription to open a tenant shell for",
            ).with_field("subscription_id"),
        );
    }
    match oldest_of(&held.mine) {
        Some(i) => Ok(&held.mine[i]),
        None => Err(FerrumError::not_found("subscription")),
    }
}

// ---------------------------------------------------------------------------
// Authorisation
// ---------------------------------------------------------------------------

/// What the plan says to a shell, where it is asked.
pub open spec fn plan_refusal(plan: Option<Plan>) -> Option<Problem> {
    match plan {
        Some(p) => if p.can_ssh {
            None
        } else {
            Some(
                error::problem(
                    ErrorCode::PlanFeatureDisabled,
                    "plan `"@ + p.name@ + "` does not include shell access"@,
                ),
            )
        },
        None => Some(
            error::problem(
                ErrorCode::PlanFeatureDisabled,
                "shell access is a plan feature and this subscription has no plan"@,
            ),
        ),
    }
}

/// Why a subscription gets no shell, before its account is looked up.
pub open spec fn tenant_refusal(
    subscription: Subscription,
    plan: Option<Plan>,
    require_plan_flag: bool,
) -> Option<Problem> {
    if !subscription.status.serves() {
        Some(
            error::problem(
                ErrorCode::AccountSuspended,
                "this subscription is suspended; its shell is closed"@,
            ),
        )
    } else if require_plan_flag && plan_refusal(plan) is Some {
        plan_refusal(plan)
    } else if !model::is_linux_user(subscription.linux_user@) {
        Some(
            error::problem(
                ErrorCode::InvalidInput,
                "`"@ + subscription.linux_user@ + "` is not a valid Linux account name"@,
            ),
        )
    } else {
        None
    }
}

/// What an account that was looked up is good for.
pub open spec fn account_grant(subscription: Subscription, account: Option<Account>) -> Result<
    Grant,
    Problem,
> {
    match account {
        None => Err(
            error::problem(
                ErrorCode::NotFound,
                "the Linux account `"@ + subscription.linux_user@
                    + "` does not exist on this server"@,
            ),
        ),
        Some(a) => if a.uid == 0 || a.gid == 0 {
            Err(
                error::problem(
                    ErrorCode::Internal,
                    "`"@ + subscription.linux_user@
                        + "` maps to uid/gid 0; refusing to open a tenant terminal as root"@,
                ),
            )
        } else {
            match shell_refusal(a.shell@) {
                Some(p) => Err(p),
                None => Ok(
                    Grant::Tenant {
                        uid: a.uid,
                        gid: a.gid,
                        linux_user: subscription.linux_user@,
                        subscription_id: subscription.id,
                        home: subscription.home_dir@,
                        shell: a.shell@,
                    },
                ),
            }
        },
    }
}

/// The shell of a tenant.
pub open spec fn tenant_grant(
    subscription: Subscription,
    plan: Option<Plan>,
    require_plan_flag: bool,
    account: Option<Account>,
) -> Result<Grant, Problem> {
    match tenant_refusal(subscription, plan, require_plan_flag) {
        Some(p) => Err(p),
        None => account_grant(subscription, account),
    }
}

fn check_tenant(
    subscription: &Subscription,
    plan: &Option<Plan>,
    require_plan_flag: bool,
) -> (r: Result<LinuxUser, FerrumError>)
    ensures
        match r {
            Ok(u) => tenant_refusal(*subscription, *plan, require_plan_flag) is None && u@
                == subscription.linux_user@,
            Err(e) => tenant_refusal(*subscription, *plan, require_plan_flag) == Some(e@),
        },
{
    if !subscription.status.can_serve() {
        return Err(
            FerrumError::new(
                ErrorCode::AccountSuspended,
                "this subscription is suspended; its shell is closed",
            ),
        );
    }
    if require_plan_flag {
        match plan {
            Some(p) => {
                if !p.can_ssh {
                    let mut m = "plan `".to_owned();
                    m.append(p.name.as_str());
                    m.append("` does not include shell access");
                    return Err(FerrumError::new(ErrorCode::PlanFeatureDisabled, m.as_str()));
                }
            },
            None => {
                return Err(
                    FerrumError::new(
                        ErrorCode::PlanFeatureDisabled,
                        "shell access is a plan feature and this subscription has no plan",
                    ),
                );
            },
        }
    }
    LinuxUser::parse(subscription.linux_user.as_str())
}

/// Turns an account that was looked up into a session.
pub fn open_account(
    subscription: &Subscription,
    linux_user: LinuxUser,
    account: Option<Account>,
) -> (r: Result<SessionPlan, FerrumError>)
    requires
        linux_user@ == subscription.linux_user@,
    ensures
        error::outcome(r) == account_grant(*subscription, account),
{
    let a = match account {
        Some(a) => a,
        None => {
            let mut m = "the Linux account `".to_owned();
            m.append(linux_user.as_str());
            m.append("` does not exist on this server");
            return Err(FerrumError::new(ErrorCode::NotFound, m.as_str()));
        },
    };
    if a.uid == 0 || a.gid == 0 {
        let mut m = "`".to_owned();
        m.append(linux_user.as_str());
        m.append("` maps to uid/gid 0; refusing to open a tenant terminal as root");
        return Err(FerrumError::internal(m.as_str()));
    }
    match vet_shell(a.shell.as_str()) {
        Ok(shell) => Ok(
            SessionPlan::Tenant {
                uid: a.uid,
                gid: a.gid,
                linux_user,
                subscription_id: subscription.id,
                home: subscription.home_dir.as_str().to_owned(),
                shell,
            },
        ),
        Err(e) => Err(e),
    }
}

/// What a source of accounts answered for a user, when it was asked.
pub open spec fn answered<A: AccountSource>(
    accounts: &A,
    user: Seq<char>,
    found: Option<Account>,
) -> bool {
    exists|name: &str|
        name@ == user && #[trigger] call_ensures(A::lookup, (accounts, name), found)
}

/// A tenant's session, with the plan asked or not. A subscription without a plan
/// is refused where the plan is asked.
pub fn tenant_plan<A: AccountSource>(
    accounts: &A,
    subscription: &Subscription,
    plan: &Option<Plan>,
    require_plan_flag: bool,
) -> (r: Result<SessionPlan, FerrumError>)
    ensures
        exists|found: Option<Account>|
            error::outcome(r) == #[trigger] tenant_grant(
                *subscription,
                *plan,
                require_plan_flag,
                found,
            ) && (tenant_refusal(*subscription, *plan, require_plan_flag) is None ==> answered(
                accounts,
                subscription.linux_user@,
                found,
            )),
{
    match check_tenant(subscription, plan, require_plan_flag) {
        Err(e) => {
            assert(Err::<Grant, Problem>(e@) == tenant_grant(
                *subscription,
                *plan,
                require_plan_flag,
                None,
            ));
            Err(e)
        },
        Ok(user) => {
            let name = user.as_str();
            let found = accounts.lookup(name);
            let ghost looked = found;
            assert(call_ensures(A::lookup, (accounts, name), looked));
            let r = open_account(subscription, user, found);
            assert(error::outcome(r) == tenant_grant(
                *subscription,
                *plan,
                require_plan_flag,
                looked,
            ));
            r
        },
    }
}

/// Which way a request goes, once the caller's role is known.
#[derive(Debug, Clone, Copy, PartialEq, Eq)]
pub enum Route {
    Root,
    Tenant { subscription_id: Option<i64>, require_plan_flag: bool },
}

/// The table of roles and targets. There is one way to a root shell in it.
pub open spec fn route(auth: AuthContext, target: TerminalTarget) -> Result<Route, Problem> {
    if !model::granted(auth.permissions@).contains(Permission::TerminalAccess) {
        Err(model::denied_problem())
    } else {
        match (auth.acting_role, target) {
            (Role::Admin, TerminalTarget::Root) => Ok(Route::Root),
            (Role::Admin, TerminalTarget::Tenant { subscription_id }) => Ok(
                Route::Tenant { subscription_id, require_plan_flag: false },
            ),
            (Role::Customer, TerminalTarget::Root) => Err(
                error::problem(
                    ErrorCode::PermissionDenied,
                    "a root terminal is available to administrators only"@,
                ),
            ),
            (Role::Customer, TerminalTarget::Tenant { subscription_id }) => Ok(
                Route::Tenant { subscription_id, require_plan_flag: true },
            ),
            (Role::Reseller, _) => Err(
                error::problem(
                    ErrorCode::PermissionDenied,
                    "reseller accounts have no shell on this server"@,
                ),
            ),
        }
    }
}

/// Decides which way a request goes, before anything is looked up.
pub fn choose_route(auth: &AuthContext, target: &TerminalTarget) -> (r: Result<Route, FerrumError>)
    ensures
        match r {
            Ok(way) => route(*auth, *target) == Ok::<Route, Problem>(way),
            Err(e) => route(*auth, *target) == Err::<Route, Problem>(e@),
        },
{
    match auth.require(Permission::TerminalAccess) {
        Ok(()) => {},
        Err(e) => return Err(e),
    }
    match (auth.acting_role, *target) {
        (Role::Admin, TerminalTarget::Root) => Ok(Route::Root),
        (Role::Admin, TerminalTarget::Tenant { subscription_id }) => Ok(
            Route::Tenant { subscription_id, require_plan_flag: false },
        ),
        (Role::Customer, TerminalTarget::Root) => Err(
            FerrumError::new(
                ErrorCode::PermissionDenied,
                "a root terminal is available to administrators only",
            ),
        ),
        (Role::Customer, TerminalTarget::Tenant { subscription_id }) => Ok(
            Route::Tenant { subscription_id, require_plan_flag: true },
        ),
        (Role::Reseller, _) => Err(
            FerrumError::new(
                ErrorCode::PermissionDenied,
                "reseller accounts have no shell on this server",
            ),
        ),
    }
}

/// What the database and the machine say about a request.
#[derive(Debug)]
pub struct Facts {
    /// Which of [`shell_candidates`] are installed.
    pub installed_shells: Vec<String>,
    pub held: Holdings,
    /// The plan of the subscription that is resolved.
    pub plan: Option<Plan>,
}

/// What a caller gets.
pub open spec fn authorized(
    auth: AuthContext,
    target: TerminalTarget,
    facts: Facts,
    account: Option<Account>,
) -> Result<Grant, Problem> {
    match route(auth, target) {
        Err(p) => Err(p),
        Ok(Route::Root) => match root_shell(text::texts(facts.installed_shells@)) {
            Ok(shell) => Ok(Grant::Root { home: "/root"@, shell }),
            Err(p) => Err(p),
        },
        Ok(Route::Tenant { subscription_id, require_plan_flag }) => match subscription_for(
            auth.tenant_scope,
            subscription_id,
            facts.held,
        ) {
            Err(p) => Err(p),
            Ok(s) => tenant_grant(s, facts.plan, require_plan_flag, account),
        },
    }
}

/// The Linux user whose account is looked up for a request, if any is.
pub open spec fn looks_up(auth: AuthContext, target: TerminalTarget, facts: Facts) -> Option<
    Seq<char>,
> {
    match route(auth, target) {
        Ok(Route::Tenant { subscription_id, require_plan_flag }) => match subscription_for(
            auth.tenant_scope,
            subscription_id,
            facts.held,
        ) {
            Ok(s) if tenant_refusal(s, facts.plan, require_plan_flag) is None => Some(
                s.linux_user@,
            ),
            _ => None,
        },
        _ => None,
    }
}

/// Decides what, if anything, a caller gets. The permission comes first, then
/// the role, and only then the subscription and its account.
pub fn authorize<A: AccountSource>(
    accounts: &A,
    auth: &AuthContext,
    target: &TerminalTarget,
    facts: &Facts,
) -> (r: Result<SessionPlan, FerrumError>)
    ensures
        exists|account: Option<Account>|
            error::outcome(r) == #[trigger] authorized(*auth, *target, *facts, account) && (
            looks_up(*auth, *target, *facts) matches Some(user) ==> answered(
                accounts,
                user,
                account,
            )),
{
    match choose_route(auth, target) {
        Err(e) => {
            assert(Err::<Grant, Problem>(e@) == authorized(*auth, *target, *facts, None));
            Err(e)
        },
        Ok(Route::Root) => match pick_root_shell(&facts.installed_shells) {
            Ok(shell) => {
                let plan = SessionPlan::Root { home: "/root".to_owned(), shell };
                assert(Ok::<Grant, Problem>(plan@) == authorized(*auth, *target, *facts, None));
                Ok(plan)
            },
            Err(e) => {
                assert(Err::<Grant, Problem>(e@) == authorized(*auth, *target, *facts, None));
                Err(e)
            },
        },
        Ok(Route::Tenant { subscription_id, require_plan_flag }) => {
            match resolve_subscription(auth, subscription_id, &facts.held) {
                Err(e) => {
                    assert(Err::<Grant, Problem>(e@) == authorized(*auth, *target, *facts, None));
                    Err(e)
                },
                Ok(s) => {
                    let r = tenant_plan(accounts, s, &facts.plan, require_plan_flag);
                    proof {
                        let found = choose|found: Option<Account>|
                            error::outcome(r) == #[trigger] tenant_grant(
                                *s,
                                facts.plan,
                                require_plan_flag,
                                found,
                            ) && (tenant_refusal(*s, facts.plan, require_plan_flag) is None
                                ==> answered(accounts, s.linux_user@, found));
                        assert(error::outcome(r) == authorized(*auth, *target, *facts, found));
                    }
                    r
                },
            }
        },
    }
}

// ---------------------------------------------------------------------------
// Laws
// ---------------------------------------------------------------------------

/// The oldest subscription has the least id, and is the first one that has it.
pub proof fn law_the_oldest_has_the_least_id(mine: Seq<Subscription>)
    ensures
        oldest(mine) is None <==> mine.len() == 0,
        oldest(mine) matches Some(i) ==> {
            &&& 0 <= i < mine.len()
            &&& forall|j: int| 0 <= j < mine.len() ==> mine[i].id <= (#[trigger] mine[j]).id
            &&& forall|j: int| 0 <= j < i ==> mine[i].id < (#[trigger] mine[j]).id
        },
    decreases mine.len(),
{
    if mine.len() > 0 {
        law_the_oldest_has_the_least_id(mine.drop_last());
        let i = oldest(mine).unwrap();
        assert forall|j: int| 0 <= j < mine.len() implies mine[i].id <= (#[trigger] mine[j]).id by {
            if j < mine.len() - 1 {
                assert(mine.drop_last()[j] == mine[j]);
            }
        }
        assert forall|j: int| 0 <= j < i implies mine[i].id < (#[trigger] mine[j]).id by {
            assert(mine.drop_last()[j] == mine[j]);
        }
    }
}

/// A root shell is for an administrator who holds the terminal permission and
/// asked for one; nobody else ever gets it.
pub proof fn law_root_is_for_administrators(
    auth: AuthContext,
    target: TerminalTarget,
    facts: Facts,
    account: Option<Account>,
)
    requires
        authorized(auth, target, facts, account) matches Ok(g) && g is Root,
    ensures
        auth.acting_role == Role::Admin,
        target is Root,
        model::granted(auth.permissions@).contains(Permission::TerminalAccess),
{
}

/// A tenant's shell is never root's, is a login shell from the allowlist, and
/// belongs to a subscription that serves; a customer's also needs a plan with
/// shell access.
pub proof fn law_tenant_shells_are_earned(
    auth: AuthContext,
    target: TerminalTarget,
    facts: Facts,
    account: Option<Account>,
)
    requires
        authorized(auth, target, facts, account) matches Ok(g) && g is Tenant,
    ensures
        ({
            let g = authorized(auth, target, facts, account)->Ok_0;
            let asked = target->subscription_id;
            &&& target is Tenant
            &&& subscription_for(auth.tenant_scope, asked, facts.held) matches Ok(s)
            &&& s.status.serves()
            &&& g->linux_user == s.linux_user@
            &&& g->uid != 0
            &&& g->gid != 0
            &&& allowed_shells().contains(g->Tenant_shell)
            &&& auth.acting_role != Role::Reseller
            &&& (auth.acting_role == Role::Customer ==> facts.plan is Some
                && facts.plan->0.can_ssh)
        }),
{
}

/// The permission gate comes first: without it nothing about the target decides
/// the answer.
pub proof fn law_the_permission_gate_comes_first(
    auth: AuthContext,
    target: TerminalTarget,
    facts: Facts,
    account: Option<Account>,
)
    requires
        !model::granted(auth.permissions@).contains(Permission::TerminalAccess),
    ensures
        authorized(auth, target, facts, account) == Err::<Grant, Problem>(
            model::denied_problem(),
        ),
{
}

} // verus!
