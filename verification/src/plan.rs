//! Plans, plan assignment, and suspending a subscription.
//!
//! A plan is a named bundle of limits. A limit is enforced where the thing it
//! limits is created; lowering one never takes away what is there.
//!
//! Suspending a subscription sets its status first and only then puts the
//! maintenance page in front of its sites, so that nothing new can be created
//! under it even if every site refuses.
use vstd::prelude::*;
use vstd::string::StringExecFns;
use vstd::string::StrSliceExecFns;
use crate::error;
use crate::error::{ErrorCode, FerrumError, Problem};
use crate::model;
use crate::model::{LinuxUser, Plan, Site, SiteStatus, Subscription, SubscriptionStatus, TenantScope};
use crate::procedure;
use crate::procedure::{Course, Procedure};
use crate::text;

pub mod laws;

verus! {

// ---------------------------------------------------------------------------
// Limits
// ---------------------------------------------------------------------------

/// Why a subscription that holds `used` sites gets no other one. Without a plan
/// there is no limit.
pub open spec fn site_limit_refusal(plan: Option<Plan>, used: i64) -> Option<Problem> {
    match plan {
        None => None,
        Some(p) => if used >= p.max_sites {
            Some(
                error::problem(
                    ErrorCode::QuotaExceeded,
                    "plan `"@ + p.name@ + "` allows "@ + text::signed_decimal(p.max_sites as int)
                        + " site(s) and this subscription already has "@ + text::signed_decimal(
                        used as int,
                    ),
                ),
            )
        } else {
            None
        },
    }
}

/// Refuses a site that would exceed the subscription's plan. The refusal names
/// the plan and both numbers.
pub fn enforce_site_limit(plan: &Option<Plan>, used: i64) -> (r: Result<(), FerrumError>)
    ensures
        match r {
            Ok(()) => site_limit_refusal(*plan, used) is None,
            Err(e) => site_limit_refusal(*plan, used) == Some(e@),
        },
{
    match plan {
        None => Ok(()),
        Some(p) => {
            if used >= p.max_sites {
                let mut m = "plan `".to_owned();
                m.append(p.name.as_str());
                m.append("` allows ");
                let allowed = text::signed_decimal_of(p.max_sites);
                m.append(allowed.as_str());
                m.append(" site(s) and this subscription already has ");
                let have = text::signed_decimal_of(used);
                m.append(have.as_str());
                return Err(FerrumError::new(ErrorCode::QuotaExceeded, m.as_str()));
            }
            Ok(())
        },
    }
}

// ---------------------------------------------------------------------------
// Names and reasons
// ---------------------------------------------------------------------------

pub open spec fn has_control(s: Seq<char>) -> bool {
    exists|i: int| 0 <= i < s.len() && text::is_control(#[trigger] s[i])
}

fn any_control(s: &str) -> (r: bool)
    ensures
        r == has_control(s@),
{
    let v = text::chars_of(s);
    let mut i: usize = 0;
    while i < v.len()
        invariant
            i <= v@.len(),
            v@ == s@,
            forall|j: int| 0 <= j < i ==> !text::is_control(#[trigger] v@[j]),
        decreases v@.len() - i,
    {
        if text::char_is_control(v[i]) {
            assert(text::is_control(s@[i as int]));
            return true;
        }
        i = i + 1;
    }
    false
}

/// The name a plan gets: trimmed, of 1 to 64 characters, none of them a control
/// character.
pub open spec fn plan_name(name: Seq<char>) -> Result<Seq<char>, Problem> {
    let t = text::trim(name);
    if t.len() == 0 || t.len() > 64 {
        Err(
            error::field_problem(
                ErrorCode::InvalidInput,
                "a plan name must be 1–64 characters"@,
                "name"@,
            ),
        )
    } else if has_control(t) {
        Err(
            error::field_problem(
                ErrorCode::InvalidInput,
                "a plan name must not contain control characters"@,
                "name"@,
            ),
        )
    } else {
        Ok(t)
    }
}

pub fn validate_plan_name(name: &str) -> (r: Result<String, FerrumError>)
    ensures
        error::outcome(r) == plan_name(name@),
{
    let t = text::trimmed(name);
    let n: usize = t.as_str().unicode_len();
    if n == 0 || n > 64 {
        return Err(
            FerrumError::new(
                ErrorCode::InvalidInput,
                "a plan name must be 1–64 characters",
            ).with_field("name"),
        );
    }
    if any_control(t.as_str()) {
        return Err(
            FerrumError::new(
                ErrorCode::InvalidInput,
                "a plan name must not contain control characters",
            ).with_field("name"),
        );
    }
    Ok(t)
}

/// The reason a suspension is recorded with.
pub open spec fn suspension_reason(reason: Seq<char>) -> Result<Seq<char>, Problem> {
    let t = text::trim(reason);
    if t.len() == 0 || t.len() > 500 || has_control(t) {
        Err(
            error::field_problem(
                ErrorCode::InvalidInput,
                "a suspension reason must be 1–500 characters of plain text"@,
                "reason"@,
            ),
        )
    } else {
        Ok(t)
    }
}

pub fn validate_reason(reason: &str) -> (r: Result<String, FerrumError>)
    ensures
        error::outcome(r) == suspension_reason(reason@),
{
    let t = text::trimmed(reason);
    let n: usize = t.as_str().unicode_len();
    if n == 0 || n > 500 || any_control(t.as_str()) {
        return Err(
            FerrumError::new(
                ErrorCode::InvalidInput,
                "a suspension reason must be 1–500 characters of plain text",
            ).with_field("reason"),
        );
    }
    Ok(t)
}

// ---------------------------------------------------------------------------
// plan.list and subscription.list
// ---------------------------------------------------------------------------

/// `plan.list`.
pub struct List;

#[derive(Debug)]
pub struct ListInput {
    pub limit: Option<i64>,
    pub offset: Option<i64>,
}

impl ListInput {
    /// How many rows to read, and from where.
    pub fn page(&self) -> (r: (i64, i64))
        ensures
            r == model::page_of(self.limit, self.offset, 100),
    {
        model::page(self.limit, self.offset, 100)
    }
}

#[derive(Debug)]
pub struct PlanView {
    pub plan: Plan,
    /// How many subscriptions are on it.
    pub subscriptions: i64,
}

#[derive(Debug)]
pub struct ListOutput {
    pub plans: Vec<PlanView>,
}

/// `subscription.list`: the tenants themselves, not their sites.
pub struct ListSubscriptions;

#[derive(Debug)]
pub struct ListSubscriptionsInput {
    pub limit: Option<i64>,
    pub offset: Option<i64>,
}

impl ListSubscriptionsInput {
    pub fn page(&self) -> (r: (i64, i64))
        ensures
            r == model::page_of(self.limit, self.offset, 200),
    {
        model::page(self.limit, self.offset, 200)
    }
}

#[derive(Debug)]
pub struct SubscriptionView {
    pub subscription: Subscription,
    pub customer_username: Option<String>,
    pub sites: i64,
    /// How many of them are serving.
    pub active_sites: i64,
}

#[derive(Debug)]
pub struct ListSubscriptionsOutput {
    pub subscriptions: Vec<SubscriptionView>,
}

/// How many of some sites are serving.
pub open spec fn active_count(sites: Seq<Site>) -> nat
    decreases sites.len(),
{
    if sites.len() == 0 {
        0
    } else {
        active_count(sites.drop_last()) + if sites.last().status == SiteStatus::Active {
            1nat
        } else {
            0
        }
    }
}

impl ListSubscriptions {
    /// One subscription as it is listed.
    pub fn view(
        subscription: Subscription,
        customer_username: Option<String>,
        sites: &Vec<Site>,
    ) -> (r: SubscriptionView)
        requires
            sites@.len() <= i64::MAX,
        ensures
            r.subscription == subscription,
            r.customer_username == customer_username,
            r.sites == sites@.len(),
            r.active_sites == active_count(sites@),
    {
        let mut active: i64 = 0;
        let mut i: usize = 0;
        assert(sites@.take(0) =~= Seq::<Site>::empty());
        while i < sites.len()
            invariant
                i <= sites@.len() <= i64::MAX,
                0 <= active <= i,
                active == active_count(sites@.take(i as int)),
            decreases sites@.len() - i,
        {
            let ghost next = sites@.take(i + 1);
            assert(next.drop_last() =~= sites@.take(i as int));
            assert(next.last() == sites@[i as int]);
            if sites[i].status == SiteStatus::Active {
                active = active + 1;
            }
            i = i + 1;
        }
        assert(sites@.take(i as int) =~= sites@);
        SubscriptionView {
            subscription,
            customer_username,
            sites: sites.len() as i64,
            active_sites: active,
        }
    }
}

// ---------------------------------------------------------------------------
// plan.create, plan.update, plan.delete
// ---------------------------------------------------------------------------

/// `plan.create`.
pub struct Create;

#[derive(Debug)]
pub struct CreateInput {
    pub name: String,
    pub max_sites: u32,
    pub max_dbs: u32,
    pub storage_mb: u32,
    pub can_ssh: bool,
    pub can_cron: bool,
    pub can_node_apps: bool,
}

/// What a flag that is left out is, where the default is on.
pub fn default_true() -> (r: bool)
    ensures
        r,
{
    true
}

#[derive(Debug)]
pub struct CreateOutput {
    pub plan: Plan,
}

/// A plan that is to be stored.
#[derive(Debug)]
pub struct NewPlan {
    pub owner_user_id: Option<i64>,
    pub name: String,
    pub max_sites: i64,
    pub max_dbs: i64,
    pub storage_mb: i64,
    pub can_ssh: bool,
    pub can_cron: bool,
    pub can_node_apps: bool,
}

impl Create {
    /// The plan to store. Who owns it is decided by the scope it is stored in,
    /// never by the input.
    pub fn new_plan(input: &CreateInput) -> (r: Result<NewPlan, FerrumError>)
        ensures
            match r {
                Ok(p) => {
                    &&& plan_name(input.name@) == Ok::<Seq<char>, Problem>(p.name@)
                    &&& p.owner_user_id is None
                    &&& p.max_sites == input.max_sites
                    &&& p.max_dbs == input.max_dbs
                    &&& p.storage_mb == input.storage_mb
                    &&& p.can_ssh == input.can_ssh
                    &&& p.can_cron == input.can_cron
                    &&& p.can_node_apps == input.can_node_apps
                },
                Err(e) => plan_name(input.name@) == Err::<Seq<char>, Problem>(e@),
            },
    {
        match validate_plan_name(input.name.as_str()) {
            Err(e) => Err(e),
            Ok(name) => Ok(
                NewPlan {
                    owner_user_id: None,
                    name,
                    max_sites: input.max_sites as i64,
                    max_dbs: input.max_dbs as i64,
                    storage_mb: input.storage_mb as i64,
                    can_ssh: input.can_ssh,
                    can_cron: input.can_cron,
                    can_node_apps: input.can_node_apps,
                },
            ),
        }
    }
}

/// `plan.update`.
pub struct Update;

#[derive(Debug)]
pub struct UpdateInput {
    pub plan_id: i64,
    pub name: Option<String>,
    pub max_sites: Option<u32>,
    pub max_dbs: Option<u32>,
    pub storage_mb: Option<u32>,
    pub can_ssh: Option<bool>,
    pub can_cron: Option<bool>,
    pub can_node_apps: Option<bool>,
}

#[derive(Debug)]
pub struct UpdateOutput {
    pub plan: Plan,
}

/// What is to change in a plan.
#[derive(Debug)]
pub struct PlanUpdate {
    pub name: Option<String>,
    pub max_sites: Option<i64>,
    pub max_dbs: Option<i64>,
    pub storage_mb: Option<i64>,
    pub can_ssh: Option<bool>,
    pub can_cron: Option<bool>,
    pub can_node_apps: Option<bool>,
}

pub open spec fn widened(v: Option<u32>) -> Option<i64> {
    match v {
        Some(n) => Some(n as i64),
        None => None,
    }
}

fn widen(v: Option<u32>) -> (r: Option<i64>)
    ensures
        r == widened(v),
{
    match v {
        Some(n) => Some(n as i64),
        None => None,
    }
}

impl Update {
    /// What is to change. A limit below what a tenant uses is no error: it stops
    /// them from adding more.
    pub fn changes(input: &UpdateInput) -> (r: Result<PlanUpdate, FerrumError>)
        ensures
            match r {
                Ok(u) => {
                    &&& match (input.name, u.name) {
                        (None, None) => true,
                        (Some(asked), Some(name)) => plan_name(asked@) == Ok::<
                            Seq<char>,
                            Problem,
                        >(name@),
                        _ => false,
                    }
                    &&& u.max_sites == widened(input.max_sites)
                    &&& u.max_dbs == widened(input.max_dbs)
                    &&& u.storage_mb == widened(input.storage_mb)
                    &&& u.can_ssh == input.can_ssh
                    &&& u.can_cron == input.can_cron
                    &&& u.can_node_apps == input.can_node_apps
                },
                Err(e) => input.name matches Some(asked) && plan_name(asked@) == Err::<
                    Seq<char>,
                    Problem,
                >(e@),
            },
    {
        let name = match &input.name {
            None => None,
            Some(asked) => match validate_plan_name(asked.as_str()) {
                Ok(n) => Some(n),
                Err(e) => return Err(e),
            },
        };
        Ok(
            PlanUpdate {
                name,
                max_sites: widen(input.max_sites),
                max_dbs: widen(input.max_dbs),
                storage_mb: widen(input.storage_mb),
                can_ssh: input.can_ssh,
                can_cron: input.can_cron,
                can_node_apps: input.can_node_apps,
            },
        )
    }
}

/// `plan.delete`. A plan with subscriptions on it is refused by the store.
pub struct Delete;

#[derive(Debug)]
pub struct DeleteInput {
    pub plan_id: i64,
}

#[derive(Debug)]
pub struct DeleteOutput {
    pub plan_id: i64,
}

// ---------------------------------------------------------------------------
// plan.assign
// ---------------------------------------------------------------------------

/// `plan.assign`.
pub struct Assign;

#[derive(Debug)]
pub struct AssignInput {
    pub subscription_id: i64,
    pub plan_id: i64,
}

#[derive(Debug)]
pub struct AssignOutput {
    pub subscription_id: i64,
    pub plan_id: i64,
    pub plan_name: String,
    /// The subscription holds more sites than the plan allows.
    pub over_limit: bool,
}

impl Assign {
    /// What the caller's scope holds: the subscription is asked for first.
    pub fn check(subscription: &Option<Subscription>, plan: &Option<Plan>) -> (r: Result<
        (),
        FerrumError,
    >)
        ensures
            error::outcome(r) == (if subscription is None {
                Err::<(), Problem>(error::not_found_problem("subscription"@))
            } else if plan is None {
                Err::<(), Problem>(error::not_found_problem("plan"@))
            } else {
                Ok::<(), Problem>(())
            }),
    {
        if subscription.is_none() {
            Err(FerrumError::not_found("subscription"))
        } else if plan.is_none() {
            Err(FerrumError::not_found("plan"))
        } else {
            Ok(())
        }
    }

    /// The answer, once the plan is assigned.
    pub fn finish(subscription: &Subscription, plan: &Plan, used: i64) -> (r: AssignOutput)
        ensures
            r.subscription_id == subscription.id,
            r.plan_id == plan.id,
            r.plan_name@ == plan.name@,
            r.over_limit == (used > plan.max_sites),
    {
        AssignOutput {
            subscription_id: subscription.id,
            plan_id: plan.id,
            plan_name: plan.name.as_str().to_owned(),
            over_limit: used > plan.max_sites,
        }
    }
}

// ---------------------------------------------------------------------------
// Suspension
// ---------------------------------------------------------------------------

/// Why a subscription's status is not touched.
pub open spec fn suspension_refusal(found: Option<Subscription>) -> Option<Problem> {
    match found {
        None => Some(error::not_found_problem("subscription"@)),
        Some(s) => if s.status == SubscriptionStatus::PendingDelete {
            Some(
                error::problem(
                    ErrorCode::Conflict,
                    "this subscription is scheduled for deletion; cancel the deletion instead"@,
                ),
            )
        } else {
            None
        },
    }
}

/// A subscription that may be suspended or reinstated.
pub fn suspendable(found: &Option<Subscription>) -> (r: Result<(), FerrumError>)
    ensures
        match r {
            Ok(()) => suspension_refusal(*found) is None && found is Some,
            Err(e) => suspension_refusal(*found) == Some(e@),
        },
{
    match found {
        None => Err(FerrumError::not_found("subscription")),
        Some(s) => {
            if s.status == SubscriptionStatus::PendingDelete {
                return Err(
                    FerrumError::new(
                        ErrorCode::Conflict,
                        "this subscription is scheduled for deletion; cancel the deletion instead",
                    ),
                );
            }
            Ok(())
        },
    }
}

/// Where a subscription's own sites are listed.
pub fn site_scope(subscription: &Subscription) -> (r: TenantScope)
    ensures
        r == (TenantScope::Subscription {
            subscription_id: subscription.id,
            customer_id: subscription.customer_id,
        }),
{
    TenantScope::Subscription {
        subscription_id: subscription.id,
        customer_id: subscription.customer_id,
    }
}

/// The sites whose vhosts are switched: those that are serving, in order.
pub open spec fn serving(sites: Seq<Site>) -> Seq<Seq<char>>
    decreases sites.len(),
{
    if sites.len() == 0 {
        Seq::empty()
    } else if sites.last().status == SiteStatus::Active {
        serving(sites.drop_last()).push(sites.last().domain@)
    } else {
        serving(sites.drop_last())
    }
}

/// How many switches went well.
pub open spec fn switched(outcomes: Seq<Result<(), Problem>>) -> nat
    decreases outcomes.len(),
{
    if outcomes.len() == 0 {
        0
    } else {
        switched(outcomes.drop_last()) + if outcomes.last() is Ok {
            1nat
        } else {
            0
        }
    }
}

/// The first switch that failed.
pub open spec fn first_failure(outcomes: Seq<Result<(), Problem>>) -> Option<int>
    decreases outcomes.len(),
{
    if outcomes.len() == 0 {
        None
    } else {
        match first_failure(outcomes.drop_last()) {
            Some(i) => Some(i),
            None => if outcomes.last() is Err {
                Some(outcomes.len() - 1)
            } else {
                None
            },
        }
    }
}

/// What switching every vhost comes to: how many went well, or the first failure.
pub open spec fn switch_summary(domains: Seq<Seq<char>>, outcomes: Seq<Result<(), Problem>>) -> Result<
    nat,
    Problem,
> {
    match first_failure(outcomes) {
        None => Ok(switched(outcomes)),
        Some(i) => Err(
            error::problem(
                outcomes[i]->Err_0.code,
                "the subscription's status is set, but switching the vhost for `"@ + domains[i]
                    + "` failed ("@ + outcomes[i]->Err_0.detail
                    + "); re-run to retry the remaining sites"@,
            ),
        ),
    }
}

/// Switching the vhosts of a subscription, one site at a time. Every site is
/// tried, whatever became of the others.
pub struct Switching {
    domains: Vec<String>,
    at: usize,
    good: usize,
    first_error: Option<(String, FerrumError)>,
    log: Ghost<Seq<Result<(), Problem>>>,
}

impl Switching {
    /// The sites that are switched.
    pub closed spec fn domains(&self) -> Seq<Seq<char>> {
        text::texts(self.domains@)
    }

    /// What became of those that were tried.
    pub closed spec fn outcomes(&self) -> Seq<Result<(), Problem>> {
        self.log@
    }

    pub closed spec fn wf(&self) -> bool {
        &&& self.at == self.log@.len()
        &&& self.at <= self.domains@.len()
        &&& self.good == switched(self.log@)
        &&& self.good <= self.at
        &&& match self.first_error {
            None => first_failure(self.log@) is None,
            Some((domain, e)) => first_failure(self.log@) matches Some(i) && 0 <= i < self.at
                && domain@ == self.domains@[i]@ && self.log@[i] == Err::<(), Problem>(e@),
        }
    }

    /// Starts with the sites that are serving.
    pub fn new(sites: &Vec<Site>) -> (r: Switching)
        ensures
            r.wf(),
            r.domains() == serving(sites@),
            r.outcomes() == Seq::<Result<(), Problem>>::empty(),
    {
        let mut domains: Vec<String> = Vec::new();
        let mut i: usize = 0;
        assert(sites@.take(0) =~= Seq::<Site>::empty());
        assert(text::texts(domains@) =~= Seq::<Seq<char>>::empty());
        while i < sites.len()
            invariant
                i <= sites@.len(),
                text::texts(domains@) == serving(sites@.take(i as int)),
            decreases sites@.len() - i,
        {
            let ghost next = sites@.take(i + 1);
            assert(next.drop_last() =~= sites@.take(i as int));
            assert(next.last() == sites@[i as int]);
            if sites[i].status == SiteStatus::Active {
                let ghost before = domains@;
                domains.push(sites[i].domain.as_str().to_owned());
                assert(text::texts(domains@) =~= text::texts(before).push(
                    sites@[i as int].domain@,
                ));
            }
            i = i + 1;
        }
        assert(sites@.take(i as int) =~= sites@);
        Switching { domains, at: 0, good: 0, first_error: None, log: Ghost(Seq::empty()) }
    }

    /// The site to switch now.
    pub fn next(&self) -> (r: Option<&str>)
        requires
            self.wf(),
        ensures
            match r {
                Some(d) => self.outcomes().len() < self.domains().len() && d@
                    == self.domains()[self.outcomes().len() as int],
                None => self.outcomes().len() == self.domains().len(),
            },
    {
        if self.at < self.domains.len() {
            Some(self.domains[self.at].as_str())
        } else {
            None
        }
    }

    /// What became of it.
    pub fn report(&mut self, result: Result<(), FerrumError>)
        requires
            old(self).wf(),
            old(self).outcomes().len() < old(self).domains().len(),
        ensures
            final(self).wf(),
            final(self).domains() == old(self).domains(),
            final(self).outcomes() == old(self).outcomes().push(error::outcome(result)),
    {
        let n: usize = self.domains.len();
        assert(self.at < n);
        let ghost before = self.log@;
        let ghost now = before.push(error::outcome(result));
        assert(now.drop_last() =~= before);
        match result {
            Ok(()) => {
                self.good = self.good + 1;
            },
            Err(e) => {
                if self.first_error.is_none() {
                    let domain = self.domains[self.at].as_str().to_owned();
                    self.first_error = Some((domain, e));
                }
            },
        }
        self.at = self.at + 1;
        self.log = Ghost(now);
    }

    /// What it all came to.
    pub fn finish(self) -> (r: Result<usize, FerrumError>)
        requires
            self.wf(),
            self.outcomes().len() == self.domains().len(),
        ensures
            match r {
                Ok(n) => switch_summary(self.domains(), self.outcomes()) == Ok::<nat, Problem>(
                    n as nat,
                ),
                Err(e) => switch_summary(self.domains(), self.outcomes()) == Err::<nat, Problem>(
                    e@,
                ),
            },
    {
        match self.first_error {
            None => Ok(self.good),
            Some((domain, e)) => {
                let mut m =
                    "the subscription's status is set, but switching the vhost for `".to_owned();
                m.append(domain.as_str());
                m.append("` failed (");
                m.append(e.detail.as_str());
                m.append("); re-run to retry the remaining sites");
                Err(FerrumError::new(e.code, m.as_str()))
            },
        }
    }
}

/// The account whose vhosts are switched.
pub fn switch_user(subscription: &Subscription) -> (r: Result<LinuxUser, FerrumError>)
    ensures
        match r {
            Ok(u) => model::is_linux_user(subscription.linux_user@) && u@
                == subscription.linux_user@,
            Err(e) => !model::is_linux_user(subscription.linux_user@) && e@ == error::problem(
                ErrorCode::InvalidInput,
                "`"@ + subscription.linux_user@ + "` is not a valid Linux account name"@,
            ),
        },
{
    LinuxUser::parse(subscription.linux_user.as_str())
}

/// What suspending and reinstating do, in order.
#[derive(Debug, Clone, Copy, PartialEq, Eq, Structural)]
pub enum SuspensionStep {
    /// Set the subscription's status.
    SetStatus { status: SubscriptionStatus },
    /// Render every serving site again, with the maintenance page forced or not.
    SwitchVhosts { force_maintenance: bool },
    /// Tell those who listen.
    Announce,
}

/// `subscription.suspend`.
pub struct Suspend;

#[derive(Debug)]
pub struct SuspendInput {
    pub subscription_id: i64,
    pub reason: String,
}

#[derive(Debug)]
pub struct SuspendOutput {
    pub subscription_id: i64,
    pub status: SubscriptionStatus,
    pub sites_switched: usize,
}

impl Suspend {
    /// The reason to record. The reason is looked at before the subscription.
    pub fn check(input: &SuspendInput, found: &Option<Subscription>) -> (r: Result<
        String,
        FerrumError,
    >)
        ensures
            error::outcome(r) == (match suspension_reason(input.reason@) {
                Err(p) => Err::<Seq<char>, Problem>(p),
                Ok(reason) => match suspension_refusal(*found) {
                    Some(p) => Err::<Seq<char>, Problem>(p),
                    None => Ok::<Seq<char>, Problem>(reason),
                },
            }),
    {
        let reason = match validate_reason(input.reason.as_str()) {
            Ok(r) => r,
            Err(e) => return Err(e),
        };
        match suspendable(found) {
            Ok(()) => Ok(reason),
            Err(e) => Err(e),
        }
    }

    pub open spec fn steps() -> Seq<(SuspensionStep, bool)> {
        seq![
            (SuspensionStep::SetStatus { status: SubscriptionStatus::Suspended }, false),
            (SuspensionStep::SwitchVhosts { force_maintenance: true }, false),
            (SuspensionStep::Announce, true),
        ]
    }

    /// The status first, then the vhosts.
    pub fn course() -> (r: Procedure<SuspensionStep>)
        ensures
            r@ == Course::fresh(Self::steps(), Seq::<SuspensionStep>::empty()),
    {
        let steps = vec![
            (SuspensionStep::SetStatus { status: SubscriptionStatus::Suspended }, false),
            (SuspensionStep::SwitchVhosts { force_maintenance: true }, false),
            (SuspensionStep::Announce, true),
        ];
        assert(steps@ =~= Self::steps());
        let undo: Vec<SuspensionStep> = Vec::new();
        assert(undo@ =~= Seq::<SuspensionStep>::empty());
        Procedure::new(steps, undo)
    }

    pub fn finish(subscription: &Subscription, sites_switched: usize) -> (r: SuspendOutput)
        ensures
            r.subscription_id == subscription.id,
            r.status == SubscriptionStatus::Suspended,
            r.sites_switched == sites_switched,
    {
        SuspendOutput {
            subscription_id: subscription.id,
            status: SubscriptionStatus::Suspended,
            sites_switched,
        }
    }
}

/// `subscription.unsuspend`.
pub struct Unsuspend;

#[derive(Debug)]
pub struct UnsuspendInput {
    pub subscription_id: i64,
}

#[derive(Debug)]
pub struct UnsuspendOutput {
    pub subscription_id: i64,
    pub status: SubscriptionStatus,
    pub sites_restored: usize,
}

impl Unsuspend {
    pub open spec fn steps() -> Seq<(SuspensionStep, bool)> {
        seq![
            (SuspensionStep::SetStatus { status: SubscriptionStatus::Active }, false),
            (SuspensionStep::SwitchVhosts { force_maintenance: false }, false),
        ]
    }

    /// The status first, then the vhosts, each from the site's own settings.
    pub fn course() -> (r: Procedure<SuspensionStep>)
        ensures
            r@ == Course::fresh(Self::steps(), Seq::<SuspensionStep>::empty()),
    {
        let steps = vec![
            (SuspensionStep::SetStatus { status: SubscriptionStatus::Active }, false),
            (SuspensionStep::SwitchVhosts { force_maintenance: false }, false),
        ];
        assert(steps@ =~= Self::steps());
        let undo: Vec<SuspensionStep> = Vec::new();
        assert(undo@ =~= Seq::<SuspensionStep>::empty());
        Procedure::new(steps, undo)
    }

    pub fn finish(subscription: &Subscription, sites_restored: usize) -> (r: UnsuspendOutput)
        ensures
            r.subscription_id == subscription.id,
            r.status == SubscriptionStatus::Active,
            r.sites_restored == sites_restored,
    {
        UnsuspendOutput {
            subscription_id: subscription.id,
            status: SubscriptionStatus::Active,
            sites_restored,
        }
    }
}

// ---------------------------------------------------------------------------
// Laws
// ---------------------------------------------------------------------------

/// A vhost is switched only once the status is set, and never when setting it
/// failed.
pub proof fn law_the_status_comes_first(suspend: bool, reports: Seq<bool>)
    ensures
        ({
            let steps = if suspend {
                Suspend::steps()
            } else {
                Unsuspend::steps()
            };
            let done = Course::fresh(steps, Seq::<SuspensionStep>::empty()).performed(reports);
            forall|i: int|
                0 <= i < done.len() && (#[trigger] done[i]) is SwitchVhosts ==> i > 0 && done[0] is SetStatus
                    && reports[0]
        }),
{
    let steps = if suspend {
        Suspend::steps()
    } else {
        Unsuspend::steps()
    };
    let none = Seq::<SuspensionStep>::empty();
    let c = Course::fresh(steps, none);
    let done = c.performed(reports);
    let n = procedure::law_what_was_performed(steps, none, reports);
    assert forall|i: int| 0 <= i < done.len() && (#[trigger] done[i]) is SwitchVhosts implies i > 0
        && done[0] is SetStatus && reports[0] by {
        assert(done[i] == steps[i].0);
        assert(done[0] == steps[0].0);
    }
}

/// The summary speaks of every site: it is a success exactly if no site failed,
/// and then counts them all.
pub proof fn law_the_summary_tells_of_every_site(
    domains: Seq<Seq<char>>,
    outcomes: Seq<Result<(), Problem>>,
)
    ensures
        switch_summary(domains, outcomes) is Ok <==> forall|i: int|
            0 <= i < outcomes.len() ==> (#[trigger] outcomes[i]) is Ok,
        switch_summary(domains, outcomes) matches Ok(n) ==> n == outcomes.len(),
        first_failure(outcomes) matches Some(i) ==> 0 <= i < outcomes.len() && outcomes[i] is Err
            && forall|j: int| 0 <= j < i ==> (#[trigger] outcomes[j]) is Ok,
    decreases outcomes.len(),
{
    if outcomes.len() > 0 {
        let before = outcomes.drop_last();
        law_the_summary_tells_of_every_site(domains, before);
        if first_failure(before) is None {
            assert forall|i: int| 0 <= i < before.len() implies (#[trigger] outcomes[i]) is Ok by {
                assert(before[i] is Ok);
            }
        } else {
            let i = first_failure(before).unwrap();
            assert(outcomes[i] == before[i]);
            assert forall|j: int| 0 <= j < i implies (#[trigger] outcomes[j]) is Ok by {
                assert(before[j] is Ok);
            }
        }
    }
}

} // verus!
