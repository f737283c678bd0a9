//! What plans and subscriptions allow.
use vstd::prelude::*;
use crate::error;
use crate::error::{ErrorCode, Problem};
use crate::model::{Plan, Site, Subscription, SubscriptionStatus};
use crate::plan;
use crate::plan::{Suspend, SuspensionStep, Unsuspend};
use crate::text;

verus! {

/// A site fits exactly if there is no plan, or fewer sites than it allows; one that does
/// not is a matter of quota, and the answer names the plan and both numbers.
pub proof fn law_when_a_site_fits(plan: Option<Plan>, used: i64)
    ensures
        plan::site_limit_refusal(plan, used) is None <==> plan is None || used < plan->0.max_sites,
        plan is Some && used >= plan->0.max_sites ==> {
            let p = plan::site_limit_refusal(plan, used);
            &&& error::objects(p, ErrorCode::QuotaExceeded, None)
            &&& text::contains(p->0.detail, plan->0.name@)
            &&& text::contains(p->0.detail, text::signed_decimal(plan->0.max_sites as int))
            &&& text::ends_with(p->0.detail, text::signed_decimal(used as int))
        },
{
    if plan is Some && used >= plan->0.max_sites {
        let q = plan->0;
        let a = text::signed_decimal(q.max_sites as int);
        let b = text::signed_decimal(used as int);
        let mid = " site(s) and this subscription already has "@;
        let d = plan::site_limit_refusal(plan, used)->0.detail;
        let none = Seq::<char>::empty();
        text::laws::law_parts_of_a_text("plan `"@, q.name@, "` allows "@ + a + mid + b, none);
        assert(d =~= "plan `"@ + q.name@ + ("` allows "@ + a + mid + b));
        text::laws::law_parts_of_a_text("plan `"@ + q.name@ + "` allows "@, a, mid + b, none);
        assert(d =~= "plan `"@ + q.name@ + "` allows "@ + a + (mid + b));
        text::laws::law_parts_of_a_text("plan `"@ + q.name@ + "` allows "@ + a + mid, b, none, none);
        assert(d =~= "plan `"@ + q.name@ + "` allows "@ + a + mid + b);
    }
}

/// A name is what stands between the white space around it: one to sixty-four characters
/// without a control character. Any other is refused as a name.
pub proof fn law_which_plan_names_are_accepted(name: Seq<char>)
    ensures
        ({
            let t = text::trim(name);
            let fine = 1 <= t.len() <= 64 && forall|i: int|
                0 <= i < t.len() ==> !text::is_control(#[trigger] t[i]);
            &&& fine ==> plan::plan_name(name) == Ok::<Seq<char>, Problem>(t)
            &&& !fine ==> error::refused(
                plan::plan_name(name),
                ErrorCode::InvalidInput,
                Some("name"@),
            )
        }),
{
}

/// A reason likewise, of up to five hundred characters.
pub proof fn law_which_reasons_are_accepted(reason: Seq<char>)
    ensures
        ({
            let t = text::trim(reason);
            let fine = 1 <= t.len() <= 500 && forall|i: int|
                0 <= i < t.len() ==> !text::is_control(#[trigger] t[i]);
            &&& fine ==> plan::suspension_reason(reason) == Ok::<Seq<char>, Problem>(t)
            &&& !fine ==> error::refused(
                plan::suspension_reason(reason),
                ErrorCode::InvalidInput,
                Some("reason"@),
            )
        }),
{
}

/// Of every site, exactly the active ones are counted, and they are switched in order.
pub proof fn law_active_sites_count(sites: Seq<Site>, more: Site)
    ensures
        plan::active_count(Seq::<Site>::empty()) == 0,
        plan::serving(Seq::<Site>::empty()) == Seq::<Seq<char>>::empty(),
        more.status is Active ==> {
            &&& plan::active_count(sites.push(more)) == plan::active_count(sites) + 1
            &&& plan::serving(sites.push(more)) == plan::serving(sites).push(more.domain@)
        },
        !(more.status is Active) ==> {
            &&& plan::active_count(sites.push(more)) == plan::active_count(sites)
            &&& plan::serving(sites.push(more)) == plan::serving(sites)
        },
{
    assert(sites.push(more).drop_last() =~= sites);
}

/// As many sites are switched as are counted.
pub proof fn law_every_active_site_is_switched(sites: Seq<Site>)
    ensures
        plan::serving(sites).len() == plan::active_count(sites),
    decreases sites.len(),
{
    if sites.len() > 0 {
        law_every_active_site_is_switched(sites.drop_last());
    }
}

/// A switch that failed is answered with its own code.
pub proof fn law_a_failed_switch_keeps_its_code(
    domains: Seq<Seq<char>>,
    outcomes: Seq<Result<(), Problem>>,
    i: int,
)
    requires
        0 <= i < outcomes.len(),
        outcomes[i] is Err,
        forall|j: int| 0 <= j < i ==> (#[trigger] outcomes[j]) is Ok,
    ensures
        error::refused(
            plan::switch_summary(domains, outcomes),
            outcomes[i]->Err_0.code,
            None,
        ),
{
    plan::law_the_summary_tells_of_every_site(domains, outcomes);
    let k = plan::first_failure(outcomes)->0;
    if plan::first_failure(outcomes) is Some {
        if k < i {
            assert(outcomes[k] is Ok);
        }
        if i < k {
            assert(outcomes[i] is Ok);
        }
    } else {
        assert(plan::switch_summary(domains, outcomes) is Ok);
        assert(outcomes[i] is Ok);
    }
}

/// A subscription may be suspended or reinstated exactly if there is one and it is not to
/// be deleted.
pub proof fn law_which_subscriptions_are_suspended(found: Option<Subscription>)
    ensures
        plan::suspension_refusal(found) is None <==> found is Some && !(found->0.status
            is PendingDelete),
        found is None ==> error::objects(
            plan::suspension_refusal(found),
            ErrorCode::NotFound,
            None,
        ),
        found is Some && found->0.status is PendingDelete ==> error::objects(
            plan::suspension_refusal(found),
            ErrorCode::Conflict,
            None,
        ),
{
}

/// A limit is stored as it was given, and one that was not given is not touched.
pub proof fn law_limits_are_stored_as_given(n: u32)
    ensures
        plan::widened(Some(n)) is Some,
        plan::widened(Some(n))->0 as int == n as int,
        plan::widened(None) is None,
{
}

/// What suspending and reinstating perform: the one shows the maintenance page on every
/// serving site and tells of it, the other shows the sites again.
pub proof fn law_what_suspending_performs()
    ensures
        Suspend::steps().len() == 3,
        Suspend::steps()[0].0 == (SuspensionStep::SetStatus {
            status: SubscriptionStatus::Suspended,
        }),
        Suspend::steps()[1].0 == (SuspensionStep::SwitchVhosts { force_maintenance: true }),
        Suspend::steps()[2].0 == SuspensionStep::Announce,
        !Suspend::steps()[0].1 && !Suspend::steps()[1].1 && Suspend::steps()[2].1,
        Unsuspend::steps().len() == 2,
        Unsuspend::steps()[0].0 == (SuspensionStep::SetStatus {
            status: SubscriptionStatus::Active,
        }),
        Unsuspend::steps()[1].0 == (SuspensionStep::SwitchVhosts { force_maintenance: false }),
        !Unsuspend::steps()[0].1 && !Unsuspend::steps()[1].1,
{
}

} // verus!
