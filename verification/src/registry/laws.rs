//! Which operation runs for whom.
use vstd::prelude::*;
use crate::error;
use crate::error::ErrorCode;
use crate::model::{AuthContext, Permission};
use crate::registry;
use crate::registry::catalogue;
use crate::registry::catalogue::{Op, SystemOp};
use crate::registry::{ActorFacts, Entry};

verus! {

/// An account may act exactly if it exists, may log in and has the role that was claimed.
pub proof fn law_who_may_act(claimed: AuthContext, actor: Option<ActorFacts>)
    ensures
        ({
            let r = registry::actor_refusal(claimed, actor);
            let there = actor is Some;
            let active = actor->0.can_log_in;
            let same = actor->0.role == claimed.acting_role;
            &&& r is None <==> there && active && same
            &&& !there ==> error::objects(r, ErrorCode::PermissionDenied, None)
            &&& there && !active ==> error::objects(r, ErrorCode::AccountSuspended, None)
            &&& there && active && !same ==> error::objects(r, ErrorCode::PermissionDenied, None)
        }),
{
}

/// A right is left exactly if it was claimed and is held.
pub proof fn law_which_rights_are_left(claimed: AuthContext, actor: ActorFacts, p: Permission)
    ensures
        registry::verified_rights(claimed, actor).contains(p) <==> claimed.permissions@.contains(p)
            && actor.permissions@.contains(p),
{
}

/// An operation runs exactly if it is registered, its caller may act, and the right that it
/// asks for was claimed and is held; what is wrong is looked for in that order.
pub proof fn law_when_an_operation_runs(
    t: Seq<Entry>,
    i: int,
    claimed: AuthContext,
    actor: Option<ActorFacts>,
)
    requires
        0 <= i < t.len(),
        forall|j: int, k: int|
            0 <= j < t.len() && 0 <= k < t.len() && (#[trigger] t[j]).name == (
            #[trigger] t[k]).name ==> j == k,
    ensures
        ({
            let r = registry::dispatch_refusal(t, t[i].name, claimed, actor);
            let acts = registry::actor_refusal(claimed, actor) is None;
            let may = claimed.permissions@.contains(t[i].permission)
                && actor->0.permissions@.contains(t[i].permission);
            &&& r is None <==> acts && may
            &&& !acts ==> r == registry::actor_refusal(claimed, actor)
            &&& acts && !may ==> error::objects(r, ErrorCode::PermissionDenied, None)
        }),
{
    assert(registry::registered(t, t[i].name));
    if registry::actor_refusal(claimed, actor) is None {
        law_which_rights_are_left(claimed, actor->0, t[i].permission);
        let rights = registry::verified_rights(claimed, actor->0);
        if !rights.contains(t[i].permission) {
            assert(t[i].name == t[i].name);
        }
    }
}

/// A name that is not registered is no operation, whoever asks.
pub proof fn law_what_is_no_operation(
    t: Seq<Entry>,
    name: Seq<char>,
    claimed: AuthContext,
    actor: Option<ActorFacts>,
)
    requires
        forall|i: int| 0 <= i < t.len() ==> (#[trigger] t[i]).name != name,
    ensures
        error::objects(
            registry::dispatch_refusal(t, name, claimed, actor),
            ErrorCode::UnknownOperation,
            None,
        ),
{
}

/// What changes the server, a tenant's things or an account asks for the right to manage
/// them, and what only shows them for the right to read them, where there is such a right.
pub proof fn law_which_right_an_operation_asks_for(op: Op)
    ensures
        op.needs() == Permission::NodeApps <==> (op is AppCreate || op is AppDelete || op is AppList
            || op is AppLogs || op is AppRestart),
        op.needs() == Permission::PlanManage <==> (op is PlanAssign || op is PlanCreate || op
            is PlanDelete || op is PlanList || op is PlanUpdate),
        op.needs() == Permission::ServerManage <==> (op is PluginDisable || op is PluginEnable || op
            is PluginInstall || op is PluginRemove || op is SvcAction),
        op.needs() == Permission::ServerRead <==> (op is PluginList || op is SecurityPosture || op
            is StackStatus || op is SvcStatus),
        op.needs() == Permission::SshAccess <==> (op is SftpDisable || op is SftpEnable),
        op.needs() == Permission::SiteManage <==> (op is SiteCreate || op is SiteDelete || op
            is SiteUpdate),
        op.needs() == Permission::SiteRead <==> (op is SiteDrift || op is SiteList || op
            is SubscriptionList),
        op.needs() == Permission::TerminalAccess <==> (op is SshKeysAdd || op is SshKeysList || op
            is SshKeysRemove),
        op.needs() == Permission::StackManage <==> (op is StackInstall || op is StackRemove),
        op.needs() == Permission::UserManage <==> (op is SubscriptionSuspend || op
            is SubscriptionUnsuspend),
{
}

/// Which operations are answered at once, and which of the others may be run again: what
/// makes something new may not. None is broken off.
pub proof fn law_how_an_operation_runs(op: Op)
    ensures
        ({
            let makes = op is AppCreate || op is PluginInstall || op is SiteCreate;
            let repeats = op is AppDelete || op is AppRestart || op is PluginRemove || op
                is SftpEnable || op is SiteDelete || op is SiteUpdate || op is StackInstall || op
                is StackRemove || op is SubscriptionSuspend || op is SubscriptionUnsuspend;
            &&& op.runs() is Immediate <==> !makes && !repeats
            &&& op.runs() is Task ==> !op.runs()->cancellable
            &&& op.runs() is Task ==> (op.runs()->idempotent <==> repeats)
        }),
{
}

/// The catalogue holds every operation of the library with its right and its way, and the
/// two of the system as they were declared, and nothing else.
pub proof fn law_what_the_catalogue_holds(ping: SystemOp, snapshot: SystemOp, e: Entry)
    ensures
        catalogue::catalogue(ping, snapshot).contains(e) <==> {
            ||| exists|i: int|
                0 <= i < Op::ops().len() && e.name == (#[trigger] Op::ops()[i]).title()
                    && e.permission == Op::ops()[i].needs() && e.execution == Op::ops()[i].runs()
            ||| e.name == "metrics.snapshot"@ && e.permission == snapshot.permission && e.execution
                == snapshot.execution
            ||| e.name == "sys.ping"@ && e.permission == ping.permission && e.execution
                == ping.execution
        },
        catalogue::catalogue(ping, snapshot).len() == Op::ops().len() + 2,
{
    let c = catalogue::catalogue(ping, snapshot);
    let ops = Op::ops();
    let own = ops.map_values(|op: Op| op.entry_view());
    let n = ops.len() as int;
    assert(n > 5);
    assert forall|k: int| 0 <= k < c.len() implies #[trigger] c[k] == if k < 5 {
        own[k]
    } else if k == 5 {
        catalogue::system_entry("metrics.snapshot"@, snapshot)
    } else if k < n + 1 {
        own[k - 1]
    } else {
        catalogue::system_entry("sys.ping"@, ping)
    } by {}
    if exists|i: int|
        0 <= i < n && e.name == (#[trigger] ops[i]).title() && e.permission == ops[i].needs()
            && e.execution == ops[i].runs() {
        let i = choose|i: int|
            0 <= i < n && e.name == (#[trigger] ops[i]).title() && e.permission == ops[i].needs()
                && e.execution == ops[i].runs();
        assert(own[i] == e);
        if i < 5 {
            assert(c[i] == e);
        } else {
            assert(c[i + 1] == e);
        }
    }
    if e.name == "metrics.snapshot"@ && e.permission == snapshot.permission && e.execution
        == snapshot.execution {
        assert(c[5] == e);
    }
    if e.name == "sys.ping"@ && e.permission == ping.permission && e.execution == ping.execution {
        assert(c[n + 1] == e);
    }
    if c.contains(e) {
        let k = choose|k: int| 0 <= k < c.len() && c[k] == e;
        if k < 5 {
            assert(e == ops[k].entry_view());
        } else if 5 < k < n + 1 {
            assert(e == ops[k - 1].entry_view());
        }
    }
}

/// Every operation is in the list of all.
pub proof fn law_every_operation_is_listed(op: Op)
    ensures
        Op::ops().contains(op),
{
    let all = Op::ops();
    let i: int = match op {
        Op::AppCreate => 0,
        Op::AppDelete => 1,
        Op::AppList => 2,
        Op::AppLogs => 3,
        Op::AppRestart => 4,
        Op::PlanAssign => 5,
        Op::PlanCreate => 6,
        Op::PlanDelete => 7,
        Op::PlanList => 8,
        Op::PlanUpdate => 9,
        Op::PluginDisable => 10,
        Op::PluginEnable => 11,
        Op::PluginInstall => 12,
        Op::PluginList => 13,
        Op::PluginRemove => 14,
        Op::SecurityPosture => 15,
        Op::SftpDisable => 16,
        Op::SftpEnable => 17,
        Op::SiteCreate => 18,
        Op::SiteDelete => 19,
        Op::SiteDrift => 20,
        Op::SiteList => 21,
        Op::SiteUpdate => 22,
        Op::SshKeysAdd => 23,
        Op::SshKeysList => 24,
        Op::SshKeysRemove => 25,
        Op::StackInstall => 26,
        Op::StackRemove => 27,
        Op::StackStatus => 28,
        Op::SubscriptionList => 29,
        Op::SubscriptionSuspend => 30,
        Op::SubscriptionUnsuspend => 31,
        Op::SvcAction => 32,
        Op::SvcStatus => 33,
    };
    assert(all[i] == op);
}

/// A verified context is what was claimed, field by field, with the rights that are left.
pub proof fn law_what_a_verified_context_says(
    r: AuthContext,
    claimed: AuthContext,
    actor: ActorFacts,
    p: Permission,
)
    requires
        registry::restricts(r, claimed, actor),
    ensures
        r.actor_user_id == claimed.actor_user_id,
        r.acting_role == claimed.acting_role,
        r.tenant_scope == claimed.tenant_scope,
        r.impersonator_id == claimed.impersonator_id,
        r.request_id@ == claimed.request_id@,
        r.permissions@.contains(p) <==> claimed.permissions@.contains(p)
            && actor.permissions@.contains(p),
{
    assert(r.permissions@.to_set().contains(p) <==> claimed.permissions@.to_set().contains(p)
        && actor.permissions@.to_set().contains(p));
}


/// The name by which each operation is asked for.
pub proof fn law_what_operations_are_called(op: Op)
    ensures
        op.title() == match op {
            Op::AppCreate => "app.create"@,
            Op::AppDelete => "app.delete"@,
            Op::AppList => "app.list"@,
            Op::AppLogs => "app.logs"@,
            Op::AppRestart => "app.restart"@,
            Op::PlanAssign => "plan.assign"@,
            Op::PlanCreate => "plan.create"@,
            Op::PlanDelete => "plan.delete"@,
            Op::PlanList => "plan.list"@,
            Op::PlanUpdate => "plan.update"@,
            Op::PluginDisable => "plugin.disable"@,
            Op::PluginEnable => "plugin.enable"@,
            Op::PluginInstall => "plugin.install"@,
            Op::PluginList => "plugin.list"@,
            Op::PluginRemove => "plugin.remove"@,
            Op::SecurityPosture => "security.posture"@,
            Op::SftpDisable => "sftp.disable"@,
            Op::SftpEnable => "sftp.enable"@,
            Op::SiteCreate => "site.create"@,
            Op::SiteDelete => "site.delete"@,
            Op::SiteDrift => "site.drift"@,
            Op::SiteList => "site.list"@,
            Op::SiteUpdate => "site.update"@,
            Op::SshKeysAdd => "ssh.keys.add"@,
            Op::SshKeysList => "ssh.keys.list"@,
            Op::SshKeysRemove => "ssh.keys.remove"@,
            Op::StackInstall => "stack.install"@,
            Op::StackRemove => "stack.remove"@,
            Op::StackStatus => "stack.status"@,
            Op::SubscriptionList => "subscription.list"@,
            Op::SubscriptionSuspend => "subscription.suspend"@,
            Op::SubscriptionUnsuspend => "subscription.unsuspend"@,
            Op::SvcAction => "svc.action"@,
            Op::SvcStatus => "svc.status"@,
        },
        op.entry_view().name == op.title(),
        op.entry_view().permission == op.needs(),
        op.entry_view().execution == op.runs(),
{
}


} // verus!
