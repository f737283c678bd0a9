//! The operations of this library.
use vstd::prelude::*;
use crate::model::Permission;
use crate::registry::{Entry, Execution, OpEntry};
use crate::text;

verus! {

/// Every operation, in the order of the names.
#[derive(Debug, Clone, Copy, PartialEq, Eq, Structural)]
pub enum Op {
    AppCreate,
    AppDelete,
    AppList,
    AppLogs,
    AppRestart,
    PlanAssign,
    PlanCreate,
    PlanDelete,
    PlanList,
    PlanUpdate,
    PluginDisable,
    PluginEnable,
    PluginInstall,
    PluginList,
    PluginRemove,
    SecurityPosture,
    SftpDisable,
    SftpEnable,
    SiteCreate,
    SiteDelete,
    SiteDrift,
    SiteList,
    SiteUpdate,
    SshKeysAdd,
    SshKeysList,
    SshKeysRemove,
    StackInstall,
    StackRemove,
    StackStatus,
    SubscriptionList,
    SubscriptionSuspend,
    SubscriptionUnsuspend,
    SvcAction,
    SvcStatus,
}

impl Op {
    /// The name by which an operation is asked for.
    pub open spec fn title(self) -> Seq<char> {
        match self {
            Op::AppCreate => "app.create"@,
            Op::AppDelete => "app.delete"@,
            Op::AppList => "app.list"@,
            Op::AppLogs => "app.logs"@,
            Op::AppRestart => "app.restart"@,
            Op::PlanAssign => "plan.assign"@,
            Op::PlanCreate => "plan.create"@,
            Op::PlanDelete => "plan.delete"@,
            Op::PlanList => "plan.list"@,
            Op::PlanUpdate => "plan.update"@,
            Op::PluginDisable => "plugin.disable"@,
            Op::PluginEnable => "plugin.enable"@,
            Op::PluginInstall => "plugin.install"@,
            Op::PluginList => "plugin.list"@,
            Op::PluginRemove => "plugin.remove"@,
            Op::SecurityPosture => "security.posture"@,
            Op::SftpDisable => "sftp.disable"@,
            Op::SftpEnable => "sftp.enable"@,
            Op::SiteCreate => "site.create"@,
            Op::SiteDelete => "site.delete"@,
            Op::SiteDrift => "site.drift"@,
            Op::SiteList => "site.list"@,
            Op::SiteUpdate => "site.update"@,
            Op::SshKeysAdd => "ssh.keys.add"@,
            Op::SshKeysList => "ssh.keys.list"@,
            Op::SshKeysRemove => "ssh.keys.remove"@,
            Op::StackInstall => "stack.install"@,
            Op::StackRemove => "stack.remove"@,
            Op::StackStatus => "stack.status"@,
            Op::SubscriptionList => "subscription.list"@,
            Op::SubscriptionSuspend => "subscription.suspend"@,
            Op::SubscriptionUnsuspend => "subscription.unsuspend"@,
            Op::SvcAction => "svc.action"@,
            Op::SvcStatus => "svc.status"@,
        }
    }

    /// The right that an operation asks for.
    pub open spec fn needs(self) -> Permission {
        match self {
            Op::AppCreate => Permission::NodeApps,
            Op::AppDelete => Permission::NodeApps,
            Op::AppList => Permission::NodeApps,
            Op::AppLogs => Permission::NodeApps,
            Op::AppRestart => Permission::NodeApps,
            Op::PlanAssign => Permission::PlanManage,
            Op::PlanCreate => Permission::PlanManage,
            Op::PlanDelete => Permission::PlanManage,
            Op::PlanList => Permission::PlanManage,
            Op::PlanUpdate => Permission::PlanManage,
            Op::PluginDisable => Permission::ServerManage,
            Op::PluginEnable => Permission::ServerManage,
            Op::PluginInstall => Permission::ServerManage,
            Op::PluginList => Permission::ServerRead,
            Op::PluginRemove => Permission::ServerManage,
            Op::SecurityPosture => Permission::ServerRead,
            Op::SftpDisable => Permission::SshAccess,
            Op::SftpEnable => Permission::SshAccess,
            Op::SiteCreate => Permission::SiteManage,
            Op::SiteDelete => Permission::SiteManage,
            Op::SiteDrift => Permission::SiteRead,
            Op::SiteList => Permission::SiteRead,
            Op::SiteUpdate => Permission::SiteManage,
            Op::SshKeysAdd => Permission::TerminalAccess,
            Op::SshKeysList => Permission::TerminalAccess,
            Op::SshKeysRemove => Permission::TerminalAccess,
            Op::StackInstall => Permission::StackManage,
            Op::StackRemove => Permission::StackManage,
            Op::StackStatus => Permission::ServerRead,
            Op::SubscriptionList => Permission::SiteRead,
            Op::SubscriptionSuspend => Permission::UserManage,
            Op::SubscriptionUnsuspend => Permission::UserManage,
            Op::SvcAction => Permission::ServerManage,
            Op::SvcStatus => Permission::ServerRead,
        }
    }

    /// How an operation runs.
    pub open spec fn runs(self) -> Execution {
        match self {
            Op::AppCreate
            | Op::PluginInstall
            | Op::SiteCreate => Execution::Task { cancellable: false, idempotent: false },
            Op::AppDelete
            | Op::AppRestart
            | Op::PluginRemove
            | Op::SftpEnable
            | Op::SiteDelete
            | Op::SiteUpdate
            | Op::StackInstall
            | Op::StackRemove
            | Op::SubscriptionSuspend
            | Op::SubscriptionUnsuspend => Execution::Task { cancellable: false, idempotent: true },
            _ => Execution::Immediate,
        }
    }

    pub open spec fn entry_view(self) -> Entry {
        Entry { name: self.title(), permission: self.needs(), execution: self.runs() }
    }

    pub open spec fn ops() -> Seq<Op> {
        seq![
            Op::AppCreate,
            Op::AppDelete,
            Op::AppList,
            Op::AppLogs,
            Op::AppRestart,
            Op::PlanAssign,
            Op::PlanCreate,
            Op::PlanDelete,
            Op::PlanList,
            Op::PlanUpdate,
            Op::PluginDisable,
            Op::PluginEnable,
            Op::PluginInstall,
            Op::PluginList,
            Op::PluginRemove,
            Op::SecurityPosture,
            Op::SftpDisable,
            Op::SftpEnable,
            Op::SiteCreate,
            Op::SiteDelete,
            Op::SiteDrift,
            Op::SiteList,
            Op::SiteUpdate,
            Op::SshKeysAdd,
            Op::SshKeysList,
            Op::SshKeysRemove,
            Op::StackInstall,
            Op::StackRemove,
            Op::StackStatus,
            Op::SubscriptionList,
            Op::SubscriptionSuspend,
            Op::SubscriptionUnsuspend,
            Op::SvcAction,
            Op::SvcStatus,
        ]
    }

    /// Every operation.
    pub fn all() -> (r: Vec<Op>)
        ensures
            r@ == Op::ops(),
    {
        vec![
            Op::AppCreate,
            Op::AppDelete,
            Op::AppList,
            Op::AppLogs,
            Op::AppRestart,
            Op::PlanAssign,
            Op::PlanCreate,
            Op::PlanDelete,
            Op::PlanList,
            Op::PlanUpdate,
            Op::PluginDisable,
            Op::PluginEnable,
            Op::PluginInstall,
            Op::PluginList,
            Op::PluginRemove,
            Op::SecurityPosture,
            Op::SftpDisable,
            Op::SftpEnable,
            Op::SiteCreate,
            Op::SiteDelete,
            Op::SiteDrift,
            Op::SiteList,
            Op::SiteUpdate,
            Op::SshKeysAdd,
            Op::SshKeysList,
            Op::SshKeysRemove,
            Op::StackInstall,
            Op::StackRemove,
            Op::StackStatus,
            Op::SubscriptionList,
            Op::SubscriptionSuspend,
            Op::SubscriptionUnsuspend,
            Op::SvcAction,
            Op::SvcStatus,
        ]
    }

    pub fn name(self) -> (r: &'static str)
        ensures
            r@ == self.title(),
    {
        match self {
            Op::AppCreate => "app.create",
            Op::AppDelete => "app.delete",
            Op::AppList => "app.list",
            Op::AppLogs => "app.logs",
            Op::AppRestart => "app.restart",
            Op::PlanAssign => "plan.assign",
            Op::PlanCreate => "plan.create",
            Op::PlanDelete => "plan.delete",
            Op::PlanList => "plan.list",
            Op::PlanUpdate => "plan.update",
            Op::PluginDisable => "plugin.disable",
            Op::PluginEnable => "plugin.enable",
            Op::PluginInstall => "plugin.install",
            Op::PluginList => "plugin.list",
            Op::PluginRemove => "plugin.remove",
            Op::SecurityPosture => "security.posture",
            Op::SftpDisable => "sftp.disable",
            Op::SftpEnable => "sftp.enable",
            Op::SiteCreate => "site.create",
            Op::SiteDelete => "site.delete",
            Op::SiteDrift => "site.drift",
            Op::SiteList => "site.list",
            Op::SiteUpdate => "site.update",
            Op::SshKeysAdd => "ssh.keys.add",
            Op::SshKeysList => "ssh.keys.list",
            Op::SshKeysRemove => "ssh.keys.remove",
            Op::StackInstall => "stack.install",
            Op::StackRemove => "stack.remove",
            Op::StackStatus => "stack.status",
            Op::SubscriptionList => "subscription.list",
            Op::SubscriptionSuspend => "subscription.suspend",
            Op::SubscriptionUnsuspend => "subscription.unsuspend",
            Op::SvcAction => "svc.action",
            Op::SvcStatus => "svc.status",
        }
    }

    pub fn permission(self) -> (r: Permission)
        ensures
            r == self.needs(),
    {
        match self {
            Op::AppCreate => Permission::NodeApps,
            Op::AppDelete => Permission::NodeApps,
            Op::AppList => Permission::NodeApps,
            Op::AppLogs => Permission::NodeApps,
            Op::AppRestart => Permission::NodeApps,
            Op::PlanAssign => Permission::PlanManage,
            Op::PlanCreate => Permission::PlanManage,
            Op::PlanDelete => Permission::PlanManage,
            Op::PlanList => Permission::PlanManage,
            Op::PlanUpdate => Permission::PlanManage,
            Op::PluginDisable => Permission::ServerManage,
            Op::PluginEnable => Permission::ServerManage,
            Op::PluginInstall => Permission::ServerManage,
            Op::PluginList => Permission::ServerRead,
            Op::PluginRemove => Permission::ServerManage,
            Op::SecurityPosture => Permission::ServerRead,
            Op::SftpDisable => Permission::SshAccess,
            Op::SftpEnable => Permission::SshAccess,
            Op::SiteCreate => Permission::SiteManage,
            Op::SiteDelete => Permission::SiteManage,
            Op::SiteDrift => Permission::SiteRead,
            Op::SiteList => Permission::SiteRead,
            Op::SiteUpdate => Permission::SiteManage,
            Op::SshKeysAdd => Permission::TerminalAccess,
            Op::SshKeysList => Permission::TerminalAccess,
            Op::SshKeysRemove => Permission::TerminalAccess,
            Op::StackInstall => Permission::StackManage,
            Op::StackRemove => Permission::StackManage,
            Op::StackStatus => Permission::ServerRead,
            Op::SubscriptionList => Permission::SiteRead,
            Op::SubscriptionSuspend => Permission::UserManage,
            Op::SubscriptionUnsuspend => Permission::UserManage,
            Op::SvcAction => Permission::ServerManage,
            Op::SvcStatus => Permission::ServerRead,
        }
    }

    pub fn execution(self) -> (r: Execution)
        ensures
            r == self.runs(),
    {
        match self {
            Op::AppCreate
            | Op::PluginInstall
            | Op::SiteCreate => Execution::Task { cancellable: false, idempotent: false },
            Op::AppDelete
            | Op::AppRestart
            | Op::PluginRemove
            | Op::SftpEnable
            | Op::SiteDelete
            | Op::SiteUpdate
            | Op::StackInstall
            | Op::StackRemove
            | Op::SubscriptionSuspend
            | Op::SubscriptionUnsuspend => Execution::Task { cancellable: false, idempotent: true },
            _ => Execution::Immediate,
        }
    }

    /// What is registered for an operation.
    pub fn entry(self) -> (r: OpEntry)
        ensures
            r@ == self.entry_view(),
    {
        OpEntry {
            name: self.name().to_owned(),
            permission: self.permission(),
            execution: self.execution(),
        }
    }
}

/// An operation of the system, as those who bring it declare it.
#[derive(Debug, Clone, Copy)]
pub struct SystemOp {
    pub permission: Permission,
    pub execution: Execution,
}

pub open spec fn system_entry(name: Seq<char>, op: SystemOp) -> Entry {
    Entry { name, permission: op.permission, execution: op.execution }
}

/// What is registered from the start: the operations of this library, and the
/// two of the system that every build has.
pub open spec fn catalogue(ping: SystemOp, snapshot: SystemOp) -> Seq<Entry> {
    let own = Op::ops().map_values(|op: Op| op.entry_view());
    own.take(5).push(system_entry("metrics.snapshot"@, snapshot)) + own.skip(5).push(
        system_entry("sys.ping"@, ping),
    )
}

/// Two texts that first differ at a place are in the order of what is there.
proof fn lemma_order_at(a: Seq<char>, b: Seq<char>, k: int)
    requires
        0 <= k < a.len(),
        k < b.len(),
        a.take(k) == b.take(k),
        (a[k] as int) < b[k] as int,
    ensures
        text::text_le(a, b),
        a != b,
    decreases k,
{
    if k > 0 {
        assert(a.take(k)[0] == a[0]);
        assert(b.take(k)[0] == b[0]);
        assert(a.skip(1).take(k - 1) =~= a.take(k).skip(1));
        assert(b.skip(1).take(k - 1) =~= b.take(k).skip(1));
        lemma_order_at(a.skip(1), b.skip(1), k - 1);
    }
}

/// Each name comes before the next.
proof fn lemma_neighbours(i: int)
    requires
        0 <= i < Op::ops().len() - 1,
    ensures
        text::text_le(Op::ops()[i].title(), Op::ops()[i + 1].title()),
        Op::ops()[i].title() != Op::ops()[i + 1].title(),
{
    match Op::ops()[i] {
        Op::AppCreate => {
            reveal_strlit("app.create");
            reveal_strlit("app.delete");
            assert("app.create"@.take(4) =~= "app.delete"@.take(4));
            lemma_order_at("app.create"@, "app.delete"@, 4);
        },
        Op::AppDelete => {
            reveal_strlit("app.delete");
            reveal_strlit("app.list");
            assert("app.delete"@.take(4) =~= "app.list"@.take(4));
            lemma_order_at("app.delete"@, "app.list"@, 4);
        },
        Op::AppList => {
            reveal_strlit("app.list");
            reveal_strlit("app.logs");
            assert("app.list"@.take(5) =~= "app.logs"@.take(5));
            lemma_order_at("app.list"@, "app.logs"@, 5);
        },
        Op::AppLogs => {
            reveal_strlit("app.logs");
            reveal_strlit("app.restart");
            assert("app.logs"@.take(4) =~= "app.restart"@.take(4));
            lemma_order_at("app.logs"@, "app.restart"@, 4);
        },
        Op::AppRestart => {
            reveal_strlit("app.restart");
            reveal_strlit("plan.assign");
            assert("app.restart"@.take(0) =~= "plan.assign"@.take(0));
            lemma_order_at("app.restart"@, "plan.assign"@, 0);
        },
        Op::PlanAssign => {
            reveal_strlit("plan.assign");
            reveal_strlit("plan.create");
            assert("plan.assign"@.take(5) =~= "plan.create"@.take(5));
            lemma_order_at("plan.assign"@, "plan.create"@, 5);
        },
        Op::PlanCreate => {
            reveal_strlit("plan.create");
            reveal_strlit("plan.delete");
            assert("plan.create"@.take(5) =~= "plan.delete"@.take(5));
            lemma_order_at("plan.create"@, "plan.delete"@, 5);
        },
        Op::PlanDelete => {
            reveal_strlit("plan.delete");
            reveal_strlit("plan.list");
            assert("plan.delete"@.take(5) =~= "plan.list"@.take(5));
            lemma_order_at("plan.delete"@, "plan.list"@, 5);
        },
        Op::PlanList => {
            reveal_strlit("plan.list");
            reveal_strlit("plan.update");
            assert("plan.list"@.take(5) =~= "plan.update"@.take(5));
            lemma_order_at("plan.list"@, "plan.update"@, 5);
        },
        Op::PlanUpdate => {
            reveal_strlit("plan.update");
            reveal_strlit("plugin.disable");
            assert("plan.update"@.take(2) =~= "plugin.disable"@.take(2));
            lemma_order_at("plan.update"@, "plugin.disable"@, 2);
        },
        Op::PluginDisable => {
            reveal_strlit("plugin.disable");
            reveal_strlit("plugin.enable");
            assert("plugin.disable"@.take(7) =~= "plugin.enable"@.take(7));
            lemma_order_at("plugin.disable"@, "plugin.enable"@, 7);
        },
        Op::PluginEnable => {
            reveal_strlit("plugin.enable");
            reveal_strlit("plugin.install");
            assert("plugin.enable"@.take(7) =~= "plugin.install"@.take(7));
            lemma_order_at("plugin.enable"@, "plugin.install"@, 7);
        },
        Op::PluginInstall => {
            reveal_strlit("plugin.install");
            reveal_strlit("plugin.list");
            assert("plugin.install"@.take(7) =~= "plugin.list"@.take(7));
            lemma_order_at("plugin.install"@, "plugin.list"@, 7);
        },
        Op::PluginList => {
            reveal_strlit("plugin.list");
            reveal_strlit("plugin.remove");
            assert("plugin.list"@.take(7) =~= "plugin.remove"@.take(7));
            lemma_order_at("plugin.list"@, "plugin.remove"@, 7);
        },
        Op::PluginRemove => {
            reveal_strlit("plugin.remove");
            reveal_strlit("security.posture");
            assert("plugin.remove"@.take(0) =~= "security.posture"@.take(0));
            lemma_order_at("plugin.remove"@, "security.posture"@, 0);
        },
        Op::SecurityPosture => {
            reveal_strlit("security.posture");
            reveal_strlit("sftp.disable");
            assert("security.posture"@.take(1) =~= "sftp.disable"@.take(1));
            lemma_order_at("security.posture"@, "sftp.disable"@, 1);
        },
        Op::SftpDisable => {
            reveal_strlit("sftp.disable");
            reveal_strlit("sftp.enable");
            assert("sftp.disable"@.take(5) =~= "sftp.enable"@.take(5));
            lemma_order_at("sftp.disable"@, "sftp.enable"@, 5);
        },
        Op::SftpEnable => {
            reveal_strlit("sftp.enable");
            reveal_strlit("site.create");
            assert("sftp.enable"@.take(1) =~= "site.create"@.take(1));
            lemma_order_at("sftp.enable"@, "site.create"@, 1);
        },
        Op::SiteCreate => {
            reveal_strlit("site.create");
            reveal_strlit("site.delete");
            assert("site.create"@.take(5) =~= "site.delete"@.take(5));
            lemma_order_at("site.create"@, "site.delete"@, 5);
        },
        Op::SiteDelete => {
            reveal_strlit("site.delete");
            reveal_strlit("site.drift");
            assert("site.delete"@.take(6) =~= "site.drift"@.take(6));
            lemma_order_at("site.delete"@, "site.drift"@, 6);
        },
        Op::SiteDrift => {
            reveal_strlit("site.drift");
            reveal_strlit("site.list");
            assert("site.drift"@.take(5) =~= "site.list"@.take(5));
            lemma_order_at("site.drift"@, "site.list"@, 5);
        },
        Op::SiteList => {
            reveal_strlit("site.list");
            reveal_strlit("site.update");
            assert("site.list"@.take(5) =~= "site.update"@.take(5));
            lemma_order_at("site.list"@, "site.update"@, 5);
        },
        Op::SiteUpdate => {
            reveal_strlit("site.update");
            reveal_strlit("ssh.keys.add");
            assert("site.update"@.take(1) =~= "ssh.keys.add"@.take(1));
            lemma_order_at("site.update"@, "ssh.keys.add"@, 1);
        },
        Op::SshKeysAdd => {
            reveal_strlit("ssh.keys.add");
            reveal_strlit("ssh.keys.list");
            assert("ssh.keys.add"@.take(9) =~= "ssh.keys.list"@.take(9));
            lemma_order_at("ssh.keys.add"@, "ssh.keys.list"@, 9);
        },
        Op::SshKeysList => {
            reveal_strlit("ssh.keys.list");
            reveal_strlit("ssh.keys.remove");
            assert("ssh.keys.list"@.take(9) =~= "ssh.keys.remove"@.take(9));
            lemma_order_at("ssh.keys.list"@, "ssh.keys.remove"@, 9);
        },
        Op::SshKeysRemove => {
            reveal_strlit("ssh.keys.remove");
            reveal_strlit("stack.install");
            assert("ssh.keys.remove"@.take(1) =~= "stack.install"@.take(1));
            lemma_order_at("ssh.keys.remove"@, "stack.install"@, 1);
        },
        Op::StackInstall => {
            reveal_strlit("stack.install");
            reveal_strlit("stack.remove");
            assert("stack.install"@.take(6) =~= "stack.remove"@.take(6));
            lemma_order_at("stack.install"@, "stack.remove"@, 6);
        },
        Op::StackRemove => {
            reveal_strlit("stack.remove");
            reveal_strlit("stack.status");
            assert("stack.remove"@.take(6) =~= "stack.status"@.take(6));
            lemma_order_at("stack.remove"@, "stack.status"@, 6);
        },
        Op::StackStatus => {
            reveal_strlit("stack.status");
            reveal_strlit("subscription.list");
            assert("stack.status"@.take(1) =~= "subscription.list"@.take(1));
            lemma_order_at("stack.status"@, "subscription.list"@, 1);
        },
        Op::SubscriptionList => {
            reveal_strlit("subscription.list");
            reveal_strlit("subscription.suspend");
            assert("subscription.list"@.take(13) =~= "subscription.suspend"@.take(13));
            lemma_order_at("subscription.list"@, "subscription.suspend"@, 13);
        },
        Op::SubscriptionSuspend => {
            reveal_strlit("subscription.suspend");
            reveal_strlit("subscription.unsuspend");
            assert("subscription.suspend"@.take(13) =~= "subscription.unsuspend"@.take(13));
            lemma_order_at("subscription.suspend"@, "subscription.unsuspend"@, 13);
        },
        Op::SubscriptionUnsuspend => {
            reveal_strlit("subscription.unsuspend");
            reveal_strlit("svc.action");
            assert("subscription.unsuspend"@.take(1) =~= "svc.action"@.take(1));
            lemma_order_at("subscription.unsuspend"@, "svc.action"@, 1);
        },
        Op::SvcAction => {
            reveal_strlit("svc.action");
            reveal_strlit("svc.status");
            assert("svc.action"@.take(4) =~= "svc.status"@.take(4));
            lemma_order_at("svc.action"@, "svc.status"@, 4);
        },
        Op::SvcStatus => {},
    }
}

/// The catalogue is in the order of its names, no two of which are the same.
pub proof fn law_every_name_is_taken_once(ping: SystemOp, snapshot: SystemOp)
    ensures
        crate::registry::in_order(catalogue(ping, snapshot)),
{
    let t = catalogue(ping, snapshot);
    assert forall|i: int, j: int| 0 <= i < j < t.len() implies text::text_le(
        (#[trigger] t[i]).name,
        (#[trigger] t[j]).name,
    ) && t[i].name != t[j].name by {
        lemma_catalogue_ascends(t, i, j);
    }
}

proof fn lemma_catalogue_ascends(t: Seq<Entry>, i: int, j: int)
    requires
        exists|ping: SystemOp, snapshot: SystemOp| t == #[trigger] catalogue(ping, snapshot),
        0 <= i < j < t.len(),
    ensures
        text::text_le(t[i].name, t[j].name),
        t[i].name != t[j].name,
    decreases j - i,
{
    let ops = Op::ops();
    let (a, b, c) = (t[i].name, t[j - 1].name, t[j].name);
    if j == 5 {
        assert(b == ops[4].title() && c == "metrics.snapshot"@);
        reveal_strlit("app.restart");
        reveal_strlit("metrics.snapshot");
        assert("app.restart"@.take(0) =~= "metrics.snapshot"@.take(0));
        lemma_order_at("app.restart"@, "metrics.snapshot"@, 0);
    } else if j == 6 {
        assert(b == "metrics.snapshot"@ && c == ops[5].title());
        reveal_strlit("metrics.snapshot");
        reveal_strlit("plan.assign");
        assert("metrics.snapshot"@.take(0) =~= "plan.assign"@.take(0));
        lemma_order_at("metrics.snapshot"@, "plan.assign"@, 0);
    } else if j == t.len() - 1 {
        assert(b == ops[ops.len() - 1].title() && c == "sys.ping"@);
        reveal_strlit("svc.status");
        reveal_strlit("sys.ping");
        assert("svc.status"@.take(1) =~= "sys.ping"@.take(1));
        lemma_order_at("svc.status"@, "sys.ping"@, 1);
    } else if j < 5 {
        assert(b == ops[j - 1].title() && c == ops[j].title());
        lemma_neighbours(j - 1);
    } else {
        assert(b == ops[j - 2].title() && c == ops[j - 1].title());
        lemma_neighbours(j - 2);
    }
    if i < j - 1 {
        lemma_catalogue_ascends(t, i, j - 1);
        text::lemma_text_le_transitive(a, b, c);
        text::lemma_text_le_total(a, b);
        text::lemma_text_le_total(b, c);
    }
}

pub open spec fn is_op_name_char(c: char) -> bool {
    text::is_lower(c) || text::is_digit(c) || c == '.' || c == '_'
}

/// Every name that is registered from the start has a namespace, and is in lower
/// case.
pub proof fn law_registered_names_are_dotted_and_lowercase(
    ping: SystemOp,
    snapshot: SystemOp,
    i: int,
)
    requires
        0 <= i < catalogue(ping, snapshot).len(),
    ensures
        ({
            let name = catalogue(ping, snapshot)[i].name;
            &&& name.contains('.')
            &&& forall|j: int| 0 <= j < name.len() ==> is_op_name_char(#[trigger] name[j])
        }),
{
    let t = catalogue(ping, snapshot);
    if i == 5 {
        reveal_strlit("metrics.snapshot");
        assert("metrics.snapshot"@[7] == '.');
    } else if i == t.len() - 1 {
        reveal_strlit("sys.ping");
        assert("sys.ping"@[3] == '.');
    } else {
        let op = if i < 5 {
            Op::ops()[i]
        } else {
            Op::ops()[i - 1]
        };
        assert(t[i].name == op.title());
        law_names_are_dotted_and_lowercase(op);
    }
}

/// Every name has a namespace, and is in lower case.
pub proof fn law_names_are_dotted_and_lowercase(op: Op)
    ensures
        op.title().contains('.'),
        forall|i: int| 0 <= i < op.title().len() ==> is_op_name_char(#[trigger] op.title()[i]),
{
    match op {
        Op::AppCreate => {
            reveal_strlit("app.create");
            assert("app.create"@[3] == '.');
        },
        Op::AppDelete => {
            reveal_strlit("app.delete");
            assert("app.delete"@[3] == '.');
        },
        Op::AppList => {
            reveal_strlit("app.list");
            assert("app.list"@[3] == '.');
        },
        Op::AppLogs => {
            reveal_strlit("app.logs");
            assert("app.logs"@[3] == '.');
        },
        Op::AppRestart => {
            reveal_strlit("app.restart");
            assert("app.restart"@[3] == '.');
        },
        Op::PlanAssign => {
            reveal_strlit("plan.assign");
            assert("plan.assign"@[4] == '.');
        },
        Op::PlanCreate => {
            reveal_strlit("plan.create");
            assert("plan.create"@[4] == '.');
        },
        Op::PlanDelete => {
            reveal_strlit("plan.delete");
            assert("plan.delete"@[4] == '.');
        },
        Op::PlanList => {
            reveal_strlit("plan.list");
            assert("plan.list"@[4] == '.');
        },
        Op::PlanUpdate => {
            reveal_strlit("plan.update");
            assert("plan.update"@[4] == '.');
        },
        Op::PluginDisable => {
            reveal_strlit("plugin.disable");
            assert("plugin.disable"@[6] == '.');
        },
        Op::PluginEnable => {
            reveal_strlit("plugin.enable");
            assert("plugin.enable"@[6] == '.');
        },
        Op::PluginInstall => {
            reveal_strlit("plugin.install");
            assert("plugin.install"@[6] == '.');
        },
        Op::PluginList => {
            reveal_strlit("plugin.list");
            assert("plugin.list"@[6] == '.');
        },
        Op::PluginRemove => {
            reveal_strlit("plugin.remove");
            assert("plugin.remove"@[6] == '.');
        },
        Op::SecurityPosture => {
            reveal_strlit("security.posture");
            assert("security.posture"@[8] == '.');
        },
        Op::SftpDisable => {
            reveal_strlit("sftp.disable");
            assert("sftp.disable"@[4] == '.');
        },
        Op::SftpEnable => {
            reveal_strlit("sftp.enable");
            assert("sftp.enable"@[4] == '.');
        },
        Op::SiteCreate => {
            reveal_strlit("site.create");
            assert("site.create"@[4] == '.');
        },
        Op::SiteDelete => {
            reveal_strlit("site.delete");
            assert("site.delete"@[4] == '.');
        },
        Op::SiteDrift => {
            reveal_strlit("site.drift");
            assert("site.drift"@[4] == '.');
        },
        Op::SiteList => {
            reveal_strlit("site.list");
            assert("site.list"@[4] == '.');
        },
        Op::SiteUpdate => {
            reveal_strlit("site.update");
            assert("site.update"@[4] == '.');
        },
        Op::SshKeysAdd => {
            reveal_strlit("ssh.keys.add");
            assert("ssh.keys.add"@[3] == '.');
        },
        Op::SshKeysList => {
            reveal_strlit("ssh.keys.list");
            assert("ssh.keys.list"@[3] == '.');
        },
        Op::SshKeysRemove => {
            reveal_strlit("ssh.keys.remove");
            assert("ssh.keys.remove"@[3] == '.');
        },
        Op::StackInstall => {
            reveal_strlit("stack.install");
            assert("stack.install"@[5] == '.');
        },
        Op::StackRemove => {
            reveal_strlit("stack.remove");
            assert("stack.remove"@[5] == '.');
        },
        Op::StackStatus => {
            reveal_strlit("stack.status");
            assert("stack.status"@[5] == '.');
        },
        Op::SubscriptionList => {
            reveal_strlit("subscription.list");
            assert("subscription.list"@[12] == '.');
        },
        Op::SubscriptionSuspend => {
            reveal_strlit("subscription.suspend");
            assert("subscription.suspend"@[12] == '.');
        },
        Op::SubscriptionUnsuspend => {
            reveal_strlit("subscription.unsuspend");
            assert("subscription.unsuspend"@[12] == '.');
        },
        Op::SvcAction => {
            reveal_strlit("svc.action");
            assert("svc.action"@[3] == '.');
        },
        Op::SvcStatus => {
            reveal_strlit("svc.status");
            assert("svc.status"@[3] == '.');
        },
    }
}

} // verus!
