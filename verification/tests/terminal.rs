use ferrum_ops::error::ErrorCode;
use ferrum_ops::model::{
    AuthContext, LinuxUser, Permission, Plan, Role, Subscription, SubscriptionStatus, TenantScope,
};
use ferrum_ops::terminal::pty::window;
use ferrum_ops::terminal::{
    authorize, open_account, pick_root_shell, resolve_subscription, shell_candidates, vet_shell,
    Account, AccountSource, Facts, Holdings, SessionPlan, TerminalTarget,
};

/// An account database of one entry.
struct OneAccount {
    user: String,
    uid: u32,
    gid: u32,
}

impl AccountSource for OneAccount {
    fn lookup(&self, linux_user: &str) -> Option<Account> {
        if linux_user != self.user {
            return None;
        }
        Some(Account {
            uid: self.uid,
            gid: self.gid,
            home: format!("/home/{linux_user}"),
            shell: "/bin/bash".to_string(),
        })
    }
}

fn accounts(user: &str, uid: u32, gid: u32) -> OneAccount {
    OneAccount { user: user.to_string(), uid, gid }
}

fn auth_for(id: i64, role: Role) -> AuthContext {
    AuthContext {
        actor_user_id: id,
        acting_role: role,
        tenant_scope: match role {
            Role::Admin => TenantScope::Global,
            Role::Reseller => TenantScope::Reseller { reseller_id: id },
            Role::Customer => TenantScope::Customer { customer_id: id },
        },
        permissions: vec![Permission::TerminalAccess],
        impersonator_id: None,
        request_id: "req-test".to_string(),
    }
}

fn subscription(id: i64, user: &str, status: SubscriptionStatus) -> Subscription {
    Subscription {
        id,
        customer_id: 2,
        plan_id: None,
        linux_user: user.to_string(),
        home_dir: format!("/home/{user}"),
        status,
        suspended_reason: None,
    }
}

fn plan(can_ssh: bool) -> Plan {
    Plan {
        id: 1,
        owner_user_id: None,
        name: format!("plan-1-ssh-{can_ssh}"),
        max_sites: 10,
        max_dbs: 10,
        storage_mb: 1024,
        can_ssh,
        can_cron: true,
        can_node_apps: false,
    }
}

const USER: &str = "ft_abc12345";

/// What a customer with one subscription finds in their own scope.
fn facts(plan: Option<Plan>, status: SubscriptionStatus) -> Facts {
    Facts {
        installed_shells: vec!["/bin/bash".to_string()],
        held: Holdings { named: None, mine: vec![subscription(1, USER, status)] },
        plan,
    }
}

const MINE: TerminalTarget = TerminalTarget::Tenant { subscription_id: None };

#[test]
fn a_customer_can_never_reach_a_root_shell_by_any_route() {
    let passwd = accounts(USER, 5001, 5001);
    let held = facts(Some(plan(true)), SubscriptionStatus::Active);
    for forged in [false, true] {
        let mut auth = auth_for(2, Role::Customer);
        if forged {
            auth.permissions.push(Permission::ServerManage);
            auth.permissions.push(Permission::SshAccess);
        }
        let err = authorize(&passwd, &auth, &TerminalTarget::Root, &held).unwrap_err();
        assert_eq!(err.code, ErrorCode::PermissionDenied);
    }

    // And the granted path really is a tenant session, not root.
    let plan = authorize(&passwd, &auth_for(2, Role::Customer), &MINE, &held).unwrap();
    assert!(!plan.is_root());
    assert_eq!(plan.account(), USER);
    assert_eq!(plan.home(), "/home/ft_abc12345");
    assert_eq!(plan.shell(), "/bin/bash");
    assert_eq!(plan.subscription_id(), Some(1));
}

#[test]
fn a_customer_without_can_ssh_gets_nothing() {
    let passwd = accounts(USER, 5001, 5001);
    let auth = auth_for(2, Role::Customer);

    // No plan at all: fail closed, not "unlimited".
    let err = authorize(&passwd, &auth, &MINE, &facts(None, SubscriptionStatus::Active));
    assert_eq!(err.unwrap_err().code, ErrorCode::PlanFeatureDisabled);

    // A plan that says no.
    let held = facts(Some(plan(false)), SubscriptionStatus::Active);
    let err = authorize(&passwd, &auth, &MINE, &held).unwrap_err();
    assert_eq!(err.code, ErrorCode::PlanFeatureDisabled);

    // The plan alone is not enough either: without the permission nothing is
    // even looked up.
    let mut stripped = auth_for(2, Role::Customer);
    stripped.permissions.clear();
    let held = facts(Some(plan(true)), SubscriptionStatus::Active);
    let err = authorize(&passwd, &stripped, &MINE, &held).unwrap_err();
    assert_eq!(err.code, ErrorCode::PermissionDenied);
}

#[test]
fn a_customer_cannot_open_another_tenants_shell() {
    // The other subscription is not in the customer's scope: nothing is named.
    let passwd = accounts("ft_other123", 5002, 5002);
    let held = facts(Some(plan(true)), SubscriptionStatus::Active);
    let target = TerminalTarget::Tenant { subscription_id: Some(2) };
    let err = authorize(&passwd, &auth_for(2, Role::Customer), &target, &held).unwrap_err();
    assert_eq!(
        err.code,
        ErrorCode::NotFound,
        "another tenant's subscription must not even be confirmed to exist"
    );
}

#[test]
fn a_reseller_has_no_shell_at_all() {
    let passwd = accounts(USER, 5001, 5001);
    let auth = auth_for(99, Role::Reseller);
    let held = facts(Some(plan(true)), SubscriptionStatus::Active);
    for target in [TerminalTarget::Root, MINE] {
        let err = authorize(&passwd, &auth, &target, &held).unwrap_err();
        assert_eq!(err.code, ErrorCode::PermissionDenied);
    }
}

#[test]
fn an_admin_gets_root_and_may_also_drop_into_a_tenant() {
    let passwd = accounts(USER, 5001, 5001);
    let auth = auth_for(1, Role::Admin);
    let mut held = facts(None, SubscriptionStatus::Active);
    held.held.named = Some(subscription(1, USER, SubscriptionStatus::Active));

    let root = authorize(&passwd, &auth, &TerminalTarget::Root, &held).unwrap();
    assert!(root.is_root());
    assert_eq!(root.account(), "root");
    assert_eq!(root.home(), "/root");
    assert_eq!(root.subscription_id(), None);

    let target = TerminalTarget::Tenant { subscription_id: Some(1) };
    let tenant = authorize(&passwd, &auth, &target, &held).unwrap();
    assert!(!tenant.is_root());
    match tenant {
        SessionPlan::Tenant { uid, gid, .. } => {
            assert_eq!((uid, gid), (5001, 5001));
        }
        other => panic!("expected a tenant plan, got {other:?}"),
    }
}

#[test]
fn a_tenant_account_that_maps_to_root_is_refused() {
    let passwd = accounts(USER, 0, 0);
    let held = facts(Some(plan(true)), SubscriptionStatus::Active);
    let err = authorize(&passwd, &auth_for(2, Role::Customer), &MINE, &held).unwrap_err();
    assert_eq!(err.code, ErrorCode::Internal);
    assert!(err.detail.contains("uid/gid 0"));

    // Either id is enough, and an account that is not there is not found.
    let s = subscription(1, USER, SubscriptionStatus::Active);
    let user = || LinuxUser::parse(USER).unwrap();
    for (uid, gid) in [(0, 5), (5, 0)] {
        let found = accounts(USER, uid, gid).lookup(USER);
        assert_eq!(open_account(&s, user(), found).unwrap_err().code, ErrorCode::Internal);
    }
    assert_eq!(open_account(&s, user(), None).unwrap_err().code, ErrorCode::NotFound);
}

#[test]
fn a_suspended_subscription_has_no_shell() {
    let passwd = accounts(USER, 5001, 5001);
    let held = facts(Some(plan(true)), SubscriptionStatus::Suspended);
    let err = authorize(&passwd, &auth_for(2, Role::Customer), &MINE, &held).unwrap_err();
    assert_eq!(err.code, ErrorCode::AccountSuspended);
}

#[test]
fn a_nologin_account_is_refused_with_a_reason_and_a_strange_shell_outright() {
    let err = vet_shell("/usr/sbin/nologin").unwrap_err();
    assert_eq!(err.code, ErrorCode::PlanFeatureDisabled);

    let err = vet_shell("/tmp/evil").unwrap_err();
    assert_eq!(err.code, ErrorCode::InvalidInput);

    assert!(vet_shell("/bin/bash").is_ok());
}

#[test]
fn root_gets_the_first_shell_that_is_installed() {
    let all = shell_candidates();
    assert_eq!(pick_root_shell(&all).unwrap(), all[0]);
    let last = all[all.len() - 1].clone();
    assert_eq!(pick_root_shell(&vec![last.clone()]).unwrap(), last);
    assert!(pick_root_shell(&Vec::new()).is_err());
    assert!(pick_root_shell(&vec!["/tmp/evil".to_string()]).is_err());
}

#[test]
fn without_an_id_the_oldest_subscription_is_meant() {
    let active = SubscriptionStatus::Active;
    let held = Holdings {
        named: None,
        mine: vec![
            subscription(7, "ft_seven", active),
            subscription(3, "ft_three", active),
            subscription(5, "ft_five", active),
        ],
    };
    let auth = auth_for(2, Role::Customer);
    assert_eq!(resolve_subscription(&auth, None, &held).unwrap().id, 3);
    assert!(resolve_subscription(&auth, Some(3), &held).is_err());
    let none = Holdings { named: None, mine: Vec::new() };
    assert_eq!(resolve_subscription(&auth, None, &none).unwrap_err().code, ErrorCode::NotFound);
}

#[test]
fn a_zero_sized_window_is_clamped_rather_than_passed_through() {
    assert_eq!(window(0, 0), (1, 1));
    assert_eq!(window(0, 24), (1, 24));
    assert_eq!(window(80, 0), (80, 1));
}

#[test]
fn the_window_size_we_set_is_the_one_the_child_would_read() {
    assert_eq!(window(132, 43), (132, 43));
    assert_eq!(window(80, 24), (80, 24));
}
