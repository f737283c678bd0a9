use ferrum_ops::error::{ErrorCode, FerrumError};
use ferrum_ops::model::{
    AuthContext, Domain, Permission, Plan, Role, Site, SiteStatus, SiteType, Subscription,
    SubscriptionStatus, TenantScope, WwwPolicy,
};
use ferrum_ops::plan::{
    default_true, enforce_site_limit, site_scope, suspendable, switch_user, validate_plan_name,
    validate_reason, Assign, Create, CreateInput, ListInput, ListSubscriptions, Suspend,
    SuspendInput, SuspensionStep, Switching, Unsuspend, Update, UpdateInput,
};
use ferrum_ops::procedure::Next;
use ferrum_ops::registry::catalogue::SystemOp;
use ferrum_ops::registry::{ActorFacts, Execution, OpRegistry};
use ferrum_ops::site;

/// What the two operations of the system are declared as.
const SYSTEM: SystemOp =
    SystemOp { permission: Permission::ServerRead, execution: Execution::Immediate };

fn domain(name: &str) -> Domain {
    Domain::vetted(Ok(name.to_string())).unwrap()
}

fn plan(name: &str, max_sites: i64) -> Plan {
    Plan {
        id: 5,
        owner_user_id: None,
        name: name.to_string(),
        max_sites,
        max_dbs: 1,
        storage_mb: 1024,
        can_ssh: false,
        can_cron: true,
        can_node_apps: false,
    }
}

fn subscription(status: SubscriptionStatus) -> Subscription {
    Subscription {
        id: 11,
        customer_id: 3,
        plan_id: None,
        linux_user: "ft_abc12345".to_string(),
        home_dir: "/home/ft_abc12345".to_string(),
        status,
        suspended_reason: None,
    }
}

fn site_of(domain: &str, status: SiteStatus) -> Site {
    Site {
        id: 1,
        subscription_id: 11,
        domain: domain.to_string(),
        site_type: SiteType::Static,
        status,
        php_version: None,
        root_dir: format!("/home/ft_abc12345/sites/{domain}/public"),
        www_policy: WwwPolicy::Leave,
        force_https: true,
        http3: false,
        maintenance_mode: false,
        client_max_body_size: "64m".to_string(),
        custom_nginx_snippet: None,
        php_ini_overrides: None,
        rate_limit_enabled: false,
        rate_limit_rps: 10,
        rate_limit_burst: 20,
        conn_limit: 20,
        proxy_port: None,
        redirect_target: None,
        redirect_code: 301,
    }
}

fn caller(role: Role, permissions: Vec<Permission>) -> (AuthContext, Option<ActorFacts>) {
    let claimed = AuthContext {
        actor_user_id: 3,
        acting_role: role,
        tenant_scope: TenantScope::Customer { customer_id: 3 },
        permissions: permissions.clone(),
        impersonator_id: None,
        request_id: "req-test".to_string(),
    };
    (claimed, Some(ActorFacts { can_log_in: true, role, permissions }))
}

fn creating(name: &str) -> CreateInput {
    CreateInput {
        name: name.to_string(),
        max_sites: 3,
        max_dbs: 1,
        storage_mb: 1024,
        can_ssh: false,
        can_cron: true,
        can_node_apps: false,
    }
}

// -- plans -------------------------------------------------------------------

#[test]
fn an_admins_plan_is_global_and_a_resellers_is_their_own() {
    // The input names no owner: the scope that the plan is stored in decides.
    let new = Create::new_plan(&creating(" Starter ")).unwrap();
    assert_eq!(new.owner_user_id, None);
    assert_eq!(new.name, "Starter");
    assert_eq!((new.max_sites, new.max_dbs, new.storage_mb), (3, 1, 1024));
    assert!(default_true());
}

#[test]
fn a_customer_cannot_touch_the_plan_catalogue() {
    let (claimed, actor) = caller(Role::Customer, vec![Permission::SiteRead]);
    for op in ["plan.create", "plan.update", "plan.delete", "plan.assign", "plan.list"] {
        let err = OpRegistry::new(SYSTEM, SYSTEM).dispatch(op, &claimed, &actor).unwrap_err();
        assert_eq!(err.code, ErrorCode::PermissionDenied, "{op}");
    }
}

#[test]
fn a_reseller_cannot_assign_another_resellers_plan_or_subscription() {
    // What is outside the caller's scope is not found, whichever of the two it is.
    let sub = Some(subscription(SubscriptionStatus::Active));
    let err = Assign::check(&sub, &None).unwrap_err();
    assert_eq!(err.code, ErrorCode::NotFound);
    let err = Assign::check(&None, &Some(plan("APlan", 1))).unwrap_err();
    assert_eq!(err.code, ErrorCode::NotFound);
    assert_eq!(err.detail, "subscription not found");
    assert!(Assign::check(&sub, &Some(plan("APlan", 1))).is_ok());
}

#[test]
fn an_assignment_tells_whether_the_plan_is_already_exceeded() {
    let sub = subscription(SubscriptionStatus::Active);
    assert!(Assign::finish(&sub, &plan("Solo", 1), 2).over_limit);
    assert!(!Assign::finish(&sub, &plan("Solo", 1), 1).over_limit);
    assert_eq!(Assign::finish(&sub, &plan("Solo", 1), 1).plan_name, "Solo");
}

#[test]
fn a_plan_name_is_short_and_on_one_line() {
    assert_eq!(validate_plan_name("  Bronze ").unwrap(), "Bronze");
    for bad in ["", "  ", "a\nb"] {
        assert_eq!(validate_plan_name(bad).unwrap_err().code, ErrorCode::InvalidInput);
    }
    assert!(validate_plan_name(&"x".repeat(500)).is_err());
}

#[test]
fn an_update_changes_only_what_it_names() {
    let input = UpdateInput {
        plan_id: 5,
        name: None,
        max_sites: Some(9),
        max_dbs: None,
        storage_mb: None,
        can_ssh: Some(true),
        can_cron: None,
        can_node_apps: None,
    };
    let changes = Update::changes(&input).unwrap();
    assert_eq!(changes.max_sites, Some(9));
    assert_eq!(changes.can_ssh, Some(true));
    assert_eq!(changes.name, None);
    assert_eq!(changes.max_dbs, None);
    assert_eq!(ListInput { limit: None, offset: Some(4) }.page().1, 4);
}

// -- enforcement -------------------------------------------------------------

#[test]
fn a_subscription_at_its_site_limit_is_refused_by_name() {
    let input = site::CreateInput {
        domain: domain("second.example.com"),
        site_type: site::SiteTypeInput::Static,
        php_version: None,
        subscription_id: Some(11),
        with_www: false,
        proxy_port: None,
        redirect_target: None,
    };
    let facts = site::CreateFacts {
        php: site::PhpFacts { component: None, unit: None },
        subscription: Some(subscription(SubscriptionStatus::Active)),
        plan: Some(plan("Solo", 1)),
        used: 1,
        existing: None,
    };
    let err = site::Create::accept(&input, &facts).unwrap_err();
    assert_eq!(err.code, ErrorCode::QuotaExceeded);
    assert!(err.detail.contains("Solo"), "{}", err.detail);
    assert_eq!(
        err.detail,
        "plan `Solo` allows 1 site(s) and this subscription already has 1"
    );
}

#[test]
fn failed_sites_do_not_consume_the_quota() {
    // A failed site is not among those that are counted.
    let solo = Some(plan("Solo", 1));
    assert!(enforce_site_limit(&solo, 0).is_ok());
    let err = enforce_site_limit(&solo, 1).unwrap_err();
    assert_eq!(err.code, ErrorCode::QuotaExceeded);
}

#[test]
fn a_subscription_without_a_plan_stays_unlimited() {
    assert!(enforce_site_limit(&None, 3).is_ok());
    assert!(enforce_site_limit(&None, i64::MAX).is_ok());
}

// -- suspension --------------------------------------------------------------

fn switch_all(sites: &Vec<Site>, failing: &[&str]) -> (Vec<String>, Result<usize, FerrumError>) {
    let mut switching = Switching::new(sites);
    let mut tried = Vec::new();
    while let Some(domain) = switching.next() {
        let domain = domain.to_string();
        let result = if failing.contains(&domain.as_str()) {
            Err(FerrumError::new(ErrorCode::ConfigDrift, "nginx -t said no"))
        } else {
            Ok(())
        };
        tried.push(domain);
        switching.report(result);
    }
    (tried, switching.finish())
}

#[test]
fn suspend_forces_maintenance_on_active_sites_and_unsuspend_restores_them() {
    let sites = vec![
        site_of("live.example.com", SiteStatus::Active),
        site_of("half.example.com", SiteStatus::Provisioning),
        site_of("broken.example.com", SiteStatus::Failed),
    ];
    let sub = subscription(SubscriptionStatus::Active);
    let input = SuspendInput { subscription_id: 11, reason: " unpaid invoice #42 ".to_string() };
    let reason = Suspend::check(&input, &Some(sub)).unwrap();
    assert_eq!(reason, "unpaid invoice #42");

    let mut course = Suspend::course();
    assert!(matches!(
        course.next(),
        Next::Perform(SuspensionStep::SetStatus { status: SubscriptionStatus::Suspended })
    ));
    course.report(true);
    assert!(matches!(
        course.next(),
        Next::Perform(SuspensionStep::SwitchVhosts { force_maintenance: true })
    ));
    let (tried, switched) = switch_all(&sites, &[]);
    assert_eq!(tried, vec!["live.example.com".to_string()]);
    let sub = subscription(SubscriptionStatus::Active);
    let out = Suspend::finish(&sub, switched.unwrap());
    assert_eq!(out.sites_switched, 1);
    assert_eq!(out.status, SubscriptionStatus::Suspended);

    // The forced page is only in what is rendered.
    let user = switch_user(&sub).unwrap();
    let forced = site::vhost_context(&sites[0], &user, vec![], None, true);
    assert!(forced.maintenance_mode);
    assert!(!sites[0].maintenance_mode);

    let mut course = Unsuspend::course();
    assert!(matches!(
        course.next(),
        Next::Perform(SuspensionStep::SetStatus { status: SubscriptionStatus::Active })
    ));
    course.report(true);
    assert!(matches!(
        course.next(),
        Next::Perform(SuspensionStep::SwitchVhosts { force_maintenance: false })
    ));
    let out = Unsuspend::finish(&sub, 1);
    assert_eq!(out.sites_restored, 1);
    assert_eq!(out.status, SubscriptionStatus::Active);
}

#[test]
fn a_suspended_subscription_blocks_new_sites_but_not_the_panel_login() {
    let input = site::CreateInput {
        domain: domain("new.example.com"),
        site_type: site::SiteTypeInput::Static,
        php_version: None,
        subscription_id: Some(11),
        with_www: false,
        proxy_port: None,
        redirect_target: None,
    };
    let facts = site::CreateFacts {
        php: site::PhpFacts { component: None, unit: None },
        subscription: Some(subscription(SubscriptionStatus::Suspended)),
        plan: None,
        used: 0,
        existing: None,
    };
    let err = site::Create::accept(&input, &facts).unwrap_err();
    assert_eq!(err.code, ErrorCode::AccountSuspended);

    let (claimed, actor) = caller(Role::Customer, vec![Permission::SiteRead]);
    OpRegistry::new(SYSTEM, SYSTEM)
        .dispatch("site.list", &claimed, &actor)
        .expect("a customer with a suspended subscription can still use the panel");
}

#[test]
fn suspending_twice_converges_instead_of_failing() {
    let again = Some(subscription(SubscriptionStatus::Suspended));
    let input = SuspendInput { subscription_id: 11, reason: "unpaid".to_string() };
    assert!(Suspend::check(&input, &again).is_ok());
    assert!(suspendable(&again).is_ok());
}

#[test]
fn a_customer_cannot_suspend_or_unsuspend_even_their_own_subscription() {
    let (claimed, actor) = caller(Role::Customer, vec![Permission::SiteRead]);
    for op in ["subscription.suspend", "subscription.unsuspend"] {
        let err = OpRegistry::new(SYSTEM, SYSTEM).dispatch(op, &claimed, &actor).unwrap_err();
        assert_eq!(err.code, ErrorCode::PermissionDenied, "{op}");
    }
}

#[test]
fn a_reseller_cannot_suspend_a_subscription_outside_their_scope() {
    let input = SuspendInput { subscription_id: 12, reason: "not mine".to_string() };
    let err = Suspend::check(&input, &None).unwrap_err();
    assert_eq!(err.code, ErrorCode::NotFound, "existence must not leak");
}

#[test]
fn a_suspension_needs_a_real_reason() {
    let sub = Some(subscription(SubscriptionStatus::Active));
    for bad in ["", "   ", "line\nbreak"] {
        let input = SuspendInput { subscription_id: 11, reason: bad.to_string() };
        let err = Suspend::check(&input, &sub).unwrap_err();
        assert_eq!(err.code, ErrorCode::InvalidInput, "reason {bad:?}");
        assert!(validate_reason(bad).is_err());
    }
}

#[test]
fn what_is_going_to_be_deleted_is_not_suspended() {
    let going = Some(subscription(SubscriptionStatus::PendingDelete));
    let err = suspendable(&going).unwrap_err();
    assert_eq!(err.code, ErrorCode::Conflict);
}

#[test]
fn every_site_is_tried_and_the_first_failure_is_told() {
    let sites = vec![
        site_of("a.example", SiteStatus::Active),
        site_of("b.example", SiteStatus::Active),
        site_of("c.example", SiteStatus::Active),
    ];
    let (tried, result) = switch_all(&sites, &["a.example", "b.example"]);
    assert_eq!(tried.len(), 3);
    let err = result.unwrap_err();
    assert_eq!(err.code, ErrorCode::ConfigDrift);
    assert_eq!(
        err.detail,
        "the subscription's status is set, but switching the vhost for `a.example` failed \
         (nginx -t said no); re-run to retry the remaining sites"
    );
    assert_eq!(switch_all(&sites, &[]).1.unwrap(), 3);
}

#[test]
fn a_subscription_is_listed_with_its_sites() {
    let sites = vec![
        site_of("a.example", SiteStatus::Active),
        site_of("b.example", SiteStatus::Failed),
    ];
    let sub = subscription(SubscriptionStatus::Active);
    assert_eq!(
        site_scope(&sub),
        TenantScope::Subscription { subscription_id: 11, customer_id: 3 }
    );
    let view = ListSubscriptions::view(sub, Some("client".to_string()), &sites);
    assert_eq!((view.sites, view.active_sites), (2, 1));
    assert_eq!(view.customer_username.as_deref(), Some("client"));
}
