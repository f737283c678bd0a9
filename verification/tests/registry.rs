use ferrum_ops::error::ErrorCode;
use ferrum_ops::model::{AuthContext, Permission, Role, TenantScope};
use ferrum_ops::registry::catalogue::{Op, SystemOp};
use ferrum_ops::registry::{
    invalid_input, unwritable_output, verify_auth, ActorFacts, Execution, OpEntry, OpRegistry,
};

fn of_role(role: Role) -> Vec<Permission> {
    match role {
        Role::Admin => vec![
            Permission::NodeApps,
            Permission::PlanManage,
            Permission::ServerManage,
            Permission::ServerRead,
            Permission::SiteManage,
            Permission::SiteRead,
            Permission::SshAccess,
            Permission::StackManage,
            Permission::TerminalAccess,
            Permission::UserManage,
        ],
        Role::Reseller => vec![Permission::SiteManage, Permission::SiteRead],
        Role::Customer => vec![Permission::SiteRead],
    }
}

fn auth_for(id: i64, role: Role) -> AuthContext {
    let tenant_scope = match role {
        Role::Admin => TenantScope::Global,
        Role::Reseller => TenantScope::Reseller { reseller_id: id },
        Role::Customer => TenantScope::Customer { customer_id: id },
    };
    AuthContext {
        actor_user_id: id,
        acting_role: role,
        tenant_scope,
        permissions: of_role(role),
        impersonator_id: None,
        request_id: "req-test".to_string(),
    }
}

fn account(role: Role) -> Option<ActorFacts> {
    Some(ActorFacts { can_log_in: true, role, permissions: of_role(role) })
}

/// The operations of the system, as those who bring them might declare them.
const PING: SystemOp =
    SystemOp { permission: Permission::SiteRead, execution: Execution::Immediate };
const SNAPSHOT: SystemOp =
    SystemOp { permission: Permission::ServerRead, execution: Execution::Immediate };

fn registry() -> OpRegistry {
    OpRegistry::new(PING, SNAPSHOT)
}

#[test]
fn unknown_operations_are_refused_by_name() {
    let err = registry()
        .dispatch("site.delete.everything", &auth_for(1, Role::Admin), &account(Role::Admin))
        .unwrap_err();
    assert_eq!(err.code, ErrorCode::UnknownOperation);
    assert_eq!(err.detail, "`site.delete.everything` is not a registered operation");
}

#[test]
fn every_registered_name_is_dotted_and_lowercase() {
    let reg = registry();
    assert!(!reg.is_empty());
    for name in reg.names() {
        assert!(name.contains('.'), "`{name}` should be namespaced");
        assert_eq!(
            name,
            name.to_ascii_lowercase(),
            "`{name}` should be lowercase"
        );
        assert!(
            name.bytes().all(|b| b.is_ascii_lowercase()
                || b.is_ascii_digit()
                || b == b'.'
                || b == b'_'),
            "`{name}` has unexpected characters"
        );
    }
}

#[test]
fn a_customer_cannot_reach_an_admin_operation() {
    let err = registry()
        .dispatch("svc.action", &auth_for(3, Role::Customer), &account(Role::Customer))
        .unwrap_err();
    assert_eq!(err.code, ErrorCode::PermissionDenied);
}

#[test]
fn a_forged_permission_set_gains_nothing() {
    let mut forged = auth_for(3, Role::Customer);
    forged.permissions.push(Permission::ServerManage);
    forged.permissions.push(Permission::StackManage);
    let err = registry()
        .dispatch("svc.action", &forged, &account(Role::Customer))
        .unwrap_err();
    assert_eq!(
        err.code,
        ErrorCode::PermissionDenied,
        "the agent must re-derive rights from the database, not trust the frame"
    );
}

#[test]
fn a_forged_role_is_rejected_outright() {
    let forged = auth_for(3, Role::Admin);
    let err = registry().dispatch("sys.ping", &forged, &account(Role::Customer)).unwrap_err();
    assert_eq!(err.code, ErrorCode::PermissionDenied);
    assert!(err.detail.contains("role"));
}

#[test]
fn a_suspended_account_cannot_run_operations() {
    let mut actor = account(Role::Admin).unwrap();
    actor.can_log_in = false;
    let err = registry()
        .dispatch("sys.ping", &auth_for(1, Role::Admin), &Some(actor))
        .unwrap_err();
    assert_eq!(err.code, ErrorCode::AccountSuspended);
}

#[test]
fn a_deleted_account_cannot_run_operations() {
    let err = registry().dispatch("sys.ping", &auth_for(1, Role::Admin), &None).unwrap_err();
    assert_eq!(err.code, ErrorCode::PermissionDenied);
}

#[test]
fn permission_is_checked_before_input_is_parsed() {
    // What is refused here has not been given its input yet.
    let err = registry()
        .dispatch("svc.action", &auth_for(3, Role::Customer), &account(Role::Customer))
        .unwrap_err();
    assert_eq!(err.code, ErrorCode::PermissionDenied);
}

#[test]
fn malformed_input_for_a_permitted_operation_is_a_validation_error() {
    let reg = registry();
    let auth = auth_for(1, Role::Admin);
    assert!(reg.dispatch("svc.status", &auth, &account(Role::Admin)).is_ok());
    let err = invalid_input("svc.status", "unknown variant");
    assert_eq!(err.code, ErrorCode::InvalidInput);
    assert_eq!(err.detail, "invalid input for `svc.status`: unknown variant");
    assert_eq!(err.field.as_deref(), Some("input"));
    assert_eq!(unwritable_output("a.b", "x").code, ErrorCode::Internal);
}

#[test]
fn what_a_caller_claims_can_only_lose_rights() {
    let mut claimed = auth_for(1, Role::Admin);
    claimed.permissions = vec![Permission::ServerRead, Permission::SiteRead];
    claimed.impersonator_id = Some(9);
    let mut actor = account(Role::Admin).unwrap();
    actor.permissions = vec![Permission::SiteRead, Permission::UserManage];
    let verified = verify_auth(&claimed, &Some(actor)).unwrap();
    assert_eq!(verified.permissions, vec![Permission::SiteRead]);
    assert_eq!(verified.impersonator_id, Some(9));
    assert_eq!(verified.request_id, "req-test");
    assert_eq!(verified.tenant_scope, TenantScope::Global);
}

#[test]
fn operations_are_listed_by_name_and_found_by_it() {
    let reg = registry();
    let names = reg.names();
    let mut sorted = names.clone();
    sorted.sort();
    sorted.dedup();
    assert_eq!(names, sorted);
    assert_eq!(names.len(), reg.len());
    assert_eq!(reg.len(), Op::all().len() + 2);
    assert_eq!(reg.get("sys.ping").unwrap().permission, Permission::SiteRead);
    assert_eq!(reg.get("metrics.snapshot").unwrap().permission, Permission::ServerRead);
    assert!(reg.get("sys.pong").is_none());
    for op in Op::all() {
        let entry = reg.get(op.name()).unwrap();
        assert_eq!(entry.permission, op.permission());
        assert_eq!(entry.execution, op.execution());
    }
    assert!(Op::SiteCreate.execution().is_task());
    assert!(!Op::SiteList.execution().is_task());
    assert_eq!(Op::PluginInstall.name(), "plugin.install");
}

#[test]
fn an_operation_that_is_brought_later_is_found_too() {
    let mut reg = registry();
    let before = reg.len();
    reg.register(OpEntry {
        name: "dns.list".to_string(),
        permission: Permission::SiteRead,
        execution: Execution::Immediate,
    });
    assert_eq!(reg.len(), before + 1);
    let at = reg.names().iter().position(|n| n == "dns.list").unwrap();
    assert_eq!(reg.names()[at + 1], "metrics.snapshot");
}

#[test]
fn every_build_has_the_two_operations_of_the_system() {
    let (auth, actor) = (auth_for(1, Role::Admin), account(Role::Admin));
    assert!(registry().dispatch("sys.ping", &auth, &actor).is_ok());
    assert!(registry().dispatch("metrics.snapshot", &auth, &actor).is_ok());
    let (auth, actor) = (auth_for(3, Role::Customer), account(Role::Customer));
    assert!(registry().dispatch("sys.ping", &auth, &actor).is_ok());
    let err = registry().dispatch("metrics.snapshot", &auth, &actor).unwrap_err();
    assert_eq!(err.code, ErrorCode::PermissionDenied);
}
