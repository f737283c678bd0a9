use ferrum_ops::error::{ErrorCode, FerrumError};
use ferrum_ops::model::{
    AuthContext, CmdOutput, Family, Permission, PhpVersion, Role, TenantScope, UnitState,
    UnitStatus,
};
use ferrum_ops::registry::catalogue::SystemOp;
use ferrum_ops::registry::{ActorFacts, Execution, OpRegistry};
use ferrum_ops::services::{
    Check, DbRevisions, FpmValidator, StoredRevision, UnitReloader, UnitVerify,
};
use ferrum_ops::svc::{Action, ActionInput, ManagedUnit, Status, StatusInput, SvcAction};

/// What the two operations of the system are declared as.
const SYSTEM: SystemOp =
    SystemOp { permission: Permission::ServerRead, execution: Execution::Immediate };

fn status(state: UnitState) -> UnitStatus {
    UnitStatus { state, memory_bytes: None }
}

const V83: PhpVersion = PhpVersion { major: 8, minor: 3 };

#[test]
fn status_resolves_the_unit_name_for_this_family() {
    let input = StatusInput { unit: ManagedUnit::PhpFpm { version: V83 } };
    let out = Status::view(&input, Family::Debian, status(UnitState::NotFound));
    assert_eq!(out.unit, "php8.3-fpm.service");
    assert_eq!(out.display_name, "PHP 8.3 FPM");
    assert_eq!(out.status.state, UnitState::NotFound);
}

#[test]
fn an_action_changes_state_and_reports_it_back() {
    let input = ActionInput { unit: ManagedUnit::Nginx, action: SvcAction::Start };
    assert!(Action::check(&input).is_ok());
    let out = Action::finish(&input, Family::Debian, status(UnitState::Active));
    assert_eq!(out.unit, "nginx.service");
    assert_eq!(out.action, "start");
    assert_eq!(out.status.state, UnitState::Active);
}

#[test]
fn critical_services_cannot_be_stopped_from_the_panel() {
    for unit in [ManagedUnit::Sshd, ManagedUnit::FerrumAgentd] {
        let err = Action::check(&ActionInput { unit, action: SvcAction::Stop }).unwrap_err();
        assert_eq!(err.code, ErrorCode::Conflict, "{unit:?} should refuse a stop");
        assert_eq!(err.field.as_deref(), Some("unit"));
    }
    let restart = ActionInput { unit: ManagedUnit::Sshd, action: SvcAction::Restart };
    assert!(Action::check(&restart).is_ok());
    let nginx = ActionInput { unit: ManagedUnit::Nginx, action: SvcAction::Stop };
    assert!(Action::check(&nginx).is_ok());
}

#[test]
fn arbitrary_unit_names_cannot_be_expressed() {
    let known = vec![PhpVersion { major: 8, minor: 2 }, PhpVersion { major: 8, minor: 3 }];
    let input = |unit, version, action| {
        let unit = ManagedUnit::named(unit, version, &known)?;
        Ok::<_, FerrumError>(ActionInput { unit, action: SvcAction::named(action)? })
    };
    let fine = input("php_fpm", Some("8.3"), "restart").unwrap();
    assert_eq!(fine.unit, ManagedUnit::PhpFpm { version: known[1] });
    assert_eq!(fine.action, SvcAction::Restart);
    assert_eq!(input("sshd", None, "stop").unwrap().unit, ManagedUnit::Sshd);
    for (unit, version, action) in [
        ("evil.service", None, "start"),
        ("nginx.service", None, "start"),
        ("php_fpm", Some("9.9"), "start"),
        ("nginx", None, "rm -rf /"),
        ("php_fpm", None, "start"),
    ] {
        let err = input(unit, version, action).unwrap_err();
        assert_eq!(err.code, ErrorCode::InvalidInput, "{unit} {action} should not parse");
    }
}

#[test]
fn a_php_version_is_one_of_those_there_are() {
    let known = vec![PhpVersion { major: 8, minor: 3 }, PhpVersion { major: 8, minor: 10 }];
    assert_eq!(PhpVersion::vetted("8.3", &known).unwrap(), known[0]);
    assert_eq!(PhpVersion::vetted("8.10", &known).unwrap(), known[1]);
    for bad in ["9.9", "+8.3", "8.03", "8", "", "8.3 ", "8.1"] {
        let err = PhpVersion::vetted(bad, &known).unwrap_err();
        assert_eq!(err.code, ErrorCode::InvalidInput);
        assert_eq!(err.detail, format!("`{bad}` is not a PHP version the panel manages"));
    }
    assert!(PhpVersion::vetted("8.3", &Vec::new()).is_err());
}

#[test]
fn reading_status_needs_less_than_changing_it() {
    let permissions = vec![Permission::SiteRead];
    let mut claimed = AuthContext {
        actor_user_id: 3,
        acting_role: Role::Customer,
        tenant_scope: TenantScope::Customer { customer_id: 3 },
        permissions: permissions.clone(),
        impersonator_id: None,
        request_id: "req-test".to_string(),
    };
    let actor = Some(ActorFacts { can_log_in: true, role: Role::Customer, permissions });
    let reg = OpRegistry::new(SYSTEM, SYSTEM);
    assert_eq!(
        reg.dispatch("svc.status", &claimed, &actor).unwrap_err().code,
        ErrorCode::PermissionDenied
    );
    let reader = vec![Permission::ServerRead];
    claimed.permissions = reader.clone();
    let actor = Some(ActorFacts { can_log_in: true, role: Role::Customer, permissions: reader });
    assert!(reg.dispatch("svc.status", &claimed, &actor).is_ok());
    assert_eq!(
        reg.dispatch("svc.action", &claimed, &actor).unwrap_err().code,
        ErrorCode::PermissionDenied
    );
}

#[test]
fn units_have_the_names_of_their_family() {
    assert_eq!(ManagedUnit::Sshd.unit_name(Family::Debian), "ssh.service");
    assert_eq!(ManagedUnit::Sshd.unit_name(Family::Rhel), "sshd.service");
    let fpm = ManagedUnit::PhpFpm { version: V83 };
    assert_eq!(fpm.unit_name(Family::Rhel), "php83-php-fpm.service");
    assert!(ManagedUnit::Sshd.is_critical());
    assert!(!ManagedUnit::MariaDb.is_critical());
}

// -- checking and activating -------------------------------------------------

#[test]
fn reloading_a_service_that_is_not_running_is_not_a_failure() {
    assert_eq!(UnitReloader::nginx().decide(&status(UnitState::NotFound)), None);
    assert_eq!(UnitReloader::nginx().decide(&status(UnitState::Inactive)), None);
}

#[test]
fn reloading_a_running_service_issues_a_reload_not_a_restart() {
    let running = status(UnitState::Active);
    assert_eq!(UnitReloader::nginx().decide(&running), Some(SvcAction::Reload));
    assert_eq!(UnitReloader::fpm(V83).decide(&running), Some(SvcAction::Reload));
    assert_eq!(UnitReloader::mariadb().decide(&running), Some(SvcAction::Restart));
    assert_eq!(UnitReloader::nginx().unit.unit_name(Family::Debian), "nginx.service");
}

#[test]
fn the_fpm_validator_uses_the_right_binary_per_family() {
    let validator = FpmValidator::new(Family::Debian, V83);
    assert_eq!(validator.binary, "php-fpm8.3");
    let validator = FpmValidator::new(Family::Rhel, V83);
    assert!(
        validator.binary.contains("/opt/remi/php83/"),
        "{}",
        validator.binary
    );
    let check = Check::Fpm { family: Family::Debian, version: V83 };
    assert_eq!(check.argv(), vec!["php-fpm8.3", "-t"]);
}

#[test]
fn revisions_round_trip_through_the_database() {
    let path = "/etc/nginx/ferrum.d/site-a.conf".to_string();
    let stored = DbRevisions::revision(7, path.clone(), "abc".into(), Some("server {}".into()));
    assert_eq!(
        stored,
        StoredRevision { id: 7, path, sha256: "abc".into(), content: "server {}".into() }
    );
    let bare = DbRevisions::revision(8, "/x".into(), "abc".into(), None);
    assert_eq!(bare.content, "");
}

fn out(code: i32) -> CmdOutput {
    CmdOutput { status: code, stdout: String::new(), failure: "line 3 is wrong".into() }
}

#[test]
fn a_check_speaks_in_the_tools_own_words() {
    assert_eq!(Check::Nginx.argv(), vec!["nginx", "-t"]);
    assert_eq!(Check::Nginx.verdict(Ok(out(0))), Ok(()));
    assert_eq!(Check::Nginx.verdict(Ok(out(1))), Err("line 3 is wrong".to_string()));
    assert_eq!(Check::Sshd.verdict(Err("gone".to_string())), Err("gone".to_string()));
    // A MariaDB that cannot be run is not installed yet.
    assert_eq!(Check::MariaDb.verdict(Err("gone".to_string())), Ok(()));
}

#[test]
fn a_unit_is_checked_where_it_can_be() {
    let unit = UnitVerify { path: "/etc/systemd/system/x.service".to_string() };
    assert_eq!(unit.command(false), None);
    assert_eq!(
        unit.command(true).unwrap(),
        vec!["systemd-analyze", "verify", "--", "/etc/systemd/system/x.service"]
    );
    assert_eq!(UnitVerify::verdict(None), Ok(()));
    assert_eq!(UnitVerify::verdict(Some(Ok(out(0)))), Ok(()));
    assert_eq!(UnitVerify::verdict(Some(Ok(out(1)))), Err("line 3 is wrong".to_string()));
    assert_eq!(UnitVerify::verdict(Some(Err("x".to_string()))), Err("x".to_string()));
}
