use ferrum_ops::error::{ErrorCode, FerrumError};
use ferrum_ops::model::{
    AuthContext, CmdOutput, Family, LinuxUser, Permission, Role, Subscription, SubscriptionStatus,
    TenantScope, UnitState, UnitStatus,
};
use ferrum_ops::procedure::Next;
use ferrum_ops::registry::catalogue::SystemOp;
use ferrum_ops::registry::{ActorFacts, Execution, OpRegistry};
use ferrum_ops::services::{Check, UnitReloader};
use ferrum_ops::sftp::{
    apply_step, gpasswd_remove_argv, group_ready, groupadd_argv, hash_with_salt, home_step,
    is_group_member, sftp_password_hash, sites_group, sshd_dropin, subdir_steps,
    usermod_group_argv, usermod_password_argv, verified_home, Disable, Enable, EnableFacts,
    EnableInput, EnableStep, Found, HomeFacts, SFTP_GROUP,
};
use ferrum_ops::svc::SvcAction;
use sha_crypt::{PasswordVerifier, ShaCrypt};

/// What the two operations of the system are declared as.
const SYSTEM: SystemOp =
    SystemOp { permission: Permission::ServerRead, execution: Execution::Immediate };

fn user() -> LinuxUser {
    LinuxUser::parse("ft_abc12345").unwrap()
}

fn subscription(home: &str, plan_id: Option<i64>) -> Subscription {
    Subscription {
        id: 1,
        customer_id: 1,
        plan_id,
        linux_user: "ft_abc12345".into(),
        home_dir: home.into(),
        status: SubscriptionStatus::Active,
        suspended_reason: None,
    }
}

fn facts(sites: Found, trash: Found, ssh: Found) -> HomeFacts {
    HomeFacts { sites, trash, ssh }
}

// -- the drop-in -------------------------------------------------------------

#[test]
fn the_match_block_renders_exactly_as_specified() {
    assert_eq!(
        sshd_dropin(),
        "Match Group ferrum-sftp\n\
         \x20   ChrootDirectory %h\n\
         \x20   ForceCommand internal-sftp\n\
         \x20   AllowTcpForwarding no\n\
         \x20   X11Forwarding no\n"
    );
}

#[test]
fn the_dropin_never_redeclares_the_sftp_subsystem() {
    let rendered = sshd_dropin();
    assert!(
        !rendered.to_ascii_lowercase().contains("subsystem"),
        "the drop-in must not redeclare the sftp subsystem:\n{rendered}"
    );
}

#[test]
fn nothing_follows_the_match_block() {
    let rendered = sshd_dropin();
    let match_line = rendered
        .lines()
        .position(|l| l.starts_with("Match "))
        .expect("a Match line");
    for line in rendered.lines().skip(match_line + 1) {
        assert!(
            line.starts_with("    "),
            "`{line}` after the Match block would apply to matched \
             connections only — or leak"
        );
    }
}

// -- argv snapshots ----------------------------------------------------------

#[test]
fn group_management_argv_is_exactly_what_the_tools_expect() {
    assert_eq!(groupadd_argv(), vec!["--system", "--", "ferrum-sftp"]);
    assert_eq!(
        usermod_group_argv(&user()),
        vec!["--append", "--groups", "ferrum-sftp", "--", "ft_abc12345"],
        "--append is what makes this a grant, not a replacement of the \
         tenant's supplementary groups"
    );
    assert_eq!(
        gpasswd_remove_argv(&user()),
        vec!["--delete", "ft_abc12345", "--", "ferrum-sftp"]
    );
}

#[test]
fn the_password_argv_carries_a_hash_never_the_cleartext() {
    let argv = usermod_password_argv(&user(), "$6$salt$hash");
    assert_eq!(
        argv,
        vec!["--password", "$6$salt$hash", "--", "ft_abc12345"]
    );
    assert!(
        argv.iter().all(|a| a != "correct horse battery staple"),
        "cleartext must never appear in argv"
    );
}

// -- passwords ---------------------------------------------------------------

#[test]
fn the_hash_is_sha512_crypt_that_crypt3_can_verify() {
    let hash = sftp_password_hash("correct horse battery staple", Ok(())).unwrap();
    assert!(hash.starts_with("$6$"), "not sha512-crypt: {hash}");

    let parsed: sha_crypt::PasswordHash = hash.parse().unwrap();
    ShaCrypt::default()
        .verify_password(b"correct horse battery staple", &parsed)
        .expect("the hash must verify against its own password");
    assert!(
        ShaCrypt::default()
            .verify_password(b"wrong password entirely", &parsed)
            .is_err(),
        "a wrong password must not verify"
    );
}

#[test]
fn the_salt_never_exceeds_what_libcrypt_will_read_back() {
    let hash = sftp_password_hash("correct horse battery staple", Ok(())).unwrap();
    let fields: Vec<&str> = hash.split('$').collect();
    let salt = fields[fields.len() - 2];
    assert!(
        salt.len() <= 16,
        "salt `{salt}` is {} chars; libcrypt reads at most 16",
        salt.len()
    );
}

#[test]
fn every_hash_is_freshly_salted() {
    let a = sftp_password_hash("correct horse battery staple", Ok(())).unwrap();
    let b = sftp_password_hash("correct horse battery staple", Ok(())).unwrap();
    assert_ne!(a, b, "equal hashes mean a fixed salt");
}

#[test]
fn a_hash_is_a_function_of_the_password_and_the_salt() {
    let salt = vec![7u8; 12];
    let a = hash_with_salt("correct horse", &salt).unwrap();
    assert_eq!(a, hash_with_salt("correct horse", &salt).unwrap());
    assert_ne!(a, hash_with_salt("incorrect horse", &salt).unwrap());
    assert_ne!(a, hash_with_salt("correct horse", &vec![8u8; 12]).unwrap());
}

#[test]
fn weak_sftp_passwords_are_rejected_by_the_panel_policy() {
    let weak = FerrumError::new(ErrorCode::PasswordTooWeak, "too short");
    let err = sftp_password_hash("short", Err(weak)).unwrap_err();
    assert_eq!(err.code, ErrorCode::PasswordTooWeak);
}

#[test]
fn the_cleartext_never_appears_in_debug_output() {
    let input = EnableInput {
        subscription_id: 7,
        password: Some("correct horse battery staple".into()),
    };
    let debug = input.describe();
    assert!(!debug.contains("correct horse"), "leaked: {debug}");
    assert!(debug.contains("<redacted>"));
    let none = EnableInput { subscription_id: 7, password: None };
    assert_eq!(none.describe(), "EnableInput { subscription_id: 7, password: None }");
}

// -- chroot ownership reconciliation -----------------------------------------

#[test]
fn the_home_is_surrendered_to_root_with_world_traverse() {
    let step = home_step("/home/ft_abc12345");
    assert_eq!(step.owner, "root:root", "sshd refuses a non-root chroot");
    assert_eq!(
        step.mode, 0o755,
        "world-execute is what keeps nginx and the tenant's own FPM pool \
         able to traverse into sites/"
    );
    assert!(!step.create);
}

#[test]
fn tenant_keeps_ownership_of_sites_trash_and_ssh_inside_the_chroot() {
    let there = facts(Found::Directory, Found::Directory, Found::Directory);
    let steps = subdir_steps("/home/ft_abc12345", &user(), "nginx", &there).unwrap();
    assert_eq!(steps.len(), 3);

    let sites = &steps[0];
    assert_eq!(sites.path, "/home/ft_abc12345/sites");
    assert_eq!(
        sites.owner, "ft_abc12345:nginx",
        "sites belongs to the tenant and the web server — it is the \
         privacy boundary"
    );
    assert_eq!(sites.mode, 0o750);

    let trash = &steps[1];
    assert_eq!(trash.path, "/home/ft_abc12345/.trash");
    assert_eq!(trash.owner, "ft_abc12345:ft_abc12345");
    assert_eq!(trash.mode, 0o700, "nginx has no business in the trash");

    let ssh = &steps[2];
    assert_eq!(ssh.path, "/home/ft_abc12345/.ssh");
    assert_eq!(ssh.owner, "ft_abc12345:ft_abc12345");
    assert_eq!(
        ssh.mode, 0o700,
        "sshd reads authorized_keys only out of a 0700 directory"
    );
}

#[test]
fn a_missing_sites_directory_is_created_so_the_login_has_somewhere_writable() {
    let empty = facts(Found::Missing, Found::Missing, Found::Missing);
    let steps = subdir_steps("/home/ft_abc12345", &user(), "", &empty).unwrap();
    assert_eq!(
        steps.len(),
        2,
        "sites/ and .ssh are created; no .trash step when .trash is absent"
    );
    assert!(steps.iter().all(|s| s.create));
    assert_eq!(steps[0].path, "/home/ft_abc12345/sites");
    assert_eq!(
        steps[1].path,
        "/home/ft_abc12345/.ssh",
        "ssh.keys.* writes as the tenant, so the tenant must own somewhere to write it"
    );
    assert_eq!(
        steps[0].owner, "ft_abc12345:ft_abc12345",
        "without an nginx group the tenant's own group is the fallback"
    );
}

#[test]
fn a_symlinked_subdirectory_is_refused_not_chowned() {
    let planted = facts(Found::Symlink, Found::Missing, Found::Missing);
    let err = subdir_steps("/home/ft_abc12345", &user(), "nginx", &planted).unwrap_err();
    assert_eq!(err.code, ErrorCode::InvalidPath);
    assert!(err.detail.contains("symlink"), "{}", err.detail);
}

#[test]
fn a_plain_file_where_a_directory_should_be_is_refused() {
    let file = facts(Found::Missing, Found::Other, Found::Missing);
    let err = subdir_steps("/home/ft_abc12345", &user(), "", &file).unwrap_err();
    assert_eq!(err.code, ErrorCode::InvalidPath);
    let blind = facts(Found::Missing, Found::Missing, Found::Unknown("denied".into()));
    let err = subdir_steps("/home/ft_abc12345", &user(), "", &blind).unwrap_err();
    assert_eq!(err.code, ErrorCode::Internal);
    assert_eq!(err.detail, "could not inspect /home/ft_abc12345/.ssh: denied");
}

#[test]
fn unknown_entries_under_the_home_are_left_exactly_alone() {
    let some = facts(Found::Directory, Found::Missing, Found::Missing);
    let steps = subdir_steps("/home/ft_abc12345", &user(), "nginx", &some).unwrap();
    let touched: Vec<&str> = steps.iter().map(|s| s.path.as_str()).collect();
    assert!(!touched.contains(&"/home/ft_abc12345/my-backups"));
    assert!(!touched.contains(&"/home/ft_abc12345/.config"));
    assert!(!touched.contains(&"/home/ft_abc12345/.bashrc"));
}

#[test]
fn a_step_is_carried_out_without_following_a_link() {
    let made = facts(Found::Missing, Found::Missing, Found::Directory);
    let steps = subdir_steps("/h", &user(), "", &made).unwrap();
    assert_eq!(
        apply_step(&steps[0]),
        vec![
            vec!["mkdir", "-p", "--", "/h/sites"],
            vec!["chown", "-h", "ft_abc12345:ft_abc12345", "--", "/h/sites"],
            vec!["chmod", "0750", "--", "/h/sites"],
        ]
    );
    assert_eq!(
        apply_step(&home_step("/h")),
        vec![
            vec!["chown", "-h", "root:root", "--", "/h"],
            vec!["chmod", "0755", "--", "/h"],
        ]
    );
}

#[test]
fn a_corrupted_home_row_is_refused_before_any_chown() {
    let good = subscription("/home/ft_abc12345", None);
    assert_eq!(verified_home(&good, &user()).unwrap(), "/home/ft_abc12345");
    for evil in [
        "/",
        "/home",
        "/etc",
        "/home/ft_abc12345/../..",
        "/home/other",
    ] {
        let bad = subscription(evil, None);
        assert!(
            verified_home(&bad, &user()).is_err(),
            "`{evil}` must be refused"
        );
    }
    // Another spelling of the same path is the same path.
    let spelled = subscription("/home//ft_abc12345/", None);
    assert_eq!(verified_home(&spelled, &user()).unwrap(), "/home/ft_abc12345");
}

// -- reloading ---------------------------------------------------------------

#[test]
fn the_reloader_reloads_the_right_unit_per_family() {
    let running = UnitStatus { state: UnitState::Active, memory_bytes: None };
    for (family, unit) in [(Family::Debian, "ssh.service"), (Family::Rhel, "sshd.service")] {
        let reloader = UnitReloader::sshd();
        assert_eq!(reloader.unit.unit_name(family), unit);
        assert_eq!(reloader.decide(&running), Some(SvcAction::Reload));
    }
    assert_eq!(Check::Sshd.argv(), vec!["sshd", "-t"]);
}

#[test]
fn a_stopped_sshd_is_not_a_reload_failure() {
    for state in [UnitState::Inactive, UnitState::NotFound, UnitState::Failed] {
        let status = UnitStatus { state, memory_bytes: None };
        assert_eq!(UnitReloader::sshd().decide(&status), None);
    }
}

// -- commands' answers -------------------------------------------------------

fn out(status: i32, stdout: &str) -> CmdOutput {
    CmdOutput { status, stdout: stdout.into(), failure: "boom".into() }
}

#[test]
fn a_group_that_another_enable_made_meanwhile_is_there() {
    assert!(group_ready(&out(0, "")).is_ok());
    assert!(group_ready(&out(9, "")).is_ok());
    let err = group_ready(&out(1, "")).unwrap_err();
    assert_eq!(err.code, ErrorCode::CommandFailed);
    assert_eq!(err.detail, "groupadd ferrum-sftp failed: boom");
}

#[test]
fn membership_is_read_as_a_whole_word() {
    assert!(is_group_member(&Some(out(0, "ft_abc12345 ferrum-sftp\n"))));
    assert!(!is_group_member(&Some(out(0, "ft_abc12345 ferrum-sftp-x\n"))));
    assert!(!is_group_member(&Some(out(1, "ferrum-sftp"))));
    assert!(!is_group_member(&None));
    assert_eq!(sites_group("nginx", true), "nginx");
    assert_eq!(sites_group("nginx", false), "");
}

// -- the operations ----------------------------------------------------------

fn asking(password: Option<&str>) -> EnableInput {
    EnableInput { subscription_id: 1, password: password.map(|p| p.to_string()) }
}

fn known(subscription: Option<Subscription>, account_exists: bool) -> EnableFacts {
    EnableFacts { subscription, strength: Ok(()), account_exists }
}

#[test]
fn enabling_sftp_for_a_missing_subscription_is_not_found() {
    let err = Enable::check(&asking(None), known(None, true)).unwrap_err();
    assert_eq!(err.code, ErrorCode::NotFound);
}

fn rights(role: Role, permissions: Vec<Permission>) -> (AuthContext, Option<ActorFacts>) {
    let claimed = AuthContext {
        actor_user_id: 3,
        acting_role: role,
        tenant_scope: TenantScope::Customer { customer_id: 3 },
        permissions: permissions.clone(),
        impersonator_id: None,
        request_id: "req-test".to_string(),
    };
    (claimed, Some(ActorFacts { can_log_in: true, role, permissions }))
}

#[test]
fn a_customer_without_ssh_access_cannot_reach_either_op() {
    let (claimed, actor) = rights(Role::Customer, vec![Permission::SiteRead]);
    for op in ["sftp.enable", "sftp.disable"] {
        let err = OpRegistry::new(SYSTEM, SYSTEM).dispatch(op, &claimed, &actor).unwrap_err();
        assert_eq!(
            err.code,
            ErrorCode::PermissionDenied,
            "{op} must require Permission::SshAccess, which the customer \
             role does not carry by default"
        );
    }
}

#[test]
fn a_planned_subscription_is_refused_until_the_plans_module_is_wired() {
    let sub = subscription("/home/ft_abc12345", Some(42));
    let err = Enable::check(&asking(None), known(Some(sub), true)).unwrap_err();
    assert_eq!(err.code, ErrorCode::PlanFeatureDisabled);
    assert!(err.detail.contains("plan 42"), "{}", err.detail);
}

#[test]
fn enabling_before_the_account_is_provisioned_is_a_clean_conflict() {
    let sub = subscription("/home/ft_abc12345", None);
    let err = Enable::check(&asking(None), known(Some(sub), false)).unwrap_err();
    assert_eq!(err.code, ErrorCode::Conflict);
    assert!(err.detail.contains("provisioned"), "{}", err.detail);
}

#[test]
fn enabling_asks_for_everything_before_it_touches_anything() {
    let sub = || subscription("/home/ft_abc12345", None);
    let weak = EnableFacts {
        subscription: Some(sub()),
        strength: Err(FerrumError::new(ErrorCode::PasswordTooWeak, "too short")),
        account_exists: true,
    };
    let err = Enable::check(&asking(Some("short")), weak).unwrap_err();
    assert_eq!(err.code, ErrorCode::PasswordTooWeak);
    let mut elsewhere = sub();
    elsewhere.home_dir = "/etc".into();
    let err = Enable::check(&asking(None), known(Some(elsewhere), true)).unwrap_err();
    assert_eq!(err.code, ErrorCode::Internal);
    let mut unnamed = sub();
    unnamed.linux_user = "root; rm".into();
    let err = Enable::check(&asking(None), known(Some(unnamed), true)).unwrap_err();
    assert_eq!(err.code, ErrorCode::InvalidInput);
    let (user, home) = Enable::check(&asking(None), known(Some(sub()), true)).unwrap();
    assert_eq!(user.as_str(), "ft_abc12345");
    assert_eq!(home, "/home/ft_abc12345");
    let done = Enable::finish(&user, true, false);
    assert_eq!(done.group, SFTP_GROUP);
    assert!(done.config_changed && !done.password_set);
}

#[test]
fn nobody_joins_the_group_before_the_chroot_is_valid() {
    for broken in [
        EnableStep::EnsureGroup,
        EnableStep::SurrenderHome,
        EnableStep::FixIslands,
        EnableStep::RenderDropin,
    ] {
        let mut course = Enable::course(true);
        let mut done = Vec::new();
        while let Next::Perform(step) = course.next() {
            course.report(step != broken);
            done.push(step);
        }
        assert!(!done.contains(&EnableStep::JoinGroup), "{broken:?}");
    }
    let mut course = Enable::course(true);
    let mut done = Vec::new();
    while let Next::Perform(step) = course.next() {
        course.report(true);
        done.push(step);
    }
    assert_eq!(done[4], EnableStep::JoinGroup);
    assert_eq!(done[5], EnableStep::SetPassword);
    assert_eq!(done.len(), 6);
}

#[test]
fn disable_is_a_noop_for_a_non_member_and_leaves_files_untouched() {
    let sub = subscription("/home/ft_abc12345", None);
    let user = Disable::check(&Some(sub)).unwrap();
    assert_eq!(Disable::command(&user, is_group_member(&None)), None);
    assert!(!Disable::finish(&user, false).removed);
    assert_eq!(Disable::command(&user, true).unwrap(), gpasswd_remove_argv(&user));
}

#[test]
fn a_permission_override_cannot_grant_ssh_access_to_a_customer() {
    let (mut forged, actor) = rights(Role::Customer, vec![Permission::SiteRead]);
    forged.permissions.push(Permission::SshAccess);
    let err = OpRegistry::new(SYSTEM, SYSTEM).dispatch("sftp.disable", &forged, &actor).unwrap_err();
    assert_eq!(err.code, ErrorCode::PermissionDenied);
}

#[test]
fn a_tenant_cannot_toggle_sftp_on_someone_elses_subscription() {
    // A subscription outside the caller's scope is one that is not found.
    let err = Disable::check(&None).unwrap_err();
    assert_eq!(err.code, ErrorCode::NotFound, "{}", err.detail);
}
