use ferrum_ops::error::ErrorCode;
use ferrum_ops::model::{
    AppName, AuthContext, Domain, LinuxUser, Permission, Plan, Role, Subscription, SubscriptionStatus,
    TenantPath, TenantScope, UnitName, UnitState, UnitStatus,
};
use ferrum_ops::nodeapp::ops::{
    app_and_user, publish_proxy_site, AppStep, Create, CreateInput, Delete, List, LogsInput,
    Restart,
};
use ferrum_ops::nodeapp::{
    app_dir_argv, app_unit_name, app_unit_path, check_entry, environment_lines, locate_node,
    slice_dropin_path, unit_file_name, AppUnitContext, EnvVar, NodeApp, MAX_ENV_VALUE,
    MAX_ENV_VARS,
};
use ferrum_ops::procedure::Next;
use ferrum_ops::registry::catalogue::SystemOp;
use ferrum_ops::registry::{ActorFacts, Execution, OpRegistry};

/// What the two operations of the system are declared as.
const SYSTEM: SystemOp =
    SystemOp { permission: Permission::ServerRead, execution: Execution::Immediate };

fn domain(name: &str) -> Domain {
    Domain::vetted(Ok(name.to_string())).unwrap()
}

fn user() -> LinuxUser {
    LinuxUser::parse("ft_abc12345").unwrap()
}

fn name() -> AppName {
    AppName::parse("blog").unwrap()
}

fn app_row(port: i64, entry: &str) -> NodeApp {
    NodeApp {
        id: 1,
        subscription_id: 1,
        site_id: None,
        name: "blog".into(),
        entry: entry.into(),
        port,
        node_env: "production".into(),
        enabled: true,
    }
}

fn render(app: &NodeApp, env: Vec<String>, memory_mb: Option<u32>) -> String {
    AppUnitContext::new(app, &name(), &user(), "/usr/bin/node", env, memory_mb).render()
}

// -- unit rendering ----------------------------------------------------------

#[test]
fn the_unit_runs_as_the_tenant_from_the_app_directory() {
    let body = render(&app_row(20_000, "apps/blog/server.js"), vec![], None);
    assert!(body.contains("User=ft_abc12345\n"), "{body}");
    assert!(body.contains("Group=ft_abc12345\n"), "{body}");
    assert!(
        body.contains("WorkingDirectory=/home/ft_abc12345/apps/blog\n"),
        "{body}"
    );
    assert!(
        body.contains("ExecStart=/usr/bin/node /home/ft_abc12345/apps/blog/server.js\n"),
        "the entry is absolute: systemd does no path lookup — {body}"
    );
    assert!(body.contains("Restart=always\n"), "{body}");
    assert!(
        body.contains("WantedBy=multi-user.target\n"),
        "an app must come back after a reboot — {body}"
    );
    assert!(
        !body.contains("ProtectHome"),
        "the app lives in /home; hiding it would leave nothing to run — {body}"
    );
}

#[test]
fn the_crash_loop_ceiling_sits_in_the_unit_section_where_systemd_reads_it() {
    let body = render(&app_row(20_000, "apps/blog/server.js"), vec![], None);
    let unit_section = body.find("[Unit]").unwrap();
    let service_section = body.find("[Service]").unwrap();
    let limit = body.find("StartLimitIntervalSec=60\n").unwrap();
    let burst = body.find("StartLimitBurst=5\n").unwrap();
    assert!(
        unit_section < limit && limit < service_section,
        "StartLimitIntervalSec must be in [Unit]: {body}"
    );
    assert!(
        unit_section < burst && burst < service_section,
        "StartLimitBurst must be in [Unit]: {body}"
    );
}

#[test]
fn the_app_directory_is_created_and_handed_over_argv_by_argv() {
    let argv = app_dir_argv(&user(), &name());
    assert_eq!(
        argv,
        vec![
            vec!["mkdir", "-p", "--", "/home/ft_abc12345/apps"],
            vec!["chown", "ft_abc12345:ft_abc12345", "--", "/home/ft_abc12345/apps"],
            vec!["chmod", "0750", "--", "/home/ft_abc12345/apps"],
            vec!["mkdir", "-p", "--", "/home/ft_abc12345/apps/blog"],
            vec![
                "chown",
                "ft_abc12345:ft_abc12345",
                "--",
                "/home/ft_abc12345/apps/blog"
            ],
            vec!["chmod", "0750", "--", "/home/ft_abc12345/apps/blog"],
        ]
    );

    for cmd in &argv {
        for arg in cmd {
            assert!(
                !arg.contains(char::is_whitespace) && !arg.contains(['$', '`', ';', '&', '|']),
                "`{arg}` would only be safe because argv is not a shell"
            );
        }
    }
}

#[test]
fn the_panel_sets_port_and_node_env_before_anything_the_tenant_asked_for() {
    let body = render(
        &app_row(20_042, "apps/blog/server.js"),
        environment_lines(&[EnvVar {
            key: "API_URL".into(),
            value: "https://api.example.com".into(),
        }])
        .unwrap(),
        None,
    );
    let node_env = body.find("Environment=NODE_ENV=production").unwrap();
    let port = body.find("Environment=PORT=20042").unwrap();
    let api = body.find("Environment=API_URL=").unwrap();
    assert!(node_env < api && port < api, "{body}");
}

#[test]
fn a_value_with_spaces_is_quoted_as_one_assignment() {
    let lines = environment_lines(&[EnvVar {
        key: "GREETING".into(),
        value: "Ferrum Panel v1".into(),
    }])
    .unwrap();
    assert_eq!(lines, vec![r#""GREETING=Ferrum Panel v1""#]);

    let body = render(&app_row(20_000, "apps/blog/server.js"), lines, None);
    assert!(
        body.contains("Environment=\"GREETING=Ferrum Panel v1\"\n"),
        "{body}"
    );
}

#[test]
fn a_percent_is_escaped_because_systemd_expands_specifiers() {
    let lines = environment_lines(&[EnvVar {
        key: "THRESHOLD".into(),
        value: "100%h off".into(),
    }])
    .unwrap();
    assert_eq!(lines, vec![r#""THRESHOLD=100%%h off""#]);
}

#[test]
fn quotes_newlines_and_backslashes_are_refused_not_escaped() {
    for hostile in [
        "value\nExecStart=/usr/bin/touch /tmp/pwned",
        "value\rExecStartPost=/usr/bin/id",
        "quo\"te",
        "back\\slash",
        "tab\there",
        "nul\0byte",
    ] {
        let err = environment_lines(&[EnvVar {
            key: "X".into(),
            value: hostile.into(),
        }])
        .unwrap_err();
        assert_eq!(
            err.code,
            ErrorCode::InvalidInput,
            "expected `{hostile:?}` to be refused"
        );
        assert_eq!(err.field.as_deref(), Some("env"));
    }
}

#[test]
fn environment_names_must_be_environment_names() {
    for bad in ["", "1ABC", "A-B", "A B", "A=B", "A;B", &"A".repeat(65)] {
        assert!(
            environment_lines(&[EnvVar {
                key: bad.into(),
                value: "x".into()
            }])
            .is_err(),
            "expected `{bad}` to be refused"
        );
    }
    assert!(
        environment_lines(&[EnvVar {
            key: "_private9".into(),
            value: String::new()
        }])
        .is_ok()
    );
}

#[test]
fn the_panels_own_variables_cannot_be_overridden_or_duplicated() {
    for reserved in ["PORT", "NODE_ENV", "port", "node_env"] {
        let err = environment_lines(&[EnvVar {
            key: reserved.into(),
            value: "1".into(),
        }])
        .unwrap_err();
        assert!(err.detail.contains("set by the panel"), "{}", err.detail);
    }

    let err = environment_lines(&[
        EnvVar {
            key: "A".into(),
            value: "1".into(),
        },
        EnvVar {
            key: "A".into(),
            value: "2".into(),
        },
    ])
    .unwrap_err();
    assert!(err.detail.contains("twice"), "{}", err.detail);
}

#[test]
fn the_environment_is_bounded() {
    let many: Vec<EnvVar> = (0..MAX_ENV_VARS + 1)
        .map(|i| EnvVar {
            key: format!("VAR{i}"),
            value: "x".into(),
        })
        .collect();
    assert!(environment_lines(&many).is_err());

    assert!(
        environment_lines(&[EnvVar {
            key: "BIG".into(),
            value: "x".repeat(MAX_ENV_VALUE + 1),
        }])
        .is_err()
    );
}

#[test]
fn a_memory_cap_renders_and_is_clamped_off_the_floor() {
    let body = render(&app_row(20_000, "apps/blog/server.js"), vec![], Some(512));
    assert!(body.contains("MemoryMax=512M\n"), "{body}");

    let tiny = render(&app_row(20_000, "apps/blog/server.js"), vec![], Some(1));
    assert!(tiny.contains("MemoryMax=64M\n"), "{tiny}");

    let none = render(&app_row(20_000, "apps/blog/server.js"), vec![], None);
    assert!(!none.contains("MemoryMax"), "{none}");
}

#[test]
fn the_rendered_unit_is_a_snapshot() {
    let body = render(
        &app_row(20_007, "apps/blog/dist/server.js"),
        environment_lines(&[EnvVar {
            key: "DATABASE_URL".into(),
            value: "postgres://localhost/blog".into(),
        }])
        .unwrap(),
        Some(256),
    );
    assert_eq!(
        body,
        "[Unit]\n\
         Description=Ferrum Node app blog (ft_abc12345)\n\
         After=network-online.target\n\
         Wants=network-online.target\n\
         StartLimitIntervalSec=60\n\
         StartLimitBurst=5\n\
         \n\
         [Service]\n\
         Type=simple\n\
         User=ft_abc12345\n\
         Group=ft_abc12345\n\
         WorkingDirectory=/home/ft_abc12345/apps/blog\n\
         ExecStart=/usr/bin/node /home/ft_abc12345/apps/blog/dist/server.js\n\
         Environment=NODE_ENV=production\n\
         Environment=PORT=20007\n\
         Environment=DATABASE_URL=postgres://localhost/blog\n\
         Restart=always\n\
         RestartSec=2s\n\
         MemoryMax=256M\n\
         StandardOutput=journal\n\
         StandardError=journal\n\
         \n\
         NoNewPrivileges=yes\n\
         PrivateTmp=yes\n\
         ProtectSystem=full\n\
         \n\
         [Install]\n\
         WantedBy=multi-user.target\n"
    );
}

#[test]
fn an_entry_that_would_need_quoting_in_execstart_is_refused() {
    for bad in [
        "apps/my blog/server.js",
        "apps/blog/%h.js",
        "apps/blog/\"server\".js",
        "apps/blog/serv'er.js",
        "apps/blog/$(id).js",
        "apps/blog/`id`.js",
    ] {
        let entry = TenantPath::parse(bad).unwrap();
        let err = check_entry(&entry).unwrap_err();
        assert_eq!(err.code, ErrorCode::InvalidPath, "expected `{bad}` refused");
    }
    for hostile in ["../../etc/passwd", "/etc/passwd", "a\nb", "a\0b"] {
        assert!(TenantPath::parse(hostile).is_err(), "{hostile}");
    }
    assert!(check_entry(&TenantPath::parse("apps/blog/server.js").unwrap()).is_ok());
    assert!(check_entry(&TenantPath::parse("apps/blog/dist/index.mjs").unwrap()).is_ok());
}

#[test]
fn unit_names_carry_both_the_tenant_and_the_app() {
    assert_eq!(
        unit_file_name(&user(), &name()),
        "ferrum-app-ft_abc12345-blog.service"
    );
    assert_eq!(
        app_unit_path(&user(), &name()),
        "/etc/systemd/system/ferrum-app-ft_abc12345-blog.service"
    );
}

#[test]
fn apps_of_one_user_and_users_of_one_app_have_their_own_units() {
    let unit = |u: &str, n: &str| {
        unit_file_name(&LinuxUser::parse(u).unwrap(), &AppName::parse(n).unwrap())
    };
    assert_ne!(unit("ft_a", "blog"), unit("ft_a", "shop"));
    assert_ne!(unit("ft_a", "blog"), unit("ft_b", "blog"));
    assert_ne!(unit("ft_a", "blog"), unit("ft_b", "shop"));
    // Where both differ they may meet.
    assert_eq!(unit("a", "b-c"), unit("a-b", "c"));
}

#[test]
fn every_valid_name_pair_yields_a_valid_unit_name() {
    for u in ["a", "_x", "ft_abc12345", "a-b-c-d", &"a".repeat(32)] {
        for n in ["a", "blog", "api-v2", "next_app3", &"z".repeat(32)] {
            let user = LinuxUser::parse(u).unwrap();
            let app = AppName::parse(n).unwrap();
            let unit = unit_file_name(&user, &app);
            assert!(UnitName::parse(&unit).is_ok(), "`{unit}`");
        }
    }
}

#[test]
fn the_slice_dropin_accepts_the_unit_names_this_module_produces() {
    let unit = unit_file_name(&user(), &name());
    assert!(unit.starts_with("ferrum-"), "{unit}");
    assert!(unit.ends_with(".service"), "{unit}");
}

// -- the operations ----------------------------------------------------------

fn subscription(status: SubscriptionStatus) -> Subscription {
    Subscription {
        id: 1,
        customer_id: 3,
        plan_id: None,
        linux_user: "ft_abc12345".into(),
        home_dir: "/home/ft_abc12345".into(),
        status,
        suspended_reason: None,
    }
}

fn plan(can_node_apps: bool) -> Plan {
    Plan {
        id: 1,
        owner_user_id: None,
        name: "No Apps".into(),
        max_sites: 5,
        max_dbs: 5,
        storage_mb: 1024,
        can_ssh: false,
        can_cron: true,
        can_node_apps,
    }
}

fn caller(role: Role, permissions: Vec<Permission>) -> (AuthContext, Option<ActorFacts>) {
    let claimed = AuthContext {
        actor_user_id: 3,
        acting_role: role,
        tenant_scope: TenantScope::Global,
        permissions: permissions.clone(),
        impersonator_id: None,
        request_id: "req-test".to_string(),
    };
    (claimed, Some(ActorFacts { can_log_in: true, role, permissions }))
}

fn wanted(entry: &str) -> CreateInput {
    CreateInput {
        name: name(),
        entry: TenantPath::parse(entry).unwrap(),
        subscription_id: Some(1),
        env: Vec::new(),
        node_env: "production".into(),
        memory_mb: None,
        proxy_domain: None,
    }
}

fn node() -> Option<String> {
    Some("/usr/bin/node".to_string())
}

#[test]
fn a_customer_without_the_node_apps_permission_is_refused_every_operation() {
    let (claimed, actor) = caller(Role::Customer, vec![Permission::SiteRead]);
    for op in ["app.list", "app.create", "app.delete", "app.restart", "app.logs"] {
        let err = OpRegistry::new(SYSTEM, SYSTEM).dispatch(op, &claimed, &actor).unwrap_err();
        assert_eq!(err.code, ErrorCode::PermissionDenied, "{op}");
    }
}

#[test]
fn a_forged_node_apps_permission_gains_nothing() {
    let (mut forged, actor) = caller(Role::Customer, vec![Permission::SiteRead]);
    forged.permissions.push(Permission::NodeApps);
    let err = OpRegistry::new(SYSTEM, SYSTEM).dispatch("app.list", &forged, &actor).unwrap_err();
    assert_eq!(err.code, ErrorCode::PermissionDenied);
}

#[test]
fn one_tenant_cannot_read_restart_or_delete_anothers_app() {
    // Another tenant's app is outside the caller's scope, and so not found.
    let sub = Some(subscription(SubscriptionStatus::Active));
    let seen = app_and_user(&Some(app_row(20_000, "apps/blog/server.js")), &sub).unwrap();
    assert_eq!(
        app_unit_name(&seen.0, &seen.1).as_str(),
        "ferrum-app-ft_abc12345-blog.service"
    );
    let err = app_and_user(&None, &sub).unwrap_err();
    assert_eq!(err.code, ErrorCode::NotFound);
    let err = app_and_user(&Some(app_row(20_000, "x.js")), &None).unwrap_err();
    assert_eq!(err.code, ErrorCode::Internal);
}

#[test]
fn app_logs_reads_the_journal_of_a_unit_the_caller_can_never_name() {
    // The unit comes from the row; the input has nothing to name one with.
    let sub = Some(subscription(SubscriptionStatus::Active));
    let app = Some(app_row(20_000, "apps/blog/server.js"));
    let (user, name) = app_and_user(&app, &sub).unwrap();
    assert_eq!(unit_file_name(&user, &name), "ferrum-app-ft_abc12345-blog.service");
    assert_eq!(LogsInput { app_id: 1, lines: Some(5) }.wanted_lines(), 5);
}

#[test]
fn a_log_request_for_a_million_lines_is_clamped() {
    assert_eq!(LogsInput { app_id: 1, lines: Some(4_000_000) }.wanted_lines(), 2_000);
    assert_eq!(LogsInput { app_id: 1, lines: Some(0) }.wanted_lines(), 1);
    assert_eq!(LogsInput { app_id: 1, lines: None }.wanted_lines(), 200);
}

#[test]
fn restarting_an_app_whose_unit_is_missing_says_so() {
    let unit = app_unit_name(&user(), &name());
    let gone = UnitStatus { state: UnitState::NotFound, memory_bytes: None };
    let err = Restart::check(&unit, gone).unwrap_err();
    assert_eq!(err.code, ErrorCode::NotFound);
    assert!(err.detail.contains("not installed"), "{}", err.detail);
}

#[test]
fn restarting_a_live_app_restarts_exactly_its_own_unit() {
    let unit = app_unit_name(&user(), &name());
    let live = UnitStatus { state: UnitState::Active, memory_bytes: None };
    assert!(Restart::check(&unit, live).is_ok());
    assert_eq!(unit.as_str(), "ferrum-app-ft_abc12345-blog.service");
}

#[test]
fn app_create_refuses_before_it_allocates_a_port() {
    let sub = Some(subscription(SubscriptionStatus::Active));
    let (admin, _) = caller(Role::Admin, vec![Permission::NodeApps, Permission::SiteManage]);
    let refused = |input: &CreateInput| {
        Create::live().accept(input, &sub, &None, &node(), &admin).err().unwrap()
    };
    let with = |key: &str, value: &str| {
        let mut input = wanted("apps/blog/server.js");
        input.env = vec![EnvVar { key: key.into(), value: value.into() }];
        input
    };
    assert_eq!(refused(&with("X", "a\nExecStart=/bin/sh")).code, ErrorCode::InvalidInput);
    assert_eq!(refused(&with("PORT", "80")).code, ErrorCode::InvalidInput);
    assert_eq!(refused(&wanted("apps/my blog/server.js")).code, ErrorCode::InvalidPath);
    assert_eq!(AppName::parse("blog app").unwrap_err().code, ErrorCode::InvalidInput);
    assert!(TenantPath::parse("../../etc/systemd/system/x").is_err());
}

#[test]
fn app_create_refuses_when_node_is_not_installed() {
    let sub = Some(subscription(SubscriptionStatus::Active));
    let (admin, _) = caller(Role::Admin, vec![Permission::NodeApps]);
    let err = Create::with_program("definitely-not-node-xyz")
        .accept(&wanted("apps/blog/server.js"), &sub, &None, &None, &admin)
        .err()
        .unwrap();
    assert_eq!(err.code, ErrorCode::NotFound);
    assert!(
        err.detail.contains("Node.js is not installed") && err.detail.contains("nodejs"),
        "the refusal must name what to install: {}",
        err.detail
    );
    assert_eq!(locate_node("node", &node()).unwrap(), "/usr/bin/node");
}

#[test]
fn a_plan_without_node_apps_refuses_the_feature_for_that_tenant() {
    let sub = Some(subscription(SubscriptionStatus::Active));
    let (admin, _) = caller(Role::Admin, vec![Permission::NodeApps]);
    let input = wanted("apps/blog/server.js");
    let err = Create::live()
        .accept(&input, &sub, &Some(plan(false)), &node(), &admin)
        .err()
        .unwrap();
    assert_eq!(err.code, ErrorCode::PlanFeatureDisabled);
    assert!(err.detail.contains("No Apps"), "{}", err.detail);
    let err = Create::with_program("definitely-not-node-xyz")
        .accept(&input, &sub, &Some(plan(true)), &None, &admin)
        .err()
        .unwrap();
    assert_eq!(
        err.code,
        ErrorCode::NotFound,
        "past the plan gate now, and stopped by the next check instead"
    );
}

#[test]
fn a_suspended_subscription_cannot_gain_an_app() {
    let sub = Some(subscription(SubscriptionStatus::Suspended));
    let (admin, _) = caller(Role::Admin, vec![Permission::NodeApps]);
    let err = Create::live()
        .accept(&wanted("apps/blog/server.js"), &sub, &None, &node(), &admin)
        .err()
        .unwrap();
    assert_eq!(err.code, ErrorCode::AccountSuspended);
}

#[test]
fn publishing_an_app_needs_the_right_to_manage_sites() {
    let sub = Some(subscription(SubscriptionStatus::Active));
    let mut input = wanted("apps/blog/server.js");
    input.proxy_domain = Some(domain("blog.example.com"));
    let (without, _) = caller(Role::Admin, vec![Permission::NodeApps]);
    let err = Create::live().accept(&input, &sub, &None, &node(), &without).err().unwrap();
    assert_eq!(err.code, ErrorCode::PermissionDenied);
    let (with, _) = caller(Role::Admin, vec![Permission::NodeApps, Permission::SiteManage]);
    let accepted = Create::live().accept(&input, &sub, &None, &node(), &with).ok().unwrap();
    assert_eq!(accepted.user.as_str(), "ft_abc12345");
    assert_eq!(accepted.node_binary, "/usr/bin/node");
    let site = publish_proxy_site(&app_row(20_000, "x.js"), domain("blog.example.com")).unwrap();
    assert_eq!(site.proxy_port, Some(20_000));
    assert!(publish_proxy_site(&app_row(70_000, "x.js"), domain("blog.example.com")).is_err());
}

#[test]
fn a_failed_create_leaves_nothing_and_frees_the_port_last() {
    let mut course = Create::provision(true);
    let mut done = Vec::new();
    while let Next::Perform(step) = course.next() {
        course.report(step != AppStep::Start);
        done.push(step);
    }
    assert_eq!(
        done,
        vec![
            AppStep::Account,
            AppStep::Directory,
            AppStep::JoinSlice,
            AppStep::WriteUnit,
            AppStep::Start,
            AppStep::Stop,
            AppStep::RemoveUnit,
            AppStep::ForgetUnit,
            AppStep::RemoveSlice,
            AppStep::ForgetSlice,
            AppStep::DeleteRow,
        ]
    );
    let out = Create::finish(
        &app_row(20_000, "x.js"),
        &wanted("apps/blog/server.js"),
        &user(),
        None,
    );
    assert_eq!(out.working_dir, "/home/ft_abc12345/apps/blog");
    assert_eq!(
        out.next_steps[0],
        "Your app must listen on port 20000 — read it from process.env.PORT"
    );
}

#[test]
fn deleting_an_app_disables_its_unit_and_frees_its_port() {
    let mut course = Delete::course();
    let mut done = Vec::new();
    while let Next::Perform(step) = course.next() {
        course.report(step != AppStep::Stop);
        done.push(step);
    }
    assert_eq!(done[0], AppStep::Stop);
    assert_eq!(done[done.len() - 1], AppStep::DeleteRow);
    let out = Delete::finish(&app_row(20_000, "apps/blog/server.js"));
    assert_eq!(out.name, "blog");
    assert_eq!(out.port, 20_000);
}

#[test]
fn deleting_an_app_leaves_its_domain_standing_and_names_it() {
    let mut app = app_row(20_000, "apps/blog/server.js");
    app.site_id = Some(9);
    assert_eq!(Delete::finish(&app).orphaned_site_id, Some(9));
}

#[test]
fn listing_reports_what_systemd_thinks_of_each_app() {
    let sub = Some(subscription(SubscriptionStatus::Active));
    let unit = List::unit_of(&app_row(20_000, "x.js"), &sub).unwrap();
    let view = |state| {
        List::view(
            app_row(20_000, "x.js"),
            &unit,
            Some(UnitStatus { state, memory_bytes: Some(5) }),
        )
    };
    assert_eq!(view(UnitState::NotFound).state, UnitState::NotFound);
    assert_eq!(view(UnitState::Active).state, UnitState::Active);
    assert_eq!(view(UnitState::Active).unit, "ferrum-app-ft_abc12345-blog.service");
    assert_eq!(view(UnitState::Active).app.port, 20_000);
    assert_eq!(view(UnitState::Active).memory_bytes, Some(5));
    let lost = List::view(app_row(20_000, "x.js"), &None, None);
    assert_eq!(lost.state, UnitState::Unknown);
    assert_eq!(lost.unit, "");
    assert!(List::unit_of(&app_row(20_000, "x.js"), &None).unwrap().is_none());
    assert!(slice_dropin_path(&user(), &name()).ends_with("ferrum-slice.conf"));
}
