use ferrum_ops::error::ErrorCode;
use ferrum_ops::model::{
    CmdOutput, ComponentStatus, Family, PhpVersion, Site, SiteStatus, SiteType, UnitState,
    UnitStatus, WwwPolicy,
};
use ferrum_ops::procedure::Next;
use ferrum_ops::stack::{
    bootstrap_nginx, bootstrap_postgres, check_key_answer, check_key_url, chosen_extensions,
    make_traversable, postgres_marker, readiness_probe, require_claim, web_ports, AfterProbe,
    ComponentRow, Install, InstallStep, NginxStep, Remove, RemoveStep, StackComponent, Status,
    Waiting,
};
use ferrum_ops::svc::POSTGRES_MAJOR;

const V82: PhpVersion = PhpVersion { major: 8, minor: 2 };
const V83: PhpVersion = PhpVersion { major: 8, minor: 3 };

fn site_on(domain: &str, php_version: Option<PhpVersion>) -> Site {
    Site {
        id: 1,
        subscription_id: 1,
        domain: domain.to_string(),
        site_type: SiteType::Php,
        status: SiteStatus::Active,
        php_version,
        root_dir: String::new(),
        www_policy: WwwPolicy::Leave,
        force_https: true,
        http3: false,
        maintenance_mode: false,
        client_max_body_size: "64m".to_string(),
        custom_nginx_snippet: None,
        php_ini_overrides: None,
        rate_limit_enabled: false,
        rate_limit_rps: 10,
        rate_limit_burst: 20,
        conn_limit: 20,
        proxy_port: None,
        redirect_target: None,
        redirect_code: 301,
    }
}

#[test]
fn traversal_is_granted_without_granting_a_listing() {
    let mode = make_traversable(0o750).unwrap();
    assert_eq!(
        mode, 0o751,
        "expected traverse-only for other, got {mode:o}"
    );
    assert_eq!(
        mode & 0o004,
        0,
        "`other` must not be able to list the directory"
    );
    // The type bits of a stat mode do not come back.
    assert_eq!(make_traversable(0o040750), Some(0o751));
}

#[test]
fn making_a_directory_traversable_twice_changes_nothing() {
    assert_eq!(make_traversable(0o755), None);
    assert_eq!(make_traversable(make_traversable(0o700).unwrap()), None);
}

#[test]
fn component_slugs_are_stable_and_distinct() {
    assert_eq!(StackComponent::Nginx.slug(), "nginx");
    assert_eq!(StackComponent::Php { version: V83 }.slug(), "php8.3");

    assert_eq!(StackComponent::Mariadb.slug(), "mariadb");
    assert_eq!(StackComponent::Postgres.slug(), "postgres");

    let mut slugs: Vec<String> = [(7, 4), (8, 0), (8, 1), (8, 2), (8, 3), (8, 4)]
        .iter()
        .map(|&(major, minor)| StackComponent::Php { version: PhpVersion { major, minor } }.slug())
        .collect();
    slugs.push(StackComponent::Nginx.slug());
    slugs.push(StackComponent::Mariadb.slug());
    slugs.push(StackComponent::Postgres.slug());
    let unique: std::collections::HashSet<_> = slugs.iter().collect();
    assert_eq!(
        unique.len(),
        slugs.len(),
        "slugs must not collide: {slugs:?}"
    );
}

#[test]
fn a_component_cannot_be_an_arbitrary_package() {
    let known = vec![V82, V83];
    let named = |component, version| StackComponent::named(component, version, &known);
    assert_eq!(named("nginx", None).unwrap(), StackComponent::Nginx);
    assert_eq!(named("php", Some("8.3")).unwrap(), StackComponent::Php { version: V83 });
    assert_eq!(named("mariadb", None).unwrap(), StackComponent::Mariadb);
    assert_eq!(named("postgres", None).unwrap(), StackComponent::Postgres);
    for (bad, version) in [
        ("backdoor", None),
        ("php", Some("9.9")),
        ("nginx; rm -rf /", None),
        ("php", None),
        ("php", Some("+8.3")),
        ("Nginx", None),
    ] {
        let err = named(bad, version).unwrap_err();
        assert_eq!(err.code, ErrorCode::InvalidInput, "{bad} should not be understood");
    }
}

#[test]
fn nginx_installs_exactly_one_package() {
    let packages = StackComponent::Nginx.packages(Family::Debian, &vec![]);
    assert_eq!(packages.len(), 1);
    assert_eq!(packages[0], "nginx");
}

#[test]
fn php_takes_the_packages_of_its_catalogue() {
    let catalogue = vec!["php8.3-fpm".to_string(), "php8.3-curl".to_string()];
    let php = StackComponent::Php { version: V83 };
    assert_eq!(php.packages(Family::Debian, &catalogue), catalogue);
    let usual = vec!["curl".to_string()];
    assert_eq!(chosen_extensions(&vec![], &usual), usual);
    assert_eq!(chosen_extensions(&vec!["gd".to_string()], &usual), vec!["gd".to_string()]);
}

#[test]
fn mariadb_packages_are_capital_m_on_el_and_include_the_compat_pair() {
    let names = StackComponent::Mariadb.packages(Family::Rhel, &vec![]);
    assert!(names.contains(&"MariaDB-server".to_string()), "{names:?}");
    assert!(names.contains(&"MariaDB-backup".to_string()));
    assert!(names.contains(&"MariaDB-server-compat".to_string()));
    assert!(names.contains(&"MariaDB-client-compat".to_string()));
    assert!(
        !names.iter().any(|n| n.starts_with("mariadb-")),
        "no lowercase names on EL: {names:?}"
    );

    let names = StackComponent::Mariadb.packages(Family::Debian, &vec![]);
    assert!(names.contains(&"mariadb-server".to_string()));
    assert!(names.contains(&"mariadb-server-compat".to_string()));
    assert!(names.contains(&"mariadb-client-compat".to_string()));
    assert!(
        !names.iter().any(|n| n.starts_with("MariaDB-")),
        "no capital names on Debian: {names:?}"
    );
}

#[test]
fn postgres_packages_follow_each_familys_naming() {
    let names = StackComponent::Postgres.packages(Family::Debian, &vec![]);
    assert_eq!(
        names,
        vec![
            format!("postgresql-{POSTGRES_MAJOR}"),
            format!("postgresql-client-{POSTGRES_MAJOR}")
        ]
    );

    let names = StackComponent::Postgres.packages(Family::Rhel, &vec![]);
    assert_eq!(
        names,
        vec![
            format!("postgresql{POSTGRES_MAJOR}-server"),
            format!("postgresql{POSTGRES_MAJOR}"),
            format!("postgresql{POSTGRES_MAJOR}-contrib")
        ]
    );
}

#[test]
fn database_components_resolve_the_units_the_vendor_packages_ship() {
    assert_eq!(
        StackComponent::Mariadb.unit().unit_name(Family::Debian),
        "mariadb.service"
    );
    assert_eq!(
        StackComponent::Mariadb.unit().unit_name(Family::Rhel),
        "mariadb.service"
    );
    assert_eq!(
        StackComponent::Postgres.unit().unit_name(Family::Debian),
        "postgresql.service"
    );
    assert_eq!(
        StackComponent::Postgres.unit().unit_name(Family::Rhel),
        format!("postgresql-{POSTGRES_MAJOR}.service")
    );
}

#[test]
fn readiness_probes_exist_only_for_the_database_engines() {
    assert!(readiness_probe(StackComponent::Nginx, Family::Debian).is_none());
    assert!(readiness_probe(StackComponent::Php { version: V83 }, Family::Rhel).is_none());

    let mariadb = readiness_probe(StackComponent::Mariadb, Family::Debian).unwrap().join(" ");
    assert!(mariadb.starts_with("mariadb --no-defaults"), "{mariadb}");
    assert!(mariadb.contains("SELECT 1"));
    assert!(mariadb.contains("--protocol=socket"));

    let deb = readiness_probe(StackComponent::Postgres, Family::Debian).unwrap().join(" ");
    assert_eq!(deb, "pg_isready --quiet");
    let el = readiness_probe(StackComponent::Postgres, Family::Rhel).unwrap().join(" ");
    assert_eq!(
        el,
        format!("/usr/pgsql-{POSTGRES_MAJOR}/bin/pg_isready --quiet")
    );
}

#[test]
fn a_key_is_never_fetched_over_plain_http() {
    let err = check_key_url("http://example.com/key.gpg").unwrap_err();
    assert!(err.detail.contains("refusing to fetch"));
    assert!(check_key_url("https://example.com/key.gpg").is_ok());
}

#[test]
fn what_a_key_server_answers_must_be_a_keyring() {
    let url = "https://example.com/key.gpg";
    assert!(check_key_answer(url, true, "200 OK", 1024 * 1024).is_ok());
    let large = check_key_answer(url, true, "200 OK", 1024 * 1024 + 1).unwrap_err();
    assert_eq!(large.code, ErrorCode::PackageBackendFailed);
    assert!(large.detail.contains("1048577 bytes"));
    let missing = check_key_answer(url, false, "404 Not Found", 0).unwrap_err();
    assert_eq!(missing.detail, "https://example.com/key.gpg returned 404 Not Found");
}

#[test]
fn trust_comes_before_packages_and_packages_before_the_service() {
    let run = |component, family, broken: Option<InstallStep>| {
        let mut course = Install::course(component, family);
        let mut done = Vec::new();
        while let Next::Perform(step) = course.next() {
            course.report(Some(step) != broken);
            done.push(step);
        }
        done
    };
    assert_eq!(
        run(StackComponent::Mariadb, Family::Rhel, None),
        vec![
            InstallStep::AddPrerequisites,
            InstallStep::FetchKey,
            InstallStep::AddRepository,
            InstallStep::InstallPackages,
            InstallStep::HardenMariadb,
            InstallStep::WarnAboutSelinux,
            InstallStep::EnableUnit,
            InstallStep::WaitUntilReady,
        ]
    );
    assert_eq!(
        run(StackComponent::Nginx, Family::Debian, Some(InstallStep::FetchKey)),
        vec![
            InstallStep::AddPrerequisites,
            InstallStep::FetchKey,
            InstallStep::RecordFailure,
        ]
    );
    let out = Install::finish(StackComponent::Nginx, vec!["nginx".to_string()], None);
    assert_eq!(out.slug, "nginx");
}

#[test]
fn nginx_answers_for_strangers_before_anybody_else_can() {
    let steps = |present| {
        let mut course = bootstrap_nginx(present);
        let mut done = Vec::new();
        while let Next::Perform(step) = course.next() {
            course.report(step != NginxStep::OpenWebPorts);
            done.push(step);
        }
        assert!(matches!(course.next(), Next::Done), "a firewall that refuses is tolerated");
        done
    };
    assert_eq!(steps(false)[0], NginxStep::WriteDefaultCertificate);
    assert_eq!(steps(true)[0], NginxStep::CreateChallengeDirectory);
    let all = steps(true);
    assert_eq!(all[all.len() - 2], NginxStep::ApplyDefaultServer);
    assert_eq!(web_ports(Some(true)), vec![80, 443]);
    assert!(web_ports(Some(false)).is_empty());
    assert!(web_ports(None).is_empty());
}

#[test]
fn a_cluster_is_initialised_once_and_only_where_nobody_else_does_it() {
    assert_eq!(bootstrap_postgres(Family::Debian, false), None);
    assert_eq!(bootstrap_postgres(Family::Rhel, true), None);
    assert_eq!(
        bootstrap_postgres(Family::Rhel, false).unwrap(),
        vec![
            format!("/usr/pgsql-{POSTGRES_MAJOR}/bin/postgresql-{POSTGRES_MAJOR}-setup"),
            "initdb".to_string()
        ]
    );
    assert_eq!(postgres_marker(), format!("/var/lib/pgsql/{POSTGRES_MAJOR}/data/PG_VERSION"));
}

#[test]
fn a_database_is_asked_twelve_times_with_growing_pauses() {
    let refused = || Ok(CmdOutput { status: 1, stdout: String::new(), failure: "no".to_string() });
    let mut waiting = Waiting::new(StackComponent::Mariadb);
    let mut pauses = Vec::new();
    let gave_up = loop {
        match waiting.probed(refused()) {
            AfterProbe::AskAgain { wait_ms } => pauses.push(wait_ms),
            AfterProbe::GiveUp(e) => break e,
            AfterProbe::Ready => panic!("nothing was ready"),
        }
    };
    assert_eq!(pauses[..5], [500, 1000, 2000, 4000, 5000]);
    assert_eq!(pauses.len(), 11);
    assert_eq!(pauses.iter().sum::<u64>(), 42_500);
    assert!(pauses.iter().all(|p| *p <= 5000));
    assert_eq!(gave_up.code, ErrorCode::ServiceActionFailed);
    assert!(gave_up.detail.ends_with("never became ready to accept connections: no"));
    let mut again = Waiting::new(StackComponent::Postgres);
    assert!(matches!(again.probed(Err("x".to_string())), AfterProbe::AskAgain { wait_ms: 500 }));
    let fine = CmdOutput { status: 0, stdout: String::new(), failure: String::new() };
    assert!(matches!(again.probed(Ok(fine)), AfterProbe::Ready));
}

#[test]
fn no_site_loses_what_it_runs_on() {
    let sites = vec![
        site_on("a.example", Some(V83)),
        site_on("b.example", None),
        site_on("c.example", Some(V83)),
    ];
    let err = Remove::check(StackComponent::Php { version: V83 }, &sites).unwrap_err();
    assert_eq!(err.code, ErrorCode::DependentsExist);
    assert_eq!(
        err.detail,
        "2 sites still use PHP 8.3: a.example, c.example. Move them to another version first."
    );
    assert!(Remove::check(StackComponent::Php { version: V82 }, &sites).is_ok());
    let err = Remove::check(StackComponent::Nginx, &sites).unwrap_err();
    assert_eq!(
        err.detail,
        "3 sites are still configured; removing nginx would take them all offline"
    );
    assert!(Remove::check(StackComponent::Nginx, &vec![]).is_ok());
    let mut course = Remove::course();
    course.report(false);
    assert!(matches!(course.next(), Next::Perform(RemoveStep::RemovePackages)));
    assert_eq!(Remove::finish(StackComponent::Mariadb).slug, "mariadb");
}

#[test]
fn a_component_that_another_task_has_is_left_to_it() {
    assert!(require_claim(StackComponent::Nginx, true).is_ok());
    let err = require_claim(StackComponent::Nginx, false).unwrap_err();
    assert_eq!(err.code, ErrorCode::Conflict);
    assert_eq!(err.detail, "Nginx is already being installed or removed");
}

#[test]
fn status_shows_what_is_recorded_beside_what_runs() {
    let versions = vec![V82, V83];
    let all = Status::candidates(&versions);
    assert_eq!(all.len(), 5);
    assert_eq!(all[2], StackComponent::Php { version: V83 });
    let rows = vec![ComponentRow {
        slug: "nginx".to_string(),
        status: ComponentStatus::Installed,
        installed_version: Some("1.28".to_string()),
        last_error: None,
    }];
    let unit = UnitStatus { state: UnitState::Active, memory_bytes: None };
    let view = Status::view(StackComponent::Nginx, &rows, Some(unit));
    assert_eq!(view.status, "installed");
    assert_eq!(view.installed_version.as_deref(), Some("1.28"));
    assert!(view.unit_active);
    let absent = Status::view(StackComponent::Postgres, &rows, None);
    assert_eq!(absent.status, "absent");
    assert_eq!(absent.unit_state, "unknown");
    assert!(absent.display_name.starts_with("PostgreSQL "));
}
