use ferrum_ops::error::{ErrorCode, FerrumError};
use ferrum_ops::model::{
    ComponentStatus, Domain, LinuxUser, PhpVersion, Site, SiteStatus, SiteType, Subscription,
    SubscriptionStatus, UnitState, UnitStatus, WwwPolicy,
};
use ferrum_ops::procedure::{Next, Run};
use ferrum_ops::site::{
    account_behind, check_snippet, default_site_type, logrotate_context, pool_service,
    provision_home, require_php_installed, retryable_site, site_context, vhost_context,
    CertificateFacts, Create, CreateFacts, CreateInput, Delete, DeleteStep, List, PhpFacts,
    RenderStep, SiteStep, SiteTypeInput, Update, UpdateInput, WwwPolicyInput,
};

const V82: PhpVersion = PhpVersion { major: 8, minor: 2 };
const V83: PhpVersion = PhpVersion { major: 8, minor: 3 };

fn subscription() -> Subscription {
    Subscription {
        id: 11,
        customer_id: 3,
        plan_id: None,
        linux_user: "ft_abc12345".to_string(),
        home_dir: "/home/ft_abc12345".to_string(),
        status: SubscriptionStatus::Active,
        suspended_reason: None,
    }
}

fn site_of(status: SiteStatus) -> Site {
    Site {
        id: 7,
        subscription_id: 11,
        domain: "example.com".to_string(),
        site_type: SiteType::Php,
        status,
        php_version: Some(V83),
        root_dir: "/home/ft_abc12345/sites/example.com/public".to_string(),
        www_policy: WwwPolicy::Leave,
        force_https: true,
        http3: false,
        maintenance_mode: false,
        client_max_body_size: "64m".to_string(),
        custom_nginx_snippet: None,
        php_ini_overrides: None,
        rate_limit_enabled: false,
        rate_limit_rps: 0,
        rate_limit_burst: 1_000_000,
        conn_limit: 20,
        proxy_port: Some(70_000),
        redirect_target: Some("https://elsewhere.example".to_string()),
        redirect_code: 200,
    }
}

fn user() -> LinuxUser {
    LinuxUser::parse("ft_abc12345").unwrap()
}

fn domain(name: &str) -> Domain {
    Domain::vetted(Ok(name.to_string())).unwrap()
}

fn input(site_type: SiteTypeInput) -> CreateInput {
    CreateInput {
        domain: domain("example.com"),
        site_type,
        php_version: None,
        subscription_id: Some(11),
        with_www: true,
        proxy_port: None,
        redirect_target: None,
    }
}

fn facts() -> CreateFacts {
    CreateFacts {
        php: PhpFacts { component: Some(ComponentStatus::Installed), unit: None },
        subscription: Some(subscription()),
        plan: None,
        used: 0,
        existing: None,
    }
}

#[test]
fn a_snippet_must_balance_its_braces() {
    assert!(check_snippet("location /x { return 204; }").is_ok());
    assert!(check_snippet("add_header X-Test 1;").is_ok());
    assert!(check_snippet("").is_ok());

    assert!(check_snippet("location /x { return 204;").is_err());
    assert!(check_snippet("}").is_err());
    assert!(check_snippet("} location /y { ").is_err());
}

#[test]
fn a_snippet_is_bounded_and_free_of_nul() {
    assert!(check_snippet(&"a".repeat(20_000)).is_err());
    assert!(check_snippet("ok\0bad").is_err());
}

#[test]
fn the_api_site_type_maps_onto_storage() {
    for (input, expected) in [
        (SiteTypeInput::Php, SiteType::Php),
        (SiteTypeInput::Static, SiteType::Static),
        (SiteTypeInput::Proxy, SiteType::Proxy),
        (SiteTypeInput::Redirect, SiteType::Redirect),
    ] {
        assert_eq!(SiteType::from(input), expected);
    }
    assert_eq!(WwwPolicy::from(WwwPolicyInput::Strip), WwwPolicy::Strip);
    assert_eq!(SiteType::from(default_site_type()), SiteType::Php);
}

#[test]
fn a_create_request_is_refused_for_what_it_lacks() {
    let said = |i: &CreateInput, f: &CreateFacts| {
        let e = Create::accept(i, f).unwrap_err();
        (e.code, e.detail)
    };
    let (code, detail) = said(&input(SiteTypeInput::Php), &facts());
    assert_eq!((code, detail.as_str()), (ErrorCode::InvalidInput, "a PHP site needs a PHP version"));
    let mut php = input(SiteTypeInput::Php);
    php.php_version = Some(V83);
    let mut bare = facts();
    bare.php = PhpFacts { component: Some(ComponentStatus::Failed), unit: None };
    assert_eq!(
        said(&php, &bare),
        (
            ErrorCode::NotFound,
            "PHP 8.3 is not installed. Install it from the Stack Manager first.".to_string()
        )
    );
    assert_eq!(said(&input(SiteTypeInput::Proxy), &facts()).1, "a proxy site needs a port");
    assert_eq!(said(&input(SiteTypeInput::Redirect), &facts()).1, "a redirect site needs a target");
    let mut homeless = facts();
    homeless.subscription = None;
    assert_eq!(said(&input(SiteTypeInput::Static), &homeless).0, ErrorCode::NotFound);
}

#[test]
fn an_accepted_site_is_served_from_the_tenants_home() {
    let mut php = input(SiteTypeInput::Php);
    php.php_version = Some(V83);
    let accepted = Create::accept(&php, &facts()).unwrap();
    assert_eq!(accepted.linux_user.as_str(), "ft_abc12345");
    assert_eq!(accepted.wanted.root_dir, "/home/ft_abc12345/sites/example.com/public");
    assert_eq!(accepted.wanted.php_version, Some(V83));
    assert_eq!(accepted.reclaim, None);
    // A version on a site that runs no PHP is not kept.
    let mut still = input(SiteTypeInput::Static);
    still.php_version = Some(V83);
    assert_eq!(Create::accept(&still, &facts()).unwrap().wanted.php_version, None);
}

#[test]
fn a_domain_is_taken_over_only_by_the_one_who_failed_with_it() {
    let existing = |status| Some(site_of(status));
    assert_eq!(retryable_site(&None, "example.com", 11).unwrap(), None);
    assert_eq!(
        retryable_site(&existing(SiteStatus::Failed), "example.com", 11).unwrap(),
        Some(7)
    );
    let other = retryable_site(&existing(SiteStatus::Failed), "example.com", 12).unwrap_err();
    assert_eq!(other.code, ErrorCode::DomainAlreadyExists);
    let busy = retryable_site(&existing(SiteStatus::Provisioning), "example.com", 11).unwrap_err();
    assert_eq!(busy.code, ErrorCode::Conflict);
    let live = retryable_site(&existing(SiteStatus::Active), "example.com", 11).unwrap_err();
    assert_eq!(live.code, ErrorCode::DomainAlreadyExists);
}

#[test]
fn the_pool_is_there_before_the_vhost_and_a_failure_marks_the_row() {
    let mut course = Create::course(true, true);
    let mut done = Vec::new();
    while let Next::Perform(step) = course.next() {
        // A taken alias is tolerated; a vhost that does not pass is not.
        course.report(step != SiteStep::AddAlias && step != SiteStep::RenderVhost);
        done.push(step);
    }
    assert_eq!(
        done,
        vec![
            SiteStep::AddAlias,
            SiteStep::CheckDomain,
            SiteStep::EnsureAccount,
            SiteStep::EnsureDirectories,
            SiteStep::WritePlaceholder,
            SiteStep::RenderPool,
            SiteStep::RenderVhost,
            SiteStep::MarkFailed,
        ]
    );
    assert!(matches!(course.next(), Next::Failed));
    let out = Create::finish(&site_of(SiteStatus::Active), &subscription());
    assert_eq!(out.next_steps[0], "Point example.com at this server's IP address");
}

#[test]
fn stored_numbers_are_brought_into_range() {
    let context = site_context(&site_of(SiteStatus::Active), &user());
    assert_eq!(context.rate_limit_rps, 1);
    assert_eq!(context.rate_limit_burst, 100_000);
    assert_eq!(context.conn_limit, 20);
    assert_eq!(context.proxy_port, Some(65_535));
    assert_eq!(context.redirect, Some(("https://elsewhere.example".to_string(), 300)));
    let vhost = vhost_context(
        &site_of(SiteStatus::Active),
        &user(),
        vec!["www.example.com".to_string()],
        Some("/etc/ferrum/tls/example.com".to_string()),
        false,
    );
    assert!(!vhost.maintenance_mode);
    assert_eq!(vhost.aliases, vec!["www.example.com".to_string()]);
    assert!(vhost.tls.is_some());
    assert_eq!(pool_service(V83), "php-fpm-8.3");
    assert_eq!(logrotate_context(&site_of(SiteStatus::Active), &user()).group, "ft_abc12345");
}

fn update() -> UpdateInput {
    UpdateInput {
        site_id: 7,
        php_version: None,
        force_https: None,
        http3: None,
        maintenance_mode: None,
        client_max_body_size: None,
        custom_nginx_snippet: None,
        php_ini_overrides: None,
        rate_limit_enabled: None,
        www_policy: None,
    }
}

#[test]
fn an_update_is_checked_before_it_is_stored() {
    let php = PhpFacts { component: None, unit: None };
    assert_eq!(Update::check(&update(), &None, &php).unwrap_err().code, ErrorCode::NotFound);
    let found = Some(site_of(SiteStatus::Active));
    assert!(Update::check(&update(), &found, &php).is_ok());
    let mut newer = update();
    newer.php_version = Some(V82);
    assert_eq!(Update::check(&newer, &found, &php).unwrap_err().code, ErrorCode::NotFound);
    let unit = UnitStatus { state: UnitState::Inactive, memory_bytes: None };
    let there = PhpFacts { component: None, unit: Some(unit) };
    assert!(require_php_installed(V82, &there).is_ok());
    assert!(Update::check(&newer, &found, &there).is_ok());
    let mut snippet = update();
    snippet.custom_nginx_snippet = Some(Some("}".to_string()));
    assert_eq!(
        Update::check(&snippet, &found, &php).unwrap_err().detail,
        "the snippet closes a block it did not open"
    );
    let mut cleared = update();
    cleared.custom_nginx_snippet = Some(None);
    cleared.www_policy = Some(WwwPolicyInput::Add);
    assert!(Update::check(&cleared, &found, &php).is_ok());
    let changes = Update::changes(cleared);
    assert_eq!(changes.custom_nginx_snippet, Some(None));
    assert_eq!(changes.www_policy, Some(WwwPolicy::Add));
    assert_eq!(changes.proxy_port, None);
}

#[test]
fn a_new_version_serves_before_the_old_one_goes() {
    let run = |before, asked, now| {
        let mut course = Update::course(before, asked, now);
        let mut done = Vec::new();
        while let Next::Perform(step) = course.next() {
            course.report(true);
            done.push(step);
        }
        done
    };
    assert_eq!(
        run(Some(V82), Some(V83), Some(V83)),
        vec![
            RenderStep::Pool { version: V83 },
            RenderStep::Vhost,
            RenderStep::RemovePool { version: V82 },
        ]
    );
    assert_eq!(
        run(Some(V83), None, Some(V83)),
        vec![RenderStep::Pool { version: V83 }, RenderStep::Vhost]
    );
    assert_eq!(run(None, None, None), vec![RenderStep::Vhost]);
    assert!(Update::finish(&site_of(SiteStatus::Active)).reloaded);
}

#[test]
fn a_deleted_site_stops_being_served_first_and_loses_its_row_last() {
    let mut course = Delete::course(Some(V83), true);
    let mut done = Vec::new();
    while let Next::Perform(step) = course.next() {
        course.report(true);
        done.push(step);
    }
    assert_eq!(done[0], DeleteStep::RemoveVhost);
    assert_eq!(done[1], DeleteStep::RemovePool { version: V83 });
    assert_eq!(done[done.len() - 2], DeleteStep::PurgeFiles);
    assert_eq!(done[done.len() - 1], DeleteStep::DeleteRow);
    assert!(Delete::finish(&site_of(SiteStatus::Active), true).files_removed);
    let mut kept = Delete::course(None, false);
    while let Next::Perform(step) = kept.next() {
        assert_ne!(step, DeleteStep::PurgeFiles);
        kept.report(true);
    }
}

#[test]
fn a_domain_is_what_the_rules_for_domain_names_make_of_a_text() {
    let kept = Domain::vetted(Ok("example.com".to_string())).unwrap();
    assert_eq!(kept.as_str(), "example.com");
    assert_eq!(kept.clone().as_str(), "example.com");
    let bad = FerrumError::new(ErrorCode::InvalidInput, "`../x` is no domain");
    let err = Domain::vetted(Err(bad)).unwrap_err();
    assert_eq!((err.code, err.detail.as_str()), (ErrorCode::InvalidInput, "`../x` is no domain"));
}

#[test]
fn a_stored_domain_is_looked_at_again_before_anything_is_made_of_it() {
    let mut run = Run::new(Create::course(false, false));
    assert!(matches!(run.next(), Next::Perform(SiteStep::CheckDomain)));
    assert!(run.cause().is_none());
    run.note(Err(FerrumError::new(ErrorCode::InvalidInput, "`../x` is no domain")));
    assert_eq!(run.cause().unwrap().detail, "`../x` is no domain");
    assert!(matches!(run.next(), Next::Perform(SiteStep::MarkFailed)));
    // What goes wrong while things are undone is not what went wrong.
    run.note(Err(FerrumError::internal("no store")));
    assert!(matches!(run.next(), Next::Failed));
    let err = run.end().unwrap_err();
    assert_eq!((err.code, err.detail.as_str()), (ErrorCode::InvalidInput, "`../x` is no domain"));
}

#[test]
fn a_deletion_needs_the_site_its_account_and_a_domain() {
    let site = || Some(site_of(SiteStatus::Active));
    let owner = Some(subscription());
    let good = || Ok("example.com".to_string());
    let (user, name) = Delete::accept(&site(), &owner, good()).unwrap();
    assert_eq!((user.as_str(), name.as_str()), ("ft_abc12345", "example.com"));
    let bad = Err(FerrumError::new(ErrorCode::InvalidInput, "no domain"));
    assert_eq!(Delete::accept(&site(), &owner, bad).unwrap_err().detail, "no domain");
    let code = |e: FerrumError| e.code;
    assert_eq!(code(Delete::accept(&None, &owner, good()).unwrap_err()), ErrorCode::NotFound);
    assert_eq!(code(Delete::accept(&site(), &None, good()).unwrap_err()), ErrorCode::Internal);
}

#[test]
fn a_failed_creation_is_run_again_in_its_row() {
    // The first call gets as far as its row, and then its pool fails.
    let mut row = site_of(SiteStatus::Provisioning);
    let mut run = Run::new(Create::course(false, true));
    while let Next::Perform(step) = run.next() {
        let outcome = match step {
            SiteStep::RenderPool => Err(FerrumError::internal("no pool")),
            SiteStep::MarkFailed => {
                row.status = SiteStatus::Failed;
                Ok(())
            }
            _ => Ok(()),
        };
        run.note(outcome);
    }
    assert_eq!(run.end().unwrap_err().detail, "no pool");
    // The second call reuses the row.
    let again = CreateFacts { existing: Some(row), ..facts() };
    assert_eq!(Create::accept(&input(SiteTypeInput::Static), &again).unwrap().reclaim, Some(7));
    // A site that is served, or somebody else's, stays where it is.
    for status in [SiteStatus::Active, SiteStatus::Suspended] {
        let taken = CreateFacts { existing: Some(site_of(status)), ..facts() };
        let err = Create::accept(&input(SiteTypeInput::Static), &taken).unwrap_err();
        assert_eq!(err.code, ErrorCode::DomainAlreadyExists);
    }
    let mut theirs = site_of(SiteStatus::Failed);
    theirs.subscription_id = 12;
    let taken = CreateFacts { existing: Some(theirs), ..facts() };
    let err = Create::accept(&input(SiteTypeInput::Static), &taken).unwrap_err();
    assert_eq!(err.code, ErrorCode::DomainAlreadyExists);
}

#[test]
fn the_input_is_looked_at_before_anything_else() {
    let none = PhpFacts { component: None, unit: None };
    assert!(Create::check(&input(SiteTypeInput::Static), &none).is_ok());
    let err = Create::check(&input(SiteTypeInput::Proxy), &none).unwrap_err();
    assert_eq!(err.field.as_deref(), Some("proxy_port"));
}

#[test]
fn a_site_without_its_subscription_is_shown_and_not_touched() {
    let site = site_of(SiteStatus::Active);
    let err = account_behind(&Some(site), &None).unwrap_err();
    assert_eq!(err.code, ErrorCode::Internal);
    assert_eq!(account_behind(&None, &None).unwrap_err().code, ErrorCode::NotFound);
    let view = List::view(
        site_of(SiteStatus::Active),
        vec![],
        &None,
        Some(CertificateFacts { days_remaining: Some(12) }),
    );
    assert_eq!(view.linux_user, "");
    assert!(view.has_certificate);
    assert_eq!(view.certificate_expires_in_days, Some(12));
    assert_eq!(provision_home(&Some(subscription())).unwrap(), "/home/ft_abc12345");
    assert_eq!(provision_home(&None).unwrap_err().code, ErrorCode::Internal);
}
