use ferrum_ops::error::ErrorCode;
use ferrum_ops::model::{AuthContext, CmdOutput, Family, Permission, Role, TenantScope};
use ferrum_ops::posture::gather::{
    counts, is_sshd_dropin, observe_sshd, observe_updates, order_sshd_files, updates_argv, Posture,
};
use ferrum_ops::posture::{
    count_apt_security_updates, count_dnf_security_updates, evaluate, listeners_on_port,
    observe_listeners, parse_sshd_files, parse_sshd_t, Finding, FirewallFacts, Observed,
    PanelTlsFacts, PostureFacts, PublicListener, Severity, SiteCertFact, SshdFacts, SshdSource,
    PANEL_CERT_WARN_DAYS,
};
use ferrum_ops::registry::catalogue::SystemOp;
use ferrum_ops::registry::{ActorFacts, Execution, OpRegistry};

/// What the two operations of the system are declared as.
const SYSTEM: SystemOp =
    SystemOp { permission: Permission::ServerRead, execution: Execution::Immediate };

fn clean() -> PostureFacts {
    PostureFacts {
        sshd: Observed::Known(SshdFacts {
            password_authentication: false,
            keyboard_interactive: false,
            permit_root_login: "prohibit-password".into(),
            source: SshdSource::SshdT,
        }),
        firewall: FirewallFacts {
            backend: "firewalld".into(),
            active: Some(true),
        },
        mysql_listeners: Observed::Known(Vec::new()),
        panel_tls: PanelTlsFacts {
            domain: Some("panel.example.com".into()),
            days_remaining: Some(70),
            status: Some("active".into()),
        },
        sites: vec![SiteCertFact {
            site_id: 1,
            domain: "example.com".into(),
            has_certificate: true,
        }],
        sentinel_enabled: true,
        security_updates: Observed::Known(0),
    }
}

fn ids(findings: &[Finding]) -> Vec<&str> {
    findings.iter().map(|f| f.id).collect()
}

#[test]
fn a_server_with_nothing_wrong_produces_no_findings() {
    assert!(evaluate(&clean()).is_empty());
}

#[test]
fn every_finding_says_what_is_wrong_why_it_matters_and_what_to_do() {
    let mut facts = clean();
    facts.sshd = Observed::Known(SshdFacts {
        password_authentication: true,
        keyboard_interactive: true,
        permit_root_login: "yes".into(),
        source: SshdSource::SshdT,
    });
    facts.firewall = FirewallFacts {
        backend: "none".into(),
        active: None,
    };
    facts.mysql_listeners = Observed::Known(vec![PublicListener {
        address: "0.0.0.0".into(),
        port: 3306,
    }]);
    facts.panel_tls.days_remaining = None;
    facts.sites[0].has_certificate = false;
    facts.sentinel_enabled = false;
    facts.security_updates = Observed::Known(4);

    let findings = evaluate(&facts);
    assert_eq!(findings.len(), 8, "{:?}", ids(&findings));
    for finding in &findings {
        assert!(!finding.title.is_empty(), "{}", finding.id);
        assert!(
            finding.risk.split_whitespace().count() >= 8,
            "{} has a risk line too short to explain anything: {}",
            finding.id,
            finding.risk
        );
        assert!(
            finding.remedy.split_whitespace().count() >= 5,
            "{} has no actionable remedy: {}",
            finding.id,
            finding.remedy
        );
    }
}

#[test]
fn findings_are_ordered_most_severe_first() {
    let mut facts = clean();
    facts.sentinel_enabled = false; // Low
    facts.mysql_listeners = Observed::Known(vec![PublicListener {
        address: "203.0.113.10".into(),
        port: 3306,
    }]); // Critical
    facts.panel_tls.days_remaining = Some(3); // Medium
    let findings = evaluate(&facts);
    assert_eq!(
        ids(&findings),
        vec![
            "mariadb.off_loopback",
            "panel.tls_expiring",
            "sentinel.disabled"
        ]
    );
}

#[test]
fn a_check_that_could_not_run_is_reported_as_unknown_never_as_clean() {
    let mut facts = clean();
    facts.sshd = Observed::Unavailable {
        reason: "sshd is not installed".into(),
    };
    facts.mysql_listeners = Observed::Unavailable {
        reason: "no /proc".into(),
    };
    facts.security_updates = Observed::Unavailable {
        reason: "dnf timed out".into(),
    };
    facts.firewall.active = None;

    let findings = evaluate(&facts);
    assert_eq!(
        ids(&findings),
        vec![
            "ssh.unknown",
            "firewall.unknown",
            "mariadb.exposure_unknown",
            "updates.unknown"
        ]
    );
    assert!(findings.iter().all(|f| f.severity == Severity::Unknown));
}

#[test]
fn keyboard_interactive_alone_is_still_password_authentication() {
    let mut facts = clean();
    facts.sshd = Observed::Known(SshdFacts {
        password_authentication: false,
        keyboard_interactive: true,
        permit_root_login: "no".into(),
        source: SshdSource::SshdT,
    });
    let findings = evaluate(&facts);
    assert_eq!(ids(&findings), vec!["ssh.password_auth"]);
    assert!(findings[0].title.contains("KbdInteractive"));
}

#[test]
fn key_only_root_login_is_not_a_finding_but_password_root_login_is_critical() {
    let mut facts = clean();
    for spelling in [
        "prohibit-password",
        "without-password",
        "forced-commands-only",
        "no",
    ] {
        facts.sshd = Observed::Known(SshdFacts {
            password_authentication: false,
            keyboard_interactive: false,
            permit_root_login: spelling.into(),
            source: SshdSource::SshdT,
        });
        assert!(
            evaluate(&facts).is_empty(),
            "`PermitRootLogin {spelling}` permits a key, not a password"
        );
    }

    facts.sshd = Observed::Known(SshdFacts {
        password_authentication: true,
        keyboard_interactive: false,
        permit_root_login: "yes".into(),
        source: SshdSource::SshdT,
    });
    let findings = evaluate(&facts);
    let root = findings.iter().find(|f| f.id == "ssh.root_login").unwrap();
    assert_eq!(
        root.severity,
        Severity::Critical,
        "root login plus passwords is the combination that loses servers"
    );

    facts.sshd = Observed::Known(SshdFacts {
        password_authentication: false,
        keyboard_interactive: false,
        permit_root_login: "yes".into(),
        source: SshdSource::SshdT,
    });
    let findings = evaluate(&facts);
    assert_eq!(findings[0].severity, Severity::Medium, "key-only root");
}

#[test]
fn a_file_derived_ssh_answer_discloses_that_it_did_not_come_from_sshd() {
    let mut facts = clean();
    facts.sshd = Observed::Known(SshdFacts {
        password_authentication: true,
        keyboard_interactive: false,
        permit_root_login: "no".into(),
        source: SshdSource::Files,
    });
    let findings = evaluate(&facts);
    assert!(
        findings[0].remedy.contains("`sshd -T` could not be run"),
        "an approximation must say it is one: {}",
        findings[0].remedy
    );
}


#[test]
fn sshd_t_output_is_read_for_the_three_settings_that_matter() {
    let output = "\
port 22
permitrootlogin yes
passwordauthentication no
kbdinteractiveauthentication yes
usepam yes
";
    let facts = parse_sshd_t(output);
    assert!(!facts.password_authentication);
    assert!(facts.keyboard_interactive);
    assert_eq!(facts.permit_root_login, "yes");
    assert_eq!(facts.source, SshdSource::SshdT);
}

#[test]
fn an_absent_sshd_setting_reads_as_opensshs_default_not_as_the_safe_value() {
    let facts = parse_sshd_t("port 22\n");
    assert!(
        facts.password_authentication,
        "OpenSSH defaults PasswordAuthentication to yes"
    );
    assert!(facts.keyboard_interactive);
    assert_eq!(facts.permit_root_login, "prohibit-password");
}

#[test]
fn in_sshd_config_files_the_first_value_wins_not_the_last() {
    let files = vec![
        (
            "/etc/ssh/sshd_config.d/50-cloud-init.conf".to_string(),
            "PasswordAuthentication yes\n".to_string(),
        ),
        (
            "/etc/ssh/sshd_config".to_string(),
            "PasswordAuthentication no\nPermitRootLogin no\n".to_string(),
        ),
    ];
    let facts = parse_sshd_files(&files);
    assert!(
        facts.password_authentication,
        "the drop-in was read first, so its `yes` is the value in force"
    );
    assert_eq!(facts.permit_root_login, "no");
    assert_eq!(facts.source, SshdSource::Files);
}

#[test]
fn settings_inside_a_match_block_do_not_become_the_global_answer() {
    let files = vec![(
        "/etc/ssh/sshd_config".to_string(),
        "PermitRootLogin no\n\
         Match Group ferrum-sftp\n\
         \x20   PasswordAuthentication yes\n\
         \x20   ForceCommand internal-sftp\n"
            .to_string(),
    )];
    let facts = parse_sshd_files(&files);
    assert_eq!(facts.permit_root_login, "no");
    assert!(facts.password_authentication);
}

#[test]
fn a_commented_out_sshd_setting_is_not_a_setting() {
    let files = vec![(
        "/etc/ssh/sshd_config".to_string(),
        "#PermitRootLogin yes\nPermitRootLogin no\n".to_string(),
    )];
    assert_eq!(parse_sshd_files(&files).permit_root_login, "no");
}


#[test]
fn a_database_bound_to_every_interface_is_seen_as_a_public_listener() {
    let table = "\
  sl  local_address rem_address   st tx_queue rx_queue tr tm->when retrnsmt   uid  timeout inode
   0: 00000000:0CEA 00000000:0000 0A 00000000:00000000 00:00000000 00000000    27        0 12345 1
";
    let found = listeners_on_port(table, 3306);
    assert_eq!(found.len(), 1);
    assert_eq!(found[0].address, "0.0.0.0");
    assert_eq!(found[0].port, 3306);
}

#[test]
fn a_database_bound_to_loopback_is_not_a_finding() {
    let table = "\
  sl  local_address rem_address   st
   0: 0100007F:0CEA 00000000:0000 0A
";
    assert!(listeners_on_port(table, 3306).is_empty());
}

#[test]
fn an_established_connection_to_the_database_port_is_not_a_listener() {
    let table = "\
  sl  local_address rem_address   st
   0: 0A00020F:0CEA C6336401:1F90 01
";
    assert!(listeners_on_port(table, 3306).is_empty());
}

#[test]
fn an_ipv6_wildcard_listener_is_decoded_and_the_mapped_form_is_normalised() {
    let table = "\
  sl  local_address rem_address   st
   0: 00000000000000000000000000000000:0CEA 00000000000000000000000000000000:0000 0A
   1: 0000000000000000FFFF00000100007F:0CEA 00000000000000000000000000000000:0000 0A
";
    let found = listeners_on_port(table, 3306);
    assert_eq!(found.len(), 1);
    assert_eq!(found[0].address, "::");
}

#[test]
fn a_listener_on_another_port_is_ignored() {
    let table = "\
  sl  local_address rem_address   st
   0: 00000000:1F90 00000000:0000 0A
";
    assert!(listeners_on_port(table, 3306).is_empty());
}

#[test]
fn a_truncated_or_garbled_proc_table_yields_no_findings_rather_than_a_panic() {
    for junk in ["", "sl local_address\n", "   0: zzzz:zzzz\n", "   0:\n"] {
        assert!(listeners_on_port(junk, 3306).is_empty());
    }
}


#[test]
fn only_updates_from_a_security_suite_are_counted_as_security_updates() {
    let output = "\
Inst libssl3 [3.0.11-1] (3.0.14-1~deb12u2 Debian-Security:12/stable [amd64])
Inst vim [2:9.0-1] (2:9.1-1 Debian:12.5/stable [amd64])
Inst curl [7.88.1-10] (7.88.1-10+deb12u5 Debian-Security:12/stable [amd64])
Conf libssl3 (3.0.14-1~deb12u2 Debian-Security:12/stable [amd64])
";
    assert_eq!(count_apt_security_updates(output), 2);
}

#[test]
fn the_name_of_a_package_makes_no_security_update() {
    let count = count_apt_security_updates;
    assert_eq!(count("Inst modsecurity-crs [3.3.4-1] (3.3.5-2 Debian:12.5/stable [amd64])\n"), 0);
    assert_eq!(count("Inst a [1] (2+security1 Debian:12.5/stable [amd64])\n"), 0);
    assert_eq!(count("Inst a [1] (2 Debian:12.5/stable [amd64]) [libsecurity:amd64 ]\n"), 0);
    assert_eq!(count("Inst modsecurity-crs [1] (2 Ubuntu:24.04/noble-security [all])\n"), 1);
    assert_eq!(count("Inst a (2 Debian:12.5/stable, Debian-Security:12/stable [all])\n"), 1);
    assert_eq!(count("Inst security\nInst a (security)\n"), 0);
}

#[test]
fn listings_are_counted_line_by_line() {
    let one = "Inst a [1] (2 Debian-Security:12/stable [amd64])";
    let two = format!("{one}\r\n{one}\n");
    for a in ["", one, "Inst b\r", "\n"] {
        for b in ["", one, &two] {
            let both = format!("{a}\n{b}");
            assert_eq!(
                count_apt_security_updates(&both),
                count_apt_security_updates(a) + count_apt_security_updates(b),
                "{both:?}"
            );
        }
    }
    assert_eq!(count_apt_security_updates(&two), 2);
    assert_eq!(count_apt_security_updates(&format!(" {one}\nConf {one}\n")), 0);
    let dnf = "openssl.x86_64 1:3.2.2-6.el10_0 baseos";
    assert_eq!(count_dnf_security_updates(&format!("{dnf}\r\n{dnf}")), 2);
}

#[test]
fn dnf_check_update_output_is_counted_by_package_lines_not_by_headings() {
    let output = "\
Last metadata expiration check: 0:12:31 ago on Thu 28 Aug 2026.

openssl.x86_64                    1:3.2.2-6.el10_0                    baseos
openssl-libs.x86_64               1:3.2.2-6.el10_0                    baseos

Obsoleting Packages
";
    assert_eq!(count_dnf_security_updates(output), 2);
}

#[test]
fn no_pending_updates_produces_no_finding() {
    assert_eq!(count_apt_security_updates(""), 0);
    assert_eq!(count_dnf_security_updates(""), 0);
    let facts = clean();
    assert!(evaluate(&facts).is_empty());
}

#[test]
fn the_finding_for_uncertificated_sites_names_them() {
    let mut facts = clean();
    facts.sites = vec![
        SiteCertFact {
            site_id: 1,
            domain: "secure.example.com".into(),
            has_certificate: true,
        },
        SiteCertFact {
            site_id: 2,
            domain: "plain.example.com".into(),
            has_certificate: false,
        },
    ];
    let findings = evaluate(&facts);
    assert_eq!(ids(&findings), vec!["sites.no_certificate"]);
    assert_eq!(
        findings[0].subject.as_deref(),
        Some("plain.example.com"),
        "a count without the names is not actionable"
    );
    assert!(findings[0].title.starts_with("1 of 2"));
}

#[test]
fn a_server_with_no_sites_at_all_produces_no_certificate_finding() {
    let mut facts = clean();
    facts.sites = Vec::new();
    assert!(evaluate(&facts).is_empty());
}

#[test]
fn an_absent_firewall_and_a_stopped_one_are_different_findings() {
    let mut facts = clean();
    facts.firewall = FirewallFacts {
        backend: "none".into(),
        active: None,
    };
    assert_eq!(ids(&evaluate(&facts)), vec!["firewall.absent"]);

    facts.firewall = FirewallFacts {
        backend: "ufw".into(),
        active: Some(false),
    };
    assert_eq!(ids(&evaluate(&facts)), vec!["firewall.inactive"]);
}

#[test]
fn an_expired_panel_certificate_is_distinguished_from_a_missing_one() {
    let mut facts = clean();
    facts.panel_tls.days_remaining = Some(-3);
    let findings = evaluate(&facts);
    assert_eq!(ids(&findings), vec!["panel.tls_expired"]);
    assert!(findings[0].title.contains("3 days ago"));

    facts.panel_tls.days_remaining = None;
    assert_eq!(ids(&evaluate(&facts)), vec!["panel.tls_missing"]);
}

#[test]
fn a_certificate_inside_the_normal_renewal_window_is_not_a_finding() {
    let mut facts = clean();
    facts.panel_tls.days_remaining = Some(29);
    assert!(evaluate(&facts).is_empty());
    facts.panel_tls.days_remaining = Some(PANEL_CERT_WARN_DAYS - 1);
    assert_eq!(ids(&evaluate(&facts)), vec!["panel.tls_expiring"]);
}

#[test]
fn every_finding_id_is_unique_and_dotted() {
    let mut facts = clean();
    facts.sshd = Observed::Known(SshdFacts {
        password_authentication: true,
        keyboard_interactive: true,
        permit_root_login: "yes".into(),
        source: SshdSource::SshdT,
    });
    facts.firewall = FirewallFacts {
        backend: "none".into(),
        active: None,
    };
    facts.mysql_listeners = Observed::Known(vec![PublicListener {
        address: "0.0.0.0".into(),
        port: 3306,
    }]);
    facts.panel_tls.days_remaining = None;
    facts.sites[0].has_certificate = false;
    facts.sentinel_enabled = false;
    facts.security_updates = Observed::Known(1);

    let findings = evaluate(&facts);
    let mut seen = std::collections::BTreeSet::new();
    for finding in &findings {
        assert!(finding.id.contains('.'), "{} is not namespaced", finding.id);
        assert!(seen.insert(finding.id), "duplicate id: {}", finding.id);
    }
}

fn customer() -> (AuthContext, Option<ActorFacts>) {
    let permissions = vec![Permission::SiteRead];
    let claimed = AuthContext {
        actor_user_id: 3,
        acting_role: Role::Customer,
        tenant_scope: TenantScope::Customer { customer_id: 3 },
        permissions: permissions.clone(),
        impersonator_id: None,
        request_id: "req-test".to_string(),
    };
    let actor = ActorFacts { can_log_in: true, role: Role::Customer, permissions };
    (claimed, Some(actor))
}

#[test]
fn a_customer_cannot_read_the_servers_security_posture() {
    let (claimed, actor) = customer();
    let err = OpRegistry::new(SYSTEM, SYSTEM).dispatch("security.posture", &claimed, &actor).unwrap_err();
    assert_eq!(err.code, ErrorCode::PermissionDenied);
}

#[test]
fn the_scan_answers_on_a_machine_where_most_checks_cannot_run() {
    let facts = PostureFacts {
        sshd: observe_sshd(&None, &[]),
        firewall: FirewallFacts { backend: "none".to_string(), active: None },
        mysql_listeners: observe_listeners(&None, &None, 3306),
        panel_tls: PanelTlsFacts { domain: None, days_remaining: None, status: None },
        sites: Vec::new(),
        sentinel_enabled: false,
        security_updates: observe_updates(Family::Debian, &Err("no apt".to_string())),
    };
    let out = Posture::report(facts.clone(), 1_700_000_000);
    assert_eq!(
        ids(&out.findings),
        vec![
            "firewall.absent",
            "panel.tls_missing",
            "sentinel.disabled",
            "ssh.unknown",
            "mariadb.exposure_unknown",
            "updates.unknown",
        ]
    );
    for finding in &out.findings {
        assert!(!finding.title.is_empty());
        assert!(!finding.risk.is_empty());
        assert!(!finding.remedy.is_empty());
    }
    assert_eq!(out.facts, facts);
    assert_eq!(out.checked_at, 1_700_000_000);
    assert_eq!(out.counts, counts(&out.findings));
    assert_eq!(out.counts.iter().map(|c| c.1).sum::<usize>(), out.findings.len());
}

#[test]
fn the_tally_leaves_out_what_did_not_occur() {
    let mut facts = clean();
    facts.sentinel_enabled = false;
    facts.security_updates = Observed::Unavailable { reason: "x".to_string() };
    assert_eq!(
        counts(&evaluate(&facts)),
        vec![(Severity::Low, 1), (Severity::Unknown, 1)]
    );
    assert_eq!(counts(&Vec::new()), vec![]);
}

#[test]
fn sshd_is_believed_before_its_files() {
    let answer = Some(CmdOutput {
        status: 0,
        stdout: "passwordauthentication no\nkbdinteractiveauthentication no\n".to_string(),
        failure: String::new(),
    });
    let files = vec![("/etc/ssh/sshd_config".to_string(), "PermitRootLogin yes\n".to_string())];
    let known = observe_sshd(&answer, &files);
    let facts = known.known().unwrap();
    assert_eq!(facts.source, SshdSource::SshdT);
    assert!(!facts.password_authentication);
    let silent = Some(CmdOutput { status: 0, stdout: " \n".to_string(), failure: String::new() });
    let fallen = observe_sshd(&silent, &files);
    assert_eq!(fallen.known().unwrap().source, SshdSource::Files);
    assert_eq!(fallen.known().unwrap().permit_root_login, "yes");
    let failed = Some(CmdOutput { status: 1, stdout: "x y".to_string(), failure: String::new() });
    assert!(observe_sshd(&failed, &[]).known().is_none());
}

#[test]
fn drop_ins_are_read_in_order_and_before_the_main_file() {
    let d = |p: &str| (p.to_string(), String::new());
    let ordered = order_sshd_files(
        Some(d("/etc/ssh/sshd_config")),
        vec![d("/etc/ssh/sshd_config.d/60-x.conf"), d("/etc/ssh/sshd_config.d/50-ferrum.conf")],
    );
    let names: Vec<&str> = ordered.iter().map(|f| f.0.as_str()).collect();
    assert_eq!(
        names,
        vec![
            "/etc/ssh/sshd_config.d/50-ferrum.conf",
            "/etc/ssh/sshd_config.d/60-x.conf",
            "/etc/ssh/sshd_config"
        ]
    );
    assert!(is_sshd_dropin("50-ferrum.conf"));
    assert!(!is_sshd_dropin(".conf"));
    assert!(!is_sshd_dropin("50-ferrum.conf.bak"));
}

#[test]
fn a_package_managers_exit_status_is_read_as_it_means_it() {
    let answer = |status| {
        Ok(CmdOutput {
            status,
            stdout: "openssl.x86_64  1:3.2.2-6.el10_0  baseos\n".to_string(),
            failure: "it broke".to_string(),
        })
    };
    assert_eq!(observe_updates(Family::Rhel, &answer(100)).known(), Some(&1));
    assert_eq!(observe_updates(Family::Rhel, &answer(0)).known(), Some(&1));
    assert!(observe_updates(Family::Rhel, &answer(1)).known().is_none());
    match observe_updates(Family::Debian, &answer(100)) {
        Observed::Unavailable { reason } => assert!(reason.ends_with("it broke")),
        Observed::Known(_) => panic!("a failed command was believed"),
    }
    assert_eq!(updates_argv(Family::Debian)[0], "apt-get");
}

#[test]
fn either_socket_table_is_enough() {
    let table = "  sl  local_address rem_address   st\n   0: 00000000:0CEA 00000000:0000 0A\n";
    let found = observe_listeners(&None, &Some(table.to_string()), 3306);
    assert_eq!(found.known().unwrap().len(), 1);
    assert!(observe_listeners(&None, &None, 3306).known().is_none());
}
