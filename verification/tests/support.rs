use ferrum_ops::error::{ErrorCode, FerrumError};
use ferrum_ops::model::{
    app_dir_path, home_path, page, unit_dropin_path, unit_path, AppName, AuthContext, LinuxUser,
    Permission, PhpVersion, Role, TenantPath, TenantScope, UnitName,
};
use ferrum_ops::net::parse_proc_address;
use ferrum_ops::path::{absolute, here, parts_of, up, under};
use ferrum_ops::procedure::{Next, Procedure, Run};
use ferrum_ops::text::{
    char_is_control, char_is_digit, char_is_hex_digit, char_is_lower, char_is_space,
    char_is_upper, char_lower, decimal_of, equals_ignoring_case, has_prefix, has_suffix, has_text,
    joined, lines_of, lowered, numeral_of, signed_decimal_of, text_le_of, trimmed, trimmed_end,
    utf8_len, words_of, zero_padded_of,
};

#[test]
fn characters_are_classed_as_the_standard_library_classes_them() {
    for c in '\0'..=char::MAX {
        assert_eq!(char_is_space(c), c.is_whitespace(), "{c:?}");
        assert_eq!(char_is_control(c), c.is_control(), "{c:?}");
        assert_eq!(char_is_digit(c), c.is_ascii_digit(), "{c:?}");
        assert_eq!(char_is_lower(c), c.is_ascii_lowercase(), "{c:?}");
        assert_eq!(char_is_upper(c), c.is_ascii_uppercase(), "{c:?}");
        assert_eq!(char_is_hex_digit(c), c.is_ascii_hexdigit(), "{c:?}");
        assert_eq!(char_lower(c), c.to_ascii_lowercase(), "{c:?}");
        let s = c.to_string();
        assert_eq!(utf8_len(&s), s.len());
    }
}

#[test]
fn texts_are_cut_as_the_standard_library_cuts_them() {
    for s in [
        "", " ", "a", " a ", "\u{3000}x\u{a0}", "a\nb", "a\r\nb\r\n", "\n", "\n\n", "a\n\nb", "\r",
        "x\r\ny\rz\n", " one\ttwo  three ", "é è",
    ] {
        assert_eq!(trimmed(s), s.trim(), "{s:?}");
        assert_eq!(trimmed_end(s), s.trim_end(), "{s:?}");
        assert_eq!(lines_of(s), s.lines().collect::<Vec<_>>(), "{s:?}");
        assert_eq!(words_of(s), s.split_whitespace().collect::<Vec<_>>(), "{s:?}");
        assert_eq!(lowered(s), s.to_ascii_lowercase(), "{s:?}");
        for p in ["", "a", "\n", " ", "one", "é"] {
            assert_eq!(has_prefix(s, p), s.starts_with(p));
            assert_eq!(has_suffix(s, p), s.ends_with(p));
            assert_eq!(has_text(s, p), s.contains(p));
            assert_eq!(text_le_of(s, p), s <= p, "{s:?} {p:?}");
        }
    }
    assert!(equals_ignoring_case("Content-TYPE", "content-type"));
    assert!(!equals_ignoring_case("É", "é"), "only ASCII letters have a case here");
    assert_eq!(joined(&vec!["a".into(), "".into(), "b".into()], ", "), "a, , b");
}

#[test]
fn numbers_are_written_as_the_standard_library_writes_them() {
    for n in [0u64, 1, 9, 10, 4096, u64::MAX] {
        assert_eq!(decimal_of(n), n.to_string());
        assert_eq!(numeral_of(n, 8), format!("{n:o}"));
        assert_eq!(numeral_of(n, 16), format!("{n:x}"));
    }
    for n in [i64::MIN, -1, 0, i64::MAX] {
        assert_eq!(signed_decimal_of(n), n.to_string());
    }
    assert_eq!(zero_padded_of("7", 3), "007");
    assert_eq!(zero_padded_of("1234", 3), "1234");
}

#[test]
fn addresses_are_read_from_the_kernels_columns() {
    let read = |hex: &str| parse_proc_address(hex).unwrap();
    assert_eq!(read("0100007F").to_text(), "127.0.0.1");
    assert!(read("0100007F").is_loopback());
    assert_eq!(read("00000000").to_text(), "0.0.0.0");
    assert!(!read("00000000").is_loopback());
    assert_eq!(read("00000000000000000000000001000000").to_text(), "::1");
    assert!(read("00000000000000000000000001000000").is_loopback());
    assert_eq!(read("00000000000000000000000000000000").to_text(), "::");
    // An address that maps an IPv4 one is that one.
    assert_eq!(read("0000000000000000FFFF00000100007F").to_text(), "127.0.0.1");
    assert_eq!(read("B80D0120000000000000000001000000").to_text(), "2001:db8::1");
    for junk in ["", "0100007", "0100007G", "0100007F00"] {
        assert!(parse_proc_address(junk).is_none(), "{junk}");
    }
}

#[test]
fn paths_are_taken_apart_as_the_standard_library_takes_them_apart() {
    assert_eq!(parts_of("/a//b/./c/"), vec!["a", "b", "c"]);
    assert_eq!(parts_of("../x"), vec!["..", "x"]);
    assert!(absolute("/") && !absolute("") && !absolute("a/b"));
    assert!(here("./a") && here(".") && !here("a/./b") && !here("/."));
    assert!(up("a/../b") && !up("a..b"));
    assert!(under("/home/x/y", "/home/x") && under("/home/x", "/home/x/"));
    assert!(!under("/home/xy", "/home/x") && !under("home/x/y", "/home/x"));
}

#[test]
fn a_procedure_stops_at_the_first_failure_that_counts_and_undoes() {
    let mut course = Procedure::new(vec![(1, true), (2, false), (3, false)], vec![9, 8]);
    let mut done: Vec<i32> = Vec::new();
    loop {
        match course.next() {
            Next::Perform(step) => {
                done.push(step);
                // The first step and the first undoing fail too, and nobody minds.
                course.report(!matches!(step, 1 | 2 | 9));
            }
            Next::Done => panic!("a step that counts failed"),
            Next::Failed => break,
        }
    }
    assert_eq!(done, vec![1, 2, 9, 8]);

    let mut course = Procedure::new(vec![(1, false), (2, false)], vec![9]);
    course.report(true);
    course.report(true);
    assert!(matches!(course.next(), Next::Done));
    course.report(false);
    assert!(matches!(course.next(), Next::Done), "what is done stays done");
}

#[test]
fn a_run_hands_back_the_first_error_that_counted() {
    let failing = |bad: &[i32]| {
        let steps = vec![(1, true), (2, false), (3, false)];
        let mut run = Run::new(Procedure::new(steps, vec![9]));
        while let Next::Perform(step) = run.next() {
            run.note(if bad.contains(&step) {
                Err(FerrumError::internal(&format!("step {step}")))
            } else {
                Ok(())
            });
        }
        run.end()
    };
    assert!(failing(&[]).is_ok());
    assert!(failing(&[1]).is_ok(), "a failure that is tolerated stops nothing");
    assert_eq!(failing(&[1, 2, 3, 9]).unwrap_err().detail, "step 2");
    assert_eq!(failing(&[3, 9]).unwrap_err().detail, "step 3");
}

#[test]
fn names_are_checked_before_they_are_used() {
    assert_eq!(LinuxUser::parse("ft_abc").unwrap().as_str(), "ft_abc");
    for bad in ["", "Root", "a b", "a/b"] {
        assert!(LinuxUser::parse(bad).is_err(), "{bad:?}");
    }
    assert_eq!(AppName::parse("blog-2").unwrap().as_str(), "blog-2");
    assert!(AppName::parse("Blog").is_err());
    assert_eq!(UnitName::parse("nginx.service").unwrap().as_str(), "nginx.service");
    assert!(UnitName::parse("../x.service").is_err());
    assert_eq!(TenantPath::parse("apps/a.js").unwrap().as_str(), "apps/a.js");
    assert!(TenantPath::parse("/etc/passwd").is_err());
}

#[test]
fn paths_of_the_machine_are_put_together() {
    assert_eq!(home_path("ft_a"), "/home/ft_a");
    assert_eq!(app_dir_path("ft_a", "blog"), "/home/ft_a/apps/blog");
    assert_eq!(unit_path("x.service"), "/etc/systemd/system/x.service");
    assert_eq!(
        unit_dropin_path("x.service", "slice.conf"),
        "/etc/systemd/system/x.service.d/slice.conf"
    );
    let php = PhpVersion { major: 8, minor: 3 };
    assert_eq!((php.as_text(), php.compact_text()), ("8.3".to_string(), "83".to_string()));
    assert_eq!(page(None, None, 100), (100, 0));
    assert_eq!(page(Some(5), Some(10), 100), (5, 10));
}

#[test]
fn a_permission_is_held_or_refused() {
    let auth = AuthContext {
        actor_user_id: 1,
        acting_role: Role::Customer,
        tenant_scope: TenantScope::Customer { customer_id: 1 },
        permissions: vec![Permission::SiteRead],
        impersonator_id: None,
        request_id: "r".to_string(),
    };
    assert!(auth.require(Permission::SiteRead).is_ok());
    assert_eq!(
        auth.require(Permission::SiteManage).unwrap_err().code,
        ErrorCode::PermissionDenied
    );
}

#[test]
fn an_error_names_the_field_it_is_about() {
    let e = FerrumError::new(ErrorCode::InvalidInput, "bad").with_field("name");
    assert_eq!((e.code, e.detail.as_str()), (ErrorCode::InvalidInput, "bad"));
    assert_eq!(e.field.as_deref(), Some("name"));
    assert_eq!(FerrumError::not_found("site").detail, "site not found");
    assert_eq!(FerrumError::internal("x").code, ErrorCode::Internal);
}
