use base64::engine::general_purpose::STANDARD as BASE64;
use base64::Engine;
use ferrum_ops::error::{ErrorCode, FerrumError};
use ferrum_ops::model::{LinuxUser, Plan, Role, Subscription, SubscriptionStatus};
use ferrum_ops::terminal::keys::ops::{
    directory_made, ensure_can_manage_keys, plan_write, read_contents, resolve, Add, FileRequest,
    KeyView, List, Remove, AUTHORIZED_KEYS, AUTHORIZED_KEYS_MODE, SSH_DIR, SSH_DIR_MODE,
};
use ferrum_ops::terminal::keys::{
    has_keys_outside_block, parse_authorized_key, read_block, render_block, splice_block,
    truncate_for_message, SshPublicKey, BEGIN_MARKER, END_MARKER,
};

/// A real ed25519 public key blob: `string "ssh-ed25519"` then
/// `string <32 bytes>`. Built rather than pasted so the test says what the
/// bytes mean.
fn ed25519_blob(seed: u8) -> Vec<u8> {
    let mut blob = Vec::new();
    let name = b"ssh-ed25519";
    blob.extend_from_slice(&(name.len() as u32).to_be_bytes());
    blob.extend_from_slice(name);
    blob.extend_from_slice(&32u32.to_be_bytes());
    blob.extend_from_slice(&[seed; 32]);
    blob
}

fn ed25519_line(seed: u8, comment: &str) -> String {
    format!(
        "ssh-ed25519 {} {}",
        BASE64.encode(ed25519_blob(seed)),
        comment
    )
}

/// `string "ssh-rsa"`, `mpint e`, `mpint n` with `bits` of modulus.
fn rsa_blob(bits: usize) -> Vec<u8> {
    let mut blob = Vec::new();
    let name = b"ssh-rsa";
    blob.extend_from_slice(&(name.len() as u32).to_be_bytes());
    blob.extend_from_slice(name);
    let e = [0x01u8, 0x00, 0x01];
    blob.extend_from_slice(&(e.len() as u32).to_be_bytes());
    blob.extend_from_slice(&e);
    // A modulus of exactly `bits`: top bit set, so no leading-zero games.
    let mut n = vec![0u8; bits / 8];
    n[0] = 0x80;
    blob.extend_from_slice(&(n.len() as u32).to_be_bytes());
    blob.extend_from_slice(&n);
    blob
}

#[test]
fn a_well_formed_key_round_trips_through_the_parser() {
    let key = parse_authorized_key(&ed25519_line(7, "farzam@laptop")).unwrap();
    assert_eq!(key.algorithm, "ssh-ed25519");
    assert_eq!(key.comment.as_deref(), Some("farzam@laptop"));
    assert_eq!(key.bits(), Some(256));
    assert!(key.fingerprint().starts_with("SHA256:"));
    // The stored line is rebuilt from the parsed parts, so parsing it again
    // must give the same key.
    assert_eq!(parse_authorized_key(&key.line()).unwrap(), key);
}

#[test]
fn an_options_prefix_is_refused_so_a_key_cannot_smuggle_behaviour() {
    // `command=` replaces whatever the client asked to run; `environment=`
    // sets variables inside the session. Accepting either would let a
    // caller install behaviour rather than a credential.
    let body = ed25519_line(1, "laptop");
    for line in [
        format!("command=\"/bin/sh\" {body}"),
        format!("no-pty,command=\"curl evil.example\" {body}"),
        format!("from=\"10.0.0.0/8\" {body}"),
        format!("environment=\"LD_PRELOAD=/tmp/x.so\" {body}"),
        format!("permitopen=\"localhost:3306\" {body}"),
        format!("restrict,pty {body}"),
    ] {
        let err = parse_authorized_key(&line).unwrap_err();
        assert_eq!(err.code, ErrorCode::InvalidInput, "accepted: {line}");
    }
}

#[test]
fn a_newline_inside_a_key_cannot_smuggle_a_second_entry() {
    // One approved line would become two.
    let smuggled = format!(
        "{}\ncommand=\"/bin/sh\" {}",
        ed25519_line(1, "ok"),
        ed25519_line(2, "evil")
    );
    let err = parse_authorized_key(&smuggled).unwrap_err();
    assert_eq!(err.code, ErrorCode::InvalidInput);
    assert!(err.detail.contains("single line"));

    // Carriage returns and NULs are refused for the same reason.
    for bad in ["\r", "\0", "\u{7}"] {
        let line = format!("{}{bad}", ed25519_line(3, "x"));
        assert!(parse_authorized_key(&line).is_err(), "accepted {bad:?}");
    }
}

#[test]
fn a_key_body_that_disagrees_with_its_declared_type_is_refused() {
    let line = format!("ssh-rsa {}", BASE64.encode(ed25519_blob(9)));
    let err = parse_authorized_key(&line).unwrap_err();
    assert!(err.detail.contains("ssh-ed25519"), "{}", err.detail);
}

#[test]
fn weak_and_obsolete_keys_are_refused() {
    // 1024-bit RSA is a credential that looks fine and is not…
    let weak = format!("ssh-rsa {}", BASE64.encode(rsa_blob(1024)));
    let err = parse_authorized_key(&weak).unwrap_err();
    assert!(err.detail.contains("1024"), "{}", err.detail);

    let ok = format!("ssh-rsa {}", BASE64.encode(rsa_blob(2048)));
    assert_eq!(parse_authorized_key(&ok).unwrap().bits(), Some(2048));

    // …and DSA is not on the list at all.
    let mut blob = Vec::new();
    blob.extend_from_slice(&7u32.to_be_bytes());
    blob.extend_from_slice(b"ssh-dss");
    let dsa = format!("ssh-dss {}", BASE64.encode(&blob));
    assert!(parse_authorized_key(&dsa).is_err());
}

#[test]
fn junk_that_is_not_a_key_at_all_is_refused_without_panicking() {
    for line in [
        "",
        "   ",
        "ssh-ed25519",
        "ssh-ed25519 not-base64!!",
        "ssh-ed25519 AAAA",
        &format!("ssh-ed25519 {}", BASE64.encode([0xffu8, 0xff, 0xff, 0xff])),
        &"ssh-ed25519 ".repeat(4000),
    ] {
        assert!(parse_authorized_key(line).is_err(), "accepted {line:?}");
    }
}

#[test]
fn keys_outside_the_block_survive_a_rewrite_byte_for_byte() {
    // A tenant's own keys are not the panel's to delete.
    let mine = ed25519_line(1, "tenant-added-by-hand");
    let other = ed25519_line(2, "from-a-colleague");
    let existing = format!("{mine}\n\n# a comment of my own\n{other}\n");

    let block = format!("{}\n", ed25519_line(3, "panel"));
    let updated = splice_block(&existing, &block).unwrap();

    assert!(updated.contains(&mine));
    assert!(updated.contains(&other));
    assert!(updated.contains("# a comment of my own"));
    assert!(updated.contains(BEGIN_MARKER));
    assert!(updated.contains(END_MARKER));

    // And a second write replaces only the block.
    let block2 = format!(
        "{}\n{}\n",
        ed25519_line(3, "panel"),
        ed25519_line(4, "phone")
    );
    let twice = splice_block(&updated, &block2).unwrap();
    assert!(twice.contains(&mine));
    assert!(twice.contains(&other));
    assert_eq!(twice.matches(BEGIN_MARKER).count(), 1);
    assert_eq!(read_block(&twice).unwrap().len(), 2);
    assert!(has_keys_outside_block(&twice).unwrap());
}

#[test]
fn removing_the_last_key_removes_the_block_and_nothing_else() {
    let mine = ed25519_line(1, "mine");
    let existing = format!("{mine}\n");
    let with_block =
        splice_block(&existing, &format!("{}\n", ed25519_line(2, "panel"))).unwrap();
    let emptied = splice_block(&with_block, "").unwrap();

    assert_eq!(emptied, existing, "only the block may disappear");
    assert!(read_block(&emptied).unwrap().is_empty());
}

#[test]
fn every_character_outside_the_markers_is_kept() {
    let block = format!("{}\n", ed25519_line(2, "panel"));
    let rendered = format!("{BEGIN_MARKER}\n{block}{END_MARKER}\n");
    // Nothing to take out: nothing changes.
    for contents in ["", "a\r\n", "a", "a\n\n\n", " \n", "a\rb\n\t\n"] {
        assert_eq!(splice_block(contents, "").unwrap(), contents, "{contents:?}");
    }
    // What stands around a block is carried over with its own line endings.
    let other = format!("{}\n", ed25519_line(3, "other"));
    let (before, after) = ("# mine\r\n\r\nx \n", "\r\ny\r\n\n\n  \nz");
    let file = format!("{before}  {BEGIN_MARKER}\t\r\n{other}{END_MARKER} \n{after}");
    assert_eq!(splice_block(&file, &block).unwrap(), format!("{before}{rendered}{after}"));
    assert_eq!(splice_block(&file, " \n").unwrap(), format!("{before}{after}"));
    // A new block goes behind the file, set off by an empty line.
    let new = |contents: &str| splice_block(contents, &block).unwrap();
    assert_eq!(new("a\r\n"), format!("a\r\n\n{rendered}"));
    assert_eq!(new("a"), format!("a\n\n{rendered}"));
    assert_eq!(new("a\n\n"), format!("a\n\n{rendered}"));
    assert_eq!(new("a\n\r\n"), format!("a\n\r\n{rendered}"));
    assert_eq!(new("\n"), format!("\n{rendered}"));
}

#[test]
fn a_block_that_is_written_and_taken_out_leaves_the_file_as_it_was() {
    let block = format!("{}\n", ed25519_line(2, "panel"));
    let back = |contents: &str| {
        splice_block(&splice_block(contents, &block).unwrap(), "").unwrap()
    };
    for contents in ["", "a\n", "a\r\n", "a\n \n", "a\n\r\n", "\n", "a\n\n\n"] {
        assert_eq!(back(contents), contents, "{contents:?}");
    }
    // One empty line at the end cannot be told from the one that sets a block off.
    assert_eq!(back("a\n\n"), "a\n");
    // An ended line is not taken back.
    assert_eq!(back("a"), "a\n");
}

#[test]
fn each_marker_stands_once_and_the_last_write_wins() {
    let first = format!("{}\n", ed25519_line(2, "a"));
    let second = format!("{}\n{}\n", ed25519_line(3, "b"), ed25519_line(4, "c"));
    for contents in ["", "x\r\n", "x\n\n"] {
        let once = splice_block(contents, &first).unwrap();
        let twice = splice_block(&once, &second).unwrap();
        assert_eq!(twice, splice_block(contents, &second).unwrap());
        for file in [&once, &twice] {
            assert_eq!(file.matches(BEGIN_MARKER).count(), 1);
            assert_eq!(file.matches(END_MARKER).count(), 1);
        }
    }
}

#[test]
fn an_unterminated_block_is_refused_rather_than_guessed_at() {
    // Guessing where a truncated block ends would delete keys that let
    // somebody into their own account.
    let broken = format!("{BEGIN_MARKER}\n{}\n", ed25519_line(1, "x"));
    let err = read_block(&broken).unwrap_err();
    assert_eq!(err.code, ErrorCode::ConfigDrift);
    assert!(splice_block(&broken, "").is_err());

    let orphan_end = format!("{}\n{END_MARKER}\n", ed25519_line(1, "x"));
    assert_eq!(
        read_block(&orphan_end).unwrap_err().code,
        ErrorCode::ConfigDrift
    );
}

#[test]
fn a_hand_edited_line_inside_the_block_is_reported_not_swallowed() {
    let broken = format!(
        "{BEGIN_MARKER}\ncommand=\"/bin/sh\" {}\n{END_MARKER}\n",
        ed25519_line(1, "x")
    );
    let err = read_block(&broken).unwrap_err();
    assert_eq!(err.code, ErrorCode::InvalidInput);
}

#[test]
fn an_empty_file_gains_a_block_with_no_stray_blank_lines() {
    let out = splice_block("", &format!("{}\n", ed25519_line(1, "only"))).unwrap();
    assert!(out.starts_with(BEGIN_MARKER));
    assert!(out.ends_with(&format!("{END_MARKER}\n")));
    assert!(!out.contains("\n\n"));
    assert!(!has_keys_outside_block(&out).unwrap());
}

/// A tenant's home, as far as the key file goes.
#[derive(Default)]
struct Home {
    ssh_dir_mode: Option<u32>,
    file: Option<Vec<u8>>,
    file_mode: Option<u32>,
}

impl Home {
    fn read(&self) -> Result<String, FerrumError> {
        read_contents(match &self.file {
            Some(bytes) => Ok((false, bytes.clone())),
            None => Err(FerrumError::not_found("file")),
        })
    }

    fn write_keys(&mut self, existing: &str, keys: &[SshPublicKey]) {
        for request in plan_write(existing, &keys.to_vec()).unwrap() {
            match request {
                FileRequest::Mkdir { path } => {
                    assert_eq!(path, SSH_DIR);
                    self.ssh_dir_mode = Some(0o755);
                }
                FileRequest::Chmod { path, mode } if path == SSH_DIR => {
                    self.ssh_dir_mode = Some(mode);
                }
                FileRequest::Chmod { path, mode } => {
                    assert_eq!(path, AUTHORIZED_KEYS);
                    self.file_mode = Some(mode);
                }
                FileRequest::Write { path, text } => {
                    assert_eq!(path, AUTHORIZED_KEYS);
                    self.file = Some(text.into_bytes());
                }
            }
        }
    }
}

#[test]
fn a_key_survives_a_round_trip_through_a_real_authorized_keys_file() {
    let mut home = Home::default();
    // Nothing there yet is the normal state for an account that has never
    // added a key — not an error.
    assert_eq!(home.read().unwrap(), "");

    let first = parse_authorized_key(&ed25519_line(1, "laptop")).unwrap();
    home.write_keys("", std::slice::from_ref(&first));
    let back = home.read().unwrap();
    assert_eq!(read_block(&back).unwrap(), vec![first.clone()]);
    assert_eq!(home.ssh_dir_mode, Some(SSH_DIR_MODE));
    assert_eq!(home.file_mode, Some(AUTHORIZED_KEYS_MODE));
    assert_eq!((SSH_DIR_MODE, AUTHORIZED_KEYS_MODE), (0o700, 0o600));

    // A second key joins the block rather than replacing it.
    let second = parse_authorized_key(&ed25519_line(2, "phone")).unwrap();
    home.write_keys(&back, &[first.clone(), second.clone()]);
    assert_eq!(read_block(&home.read().unwrap()).unwrap().len(), 2);

    // And removing one leaves the other alone.
    let after = home.read().unwrap();
    home.write_keys(&after, std::slice::from_ref(&second));
    assert_eq!(read_block(&home.read().unwrap()).unwrap(), vec![second]);
}

#[test]
fn a_key_the_tenant_added_by_hand_survives_the_panel_writing_the_file() {
    let theirs = ed25519_line(9, "added-by-hand-over-sftp");
    let mut home = Home { file: Some(format!("{theirs}\n").into_bytes()), ..Home::default() };

    let existing = home.read().unwrap();
    let mine = parse_authorized_key(&ed25519_line(1, "panel")).unwrap();
    home.write_keys(&existing, std::slice::from_ref(&mine));

    let after = home.read().unwrap();
    assert!(after.contains(&theirs), "the tenant's own key was lost: {after}");
    assert_eq!(read_block(&after).unwrap(), vec![mine]);
    assert!(has_keys_outside_block(&after).unwrap());

    // Removing the panel's last key removes the block and leaves theirs.
    home.write_keys(&after, &[]);
    assert_eq!(home.read().unwrap(), format!("{theirs}\n"));
}

#[test]
fn a_file_that_is_not_valid_utf8_is_refused_rather_than_rewritten() {
    let home = Home { file: Some(vec![0xff, 0xfe, 0x00, 0x01]), ..Home::default() };
    assert_eq!(home.read().unwrap_err().code, ErrorCode::InvalidInput);
    let cut = read_contents(Ok((true, Vec::new())));
    assert_eq!(cut.unwrap_err().code, ErrorCode::InvalidInput);
    let broken = read_contents(Err(FerrumError::internal("helper died")));
    assert_eq!(broken.unwrap_err().detail, "helper died");
}

#[test]
fn a_fingerprint_is_the_unpadded_base64_of_a_sha256() {
    // The digest of the blob of one key, as `ssh-keygen -lf` would print it.
    let key = SshPublicKey { algorithm: "x".to_string(), blob: b"abc".to_vec(), comment: None };
    assert_eq!(
        key.fingerprint(),
        "SHA256:ungWv48Bz+pBQUDeXa4iI7ADYaOWF3qctBD/YfIAFa0"
    );
    assert_eq!(key.line(), "x YWJj");
}

#[test]
fn adding_and_removing_keys_keeps_the_block_honest() {
    let mut contents = String::new();
    for seed in 0..32u8 {
        let key = parse_authorized_key(&ed25519_line(seed, "k")).unwrap();
        let (out, now) = Add::apply(&contents, &key).unwrap();
        assert_eq!(out.count, usize::from(seed) + 1);
        assert_eq!(out.key.fingerprint, key.fingerprint());
        contents = splice_block(&contents, &render_block(&now)).unwrap();
    }
    let again = parse_authorized_key(&ed25519_line(4, "other comment")).unwrap();
    assert_eq!(Add::apply(&contents, &again).unwrap_err().code, ErrorCode::AlreadyExists);
    let more = parse_authorized_key(&ed25519_line(99, "k")).unwrap();
    assert_eq!(Add::apply(&contents, &more).unwrap_err().code, ErrorCode::QuotaExceeded);

    let (out, now) = Remove::apply(&contents, &again.fingerprint()).unwrap();
    assert!(out.removed);
    assert_eq!((out.count, now.len()), (31, 31));
    let (out, now) = Remove::apply(&contents, "SHA256:nothing").unwrap();
    assert!(!out.removed);
    assert_eq!(now.len(), 32);

    let seen = List::view(&contents).unwrap();
    assert_eq!(seen.keys.len(), 32);
    assert!(!seen.has_unmanaged_keys);
    assert_eq!(seen.keys[0].bits, Some(256));
    let view = KeyView::of(&more);
    assert_eq!(view.algorithm, "ssh-ed25519");
    assert_eq!(view.comment.as_deref(), Some("k"));
}

#[test]
fn a_home_that_is_roots_is_explained() {
    assert!(directory_made(Ok(())).is_ok());
    let there = FerrumError::new(ErrorCode::AlreadyExists, "there");
    assert!(directory_made(Err(there)).is_ok());
    let denied = FerrumError::new(ErrorCode::PermissionDenied, "EACCES");
    let err = directory_made(Err(denied)).unwrap_err();
    assert_eq!(err.code, ErrorCode::PermissionDenied);
    assert!(err.detail.contains("sftp.enable") && err.detail.ends_with("(EACCES)"));
    let other = directory_made(Err(FerrumError::internal("disk"))).unwrap_err();
    assert_eq!(other.code, ErrorCode::Internal);
}

#[test]
fn keys_are_a_plan_feature_for_everybody_but_an_administrator() {
    let plan = |can_ssh| Plan {
        id: 1,
        owner_user_id: None,
        name: "Basic".to_string(),
        max_sites: 1,
        max_dbs: 1,
        storage_mb: 1,
        can_ssh,
        can_cron: false,
        can_node_apps: false,
    };
    assert!(ensure_can_manage_keys(Role::Admin, &None).is_ok());
    assert!(ensure_can_manage_keys(Role::Customer, &Some(plan(true))).is_ok());
    for refused in [None, Some(plan(false))] {
        let err = ensure_can_manage_keys(Role::Customer, &refused).unwrap_err();
        assert_eq!(err.code, ErrorCode::PlanFeatureDisabled);
    }
    let mut subscription = Subscription {
        id: 1,
        customer_id: 2,
        plan_id: None,
        linux_user: "ft_test".to_string(),
        home_dir: "/home/ft_test".to_string(),
        status: SubscriptionStatus::Active,
        suspended_reason: None,
    };
    let user: LinuxUser = resolve(Role::Admin, &subscription, &None).unwrap();
    assert_eq!(user.as_str(), "ft_test");
    subscription.linux_user = "root; rm".to_string();
    assert!(resolve(Role::Admin, &subscription, &None).is_err());
}

#[test]
fn a_long_word_is_shortened_for_a_message() {
    assert_eq!(truncate_for_message("sh\u{7}ort"), "short");
    let long = "é".repeat(41);
    assert_eq!(truncate_for_message(&long), "é".repeat(40));
}
