use base64::engine::general_purpose::STANDARD as B64;
use base64::Engine as _;
use blake2::{Blake2b512, Digest as _};
use ed25519_dalek::Signer;
use ferrum_ops::error::ErrorCode;
use ferrum_ops::model::{AuthContext, Family, Permission, Role, TenantScope, UnitState, UnitStatus};
use ferrum_ops::plugin::minisign;
use ferrum_ops::plugin::ops::{
    authenticate, unit_state, Disable, Enable, Install, InstallInput, InstallStep, Introduced, List,
    Remove, RemoveStep, SlugInput, Staged, SwitchStep,
};
use ferrum_ops::plugin::payload::{
    collect_files, digest_of, install_tree, verify_tree, EntryKind, TreeEntry,
};
use ferrum_ops::plugin::sidecar::{
    answer, call, call_failed, ensure_plugin_user, request, unit_context, CallFailure, PluginRecord,
    PluginResponse, PluginSignature,
};
use ferrum_ops::plugin::{
    extension_for_method, plugin_dir, plugin_unit, route_allowed, validate_entry, validate_source,
    ExtensionPoint, Files, Manifest, PluginSlug, UiMount, ALLOW_UNSIGNED_KEY, PLUGIN_API_VERSION,
    TRUSTED_KEYS_KEY,
};
use ferrum_ops::procedure::Next;
use ferrum_ops::registry::catalogue::SystemOp;
use ferrum_ops::registry::{ActorFacts, Execution, OpRegistry};
use std::collections::BTreeMap;

/// What the two operations of the system are declared as.
const SYSTEM: SystemOp =
    SystemOp { permission: Permission::ServerRead, execution: Execution::Immediate };

// -- slugs -------------------------------------------------------------------

#[test]
fn a_slug_that_could_become_a_path_or_a_unit_of_its_choosing_is_refused() {
    for hostile in [
        "../etc",
        "a/b",
        "a.service",
        "a.b",
        "UPPER",
        "-leading",
        "trailing-",
        "with space",
        "wi%th",
        "",
        "  ",
        "a\nb",
        "toolongtoolongtoolong",
    ] {
        assert!(
            PluginSlug::parse(hostile).is_err(),
            "accepted the slug {hostile:?}"
        );
    }
    assert_eq!(PluginSlug::parse("acme-dns").unwrap().as_str(), "acme-dns");
    assert_eq!(
        PluginSlug::parse(" acme-dns ").unwrap().as_str(),
        "acme-dns"
    );
}

#[test]
fn every_valid_slug_yields_a_valid_unit_name_and_a_short_enough_account() {
    for slug in ["a", "acme-dns", "0", "a-b-c-d-e-f-g-h-i-j"] {
        let parsed = PluginSlug::parse(slug).expect(slug);
        assert!(parsed.unit().as_str().ends_with(".service"));
        assert!(
            parsed.run_user().len() <= 32,
            "`{}` would not fit in a Unix account name",
            parsed.run_user()
        );
    }
}

#[test]
fn each_way_a_slug_is_wrong_has_its_own_words() {
    let said = |s: &str| PluginSlug::parse(s).unwrap_err();
    assert_eq!(said("").detail, "a plugin slug must be 1-19 characters");
    assert_eq!(
        said("-a").detail,
        "a plugin slug must start and end with a lowercase letter or digit"
    );
    assert_eq!(
        said("a_b").detail,
        "a plugin slug may contain only lowercase letters, digits and hyphens"
    );
    for wrong in ["", "-a", "a_b"] {
        assert_eq!(said(wrong).code, ErrorCode::InvalidInput);
        assert_eq!(said(wrong).field.as_deref(), Some("slug"));
    }
    // Nineteen characters fit, twenty do not; nor do ten that take twenty bytes.
    assert!(PluginSlug::parse("abcdefghijklmnopqrs").is_ok());
    assert!(PluginSlug::parse("abcdefghijklmnopqrst").is_err());
    assert_eq!(
        said("éééééééééé").detail,
        "a plugin slug must be 1-19 characters"
    );
}

// -- routing -----------------------------------------------------------------

#[test]
fn a_method_outside_the_contract_maps_to_no_extension_point() {
    for junk in [
        "",
        "dns",
        "dns.",
        ".present",
        "../../etc/passwd",
        "registry.register",
        "sys.ping",
        "dns.Present",
        "dns.present.extra",
        "dns.pre sent",
    ] {
        assert!(
            extension_for_method(junk).is_none(),
            "`{junk}` was routed somewhere"
        );
    }
    assert_eq!(
        extension_for_method("dns.present"),
        Some(ExtensionPoint::DnsProvider)
    );
    assert_eq!(
        extension_for_method("notify.send"),
        Some(ExtensionPoint::Notifier)
    );
}

#[test]
fn a_plugin_is_only_reachable_on_the_points_it_declared() {
    let declared = vec!["notifier".to_string()];
    assert!(route_allowed(&declared, "notify.send"));
    for elsewhere in [
        "dns.present",
        "backup.list",
        "app.definitions",
        "ui.panel",
        "sys.ping",
    ] {
        assert!(
            !route_allowed(&declared, elsewhere),
            "a notifier plugin was routed `{elsewhere}`"
        );
    }
}

#[test]
fn every_extension_point_owns_a_distinct_namespace() {
    let mut namespaces: Vec<&str> =
        ExtensionPoint::all().iter().map(|p| p.namespace()).collect();
    namespaces.sort_unstable();
    let before = namespaces.len();
    namespaces.dedup();
    assert_eq!(before, namespaces.len(), "two points share a namespace");
}

#[test]
fn each_point_is_reached_through_its_own_namespace_and_no_other() {
    for declared in ExtensionPoint::all() {
        for asked in ExtensionPoint::all() {
            let method = format!("{}.some_verb", asked.namespace());
            assert_eq!(extension_for_method(&method), Some(asked));
            assert_eq!(
                route_allowed(&vec![declared.as_str().to_string()], &method),
                declared == asked
            );
        }
    }
}

// -- entry paths -------------------------------------------------------------

#[test]
fn an_entry_path_that_leaves_the_tree_or_confuses_systemd_is_refused() {
    for hostile in [
        "/usr/bin/env",
        "../../usr/bin/env",
        "bin/../../etc/passwd",
        "./bin/plugin",
        "bin/my plugin",
        "bin/plugin%n",
        "bin/plugin\"",
        "bin/plugin$PATH",
        "bin/plugin\nExecStart=/bin/sh",
        "",
    ] {
        assert!(
            validate_entry(hostile).is_err(),
            "accepted the entry {hostile:?}"
        );
    }
    assert!(validate_entry("bin/plugin").is_ok());
    assert!(validate_entry("plugin").is_ok());
}

#[test]
fn a_refused_entry_shows_what_systemd_would_have_read() {
    let said = |s: &str| validate_entry(s).unwrap_err().detail;
    assert_eq!(
        said("a\nb"),
        "`a\nb` contains `\\n`, which systemd would read as syntax in ExecStart"
    );
    assert_eq!(
        said("a\u{85}b"),
        "`a\u{85}b` contains `\\u{85}`, which systemd would read as syntax in ExecStart"
    );
    assert_eq!(
        said("a%b"),
        "`a%b` contains `%`, which systemd would read as syntax in ExecStart"
    );
    for c in ['\t', '\r', '\'', '"', '\\', ' ', '`', '$', '\u{2003}', '\u{7f}'] {
        let shown: String = c.escape_default().collect();
        assert_eq!(
            said(&format!("a{c}")),
            format!("`a{c}` contains `{shown}`, which systemd would read as syntax in ExecStart")
        );
    }
    assert_eq!(said("a/../b"), "`a/../b` leaves the plugin directory");
    assert_eq!(said("/a"), "a plugin path must be relative");
    assert_eq!(said(&"a".repeat(256)), "a plugin path must be 1-255 characters");
    assert!(validate_entry(&"a".repeat(255)).is_ok());
    // A `.` that is not the first component names nothing.
    assert!(validate_entry("bin/./plugin").is_ok());
    assert!(validate_entry("bin//plugin").is_ok());
}

// -- manifests ---------------------------------------------------------------

fn manifest_toml(files: &BTreeMap<String, String>, extra: &str) -> String {
    let mut out = String::from(
        "slug = \"acme-dns\"\n\
         name = \"ACME DNS\"\n\
         version = \"1.0.0\"\n\
         entry = \"bin/plugin\"\n\
         api_version = 1\n\
         extensions = [\"dns_provider\"]\n",
    );
    out.push_str(extra);
    out.push_str("\n[files]\n");
    for (path, digest) in files {
        out.push_str(&format!("\"{path}\" = \"{digest}\"\n"));
    }
    out
}

fn one_file_manifest() -> (String, Vec<u8>) {
    let payload = b"#!/bin/true\n".to_vec();
    let mut files = BTreeMap::new();
    files.insert("bin/plugin".to_string(), digest_of(&payload));
    (manifest_toml(&files, ""), payload)
}

fn field(table: &toml::Table, name: &str) -> Result<String, String> {
    match table.get(name) {
        Some(toml::Value::String(s)) => Ok(s.clone()),
        _ => Err(format!("missing field `{name}`")),
    }
}

fn decode(source: &str) -> Result<Manifest, String> {
    let table: toml::Table = source.parse().map_err(|e: toml::de::Error| e.to_string())?;
    let mut extensions = Vec::new();
    if let Some(toml::Value::Array(names)) = table.get("extensions") {
        for name in names {
            let point = ExtensionPoint::all()
                .into_iter()
                .find(|p| Some(p.as_str()) == name.as_str())
                .ok_or("unknown variant")?;
            extensions.push(point);
        }
    }
    let ui = match table.get("ui") {
        Some(toml::Value::Table(ui)) => Some(UiMount {
            path: field(ui, "path")?,
            label_en: field(ui, "label_en")?,
            label_fa: field(ui, "label_fa")?,
        }),
        _ => None,
    };
    let mut files = Files::new();
    if let Some(toml::Value::Table(listed)) = table.get("files") {
        for (path, digest) in listed {
            files.insert(path.clone(), digest.as_str().unwrap().to_string());
        }
    }
    Ok(Manifest {
        slug: field(&table, "slug")?,
        name: field(&table, "name")?,
        version: field(&table, "version")?,
        entry: field(&table, "entry")?,
        api_version: table["api_version"].as_integer().unwrap() as u16,
        extensions,
        ui,
        files,
    })
}

fn parse(source: &str) -> Result<(Manifest, PluginSlug), ferrum_ops::error::FerrumError> {
    Manifest::parse(source, decode(source))
}

#[test]
fn a_well_formed_manifest_parses_into_its_declared_points() {
    let (text, _) = one_file_manifest();
    let (manifest, slug) = parse(&text).unwrap();
    assert_eq!(slug.as_str(), "acme-dns");
    assert_eq!(manifest.extensions, vec![ExtensionPoint::DnsProvider]);
    assert_eq!(manifest.extension_names(), vec!["dns_provider".to_string()]);
}

#[test]
fn a_manifest_for_another_protocol_version_is_refused_at_install_time() {
    let (text, _) = one_file_manifest();
    let bumped = text.replace("api_version = 1", "api_version = 2");
    let err = parse(&bumped).unwrap_err();
    assert_eq!(err.code, ErrorCode::InvalidInput);
    assert!(err.detail.contains("protocol"), "{}", err.detail);
    assert_eq!(
        err.detail,
        "this plugin speaks protocol 2 but this panel speaks 1"
    );
    assert_eq!(err.field.as_deref(), Some("api_version"));
}

#[test]
fn a_manifest_must_declare_at_least_one_extension_point() {
    let (text, _) = one_file_manifest();
    let none = text.replace("extensions = [\"dns_provider\"]", "extensions = []");
    assert!(parse(&none).is_err());
    let twice = text.replace(
        "extensions = [\"dns_provider\"]",
        "extensions = [\"dns_provider\", \"dns_provider\"]",
    );
    assert!(parse(&twice).is_err());
    assert_eq!(
        parse(&twice).unwrap_err().detail,
        "`dns_provider` is declared twice"
    );
}

#[test]
fn an_unlisted_entry_point_is_refused_because_it_would_be_unverified() {
    let payload = b"#!/bin/true\n".to_vec();
    let mut files = BTreeMap::new();
    files.insert("bin/other".to_string(), digest_of(&payload));
    let text = manifest_toml(&files, "");
    let err = parse(&text).unwrap_err();
    assert!(err.detail.contains("[files]"), "{}", err.detail);
}

#[test]
fn a_digest_that_is_not_a_sha256_is_refused() {
    let mut files = BTreeMap::new();
    files.insert("bin/plugin".to_string(), "not-a-digest".to_string());
    assert!(parse(&manifest_toml(&files, "")).is_err());
}

#[test]
fn a_ui_mount_needs_the_ui_panel_point_and_a_slug_shaped_path() {
    let (text, _) = one_file_manifest();
    let with_ui = text.replace(
        "\n[files]",
        "\n[ui]\npath = \"acme\"\nlabel_en = \"ACME\"\nlabel_fa = \"ای‌سی‌ام‌ای\"\n\n[files]",
    );
    // Declared `dns_provider` only: the mount is refused.
    assert!(parse(&with_ui).is_err());

    let both = with_ui.replace(
        "extensions = [\"dns_provider\"]",
        "extensions = [\"dns_provider\", \"ui_panel\"]",
    );
    assert!(parse(&both).is_ok());

    // A mount that tries to name a route outside its own namespace.
    let escaping = both.replace("path = \"acme\"", "path = \"../../admin\"");
    assert!(parse(&escaping).is_err());
    assert_eq!(
        parse(&escaping).unwrap_err().field.as_deref(),
        Some("ui.path")
    );
}

#[test]
fn a_ui_mount_path_is_a_slug_as_it_stands() {
    let source = |path: &str| {
        format!(
            "slug='a'\nname='n'\nversion='1'\nentry='p'\napi_version=1\n\
             extensions=['ui_panel']\n[ui]\npath='{path}'\nlabel_en='A'\nlabel_fa='A'\n\
             [files]\np='{}'\n",
            "0".repeat(64)
        )
    };
    assert!(parse(&source("acme")).is_ok());
    for path in [" acme ", " acme", "acme ", "", "Acme", "a/b"] {
        let err = parse(&source(path)).unwrap_err();
        assert_eq!(err.code, ErrorCode::InvalidInput, "{path:?}");
        assert_eq!(err.field.as_deref(), Some("ui.path"), "{path:?}");
    }
}

#[test]
fn every_other_fault_of_a_manifest_is_named() {
    let (text, _) = one_file_manifest();
    let said = |source: &str| parse(source).unwrap_err().detail;
    assert_eq!(
        said(&text.replace("name = \"ACME DNS\"", "name = \"  \"")),
        "`name` must be 1-64 characters"
    );
    assert_eq!(
        said(&text.replace("version = \"1.0.0\"", "version = \"1\\n2\"")),
        "`version` contains a control character"
    );
    assert_eq!(
        said(&text.replace("bin/plugin\"\n", "bin/../plugin\"\n")),
        "`bin/../plugin` leaves the plugin directory"
    );
    assert_eq!(
        said(&manifest_toml(&BTreeMap::new(), "")),
        "[files] must list between 1 and 2000 files"
    );
    let mut files = BTreeMap::new();
    files.insert("plugin.toml".to_string(), digest_of(b""));
    assert_eq!(
        said(&manifest_toml(&files, "")),
        "the manifest and its signature are not payload entries: a file cannot carry its own digest"
    );
    assert!(said("slug = 3").starts_with("plugin.toml: "));
    let long = "#".repeat(512 * 1024 + 1);
    assert_eq!(said(&long), "plugin.toml is implausibly large");
}

#[test]
fn files_are_kept_in_the_order_of_their_paths_and_listed_once() {
    let mut files = Files::new();
    for (p, d) in [("b", "1"), ("a/z", "2"), ("a", "3"), ("é", "4"), ("b", "5")] {
        files.insert(p.to_string(), d.to_string());
    }
    let listed: Vec<(String, String)> = files
        .as_slice()
        .iter()
        .map(|f| (f.path.clone(), f.digest.clone()))
        .collect();
    let mut expected: BTreeMap<String, String> = BTreeMap::new();
    for (p, d) in [("b", "1"), ("a/z", "2"), ("a", "3"), ("é", "4"), ("b", "5")] {
        expected.insert(p.to_string(), d.to_string());
    }
    assert_eq!(listed, expected.into_iter().collect::<Vec<_>>());
    assert_eq!(files.len(), 4);
    assert!(files.contains("a/z"));
    assert!(!files.contains("z"));
}

// -- payload verification ----------------------------------------------------

fn entry(path: &str, kind: EntryKind) -> TreeEntry {
    TreeEntry { path: path.to_string(), kind }
}

fn staged() -> (Vec<TreeEntry>, Manifest, Vec<Result<Vec<u8>, String>>) {
    let (text, payload) = one_file_manifest();
    let (manifest, _) = parse(&text).unwrap();
    let walk = vec![
        entry("bin", EntryKind::Directory),
        entry("bin/plugin", EntryKind::File),
        entry("plugin.toml", EntryKind::File),
    ];
    (walk, manifest, vec![Ok(payload)])
}

#[test]
fn a_tree_that_matches_its_manifest_verifies() {
    let (walk, manifest, contents) = staged();
    verify_tree(&walk, &manifest, &contents).unwrap();
}

#[test]
fn a_substituted_file_is_caught_by_its_digest() {
    let (walk, manifest, _) = staged();
    let contents = vec![Ok(b"#!/bin/false\n".to_vec())];
    let err = verify_tree(&walk, &manifest, &contents).unwrap_err();
    assert_eq!(err.code, ErrorCode::PermissionDenied);
}

#[test]
fn an_extra_file_nobody_signed_for_is_refused() {
    let (mut walk, manifest, contents) = staged();
    walk.push(entry("bin/backdoor", EntryKind::File));
    let err = verify_tree(&walk, &manifest, &contents).unwrap_err();
    assert!(err.detail.contains("backdoor"), "{}", err.detail);
}

#[test]
fn a_backslash_in_a_name_is_no_separator() {
    let payload = b"#!/bin/true\n".to_vec();
    let mut files = BTreeMap::new();
    files.insert("a/b".to_string(), digest_of(&payload));
    files.insert("bin/plugin".to_string(), digest_of(&payload));
    let (manifest, _) = parse(&manifest_toml(&files, "")).unwrap();
    let contents = vec![Ok(payload.clone()), Ok(payload)];
    let mut walk = vec![
        entry("a", EntryKind::Directory),
        entry("a/b", EntryKind::File),
        entry("bin", EntryKind::Directory),
        entry("bin/plugin", EntryKind::File),
        entry("plugin.toml", EntryKind::File),
    ];
    verify_tree(&walk, &manifest, &contents).unwrap();
    walk.push(entry("a\\b", EntryKind::File));
    let err = verify_tree(&walk, &manifest, &contents).unwrap_err();
    assert_eq!(err.code, ErrorCode::InvalidInput);
    assert_eq!(
        err.detail,
        "`a\\b` is in the payload but not in [files]; every file must be listed"
    );
}

#[test]
fn a_symlink_anywhere_in_the_payload_is_refused() {
    let (mut walk, manifest, contents) = staged();
    walk.push(entry("bin/secrets", EntryKind::Symlink));
    let err = verify_tree(&walk, &manifest, &contents).unwrap_err();
    assert_eq!(err.code, ErrorCode::InvalidPath);
    assert!(err.detail.contains("symlink"), "{}", err.detail);
}

#[test]
fn a_missing_listed_file_is_refused() {
    let (mut walk, manifest, _) = staged();
    walk.remove(1);
    let contents = vec![Err("No such file or directory".to_string())];
    assert!(verify_tree(&walk, &manifest, &contents).is_err());
    let err = verify_tree(&walk, &manifest, &contents).unwrap_err();
    assert_eq!(err.code, ErrorCode::NotFound);
}

#[test]
fn what_cannot_be_looked_at_or_is_no_file_is_refused() {
    let (_, manifest, contents) = staged();
    let said = |kind| {
        verify_tree(&vec![entry("x", kind)], &manifest, &contents).unwrap_err()
    };
    assert_eq!(said(EntryKind::Other).detail, "`x` is neither a file nor a directory");
    assert_eq!(said(EntryKind::Other).code, ErrorCode::InvalidPath);
    assert_eq!(said(EntryKind::Unread("denied".into())).detail, "could not read x: denied");
    assert_eq!(said(EntryKind::Unread("denied".into())).code, ErrorCode::NotFound);
    assert_eq!(said(EntryKind::Unknown("gone".into())).detail, "gone");
    assert_eq!(said(EntryKind::Unknown("gone".into())).code, ErrorCode::Internal);
    assert_eq!(
        collect_files(&vec![entry("a\\b", EntryKind::File)]).unwrap(),
        vec!["a\\b".to_string()]
    );
}

#[test]
fn a_digest_is_the_sha_256_in_lower_case_and_is_compared_without_case() {
    assert_eq!(
        digest_of(b"abc"),
        "ba7816bf8f01cfea414140de5dae2223b00361a396177a9cb410ff61f20015ad"
    );
    let payload = b"#!/bin/true\n".to_vec();
    let mut files = BTreeMap::new();
    files.insert("bin/plugin".to_string(), digest_of(&payload).to_uppercase());
    let (manifest, _) = parse(&manifest_toml(&files, "")).unwrap();
    verify_tree(&vec![], &manifest, &vec![Ok(payload)]).unwrap();
}

#[test]
fn an_installed_tree_is_readable_by_all_and_writable_by_root_alone() {
    let payload = b"#!/bin/true\n".to_vec();
    let mut files = BTreeMap::new();
    files.insert("bin/plugin".to_string(), digest_of(&payload));
    files.insert("README".to_string(), digest_of(&payload));
    let (manifest, _) = parse(&manifest_toml(&files, "")).unwrap();
    let placed: Vec<(String, u32)> =
        install_tree(&manifest).into_iter().map(|p| (p.path, p.mode)).collect();
    assert_eq!(
        placed,
        vec![
            ("README".to_string(), 0o644),
            ("bin/plugin".to_string(), 0o755),
            ("plugin.toml".to_string(), 0o644),
        ]
    );
    assert!(placed.iter().all(|p| p.1 & 0o022 == 0));
}

// -- source paths ------------------------------------------------------------

#[test]
fn a_plugin_cannot_be_installed_from_a_place_the_tenant_controls() {
    assert!(validate_source("/home/ft_ab12cd34/staged").is_err());
    assert!(validate_source("relative/path").is_err());
    assert!(validate_source("/opt/../home/ft_ab/x").is_err());
    assert!(
        validate_source(&plugin_dir("acme-dns")).is_err(),
        "the installed directory is not a staging area"
    );
    assert!(validate_source("/opt/staged/acme-dns").is_ok());
    assert!(validate_source("/home").is_err());
    assert!(validate_source("//home///x").is_err());
    assert_eq!(validate_source("/homestead/x").unwrap(), "/homestead/x");
}

// -- minisign ----------------------------------------------------------------

struct TestSigner {
    key: ed25519_dalek::SigningKey,
    key_id: [u8; 8],
}

impl TestSigner {
    fn new(seed: u8, key_id: [u8; 8]) -> Self {
        Self {
            key: ed25519_dalek::SigningKey::from_bytes(&[seed; 32]),
            key_id,
        }
    }

    fn public_key(&self) -> String {
        let mut raw = vec![0x45, 0x64];
        raw.extend_from_slice(&self.key_id);
        raw.extend_from_slice(self.key.verifying_key().as_bytes());
        B64.encode(raw)
    }

    fn sign_file(&self, message: &[u8], prehashed: bool, comment: &str) -> String {
        let (alg, signed): ([u8; 2], Vec<u8>) = if prehashed {
            let mut h = Blake2b512::new();
            h.update(message);
            ([0x45, 0x44], h.finalize().to_vec())
        } else {
            ([0x45, 0x64], message.to_vec())
        };
        let sig = self.key.sign(&signed).to_bytes();

        let mut line2 = alg.to_vec();
        line2.extend_from_slice(&self.key_id);
        line2.extend_from_slice(&sig);

        let mut global_message = sig.to_vec();
        global_message.extend_from_slice(comment.as_bytes());
        let global = self.key.sign(&global_message).to_bytes();

        format!(
            "untrusted comment: signature from a test key\n{}\ntrusted comment: {comment}\n{}\n",
            B64.encode(line2),
            B64.encode(global)
        )
    }
}

#[test]
fn a_signature_from_a_trusted_key_verifies_in_both_algorithms() {
    let signer = TestSigner::new(7, *b"ferrumid");
    let keys = vec![minisign::parse_public_key(&signer.public_key()).unwrap()];
    let message = b"slug = \"acme-dns\"\n";
    for prehashed in [true, false] {
        let sig = signer.sign_file(message, prehashed, "release 1.0.0");
        let comment = minisign::verify(message, &sig, &keys).unwrap();
        assert_eq!(comment, "release 1.0.0");
    }
}

#[test]
fn a_signature_from_an_untrusted_key_is_refused_by_key_id() {
    let ours = TestSigner::new(7, *b"ferrumid");
    let theirs = TestSigner::new(9, *b"stranger");
    let keys = vec![minisign::parse_public_key(&ours.public_key()).unwrap()];
    let message = b"slug = \"acme-dns\"\n";
    let err =
        minisign::verify(message, &theirs.sign_file(message, true, "x"), &keys).unwrap_err();
    assert_eq!(err.code, ErrorCode::PermissionDenied);
    assert!(err.detail.contains("does not trust"), "{}", err.detail);
}

#[test]
fn a_forged_key_id_does_not_help_an_attacker() {
    let ours = TestSigner::new(7, *b"ferrumid");
    let forger = TestSigner::new(9, *b"ferrumid");
    let keys = vec![minisign::parse_public_key(&ours.public_key()).unwrap()];
    let message = b"slug = \"acme-dns\"\n";
    let err =
        minisign::verify(message, &forger.sign_file(message, true, "x"), &keys).unwrap_err();
    assert_eq!(err.code, ErrorCode::PermissionDenied);
    assert!(err.detail.contains("does not match"), "{}", err.detail);
}

#[test]
fn a_tampered_manifest_fails_its_signature() {
    let signer = TestSigner::new(7, *b"ferrumid");
    let keys = vec![minisign::parse_public_key(&signer.public_key()).unwrap()];
    let sig = signer.sign_file(b"slug = \"acme-dns\"\n", true, "x");
    assert!(minisign::verify(b"slug = \"evil\"\n", &sig, &keys).is_err());
}

#[test]
fn an_edited_trusted_comment_is_caught() {
    let signer = TestSigner::new(7, *b"ferrumid");
    let keys = vec![minisign::parse_public_key(&signer.public_key()).unwrap()];
    let message = b"slug = \"acme-dns\"\n";
    let sig = signer.sign_file(message, true, "release 1.0.0");
    let edited = sig.replace(
        "trusted comment: release 1.0.0",
        "trusted comment: audited by nobody",
    );
    let err = minisign::verify(message, &edited, &keys).unwrap_err();
    assert!(err.detail.contains("trusted comment"), "{}", err.detail);
}

#[test]
fn a_malformed_signature_file_is_a_named_error_not_a_panic() {
    let signer = TestSigner::new(7, *b"ferrumid");
    let keys = vec![minisign::parse_public_key(&signer.public_key()).unwrap()];
    for junk in [
        "",
        "untrusted comment: only\n",
        "untrusted comment: x\nnot-base64!!\ntrusted comment: y\nz\n",
        "untrusted comment: x\nAAAA\ntrusted comment: y\nAAAA\n",
    ] {
        assert!(minisign::verify(b"m", junk, &keys).is_err(), "{junk:?}");
    }
}

#[test]
fn a_public_key_that_is_not_one_is_refused() {
    for junk in [
        String::new(),
        "hello".to_string(),
        B64.encode([0u8; 41]),
        B64.encode([9u8; 42]),
    ] {
        assert!(minisign::parse_public_key(&junk).is_err(), "{junk:?}");
    }
}

#[test]
fn a_public_key_file_is_read_past_its_comment() {
    let signer = TestSigner::new(7, *b"ferrumid");
    let file = format!("untrusted comment: minisign key\n\n  {}  \n", signer.public_key());
    let key = minisign::parse_public_key(&file).unwrap();
    assert_eq!(&key.key_id, b"ferrumid");
    assert_eq!(&key.key, signer.key.verifying_key().as_bytes());
    assert_eq!(
        minisign::parse_public_key("untrusted comment: x\n").unwrap_err().detail,
        "that is not a minisign public key"
    );
    assert_eq!(
        minisign::parse_public_key("hello").unwrap_err().detail,
        "a minisign public key must be base64"
    );
    assert_eq!(
        minisign::parse_public_key(&B64.encode([0u8; 41])).unwrap_err().detail,
        "a minisign public key decodes to 42 bytes"
    );
    assert_eq!(
        minisign::parse_public_key(&B64.encode([9u8; 42])).unwrap_err().detail,
        "unsupported minisign public key algorithm"
    );
}

#[test]
fn a_judgement_names_the_first_thing_that_is_wrong() {
    let signer = TestSigner::new(7, *b"ferrumid");
    let file = signer.sign_file(b"m", true, "c");
    let d = minisign::parse_signature(&file).unwrap();
    let judged = |trusted, valid, message, comment| {
        minisign::judge(&d, minisign::Findings { trusted, valid, message, comment })
    };
    assert!(judged(false, true, true, true).unwrap_err().detail.contains("does not trust"));
    assert_eq!(
        judged(true, false, false, false).unwrap_err().detail,
        "the trusted key is not a valid ed25519 key"
    );
    assert!(judged(true, true, false, false).unwrap_err().detail.contains("does not match"));
    assert!(judged(true, true, true, false).unwrap_err().detail.contains("tampered"));
    assert_eq!(judged(true, true, true, true).unwrap(), "c");
    let mut other = minisign::parse_signature(&file).unwrap();
    other.alg = [0x45, 0x00];
    let all = minisign::Findings { trusted: true, valid: true, message: true, comment: true };
    assert_eq!(
        minisign::judge(&other, all).unwrap_err().detail,
        "malformed minisign signature: unsupported signature algorithm"
    );
}

// -- the sidecar -------------------------------------------------------------

#[test]
fn a_call_round_trips_over_the_panels_own_framing() {
    let params: serde_json::Value = serde_json::from_str("{\"zone\":\"a.example\"}").unwrap();
    let seen = request("dns.present", params);
    assert_eq!(seen.method, "dns.present");
    assert_eq!(seen.v, PLUGIN_API_VERSION);
    assert_eq!(seen.params["zone"], "a.example");
    assert_eq!(seen.id.len(), 32);
    assert!(seen.id.bytes().all(|b| b.is_ascii_digit() || (b'a'..=b'f').contains(&b)));
    let data: serde_json::Value = serde_json::from_str("{\"records\":[\"a\"]}").unwrap();
    let data = answer(PluginResponse::Answer { data }).unwrap();
    assert_eq!(data["records"][0], "a");
}

#[test]
fn a_plugins_error_arrives_as_a_bounded_command_failure() {
    let err = answer(PluginResponse::Failure { message: "x".repeat(10_000) }).unwrap_err();
    assert_eq!(err.code, ErrorCode::CommandFailed);
    assert_eq!(
        err.detail.chars().count(),
        500,
        "third-party text on its way to an operator's screen must be bounded"
    );
    let short = answer(PluginResponse::Failure { message: "no".to_string() }).unwrap_err();
    assert_eq!(short.detail, "no");
}

#[test]
fn an_absent_sidecar_is_service_unavailable_not_a_hang() {
    let err = call_failed(&CallFailure::Unreachable("No such file".to_string()));
    assert_eq!(err.code, ErrorCode::ServiceUnavailable);
    assert_eq!(err.detail, "could not reach the plugin socket: No such file");
    let late = call_failed(&CallFailure::TimedOut);
    assert_eq!(late.code, ErrorCode::AgentTimeout);
    assert_eq!(late.detail, "the plugin did not answer within 15 seconds");
    assert_eq!(call_failed(&CallFailure::Closed).code, ErrorCode::ServiceUnavailable);
    assert_eq!(
        call_failed(&CallFailure::NotAResponse("eof".to_string())).code,
        ErrorCode::AgentProtocol
    );
    assert_eq!(call_failed(&CallFailure::Request("x".to_string())).code, ErrorCode::Internal);
}

fn record(slug: &str, extensions: &[&str], enabled: bool) -> PluginRecord {
    PluginRecord {
        slug: slug.into(),
        name: "n".into(),
        version: "1".into(),
        manifest: serde_json::Value::Null,
        extensions: extensions.iter().map(|e| (*e).to_string()).collect(),
        install_dir: plugin_dir(slug),
        run_user: format!("ferrum-plug-{slug}"),
        signature: PluginSignature::Minisign,
        enabled,
        last_error: None,
        installed_at: 0,
        updated_at: 0,
    }
}

#[test]
fn an_undeclared_method_is_refused_without_opening_a_socket() {
    let plugin = record("acme-dns", &["notifier"], true);
    let err = call(&plugin, "dns.present").unwrap_err();
    assert_eq!(err.code, ErrorCode::PermissionDenied);
    assert!(err.detail.contains("extension point"), "{}", err.detail);
}

#[test]
fn a_disabled_plugin_is_not_dialled_at_all() {
    let plugin = record("acme-dns", &["dns_provider"], false);
    let err = call(&plugin, "dns.present").unwrap_err();
    assert_eq!(err.code, ErrorCode::ServiceUnavailable);
    let enabled = record("acme-dns", &["dns_provider"], true);
    assert!(call(&enabled, "dns.present").unwrap().contains("acme-dns"));
}

// -- install refusals --------------------------------------------------------

fn introduce(
    signature: Option<String>,
    keys: Vec<String>,
    allow_unsigned: bool,
) -> Result<Introduced, ferrum_ops::error::FerrumError> {
    let (text, _) = one_file_manifest();
    let decoded = decode(&text);
    Install::introduce(
        &InstallInput { source: "/tmp/staged".to_string() },
        Staged { text: Ok(text), decoded, signature, keys, allow_unsigned },
    )
}

#[test]
fn an_unsigned_plugin_is_refused_unless_the_operator_opted_in() {
    let err = introduce(None, vec![], false).err().unwrap();
    assert_eq!(err.code, ErrorCode::PermissionDenied);
    assert!(
        err.detail.contains(ALLOW_UNSIGNED_KEY),
        "the refusal must name the setting that would allow it: {}",
        err.detail
    );
    let let_in = introduce(None, vec![], true).unwrap();
    let (walk, _, contents) = staged();
    let accepted = Install::accept(let_in, &walk, &contents).unwrap();
    assert_eq!(accepted.row.signature, PluginSignature::Unsigned);
    assert_eq!(accepted.trusted_comment, None);
}

#[test]
fn a_signed_plugin_with_no_trusted_keys_configured_is_refused() {
    let (text, _) = one_file_manifest();
    let signer = TestSigner::new(7, *b"ferrumid");
    let sig = signer.sign_file(text.as_bytes(), true, "release");
    let err = introduce(Some(sig), vec![], true).err().unwrap();
    assert!(
        err.detail.contains(TRUSTED_KEYS_KEY),
        "a signed plugin with nobody to trust must say so: {}",
        err.detail
    );
}

#[test]
fn a_signature_by_a_stranger_is_refused_even_with_keys_configured() {
    let (text, _) = one_file_manifest();
    let ours = TestSigner::new(7, *b"ferrumid");
    let stranger = TestSigner::new(9, *b"stranger");
    let sig = stranger.sign_file(text.as_bytes(), true, "release");
    let err = introduce(Some(sig), vec![ours.public_key()], true).err().unwrap();
    assert_eq!(err.code, ErrorCode::PermissionDenied);
}

#[test]
fn a_signed_plugin_is_let_in_with_its_comment() {
    let (text, _) = one_file_manifest();
    let ours = TestSigner::new(7, *b"ferrumid");
    let sig = ours.sign_file(text.as_bytes(), true, "release 1.0.0");
    let let_in = introduce(Some(sig.clone()), vec![ours.public_key()], false).unwrap();
    assert_eq!(let_in.manifest().slug, "acme-dns");
    let (walk, _, contents) = staged();
    let accepted = Install::accept(let_in, &walk, &contents).unwrap();
    assert_eq!(accepted.trusted_comment.as_deref(), Some("release 1.0.0"));
    assert_eq!(accepted.row.signature, PluginSignature::Minisign);
    assert_eq!(accepted.row.run_user, "ferrum-plug-acme-dns");
    assert_eq!(accepted.row.install_dir, plugin_dir("acme-dns"));
    assert_eq!(accepted.row.extensions, vec!["dns_provider".to_string()]);
    // The tree is still checked.
    let again = introduce(Some(sig), vec![ours.public_key()], false).unwrap();
    let err = Install::accept(again, &walk, &vec![Ok(b"other".to_vec())]).err().unwrap();
    assert_eq!(err.code, ErrorCode::PermissionDenied);
}

#[test]
fn a_key_that_is_no_key_is_named_before_anything_is_verified() {
    let r = authenticate("/x", "m", &Some(String::new()), &vec!["junk!".to_string()], true);
    assert_eq!(r.unwrap_err().detail, "a minisign public key must be base64");
}

#[test]
fn a_manifest_that_cannot_be_read_is_not_found() {
    let staged = Staged {
        text: Err("No such file".to_string()),
        decoded: Err(String::new()),
        signature: None,
        keys: vec![],
        allow_unsigned: true,
    };
    let err = Install::introduce(&InstallInput { source: "/opt/x".to_string() }, staged)
        .err()
        .unwrap();
    assert_eq!(err.code, ErrorCode::NotFound);
    assert_eq!(err.detail, "plugin.toml: No such file");
}

#[test]
fn a_customer_cannot_install_or_enable_a_plugin() {
    let permissions = vec![Permission::SiteRead, Permission::SiteManage];
    let claimed = AuthContext {
        actor_user_id: 3,
        acting_role: Role::Customer,
        tenant_scope: TenantScope::Customer { customer_id: 3 },
        permissions: permissions.clone(),
        impersonator_id: None,
        request_id: "req-test".to_string(),
    };
    let actor = Some(ActorFacts { can_log_in: true, role: Role::Customer, permissions });
    let reg = OpRegistry::new(SYSTEM, SYSTEM);
    for op in ["plugin.install", "plugin.enable", "plugin.remove"] {
        let err = reg.dispatch(op, &claimed, &actor).unwrap_err();
        assert_eq!(err.code, ErrorCode::PermissionDenied, "{op}");
    }
}

#[test]
fn a_plugins_unit_runs_what_is_installed_as_its_own_account() {
    let (text, _) = one_file_manifest();
    let (manifest, slug) = parse(&text).unwrap();
    let dir = plugin_dir(slug.as_str());
    let context = unit_context(&slug, &manifest, &dir, &slug.run_user());
    assert_eq!(context.run_user, "ferrum-plug-acme-dns");
    assert_eq!(context.exec_start, format!("{dir}/bin/plugin"));
    assert_eq!(context.memory_max_mb, 128);
    assert_eq!(context.api_version, 1);
    assert!(plugin_unit(&slug).ends_with(".service"));
}

#[test]
fn an_account_is_made_once_and_nobody_logs_in_to_it() {
    let slug = PluginSlug::parse("acme-dns").unwrap();
    assert_eq!(ensure_plugin_user(Family::Debian, &slug, true), None);
    let argv = ensure_plugin_user(Family::Rhel, &slug, false).unwrap();
    assert_eq!(
        argv,
        vec![
            "--system",
            "--no-create-home",
            "--shell",
            "/sbin/nologin",
            "--comment",
            "Ferrum plugin",
            "--",
            "ferrum-plug-acme-dns"
        ]
    );
    let debian = ensure_plugin_user(Family::Debian, &slug, false).unwrap();
    assert_eq!(debian[3], "/usr/sbin/nologin");
}

// -- order -------------------------------------------------------------------

#[test]
fn a_failed_installation_takes_away_what_it_made() {
    let mut course = Install::course();
    let mut done = Vec::new();
    while let Next::Perform(step) = course.next() {
        course.report(step != InstallStep::WriteUnit);
        done.push(step);
    }
    assert!(matches!(course.next(), Next::Failed));
    assert_eq!(
        done,
        vec![
            InstallStep::EnsureAccount,
            InstallStep::InstallTree,
            InstallStep::WriteUnit,
            InstallStep::DeleteRow,
            InstallStep::RemoveTree,
            InstallStep::RemoveUnit,
        ]
    );
}

#[test]
fn a_plugin_is_marked_before_it_stops_and_after_it_starts() {
    let slug = SlugInput { slug: "acme-dns".to_string() };
    assert_eq!(Enable::check(&slug, false).unwrap_err().detail, "plugin not found");
    assert_eq!(Enable::check(&slug, true).unwrap().as_str(), "acme-dns");
    assert!(Disable::check(&SlugInput { slug: "A".to_string() }).is_err());
    let mut on = Enable::course();
    assert!(matches!(on.next(), Next::Perform(SwitchStep::StartUnit)));
    on.report(false);
    assert!(matches!(on.next(), Next::Failed));
    let mut off = Disable::course();
    assert!(matches!(off.next(), Next::Perform(SwitchStep::MarkDisabled)));
    off.report(true);
    assert!(matches!(off.next(), Next::Perform(SwitchStep::StopUnit)));
    assert_eq!(
        Disable::stop_failed("x").detail,
        "the plugin is disabled in the panel, but its unit did not stop: x"
    );
    assert_eq!(Enable::start_failed("x").code, ErrorCode::ServiceActionFailed);
    let status = UnitStatus { state: UnitState::Active, memory_bytes: None };
    let out = Enable::finish(record("acme-dns", &[], true), Some(status));
    assert_eq!(out.unit_state, "active");
    assert_eq!(unit_state(None), "unknown");
}

#[test]
fn a_removal_never_leaves_the_plugin_directory() {
    let run = |install_dir: &str| {
        let mut r = record("acme-dns", &[], true);
        r.install_dir = install_dir.to_string();
        let mut course = Remove::course(&r, true, true);
        let mut done = Vec::new();
        while let Next::Perform(step) = course.next() {
            course.report(step != RemoveStep::StopUnit);
            done.push(step);
        }
        done
    };
    assert_eq!(
        run(&plugin_dir("acme-dns")),
        vec![
            RemoveStep::StopUnit,
            RemoveStep::RemoveUnit,
            RemoveStep::Reload,
            RemoveStep::RemoveTree,
            RemoveStep::DeleteRow,
        ]
    );
    assert!(!run("/home/ft_ab12cd34").contains(&RemoveStep::RemoveTree));
    let out = Remove::finish(&PluginSlug::parse("a").unwrap(), &record("a", &[], true));
    assert_eq!(out.account_left_behind, "ferrum-plug-a");
    assert_eq!(Remove::removal_failed(RemoveStep::RemoveUnit, "x").detail, "removing the unit: x");
    assert_eq!(Remove::removal_failed(RemoveStep::RemoveTree, "x").detail, "removing the tree: x");
}

#[test]
fn a_listing_says_what_can_be_extended_and_who_is_trusted() {
    let out = List::view_of(vec![record("a", &[], true)], false, &vec!["k".to_string()]);
    assert_eq!(out.plugins.len(), 1);
    assert_eq!(
        out.extension_points,
        vec!["app_store", "dns_provider", "backup_target", "notifier", "ui_panel"]
    );
    assert_eq!(out.api_version, 1);
    assert_eq!(out.trusted_key_count, 1);
    assert!(!out.allow_unsigned);
}
