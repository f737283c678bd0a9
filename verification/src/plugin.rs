//! Plugins: what one may be called, what it may extend, and what its manifest
//! must say.
//!
//! A plugin is a separate process under an account of its own. Its manifest is
//! checked once, when it is installed, and decides what the plugin can be asked
//! for; a running plugin cannot widen that.
pub mod accepting;
pub mod deciding;
pub mod laws;
pub mod minisign;
pub mod ops;
pub mod payload;
pub mod sidecar;

use vstd::prelude::*;
use vstd::string::StringExecFns;
use vstd::string::StrSliceExecFns;
use crate::error;
use crate::error::{ErrorCode, FerrumError, Problem};
use crate::model;
use crate::model::UnitName;
use crate::path;
use crate::text;

verus! {

/// The setting that allows unsigned plugins. It is off by default.
pub const ALLOW_UNSIGNED_KEY: &'static str = "plugins.allow_unsigned";

/// The setting that lists the keys a manifest may be signed with. It is empty by
/// default.
pub const TRUSTED_KEYS_KEY: &'static str = "plugins.trusted_keys";

/// The protocol that the panel and its plugins speak.
pub const PLUGIN_API_VERSION: u16 = 1;

/// How long a slug may be. With the prefix of its account it stays within the
/// 32 characters that an account name may have.
pub const MAX_SLUG_LEN: usize = 19;

pub const MAX_NAME_LEN: usize = 64;

pub const MAX_VERSION_LEN: usize = 32;

pub const MAX_FILES: usize = 2000;

/// How many bytes a manifest may have.
pub const MAX_MANIFEST: usize = 524288;

/// How many bytes a path in a manifest may have.
pub const MAX_ENTRY: usize = 255;

/// Where plugins are installed.
pub const PLUGIN_ROOT: &'static str = "/opt/ferrum/plugins";

/// Where tenants' homes are.
pub const HOME_ROOT: &'static str = "/home";

/// The first problem of two.
pub open spec fn or_else(a: Option<Problem>, b: Option<Problem>) -> Option<Problem> {
    if a is Some {
        a
    } else {
        b
    }
}

fn refused(detail: &str, field: &str) -> (r: FerrumError)
    ensures
        r@ == error::field_problem(ErrorCode::InvalidInput, detail@, field@),
{
    FerrumError::new(ErrorCode::InvalidInput, detail).with_field(field)
}

// ---------------------------------------------------------------------------
// Slugs
// ---------------------------------------------------------------------------

pub open spec fn is_slug_end(c: char) -> bool {
    text::is_lower(c) || text::is_digit(c)
}

pub open spec fn is_slug_char(c: char) -> bool {
    is_slug_end(c) || c == '-'
}

/// Why a text is no slug, if it is none.
pub open spec fn slug_problem(s: Seq<char>) -> Option<Problem> {
    if s.len() == 0 || vstd::utf8::encode_utf8(s).len() > MAX_SLUG_LEN {
        Some(
            error::field_problem(
                ErrorCode::InvalidInput,
                "a plugin slug must be 1-19 characters"@,
                "slug"@,
            ),
        )
    } else if !is_slug_end(s[0]) || !is_slug_end(s.last()) {
        Some(
            error::field_problem(
                ErrorCode::InvalidInput,
                "a plugin slug must start and end with a lowercase letter or digit"@,
                "slug"@,
            ),
        )
    } else if exists|i: int| 0 <= i < s.len() && !is_slug_char(#[trigger] s[i]) {
        Some(
            error::field_problem(
                ErrorCode::InvalidInput,
                "a plugin slug may contain only lowercase letters, digits and hyphens"@,
                "slug"@,
            ),
        )
    } else {
        None
    }
}

pub open spec fn is_slug(s: Seq<char>) -> bool {
    slug_problem(s) is None
}

/// A plugin's name on this machine.
#[derive(Debug, PartialEq, Eq)]
pub struct PluginSlug {
    slug: String,
}

impl View for PluginSlug {
    type V = Seq<char>;

    closed spec fn view(&self) -> Seq<char> {
        self.slug@
    }
}

impl Clone for PluginSlug {
    fn clone(&self) -> (r: Self)
        ensures
            r@ == self@,
    {
        proof {
            use_type_invariant(self);
        }
        PluginSlug { slug: self.slug.clone() }
    }
}

/// The account that a plugin runs under.
pub open spec fn run_user_of(slug: Seq<char>) -> Seq<char> {
    "ferrum-plug-"@ + slug
}

/// The unit of a plugin.
pub open spec fn unit_of(slug: Seq<char>) -> Seq<char> {
    "ferrum-plugin-"@ + slug + ".service"@
}

/// The slug alphabet is within that of unit names.
pub proof fn lemma_unit_of_slug(slug: Seq<char>)
    requires
        is_slug(slug),
    ensures
        model::is_unit_name(unit_of(slug)),
        slug.len() <= MAX_SLUG_LEN,
{
    reveal_strlit("ferrum-plugin-");
    reveal_strlit(".service");
    text::lemma_utf8_len(slug);
    let s = unit_of(slug);
    assert forall|i: int| 0 <= i < s.len() implies model::is_unit_char(#[trigger] s[i]) by {
        if i < 14 {
            assert(s[i] == "ferrum-plugin-"@[i]);
        } else if i < 14 + slug.len() {
            assert(s[i] == slug[i - 14]);
            assert(is_slug_char(slug[i - 14]));
        } else {
            assert(s[i] == ".service"@[i - 14 - slug.len()]);
        }
    }
}

impl PluginSlug {
    #[verifier::type_invariant]
    spec fn valid(self) -> bool {
        is_slug(self.slug@)
    }

    pub fn parse(input: &str) -> (r: Result<PluginSlug, FerrumError>)
        ensures
            match r {
                Ok(s) => is_slug(text::trim(input@)) && s@ == text::trim(input@),
                Err(e) => slug_problem(text::trim(input@)) == Some(e@),
            },
    {
        let s = text::trimmed(input);
        let v = text::chars_of(s.as_str());
        let n: usize = v.len();
        if n == 0 || text::utf8_len(s.as_str()) > MAX_SLUG_LEN {
            return Err(refused("a plugin slug must be 1-19 characters", "slug"));
        }
        let first = v[0];
        let last = v[n - 1];
        if !(text::char_is_lower(first) || text::char_is_digit(first)) || !(text::char_is_lower(
            last,
        ) || text::char_is_digit(last)) {
            return Err(
                refused(
                    "a plugin slug must start and end with a lowercase letter or digit",
                    "slug",
                ),
            );
        }
        let mut i: usize = 0;
        while i < n
            invariant
                i <= n,
                n == v@.len(),
                v@ == s@,
                s@ == text::trim(input@),
                s@.len() > 0,
                vstd::utf8::encode_utf8(s@).len() <= MAX_SLUG_LEN,
                is_slug_end(s@[0]),
                is_slug_end(s@.last()),
                forall|j: int| 0 <= j < i ==> is_slug_char(#[trigger] s@[j]),
            decreases n - i,
        {
            let c = v[i];
            if !(text::char_is_lower(c) || text::char_is_digit(c) || c == '-') {
                assert(!is_slug_char(s@[i as int]));
                return Err(
                    refused(
                        "a plugin slug may contain only lowercase letters, digits and hyphens",
                        "slug",
                    ),
                );
            }
            i = i + 1;
        }
        Ok(PluginSlug { slug: s })
    }

    pub fn as_str(&self) -> (r: &str)
        ensures
            r@ == self@,
            is_slug(r@),
    {
        proof {
            use_type_invariant(self);
        }
        self.slug.as_str()
    }

    /// The account that the plugin runs under. It fits in an account name.
    pub fn run_user(&self) -> (r: String)
        ensures
            r@ == run_user_of(self@),
            r@.len() <= 32,
    {
        proof {
            use_type_invariant(self);
            lemma_unit_of_slug(self@);
            reveal_strlit("ferrum-plug-");
        }
        let mut s = "ferrum-plug-".to_owned();
        s.append(self.slug.as_str());
        s
    }

    /// The plugin's unit.
    pub fn unit(&self) -> (r: UnitName)
        ensures
            r@ == unit_of(self@),
    {
        proof {
            use_type_invariant(self);
            lemma_unit_of_slug(self@);
        }
        let mut s = "ferrum-plugin-".to_owned();
        s.append(self.slug.as_str());
        s.append(".service");
        UnitName::known(s)
    }
}

// ---------------------------------------------------------------------------
// Places
// ---------------------------------------------------------------------------

/// Where a plugin is installed.
pub open spec fn plugin_dir_of(slug: Seq<char>) -> Seq<char> {
    PLUGIN_ROOT@ + "/"@ + slug
}

/// The socket a plugin answers on.
pub open spec fn plugin_socket_of(slug: Seq<char>) -> Seq<char> {
    "/run/ferrum-plugins/"@ + slug + "/plugin.sock"@
}

/// The runtime directory of a plugin's unit, below `/run`.
pub open spec fn plugin_runtime_of(slug: Seq<char>) -> Seq<char> {
    "ferrum-plugins/"@ + slug
}

pub fn plugin_dir(slug: &str) -> (r: String)
    ensures
        r@ == plugin_dir_of(slug@),
{
    let mut s = PLUGIN_ROOT.to_owned();
    s.append("/");
    s.append(slug);
    s
}

pub fn plugin_socket(slug: &str) -> (r: String)
    ensures
        r@ == plugin_socket_of(slug@),
{
    let mut s = "/run/ferrum-plugins/".to_owned();
    s.append(slug);
    s.append("/plugin.sock");
    s
}

pub fn plugin_runtime_dir(slug: &str) -> (r: String)
    ensures
        r@ == plugin_runtime_of(slug@),
{
    let mut s = "ferrum-plugins/".to_owned();
    s.append(slug);
    s
}

/// The unit file of a plugin.
pub fn plugin_unit(slug: &PluginSlug) -> (r: String)
    ensures
        r@ == model::unit_path_of(unit_of(slug@)),
{
    let unit = slug.unit();
    model::unit_path(unit.as_str())
}

/// The manifest in a plugin's tree.
pub fn plugin_manifest(dir: &str) -> (r: String)
    ensures
        r@ == model::join_path(dir@, "plugin.toml"@),
{
    model::joined_path(dir, "plugin.toml")
}

/// The manifest's signature in a plugin's tree.
pub fn plugin_signature(dir: &str) -> (r: String)
    ensures
        r@ == model::join_path(dir@, "plugin.toml.minisig"@),
{
    model::joined_path(dir, "plugin.toml.minisig")
}

// ---------------------------------------------------------------------------
// Extension points
// ---------------------------------------------------------------------------

/// What a plugin may extend.
#[derive(Debug, Clone, Copy, PartialEq, Eq, Structural)]
pub enum ExtensionPoint {
    /// Application definitions.
    AppStore,
    /// A DNS provider for certificates.
    DnsProvider,
    /// A place for backups.
    BackupTarget,
    /// A channel for alerts.
    Notifier,
    /// A page in the panel.
    UiPanel,
}

impl ExtensionPoint {
    pub open spec fn name(self) -> Seq<char> {
        match self {
            ExtensionPoint::AppStore => "app_store"@,
            ExtensionPoint::DnsProvider => "dns_provider"@,
            ExtensionPoint::BackupTarget => "backup_target"@,
            ExtensionPoint::Notifier => "notifier"@,
            ExtensionPoint::UiPanel => "ui_panel"@,
        }
    }

    /// The namespace of the methods that belong to a point.
    pub open spec fn methods(self) -> Seq<char> {
        match self {
            ExtensionPoint::AppStore => "app"@,
            ExtensionPoint::DnsProvider => "dns"@,
            ExtensionPoint::BackupTarget => "backup"@,
            ExtensionPoint::Notifier => "notify"@,
            ExtensionPoint::UiPanel => "ui"@,
        }
    }

    pub open spec fn points() -> Seq<ExtensionPoint> {
        seq![
            ExtensionPoint::AppStore,
            ExtensionPoint::DnsProvider,
            ExtensionPoint::BackupTarget,
            ExtensionPoint::Notifier,
            ExtensionPoint::UiPanel,
        ]
    }

    /// Every point there is.
    pub fn all() -> (r: Vec<ExtensionPoint>)
        ensures
            r@ == ExtensionPoint::points(),
    {
        vec![
            ExtensionPoint::AppStore,
            ExtensionPoint::DnsProvider,
            ExtensionPoint::BackupTarget,
            ExtensionPoint::Notifier,
            ExtensionPoint::UiPanel,
        ]
    }

    pub fn as_str(self) -> (r: &'static str)
        ensures
            r@ == self.name(),
    {
        match self {
            ExtensionPoint::AppStore => "app_store",
            ExtensionPoint::DnsProvider => "dns_provider",
            ExtensionPoint::BackupTarget => "backup_target",
            ExtensionPoint::Notifier => "notifier",
            ExtensionPoint::UiPanel => "ui_panel",
        }
    }

    pub fn namespace(self) -> (r: &'static str)
        ensures
            r@ == self.methods(),
    {
        match self {
            ExtensionPoint::AppStore => "app",
            ExtensionPoint::DnsProvider => "dns",
            ExtensionPoint::BackupTarget => "backup",
            ExtensionPoint::Notifier => "notify",
            ExtensionPoint::UiPanel => "ui",
        }
    }
}

pub open spec fn is_verb(s: Seq<char>) -> bool {
    s.len() > 0 && forall|i: int|
        0 <= i < s.len() ==> text::is_lower(#[trigger] s[i]) || s[i] == '_'
}

/// The first of the points whose namespace this is.
pub open spec fn owner_of(namespace: Seq<char>, points: Seq<ExtensionPoint>) -> Option<
    ExtensionPoint,
>
    decreases points.len(),
{
    if points.len() == 0 {
        None
    } else if points[0].methods() == namespace {
        Some(points[0])
    } else {
        owner_of(namespace, points.skip(1))
    }
}

/// The point that a method belongs to: its namespace, up to the first dot, is
/// the point's, and the rest is a verb. Any other method belongs to none.
pub open spec fn point_for(method: Seq<char>) -> Option<ExtensionPoint> {
    let k = text::before(method, '.') as int;
    if k >= method.len() || !is_verb(method.skip(k + 1)) {
        None
    } else {
        owner_of(method.take(k), ExtensionPoint::points())
    }
}

pub fn extension_for_method(method: &str) -> (r: Option<ExtensionPoint>)
    ensures
        r == point_for(method@),
{
    let v = text::chars_of(method);
    let n: usize = v.len();
    let k: usize = text::find_char(v.as_slice(), 0, n, '.');
    assert(v@.subrange(0, n as int) =~= method@);
    proof {
        text::lemma_before(method@, '.');
    }
    if k >= n {
        return None;
    }
    let ghost rest = method@.skip(k + 1);
    if k + 1 >= n {
        assert(!is_verb(rest));
        return None;
    }
    let mut i: usize = k + 1;
    while i < n
        invariant
            k + 1 <= i <= n,
            n == v@.len(),
            v@ == method@,
            rest == method@.skip(k + 1),
            k == text::before(method@, '.'),
            forall|j: int|
                0 <= j < i - k - 1 ==> text::is_lower(#[trigger] rest[j]) || rest[j] == '_',
        decreases n - i,
    {
        let c = v[i];
        assert(c == rest[i - k - 1]);
        if !(text::char_is_lower(c) || c == '_') {
            assert(!is_verb(rest));
            return None;
        }
        i = i + 1;
    }
    assert(is_verb(rest));
    let namespace = text::string_of(v.as_slice(), 0, k);
    assert(namespace@ =~= method@.take(k as int));
    let points = ExtensionPoint::all();
    let ghost all = ExtensionPoint::points();
    let mut p: usize = 0;
    assert(all.skip(0) =~= all);
    while p < points.len()
        invariant
            p <= points@.len(),
            points@ == all,
            all == ExtensionPoint::points(),
            namespace@ == method@.take(k as int),
            k == text::before(method@, '.'),
            k < method@.len(),
            is_verb(method@.skip(k + 1)),
            owner_of(namespace@, all) == owner_of(namespace@, all.skip(p as int)),
        decreases points@.len() - p,
    {
        assert(all.skip(p as int).skip(1) =~= all.skip(p + 1));
        assert(all.skip(p as int)[0] == all[p as int]);
        if text::same(points[p].namespace(), namespace.as_str()) {
            return Some(points[p]);
        }
        p = p + 1;
    }
    assert(all.skip(p as int).len() == 0);
    None
}

/// Whether a plugin that declared these points may be asked for a method.
pub open spec fn routes(declared: Seq<Seq<char>>, method: Seq<char>) -> bool {
    match point_for(method) {
        Some(p) => declared.contains(p.name()),
        None => false,
    }
}

pub fn route_allowed(declared: &Vec<String>, method: &str) -> (r: bool)
    ensures
        r == routes(text::texts(declared@), method@),
{
    match extension_for_method(method) {
        Some(p) => text::listed(declared, p.as_str()),
        None => false,
    }
}

// ---------------------------------------------------------------------------
// Paths
// ---------------------------------------------------------------------------

/// Characters that a unit file would read as syntax.
pub open spec fn is_syntax(c: char) -> bool {
    text::is_control(c) || text::is_space(c) || c == '%' || c == '"' || c == '\'' || c == '`' || c
        == '$' || c == '\\'
}

pub open spec fn first_syntax(s: Seq<char>) -> Option<char>
    decreases s.len(),
{
    if s.len() == 0 {
        None
    } else if is_syntax(s[0]) {
        Some(s[0])
    } else {
        first_syntax(s.skip(1))
    }
}

/// A character as a source text would escape it.
pub open spec fn escaped(c: char) -> Seq<char> {
    if c == '\t' {
        "\\t"@
    } else if c == '\r' {
        "\\r"@
    } else if c == '\n' {
        "\\n"@
    } else if c == '\'' {
        "\\'"@
    } else if c == '"' {
        "\\\""@
    } else if c == '\\' {
        "\\\\"@
    } else if 0x20 <= c as u32 <= 0x7e {
        seq![c]
    } else {
        "\\u{"@ + text::numeral(c as nat, 16) + "}"@
    }
}

fn escape(c: char) -> (r: String)
    ensures
        r@ == escaped(c),
{
    if c == '\t' {
        return "\\t".to_owned();
    }
    if c == '\r' {
        return "\\r".to_owned();
    }
    if c == '\n' {
        return "\\n".to_owned();
    }
    if c == '\'' {
        return "\\'".to_owned();
    }
    if c == '"' {
        return "\\\"".to_owned();
    }
    if c == '\\' {
        return "\\\\".to_owned();
    }
    let n: u32 = text::code_point(c);
    if 0x20 <= n && n <= 0x7e {
        let mut s = String::new();
        s.push(c);
        assert(s@ =~= seq![c]);
        return s;
    }
    let mut s = "\\u{".to_owned();
    let digits = text::numeral_of(n as u64, 16);
    s.append(digits.as_str());
    s.append("}");
    s
}

/// Why a path cannot stand in a manifest: it is empty or too long, leaves the
/// plugin's directory, or is syntax in a unit file.
pub open spec fn entry_problem(entry: Seq<char>) -> Option<Problem> {
    if entry.len() == 0 || vstd::utf8::encode_utf8(entry).len() > MAX_ENTRY {
        Some(
            error::field_problem(
                ErrorCode::InvalidPath,
                "a plugin path must be 1-255 characters"@,
                "entry"@,
            ),
        )
    } else if path::is_absolute(entry) {
        Some(
            error::field_problem(
                ErrorCode::InvalidPath,
                "a plugin path must be relative"@,
                "entry"@,
            ),
        )
    } else if path::starts_here(entry) || path::goes_up(entry) {
        Some(
            error::field_problem(
                ErrorCode::InvalidPath,
                "`"@ + entry + "` leaves the plugin directory"@,
                "entry"@,
            ),
        )
    } else {
        match first_syntax(entry) {
            Some(c) => Some(
                error::field_problem(
                    ErrorCode::InvalidPath,
                    "`"@ + entry + "` contains `"@ + escaped(c)
                        + "`, which systemd would read as syntax in ExecStart"@,
                    "entry"@,
                ),
            ),
            None => None,
        }
    }
}

fn misplaced(detail: &str) -> (r: FerrumError)
    ensures
        r@ == error::field_problem(ErrorCode::InvalidPath, detail@, "entry"@),
{
    FerrumError::new(ErrorCode::InvalidPath, detail).with_field("entry")
}

pub fn validate_entry(entry: &str) -> (r: Result<(), FerrumError>)
    ensures
        match r {
            Ok(()) => entry_problem(entry@) is None,
            Err(e) => entry_problem(entry@) == Some(e@),
        },
{
    let v = text::chars_of(entry);
    if v.len() == 0 || text::utf8_len(entry) > MAX_ENTRY {
        return Err(misplaced("a plugin path must be 1-255 characters"));
    }
    if path::absolute(entry) {
        return Err(misplaced("a plugin path must be relative"));
    }
    if path::here(entry) || path::up(entry) {
        let mut m = "`".to_owned();
        m.append(entry);
        m.append("` leaves the plugin directory");
        return Err(misplaced(m.as_str()));
    }
    let mut i: usize = 0;
    assert(v@.skip(0) =~= entry@);
    while i < v.len()
        invariant
            i <= v@.len(),
            v@ == entry@,
            first_syntax(entry@) == first_syntax(v@.skip(i as int)),
            0 < entry@.len(),
            vstd::utf8::encode_utf8(entry@).len() <= MAX_ENTRY,
            !path::is_absolute(entry@),
            !path::starts_here(entry@),
            !path::goes_up(entry@),
        decreases v@.len() - i,
    {
        let c = v[i];
        let ghost rest = v@.skip(i as int);
        assert(rest[0] == c);
        assert(rest.skip(1) =~= v@.skip(i + 1));
        if text::char_is_control(c) || text::char_is_space(c) || c == '%' || c == '"' || c == '\''
            || c == '`' || c == '$' || c == '\\' {
            let mut m = "`".to_owned();
            m.append(entry);
            m.append("` contains `");
            let e = escape(c);
            m.append(e.as_str());
            m.append("`, which systemd would read as syntax in ExecStart");
            return Err(misplaced(m.as_str()));
        }
        i = i + 1;
    }
    Ok(())
}

/// Why a plugin cannot be installed from a path. A tenant could rewrite a tree
/// in their home between its verification and its installation.
pub open spec fn source_problem(source: Seq<char>) -> Option<Problem> {
    let refused = |detail: Seq<char>|
        Some(error::field_problem(ErrorCode::InvalidPath, detail, "source"@));
    if !path::is_absolute(source) {
        refused("the plugin source must be an absolute path"@)
    } else if path::goes_up(source) {
        refused("the plugin source path must be canonical (no `.` or `..`)"@)
    } else if path::is_under(source, HOME_ROOT@) {
        refused(
            "a plugin cannot be installed from a tenant home: the tenant could rewrite the tree between verification and install"@,
        )
    } else if path::is_under(source, PLUGIN_ROOT@) {
        refused("stage a plugin outside the installed-plugin directory"@)
    } else {
        None
    }
}

pub fn validate_source(source: &str) -> (r: Result<String, FerrumError>)
    ensures
        match r {
            Ok(s) => source_problem(source@) is None && s@ == source@,
            Err(e) => source_problem(source@) == Some(e@),
        },
{
    let detail = if !path::absolute(source) {
        "the plugin source must be an absolute path"
    } else if path::up(source) {
        "the plugin source path must be canonical (no `.` or `..`)"
    } else if path::under(source, HOME_ROOT) {
        "a plugin cannot be installed from a tenant home: the tenant could rewrite the tree between verification and install"
    } else if path::under(source, PLUGIN_ROOT) {
        "stage a plugin outside the installed-plugin directory"
    } else {
        return Ok(source.to_owned());
    };
    Err(FerrumError::new(ErrorCode::InvalidPath, detail).with_field("source"))
}

// ---------------------------------------------------------------------------
// The files of a plugin
// ---------------------------------------------------------------------------

/// A file of the payload and its SHA-256.
#[derive(Debug)]
pub struct FileDigest {
    /// Relative to the root of the tree.
    pub path: String,
    /// In hexadecimal.
    pub digest: String,
}

impl View for FileDigest {
    type V = (Seq<char>, Seq<char>);

    open spec fn view(&self) -> (Seq<char>, Seq<char>) {
        (self.path@, self.digest@)
    }
}

pub open spec fn file_digests(v: Seq<FileDigest>) -> Seq<(Seq<char>, Seq<char>)> {
    v.map_values(|f: FileDigest| f@)
}

/// In the order of their paths, no path twice.
pub open spec fn ordered(s: Seq<(Seq<char>, Seq<char>)>) -> bool {
    forall|i: int, j: int|
        0 <= i < j < s.len() ==> #[trigger] text::text_le(s[i].0, s[j].0) && s[i].0 != s[j].0
}

/// The digest listed for a path.
pub open spec fn digest_for(s: Seq<(Seq<char>, Seq<char>)>, path: Seq<char>) -> Option<Seq<char>>
    decreases s.len(),
{
    if s.len() == 0 {
        None
    } else if s.last().0 == path {
        Some(s.last().1)
    } else {
        digest_for(s.drop_last(), path)
    }
}

pub open spec fn lists(s: Seq<(Seq<char>, Seq<char>)>, path: Seq<char>) -> bool {
    exists|i: int| 0 <= i < s.len() && (#[trigger] s[i]).0 == path
}

pub proof fn lemma_digest_for(s: Seq<(Seq<char>, Seq<char>)>, path: Seq<char>)
    ensures
        match digest_for(s, path) {
            Some(d) => exists|i: int| 0 <= i < s.len() && #[trigger] s[i] == (path, d),
            None => forall|i: int| 0 <= i < s.len() ==> (#[trigger] s[i]).0 != path,
        },
    decreases s.len(),
{
    if s.len() > 0 {
        let n = s.len() - 1;
        if s.last().0 == path {
            assert(s[n] == (path, s.last().1));
        } else {
            lemma_digest_for(s.drop_last(), path);
            assert forall|i: int| 0 <= i < n implies s.drop_last()[i] == #[trigger] s[i] by {}
            if digest_for(s, path) is Some {
                let d = digest_for(s, path)->0;
                let i = choose|i: int|
                    0 <= i < s.drop_last().len() && #[trigger] s.drop_last()[i] == (path, d);
                assert(s[i] == (path, d));
            }
        }
    }
}

/// The payload's files by path.
#[derive(Debug)]
pub struct Files {
    entries: Vec<FileDigest>,
}

impl View for Files {
    type V = Seq<(Seq<char>, Seq<char>)>;

    closed spec fn view(&self) -> Seq<(Seq<char>, Seq<char>)> {
        file_digests(self.entries@)
    }
}

impl Files {
    #[verifier::type_invariant]
    spec fn valid(self) -> bool {
        ordered(file_digests(self.entries@))
    }

    pub fn new() -> (r: Files)
        ensures
            r@ == Seq::<(Seq<char>, Seq<char>)>::empty(),
    {
        let entries: Vec<FileDigest> = Vec::new();
        let r = Files { entries };
        assert(r@ =~= Seq::<(Seq<char>, Seq<char>)>::empty());
        r
    }

    /// Lists a file, in place of what was listed for its path.
    pub fn insert(&mut self, path: String, digest: String)
        ensures
            ordered(final(self)@),
            forall|p: Seq<char>| #[trigger]
                digest_for(final(self)@, p) == (if p == path@ {
                    Some(digest@)
                } else {
                    digest_for(old(self)@, p)
                }),
    {
        proof {
            use_type_invariant(&*self);
        }
        let ghost before = self@;
        let mut entries: Vec<FileDigest> = Vec::new();
        std::mem::swap(&mut entries, &mut self.entries);
        let n: usize = entries.len();
        let mut at: usize = 0;
        while at < n && !text::text_le_of(path.as_str(), entries[at].path.as_str())
            invariant
                at <= n,
                n == entries@.len(),
                before == file_digests(entries@),
                forall|i: int| 0 <= i < at ==> !text::text_le(path@, (#[trigger] before[i]).0),
            decreases n - at,
        {
            assert(before[at as int].0 == entries@[at as int].path@);
            at = at + 1;
        }
        let found = at < n && text::same(path.as_str(), entries[at].path.as_str());
        let file = FileDigest { path, digest };
        let ghost pair = file@;
        if found {
            entries.set(at, file);
        } else {
            entries.insert(at, file);
        }
        let ghost after = file_digests(entries@);
        proof {
            assert(after =~= placed(before, at as int, pair, found));
            assert(belongs(before, at as int, pair.0, found));
            lemma_placed_is_ordered(before, at as int, pair, found);
            assert forall|p: Seq<char>| #[trigger]
                digest_for(after, p) == (if p == pair.0 {
                    Some(pair.1)
                } else {
                    digest_for(before, p)
                }) by {
                lemma_placed_digest(before, at as int, pair, found, p);
            }
        }
        self.entries = entries;
    }

    /// The files in the order of their paths.
    pub fn as_slice(&self) -> (r: &Vec<FileDigest>)
        ensures
            file_digests(r@) == self@,
            ordered(self@),
    {
        proof {
            use_type_invariant(self);
        }
        &self.entries
    }

    pub fn len(&self) -> (r: usize)
        ensures
            r == self@.len(),
    {
        self.entries.len()
    }

    pub fn contains(&self, path: &str) -> (r: bool)
        ensures
            r == lists(self@, path@),
    {
        let mut i: usize = 0;
        while i < self.entries.len()
            invariant
                i <= self.entries@.len(),
                forall|j: int| 0 <= j < i ==> (#[trigger] self@[j]).0 != path@,
            decreases self.entries@.len() - i,
        {
            assert(self@[i as int].0 == self.entries@[i as int].path@);
            if text::same(self.entries[i].path.as_str(), path) {
                return true;
            }
            i = i + 1;
        }
        false
    }
}

/// What listing a file makes of a table: the place is where the path belongs.
spec fn placed(
    before: Seq<(Seq<char>, Seq<char>)>,
    at: int,
    pair: (Seq<char>, Seq<char>),
    found: bool,
) -> Seq<(Seq<char>, Seq<char>)> {
    if found {
        before.update(at, pair)
    } else {
        before.insert(at, pair)
    }
}

spec fn belongs(
    before: Seq<(Seq<char>, Seq<char>)>,
    at: int,
    path: Seq<char>,
    found: bool,
) -> bool {
    &&& ordered(before)
    &&& 0 <= at <= before.len()
    &&& forall|i: int| 0 <= i < at ==> !text::text_le(path, (#[trigger] before[i]).0)
    &&& at < before.len() ==> text::text_le(path, before[at].0)
    &&& found == (at < before.len() && before[at].0 == path)
}

proof fn lemma_one_place(s: Seq<(Seq<char>, Seq<char>)>, i: int, j: int)
    requires
        ordered(s),
        0 <= i < s.len(),
        0 <= j < s.len(),
        s[i].0 == s[j].0,
    ensures
        i == j,
{
    if i < j {
        assert(text::text_le(s[i].0, s[j].0));
    } else if j < i {
        assert(text::text_le(s[j].0, s[i].0));
    }
}

proof fn lemma_ahead_of_place(
    before: Seq<(Seq<char>, Seq<char>)>,
    at: int,
    path: Seq<char>,
    found: bool,
    i: int,
)
    requires
        belongs(before, at, path, found),
        0 <= i < at,
    ensures
        text::text_le(before[i].0, path),
        before[i].0 != path,
{
    assert(!text::text_le(path, before[i].0));
    text::lemma_text_le_total(path, before[i].0);
    text::lemma_text_le_total(path, path);
}

proof fn lemma_behind_place(
    before: Seq<(Seq<char>, Seq<char>)>,
    at: int,
    path: Seq<char>,
    found: bool,
    i: int,
)
    requires
        belongs(before, at, path, found),
        at <= i < before.len(),
    ensures
        text::text_le(path, before[i].0),
        before[i].0 == path ==> found && i == at,
{
    if i > at {
        assert(text::text_le(before[at].0, before[i].0) && before[at].0 != before[i].0);
        text::lemma_text_le_transitive(path, before[at].0, before[i].0);
        if before[i].0 == path {
            text::lemma_text_le_total(path, before[at].0);
        }
    }
}

proof fn lemma_placed_is_ordered(
    before: Seq<(Seq<char>, Seq<char>)>,
    at: int,
    pair: (Seq<char>, Seq<char>),
    found: bool,
)
    requires
        belongs(before, at, pair.0, found),
    ensures
        ordered(placed(before, at, pair, found)),
{
    let after = placed(before, at, pair, found);
    let shift = if found {
        0int
    } else {
        1int
    };
    assert forall|i: int, j: int| 0 <= i < j < after.len() implies #[trigger] text::text_le(
        after[i].0,
        after[j].0,
    ) && after[i].0 != after[j].0 by {
        let bi = if i <= at {
            i
        } else {
            i - shift
        };
        let bj = if j <= at {
            j
        } else {
            j - shift
        };
        if i == at {
            assert(after[i] == pair);
            assert(after[j] == before[bj]);
            lemma_behind_place(before, at, pair.0, found, bj);
        } else if j == at {
            assert(after[j] == pair);
            assert(after[i] == before[bi]);
            lemma_ahead_of_place(before, at, pair.0, found, bi);
        } else {
            assert(after[i] == before[bi]);
            assert(after[j] == before[bj]);
            assert(text::text_le(before[bi].0, before[bj].0));
        }
    }
}

proof fn lemma_placed_digest(
    before: Seq<(Seq<char>, Seq<char>)>,
    at: int,
    pair: (Seq<char>, Seq<char>),
    found: bool,
    p: Seq<char>,
)
    requires
        belongs(before, at, pair.0, found),
        ordered(placed(before, at, pair, found)),
    ensures
        digest_for(placed(before, at, pair, found), p) == (if p == pair.0 {
            Some(pair.1)
        } else {
            digest_for(before, p)
        }),
{
    let after = placed(before, at, pair, found);
    let shift = if found {
        0int
    } else {
        1int
    };
    lemma_digest_for(after, p);
    lemma_digest_for(before, p);
    assert(after[at] == pair);
    match digest_for(after, p) {
        Some(d) => {
            let i = choose|i: int| 0 <= i < after.len() && #[trigger] after[i] == (p, d);
            if p == pair.0 {
                lemma_one_place(after, i, at);
            } else {
                let b = if i < at {
                    i
                } else {
                    i - shift
                };
                assert(before[b] == (p, d));
                let e = digest_for(before, p)->0;
                let k = choose|k: int| 0 <= k < before.len() && #[trigger] before[k] == (p, e);
                lemma_one_place(before, b, k);
            }
        },
        None => {
            if digest_for(before, p) is Some {
                let e = digest_for(before, p)->0;
                let k = choose|k: int| 0 <= k < before.len() && #[trigger] before[k] == (p, e);
                let a = if k < at {
                    k
                } else {
                    k + shift
                };
                if !(found && k == at) {
                    assert(after[a] == before[k]);
                }
            }
        },
    }
}

// ---------------------------------------------------------------------------
// Manifests
// ---------------------------------------------------------------------------

/// A page that a plugin contributes.
#[derive(Debug, PartialEq, Eq)]
pub struct UiMount {
    /// One segment below the panel's own prefix for plugins.
    pub path: String,
    pub label_en: String,
    pub label_fa: String,
}

/// What a plugin says of itself.
#[derive(Debug)]
pub struct Manifest {
    pub slug: String,
    pub name: String,
    pub version: String,
    /// The program to run, relative to where the plugin is installed.
    pub entry: String,
    pub api_version: u16,
    pub extensions: Vec<ExtensionPoint>,
    pub ui: Option<UiMount>,
    /// Every file of the payload.
    pub files: Files,
}

pub open spec fn has_control(s: Seq<char>) -> bool {
    exists|i: int| 0 <= i < s.len() && text::is_control(#[trigger] s[i])
}

/// A text that people will read: not blank, not too long, on one line.
pub open spec fn text_problem(field: Seq<char>, value: Seq<char>, max: nat) -> Option<Problem> {
    if text::trim(value).len() == 0 || vstd::utf8::encode_utf8(value).len() > max {
        Some(
            error::field_problem(
                ErrorCode::InvalidInput,
                "`"@ + field + "` must be 1-"@ + text::decimal(max) + " characters"@,
                field,
            ),
        )
    } else if has_control(value) {
        Some(
            error::field_problem(
                ErrorCode::InvalidInput,
                "`"@ + field + "` contains a control character"@,
                field,
            ),
        )
    } else {
        None
    }
}

fn check_text(field: &str, value: &str, max: usize) -> (r: Result<(), FerrumError>)
    ensures
        match r {
            Ok(()) => text_problem(field@, value@, max as nat) is None,
            Err(e) => text_problem(field@, value@, max as nat) == Some(e@),
        },
{
    let trimmed = text::trimmed(value);
    if trimmed.as_str().unicode_len() == 0 || text::utf8_len(value) > max {
        let mut m = "`".to_owned();
        m.append(field);
        m.append("` must be 1-");
        let n = text::decimal_of(max as u64);
        m.append(n.as_str());
        m.append(" characters");
        return Err(refused(m.as_str(), field));
    }
    let v = text::chars_of(value);
    let mut i: usize = 0;
    while i < v.len()
        invariant
            i <= v@.len(),
            v@ == value@,
            text::trim(value@).len() > 0,
            vstd::utf8::encode_utf8(value@).len() <= max,
            forall|j: int| 0 <= j < i ==> !text::is_control(#[trigger] value@[j]),
        decreases v@.len() - i,
    {
        if text::char_is_control(v[i]) {
            assert(text::is_control(value@[i as int]));
            let mut m = "`".to_owned();
            m.append(field);
            m.append("` contains a control character");
            return Err(refused(m.as_str(), field));
        }
        i = i + 1;
    }
    Ok(())
}

pub open spec fn version_problem(api_version: u16) -> Option<Problem> {
    if api_version == PLUGIN_API_VERSION {
        None
    } else {
        Some(
            error::field_problem(
                ErrorCode::InvalidInput,
                "this plugin speaks protocol "@ + text::decimal(api_version as nat)
                    + " but this panel speaks "@ + text::decimal(PLUGIN_API_VERSION as nat),
                "api_version"@,
            ),
        )
    }
}

fn check_version(api_version: u16) -> (r: Result<(), FerrumError>)
    ensures
        match r {
            Ok(()) => version_problem(api_version) is None,
            Err(e) => version_problem(api_version) == Some(e@),
        },
{
    if api_version == PLUGIN_API_VERSION {
        return Ok(());
    }
    let mut m = "this plugin speaks protocol ".to_owned();
    let a = text::decimal_of(api_version as u64);
    m.append(a.as_str());
    m.append(" but this panel speaks ");
    let b = text::decimal_of(PLUGIN_API_VERSION as u64);
    m.append(b.as_str());
    Err(refused(m.as_str(), "api_version"))
}

/// The first of the first `n` points that stands in the list before.
pub open spec fn twice(points: Seq<ExtensionPoint>, n: nat) -> Option<ExtensionPoint>
    decreases n,
{
    if n == 0 {
        None
    } else if twice(points, (n - 1) as nat) is Some {
        twice(points, (n - 1) as nat)
    } else if points.take(n - 1).contains(points[n - 1]) {
        Some(points[n - 1])
    } else {
        None
    }
}

pub open spec fn points_problem(points: Seq<ExtensionPoint>) -> Option<Problem> {
    if points.len() == 0 {
        Some(
            error::field_problem(
                ErrorCode::InvalidInput,
                "a plugin must declare at least one extension point"@,
                "extensions"@,
            ),
        )
    } else {
        match twice(points, points.len()) {
            Some(p) => Some(
                error::field_problem(
                    ErrorCode::InvalidInput,
                    "`"@ + p.name() + "` is declared twice"@,
                    "extensions"@,
                ),
            ),
            None => None,
        }
    }
}

/// Whether a point is among the first `n`.
fn declares(points: &Vec<ExtensionPoint>, n: usize, wanted: ExtensionPoint) -> (r: bool)
    requires
        n <= points@.len(),
    ensures
        r == points@.take(n as int).contains(wanted),
{
    let mut i: usize = 0;
    while i < n
        invariant
            i <= n <= points@.len(),
            forall|j: int| 0 <= j < i ==> #[trigger] points@[j] != wanted,
        decreases n - i,
    {
        if points[i] == wanted {
            assert(points@.take(n as int)[i as int] == wanted);
            return true;
        }
        i = i + 1;
    }
    false
}

fn check_points(points: &Vec<ExtensionPoint>) -> (r: Result<(), FerrumError>)
    ensures
        match r {
            Ok(()) => points_problem(points@) is None,
            Err(e) => points_problem(points@) == Some(e@),
        },
{
    if points.len() == 0 {
        return Err(refused("a plugin must declare at least one extension point", "extensions"));
    }
    let mut i: usize = 0;
    while i < points.len()
        invariant
            0 < points@.len(),
            i <= points@.len(),
            twice(points@, i as nat) is None,
        decreases points@.len() - i,
    {
        if declares(points, i, points[i]) {
            let mut m = "`".to_owned();
            m.append(points[i].as_str());
            m.append("` is declared twice");
            proof {
                lemma_twice_stays(points@, (i + 1) as nat, points@.len());
            }
            return Err(refused(m.as_str(), "extensions"));
        }
        i = i + 1;
    }
    Ok(())
}

proof fn lemma_twice_stays(points: Seq<ExtensionPoint>, m: nat, n: nat)
    requires
        m <= n,
        twice(points, m) is Some,
    ensures
        twice(points, n) == twice(points, m),
    decreases n,
{
    if m < n {
        lemma_twice_stays(points, m, (n - 1) as nat);
    }
}

pub open spec fn mount_problem(ui: Option<UiMount>, points: Seq<ExtensionPoint>) -> Option<
    Problem,
> {
    match ui {
        None => None,
        Some(ui) => if !points.contains(ExtensionPoint::UiPanel) {
            Some(
                error::field_problem(
                    ErrorCode::InvalidInput,
                    "a [ui] section needs the `ui_panel` extension point declared"@,
                    "ui"@,
                ),
            )
        } else if !is_slug(ui.path@) {
            Some(
                error::field_problem(
                    ErrorCode::InvalidInput,
                    "a UI mount path must be a single slug-shaped segment"@,
                    "ui.path"@,
                ),
            )
        } else {
            or_else(
                text_problem("ui.label_en"@, ui.label_en@, MAX_NAME_LEN as nat),
                text_problem("ui.label_fa"@, ui.label_fa@, MAX_NAME_LEN as nat),
            )
        },
    }
}

fn check_mount(ui: &Option<UiMount>, points: &Vec<ExtensionPoint>) -> (r: Result<(), FerrumError>)
    ensures
        match r {
            Ok(()) => mount_problem(*ui, points@) is None,
            Err(e) => mount_problem(*ui, points@) == Some(e@),
        },
{
    let ui = match ui {
        None => return Ok(()),
        Some(ui) => ui,
    };
    assert(points@.take(points@.len() as int) =~= points@);
    if !declares(points, points.len(), ExtensionPoint::UiPanel) {
        return Err(
            refused("a [ui] section needs the `ui_panel` extension point declared", "ui"),
        );
    }
    let segment = match PluginSlug::parse(ui.path.as_str()) {
        Ok(slug) => text::same(slug.as_str(), ui.path.as_str()),
        Err(_) => false,
    };
    if !segment {
        return Err(refused("a UI mount path must be a single slug-shaped segment", "ui.path"));
    }
    match check_text("ui.label_en", ui.label_en.as_str(), MAX_NAME_LEN) {
        Ok(()) => {},
        Err(e) => return Err(e),
    }
    check_text("ui.label_fa", ui.label_fa.as_str(), MAX_NAME_LEN)
}

pub open spec fn is_digest(s: Seq<char>) -> bool {
    s.len() == 64 && forall|i: int| 0 <= i < s.len() ==> text::is_hex_digit(#[trigger] s[i])
}

/// A file that cannot carry its own digest.
pub open spec fn is_outside_table(path: Seq<char>) -> bool {
    path == "plugin.toml"@ || path == "plugin.toml.minisig"@
}

pub open spec fn file_problem(path: Seq<char>, digest: Seq<char>) -> Option<Problem> {
    if entry_problem(path) is Some {
        entry_problem(path)
    } else if is_outside_table(path) {
        Some(
            error::field_problem(
                ErrorCode::InvalidInput,
                "the manifest and its signature are not payload entries: a file cannot carry its own digest"@,
                "files"@,
            ),
        )
    } else if !is_digest(digest) {
        Some(
            error::field_problem(
                ErrorCode::InvalidInput,
                "`"@ + path + "` has a digest that is not a hex SHA-256"@,
                "files"@,
            ),
        )
    } else {
        None
    }
}

/// The problem of the first of the first `n` files that has one.
pub open spec fn first_file_problem(files: Seq<(Seq<char>, Seq<char>)>, n: nat) -> Option<Problem>
    decreases n,
{
    if n == 0 {
        None
    } else {
        or_else(
            first_file_problem(files, (n - 1) as nat),
            file_problem(files[n - 1].0, files[n - 1].1),
        )
    }
}

proof fn lemma_file_problem_stays(files: Seq<(Seq<char>, Seq<char>)>, m: nat, n: nat)
    requires
        m <= n,
        first_file_problem(files, m) is Some,
    ensures
        first_file_problem(files, n) == first_file_problem(files, m),
    decreases n,
{
    if m < n {
        lemma_file_problem_stays(files, m, (n - 1) as nat);
    }
}

pub open spec fn files_problem(files: Seq<(Seq<char>, Seq<char>)>) -> Option<Problem> {
    if files.len() == 0 || files.len() > MAX_FILES {
        Some(
            error::field_problem(
                ErrorCode::InvalidInput,
                "[files] must list between 1 and 2000 files"@,
                "files"@,
            ),
        )
    } else {
        first_file_problem(files, files.len())
    }
}

fn check_digest(digest: &str) -> (r: bool)
    ensures
        r == is_digest(digest@),
{
    let v = text::chars_of(digest);
    if v.len() != 64 {
        return false;
    }
    let mut i: usize = 0;
    while i < v.len()
        invariant
            i <= v@.len(),
            v@ == digest@,
            v@.len() == 64,
            forall|j: int| 0 <= j < i ==> text::is_hex_digit(#[trigger] digest@[j]),
        decreases v@.len() - i,
    {
        if !text::char_is_hex_digit(v[i]) {
            assert(!text::is_hex_digit(digest@[i as int]));
            return false;
        }
        i = i + 1;
    }
    true
}

fn check_file(path: &str, digest: &str) -> (r: Result<(), FerrumError>)
    ensures
        match r {
            Ok(()) => file_problem(path@, digest@) is None,
            Err(e) => file_problem(path@, digest@) == Some(e@),
        },
{
    match validate_entry(path) {
        Ok(()) => {},
        Err(e) => return Err(e),
    }
    if text::same(path, "plugin.toml") || text::same(path, "plugin.toml.minisig") {
        return Err(
            refused(
                "the manifest and its signature are not payload entries: a file cannot carry its own digest",
                "files",
            ),
        );
    }
    if !check_digest(digest) {
        let mut m = "`".to_owned();
        m.append(path);
        m.append("` has a digest that is not a hex SHA-256");
        return Err(refused(m.as_str(), "files"));
    }
    Ok(())
}

fn check_files(files: &Files) -> (r: Result<(), FerrumError>)
    ensures
        match r {
            Ok(()) => files_problem(files@) is None,
            Err(e) => files_problem(files@) == Some(e@),
        },
{
    let n: usize = files.len();
    if n == 0 || n > MAX_FILES {
        return Err(refused("[files] must list between 1 and 2000 files", "files"));
    }
    let entries = files.as_slice();
    let mut i: usize = 0;
    while i < n
        invariant
            0 < n <= MAX_FILES,
            i <= n,
            n == entries@.len(),
            files@ == file_digests(entries@),
            first_file_problem(files@, i as nat) is None,
        decreases n - i,
    {
        assert(files@[i as int] == entries@[i as int]@);
        match check_file(entries[i].path.as_str(), entries[i].digest.as_str()) {
            Ok(()) => {},
            Err(e) => {
                proof {
                    lemma_file_problem_stays(files@, (i + 1) as nat, n as nat);
                }
                return Err(e);
            },
        }
        i = i + 1;
    }
    Ok(())
}

/// Why a manifest is refused, if it is: the first thing that is wrong with it.
pub open spec fn manifest_problem(m: Manifest) -> Option<Problem> {
    or_else(
        slug_problem(text::trim(m.slug@)),
        or_else(
            version_problem(m.api_version),
            or_else(
                text_problem("name"@, m.name@, MAX_NAME_LEN as nat),
                or_else(
                    text_problem("version"@, m.version@, MAX_VERSION_LEN as nat),
                    or_else(
                        entry_problem(m.entry@),
                        or_else(
                            points_problem(m.extensions@),
                            or_else(
                                mount_problem(m.ui, m.extensions@),
                                or_else(
                                    files_problem(m.files@),
                                    if lists(m.files@, m.entry@) {
                                        None
                                    } else {
                                        Some(
                                            error::field_problem(
                                                ErrorCode::InvalidInput,
                                                "the entry point must appear in [files]; an unlisted file is an unverified file"@,
                                                "entry"@,
                                            ),
                                        )
                                    },
                                ),
                            ),
                        ),
                    ),
                ),
            ),
        ),
    )
}

/// What a manifest's text comes to, given what decoding it came to.
pub open spec fn parse_problem(source: Seq<char>, decoded: Result<Manifest, String>) -> Option<
    Problem,
> {
    if vstd::utf8::encode_utf8(source).len() > MAX_MANIFEST {
        Some(error::problem(ErrorCode::InvalidInput, "plugin.toml is implausibly large"@))
    } else {
        match decoded {
            Err(why) => Some(error::problem(ErrorCode::InvalidInput, "plugin.toml: "@ + why@)),
            Ok(m) => manifest_problem(m),
        }
    }
}

/// The names of the first `n` points.
pub open spec fn point_names(points: Seq<ExtensionPoint>) -> Seq<Seq<char>> {
    points.map_values(|p: ExtensionPoint| p.name())
}

impl Manifest {
    /// Accepts a manifest, given its text and what decoding it came to.
    pub fn parse(source: &str, decoded: Result<Manifest, String>) -> (r: Result<
        (Manifest, PluginSlug),
        FerrumError,
    >)
        ensures
            match r {
                Ok((m, slug)) => parse_problem(source@, decoded) is None && decoded == Ok::<
                    Manifest,
                    String,
                >(m) && slug@ == text::trim(m.slug@),
                Err(e) => parse_problem(source@, decoded) == Some(e@),
            },
    {
        if text::utf8_len(source) > MAX_MANIFEST {
            return Err(
                FerrumError::new(ErrorCode::InvalidInput, "plugin.toml is implausibly large"),
            );
        }
        let m = match decoded {
            Ok(m) => m,
            Err(why) => {
                let mut s = "plugin.toml: ".to_owned();
                s.append(why.as_str());
                return Err(FerrumError::new(ErrorCode::InvalidInput, s.as_str()));
            },
        };
        let slug = match PluginSlug::parse(m.slug.as_str()) {
            Ok(s) => s,
            Err(e) => return Err(e),
        };
        match check_version(m.api_version) {
            Ok(()) => {},
            Err(e) => return Err(e),
        }
        match check_text("name", m.name.as_str(), MAX_NAME_LEN) {
            Ok(()) => {},
            Err(e) => return Err(e),
        }
        match check_text("version", m.version.as_str(), MAX_VERSION_LEN) {
            Ok(()) => {},
            Err(e) => return Err(e),
        }
        match validate_entry(m.entry.as_str()) {
            Ok(()) => {},
            Err(e) => return Err(e),
        }
        match check_points(&m.extensions) {
            Ok(()) => {},
            Err(e) => return Err(e),
        }
        match check_mount(&m.ui, &m.extensions) {
            Ok(()) => {},
            Err(e) => return Err(e),
        }
        match check_files(&m.files) {
            Ok(()) => {},
            Err(e) => return Err(e),
        }
        if !m.files.contains(m.entry.as_str()) {
            return Err(
                refused(
                    "the entry point must appear in [files]; an unlisted file is an unverified file",
                    "entry",
                ),
            );
        }
        Ok((m, slug))
    }

    /// The names of the points that the plugin declares.
    pub fn extension_names(&self) -> (r: Vec<String>)
        ensures
            text::texts(r@) == point_names(self.extensions@),
    {
        let mut out: Vec<String> = Vec::new();
        let mut i: usize = 0;
        assert(text::texts(out@) =~= point_names(self.extensions@.take(0)));
        while i < self.extensions.len()
            invariant
                i <= self.extensions@.len(),
                text::texts(out@) == point_names(self.extensions@.take(i as int)),
            decreases self.extensions@.len() - i,
        {
            let ghost before = out@;
            out.push(self.extensions[i].as_str().to_owned());
            assert(text::texts(out@) =~= text::texts(before).push(self.extensions@[i as int].name()));
            assert(point_names(self.extensions@.take(i + 1)) =~= point_names(
                self.extensions@.take(i as int),
            ).push(self.extensions@[i as int].name()));
            i = i + 1;
        }
        assert(self.extensions@.take(i as int) =~= self.extensions@);
        out
    }
}

} // verus!
