//! The operations on plugins.
use vstd::prelude::*;
use vstd::string::StringExecFns;
use crate::error;
use crate::error::{ErrorCode, FerrumError, Problem};
use crate::model;
use crate::model::{UnitState, UnitStatus};
use crate::path;
use crate::plugin;
use crate::plugin::minisign;
use crate::plugin::minisign::{Key, PublicKey};
use crate::plugin::payload;
use crate::plugin::payload::TreeEntry;
use crate::plugin::sidecar::{PluginRecord, PluginSignature};
use crate::plugin::{ExtensionPoint, Manifest, PluginSlug};
use crate::plugin::{ALLOW_UNSIGNED_KEY, PLUGIN_API_VERSION, PLUGIN_ROOT, TRUSTED_KEYS_KEY};
use crate::procedure::{Course, Procedure};
use crate::text;

verus! {

// ---------------------------------------------------------------------------
// plugin.list
// ---------------------------------------------------------------------------

#[derive(Debug)]
pub struct ListInput {}

#[derive(Debug)]
pub struct ListOutput {
    pub plugins: Vec<PluginRecord>,
    /// The names of the points that a plugin may extend.
    pub extension_points: Vec<String>,
    pub api_version: u16,
    pub allow_unsigned: bool,
    pub trusted_key_count: usize,
}

/// `plugin.list`.
pub struct List;

impl List {
    pub fn view_of(plugins: Vec<PluginRecord>, allow_unsigned: bool, keys: &Vec<String>) -> (r:
        ListOutput)
        ensures
            r.plugins == plugins,
            text::texts(r.extension_points@) == plugin::point_names(ExtensionPoint::points()),
            r.api_version == PLUGIN_API_VERSION,
            r.allow_unsigned == allow_unsigned,
            r.trusted_key_count == keys@.len(),
    {
        let points = ExtensionPoint::all();
        let mut names: Vec<String> = Vec::new();
        let mut i: usize = 0;
        while i < points.len()
            invariant
                i <= points@.len(),
                names@.len() == i,
                forall|j: int| 0 <= j < i ==> (#[trigger] names@[j])@ == points@[j].name(),
            decreases points@.len() - i,
        {
            names.push(points[i].as_str().to_owned());
            i = i + 1;
        }
        assert(text::texts(names@) =~= plugin::point_names(points@));
        ListOutput {
            plugins,
            extension_points: names,
            api_version: PLUGIN_API_VERSION,
            allow_unsigned,
            trusted_key_count: keys.len(),
        }
    }
}

// ---------------------------------------------------------------------------
// plugin.install
// ---------------------------------------------------------------------------

#[derive(Debug)]
pub struct InstallInput {
    /// A staged tree.
    pub source: String,
}

#[derive(Debug)]
pub struct InstallOutput {
    pub plugin: PluginRecord,
    pub trusted_comment: Option<String>,
}

/// `plugin.install`.
pub struct Install;

/// The row of a plugin that is being installed.
#[derive(Debug)]
pub struct NewPlugin {
    pub slug: String,
    pub name: String,
    pub version: String,
    pub extensions: Vec<String>,
    pub install_dir: String,
    pub run_user: String,
    pub signature: PluginSignature,
}

/// The keys that the first `n` texts hold, unless one of them holds none.
pub open spec fn trusted(texts: Seq<Seq<char>>, n: nat) -> Result<Seq<Key>, Problem>
    decreases n,
{
    if n == 0 {
        Ok(Seq::empty())
    } else {
        match trusted(texts, (n - 1) as nat) {
            Err(p) => Err(p),
            Ok(keys) => match minisign::public_key(texts[n - 1]) {
                Err(p) => Err(p),
                Ok(k) => Ok(keys.push(k)),
            },
        }
    }
}

proof fn lemma_trusted_refusal_stays(texts: Seq<Seq<char>>, m: nat, n: nat)
    requires
        m <= n,
        trusted(texts, m) is Err,
    ensures
        trusted(texts, n) == trusted(texts, m),
    decreases n,
{
    if m < n {
        lemma_trusted_refusal_stays(texts, m, (n - 1) as nat);
    }
}

/// The keys that are trusted.
pub fn trusted_keys(texts: &Vec<String>) -> (r: Result<Vec<PublicKey>, FerrumError>)
    ensures
        match r {
            Ok(v) => trusted(text::texts(texts@), texts@.len()) == Ok::<Seq<Key>, Problem>(
                minisign::key_views(v@),
            ),
            Err(e) => trusted(text::texts(texts@), texts@.len()) == Err::<Seq<Key>, Problem>(e@),
        },
{
    let ghost all = text::texts(texts@);
    let mut out: Vec<PublicKey> = Vec::new();
    let mut i: usize = 0;
    assert(minisign::key_views(out@) =~= Seq::<Key>::empty());
    while i < texts.len()
        invariant
            i <= texts@.len(),
            all == text::texts(texts@),
            trusted(all, i as nat) == Ok::<Seq<Key>, Problem>(minisign::key_views(out@)),
        decreases texts@.len() - i,
    {
        assert(all[i as int] == texts@[i as int]@);
        match minisign::parse_public_key(texts[i].as_str()) {
            Ok(k) => {
                let ghost before = out@;
                out.push(k);
                assert(minisign::key_views(out@) =~= minisign::key_views(before).push(k@));
            },
            Err(e) => {
                proof {
                    assert(trusted(all, (i + 1) as nat) is Err);
                    lemma_trusted_refusal_stays(all, (i + 1) as nat, texts@.len());
                }
                return Err(e);
            },
        }
        i = i + 1;
    }
    Ok(out)
}

pub open spec fn no_keys_problem() -> Problem {
    error::problem(
        ErrorCode::PermissionDenied,
        "this plugin is signed, but no trusted keys are configured — set `"@ + TRUSTED_KEYS_KEY@
            + "` to the publisher's minisign public key"@,
    )
}

pub open spec fn unsigned_problem(signature_path: Seq<char>) -> Problem {
    error::problem(
        ErrorCode::PermissionDenied,
        "`"@ + signature_path
            + "` has no signature. A plugin is code this panel starts as a service as root's neighbour; installing an unsigned one is a decision an operator has to make on purpose. Set `"@
            + ALLOW_UNSIGNED_KEY@
            + "` to true if that is what you mean (see docs/plugins.md)."@,
    )
}

/// Whether a manifest is authentic, and its signature's trusted comment. Where
/// there is a signature, it has to hold; where there is none, that has to be
/// allowed.
pub open spec fn authenticity(
    source: Seq<char>,
    manifest: Seq<char>,
    signature: Option<Seq<char>>,
    keys: Seq<Seq<char>>,
    allow_unsigned: bool,
) -> Result<(PluginSignature, Option<Seq<char>>), Problem> {
    match signature {
        Some(file) => match trusted(keys, keys.len()) {
            Err(p) => Err(p),
            Ok(trusted_keys) => if trusted_keys.len() == 0 {
                Err(no_keys_problem())
            } else {
                match minisign::verified(
                    vstd::utf8::encode_utf8(manifest),
                    file,
                    trusted_keys,
                ) {
                    Err(p) => Err(p),
                    Ok(comment) => Ok((PluginSignature::Minisign, Some(comment))),
                }
            },
        },
        None => if allow_unsigned {
            Ok((PluginSignature::Unsigned, None))
        } else {
            Err(unsigned_problem(model::join_path(source, "plugin.toml.minisig"@)))
        },
    }
}

/// Checks that a manifest is authentic.
pub fn authenticate(
    source: &str,
    manifest: &str,
    signature: &Option<String>,
    keys: &Vec<String>,
    allow_unsigned: bool,
) -> (r: Result<(PluginSignature, Option<String>), FerrumError>)
    ensures
        ({
            let said = authenticity(
                source@,
                manifest@,
                error::opt_text(*signature),
                text::texts(keys@),
                allow_unsigned,
            );
            match r {
                Ok((s, comment)) => said == Ok::<(PluginSignature, Option<Seq<char>>), Problem>(
                    (s, error::opt_text(comment)),
                ),
                Err(e) => said == Err::<(PluginSignature, Option<Seq<char>>), Problem>(e@),
            }
        }),
{
    match signature {
        Some(file) => {
            let trusted = match trusted_keys(keys) {
                Ok(v) => v,
                Err(e) => return Err(e),
            };
            if trusted.len() == 0 {
                let mut m =
                    "this plugin is signed, but no trusted keys are configured — set `".to_owned();
                m.append(TRUSTED_KEYS_KEY);
                m.append("` to the publisher's minisign public key");
                return Err(FerrumError::new(ErrorCode::PermissionDenied, m.as_str()));
            }
            match minisign::verify(manifest.as_bytes(), file.as_str(), &trusted) {
                Ok(comment) => Ok((PluginSignature::Minisign, Some(comment))),
                Err(e) => Err(e),
            }
        },
        None => {
            if allow_unsigned {
                return Ok((PluginSignature::Unsigned, None));
            }
            let mut m = "`".to_owned();
            let p = plugin::plugin_signature(source);
            m.append(p.as_str());
            m.append(
                "` has no signature. A plugin is code this panel starts as a service as root's neighbour; installing an unsigned one is a decision an operator has to make on purpose. Set `",
            );
            m.append(ALLOW_UNSIGNED_KEY);
            m.append("` to true if that is what you mean (see docs/plugins.md).");
            Err(FerrumError::new(ErrorCode::PermissionDenied, m.as_str()))
        },
    }
}

/// What was read of a staged tree's manifest, and the settings that decide
/// whether it is trusted.
pub struct Staged {
    /// The manifest's text, or why it could not be read.
    pub text: Result<String, String>,
    /// What decoding the text came to.
    pub decoded: Result<Manifest, String>,
    /// The signature file, if it could be read.
    pub signature: Option<String>,
    pub keys: Vec<String>,
    pub allow_unsigned: bool,
}

/// What a request to install comes to before the tree is looked at.
pub open spec fn introduction(source: Seq<char>, staged: Staged) -> Result<
    (PluginSignature, Option<Seq<char>>),
    Problem,
> {
    match plugin::source_problem(source) {
        Some(p) => Err(p),
        None => match staged.text {
            Err(why) => Err(error::problem(ErrorCode::NotFound, "plugin.toml: "@ + why@)),
            Ok(text) => match plugin::parse_problem(text@, staged.decoded) {
                Some(p) => Err(p),
                None => authenticity(
                    source,
                    text@,
                    error::opt_text(staged.signature),
                    text::texts(staged.keys@),
                    staged.allow_unsigned,
                ),
            },
        },
    }
}

/// A plugin whose manifest has been accepted and is authentic.
pub struct Introduced {
    manifest: Manifest,
    slug: PluginSlug,
    signature: PluginSignature,
    comment: Option<String>,
}

impl Introduced {
    pub closed spec fn declared(self) -> Manifest {
        self.manifest
    }

    pub closed spec fn signed(self) -> (PluginSignature, Option<Seq<char>>) {
        (self.signature, error::opt_text(self.comment))
    }

    #[verifier::type_invariant]
    spec fn valid(self) -> bool {
        plugin::manifest_problem(self.manifest) is None && self.slug@ == text::trim(
            self.manifest.slug@,
        )
    }

    /// The manifest that was accepted.
    pub fn manifest(&self) -> (r: &Manifest)
        ensures
            *r == self.declared(),
            plugin::manifest_problem(*r) is None,
    {
        proof {
            use_type_invariant(self);
        }
        &self.manifest
    }
}

/// A plugin that may be installed.
pub struct Accepted {
    pub row: NewPlugin,
    pub manifest: Manifest,
    pub slug: PluginSlug,
    pub trusted_comment: Option<String>,
}

/// What installing takes, once the row is there.
#[derive(Debug, Clone, Copy, PartialEq, Eq, Structural)]
pub enum InstallStep {
    EnsureAccount,
    InstallTree,
    WriteUnit,
    DeleteRow,
    RemoveTree,
    RemoveUnit,
}

pub open spec fn install_steps() -> Seq<(InstallStep, bool)> {
    seq![
        (InstallStep::EnsureAccount, false),
        (InstallStep::InstallTree, false),
        (InstallStep::WriteUnit, false),
    ]
}

/// What is left of a failed installation is the account, which holds nothing.
pub open spec fn install_undo() -> Seq<InstallStep> {
    seq![InstallStep::DeleteRow, InstallStep::RemoveTree, InstallStep::RemoveUnit]
}

impl Install {
    /// Accepts the manifest of a staged tree.
    pub fn introduce(input: &InstallInput, staged: Staged) -> (r: Result<Introduced, FerrumError>)
        ensures
            match r {
                Ok(i) => introduction(input.source@, staged) == Ok::<
                    (PluginSignature, Option<Seq<char>>),
                    Problem,
                >(i.signed()) && staged.decoded == Ok::<Manifest, String>(i.declared()),
                Err(e) => introduction(input.source@, staged) == Err::<
                    (PluginSignature, Option<Seq<char>>),
                    Problem,
                >(e@),
            },
    {
        let source = match plugin::validate_source(input.source.as_str()) {
            Ok(s) => s,
            Err(e) => return Err(e),
        };
        let manifest_text = match staged.text {
            Ok(t) => t,
            Err(why) => {
                let mut m = "plugin.toml: ".to_owned();
                m.append(why.as_str());
                return Err(FerrumError::new(ErrorCode::NotFound, m.as_str()));
            },
        };
        let (manifest, slug) = match Manifest::parse(manifest_text.as_str(), staged.decoded) {
            Ok(pair) => pair,
            Err(e) => return Err(e),
        };
        let (signature, comment) = match authenticate(
            source.as_str(),
            manifest_text.as_str(),
            &staged.signature,
            &staged.keys,
            staged.allow_unsigned,
        ) {
            Ok(pair) => pair,
            Err(e) => return Err(e),
        };
        Ok(Introduced { manifest, slug, signature, comment })
    }

    /// Accepts a plugin whose tree is what its manifest says, given the tree's
    /// entries and the contents of the files that the manifest lists.
    pub fn accept(
        introduced: Introduced,
        walk: &Vec<TreeEntry>,
        contents: &Vec<Result<Vec<u8>, String>>,
    ) -> (r: Result<Accepted, FerrumError>)
        requires
            contents@.len() == introduced.declared().files@.len(),
        ensures
            ({
                let m = introduced.declared();
                let problem = payload::tree_problem(
                    walk@,
                    m.files@,
                    payload::content_digests(contents@),
                );
                match r {
                    Ok(a) => {
                        &&& problem is None
                        &&& a.manifest == m
                        &&& a.slug@ == text::trim(m.slug@)
                        &&& error::opt_text(a.trusted_comment) == introduced.signed().1
                        &&& a.row.slug@ == a.slug@
                        &&& a.row.name@ == m.name@
                        &&& a.row.version@ == m.version@
                        &&& text::texts(a.row.extensions@) == plugin::point_names(m.extensions@)
                        &&& a.row.install_dir@ == plugin::plugin_dir_of(a.slug@)
                        &&& a.row.run_user@ == plugin::run_user_of(a.slug@)
                        &&& a.row.signature == introduced.signed().0
                    },
                    Err(e) => problem == Some(e@),
                }
            }),
    {
        proof {
            use_type_invariant(&introduced);
        }
        match payload::verify_tree(walk, &introduced.manifest, contents) {
            Ok(()) => {},
            Err(e) => return Err(e),
        }
        let row = NewPlugin {
            slug: introduced.slug.as_str().to_owned(),
            name: introduced.manifest.name.as_str().to_owned(),
            version: introduced.manifest.version.as_str().to_owned(),
            extensions: introduced.manifest.extension_names(),
            install_dir: plugin::plugin_dir(introduced.slug.as_str()),
            run_user: introduced.slug.run_user(),
            signature: introduced.signature,
        };
        Ok(
            Accepted {
                row,
                manifest: introduced.manifest,
                slug: introduced.slug,
                trusted_comment: introduced.comment,
            },
        )
    }

    /// Installs an accepted plugin, whose row has been written. A failure takes
    /// the row, the tree and the unit away again.
    pub fn course() -> (r: Procedure<InstallStep>)
        ensures
            r@ == Course::fresh(install_steps(), install_undo()),
    {
        let steps = vec![
            (InstallStep::EnsureAccount, false),
            (InstallStep::InstallTree, false),
            (InstallStep::WriteUnit, false),
        ];
        let undo = vec![InstallStep::DeleteRow, InstallStep::RemoveTree, InstallStep::RemoveUnit];
        assert(steps@ =~= install_steps());
        assert(undo@ =~= install_undo());
        Procedure::new(steps, undo)
    }

    pub fn finish(plugin: PluginRecord, trusted_comment: Option<String>) -> (r: InstallOutput)
        ensures
            r.plugin == plugin,
            r.trusted_comment == trusted_comment,
    {
        InstallOutput { plugin, trusted_comment }
    }
}

// ---------------------------------------------------------------------------
// plugin.enable and plugin.disable
// ---------------------------------------------------------------------------

#[derive(Debug)]
pub struct SlugInput {
    pub slug: String,
}

#[derive(Debug)]
pub struct StateOutput {
    pub plugin: PluginRecord,
    pub unit_state: String,
}

/// `plugin.enable`.
pub struct Enable;

/// `plugin.disable`.
pub struct Disable;

#[derive(Debug, Clone, Copy, PartialEq, Eq, Structural)]
pub enum SwitchStep {
    StartUnit,
    StopUnit,
    MarkEnabled,
    MarkDisabled,
}

/// The plugin that a request is about.
pub open spec fn named_plugin(input: SlugInput, found: bool) -> Result<Seq<char>, Problem> {
    match plugin::slug_problem(text::trim(input.slug@)) {
        Some(p) => Err(p),
        None => if found {
            Ok(text::trim(input.slug@))
        } else {
            Err(error::not_found_problem("plugin"@))
        },
    }
}

fn find_plugin(input: &SlugInput, found: bool) -> (r: Result<PluginSlug, FerrumError>)
    ensures
        match r {
            Ok(s) => named_plugin(*input, found) == Ok::<Seq<char>, Problem>(s@),
            Err(e) => named_plugin(*input, found) == Err::<Seq<char>, Problem>(e@),
        },
{
    match PluginSlug::parse(input.slug.as_str()) {
        Ok(s) => {
            if found {
                Ok(s)
            } else {
                Err(FerrumError::not_found("plugin"))
            }
        },
        Err(e) => Err(e),
    }
}

/// A unit's state in words.
pub open spec fn state_name(status: Option<UnitStatus>) -> Seq<char> {
    match status {
        Some(s) => s.state.name(),
        None => UnitState::Unknown.name(),
    }
}

/// The state of a plugin's unit; one that cannot be told is unknown.
pub fn unit_state(status: Option<UnitStatus>) -> (r: String)
    ensures
        r@ == state_name(status),
{
    match status {
        Some(s) => s.state.as_text().to_owned(),
        None => UnitState::Unknown.as_text().to_owned(),
    }
}

pub open spec fn enable_steps() -> Seq<(SwitchStep, bool)> {
    seq![(SwitchStep::StartUnit, false), (SwitchStep::MarkEnabled, false)]
}

pub open spec fn disable_steps() -> Seq<(SwitchStep, bool)> {
    seq![(SwitchStep::MarkDisabled, false), (SwitchStep::StopUnit, false)]
}

impl Enable {
    /// The plugin to enable, given whether there is one of that name.
    pub fn check(input: &SlugInput, found: bool) -> (r: Result<PluginSlug, FerrumError>)
        ensures
            match r {
                Ok(s) => named_plugin(*input, found) == Ok::<Seq<char>, Problem>(s@),
                Err(e) => named_plugin(*input, found) == Err::<Seq<char>, Problem>(e@),
            },
    {
        find_plugin(input, found)
    }

    pub fn course() -> (r: Procedure<SwitchStep>)
        ensures
            r@ == Course::fresh(enable_steps(), Seq::<SwitchStep>::empty()),
    {
        let steps = vec![(SwitchStep::StartUnit, false), (SwitchStep::MarkEnabled, false)];
        let undo: Vec<SwitchStep> = Vec::new();
        assert(steps@ =~= enable_steps());
        assert(undo@ =~= Seq::<SwitchStep>::empty());
        Procedure::new(steps, undo)
    }

    /// What a unit that does not start is answered with.
    pub fn start_failed(why: &str) -> (r: FerrumError)
        ensures
            r@ == error::problem(
                ErrorCode::ServiceActionFailed,
                "could not start the plugin sidecar: "@ + why@,
            ),
    {
        let mut m = "could not start the plugin sidecar: ".to_owned();
        m.append(why);
        FerrumError::new(ErrorCode::ServiceActionFailed, m.as_str())
    }

    pub fn finish(plugin: PluginRecord, status: Option<UnitStatus>) -> (r: StateOutput)
        ensures
            r.plugin == plugin,
            r.unit_state@ == state_name(status),
    {
        StateOutput { plugin, unit_state: unit_state(status) }
    }
}

impl Disable {
    /// The plugin to disable. Whether there is one shows when its row is changed.
    pub fn check(input: &SlugInput) -> (r: Result<PluginSlug, FerrumError>)
        ensures
            match r {
                Ok(s) => plugin::is_slug(text::trim(input.slug@)) && s@ == text::trim(input.slug@),
                Err(e) => plugin::slug_problem(text::trim(input.slug@)) == Some(e@),
            },
    {
        PluginSlug::parse(input.slug.as_str())
    }

    /// The row first: a plugin whose unit does not stop is no longer asked.
    pub fn course() -> (r: Procedure<SwitchStep>)
        ensures
            r@ == Course::fresh(disable_steps(), Seq::<SwitchStep>::empty()),
    {
        let steps = vec![(SwitchStep::MarkDisabled, false), (SwitchStep::StopUnit, false)];
        let undo: Vec<SwitchStep> = Vec::new();
        assert(steps@ =~= disable_steps());
        assert(undo@ =~= Seq::<SwitchStep>::empty());
        Procedure::new(steps, undo)
    }

    /// What a unit that does not stop is answered with. The reason is kept with
    /// the plugin, too.
    pub fn stop_failed(why: &str) -> (r: FerrumError)
        ensures
            r@ == error::problem(
                ErrorCode::ServiceActionFailed,
                "the plugin is disabled in the panel, but its unit did not stop: "@ + why@,
            ),
    {
        let mut m = "the plugin is disabled in the panel, but its unit did not stop: ".to_owned();
        m.append(why);
        FerrumError::new(ErrorCode::ServiceActionFailed, m.as_str())
    }

    pub fn finish(plugin: PluginRecord, status: Option<UnitStatus>) -> (r: StateOutput)
        ensures
            r.plugin == plugin,
            r.unit_state@ == state_name(status),
    {
        StateOutput { plugin, unit_state: unit_state(status) }
    }
}

// ---------------------------------------------------------------------------
// plugin.remove
// ---------------------------------------------------------------------------

#[derive(Debug)]
pub struct RemoveOutput {
    pub slug: String,
    /// The account stays: it may still own a file.
    pub account_left_behind: String,
}

/// `plugin.remove`.
pub struct Remove;

#[derive(Debug, Clone, Copy, PartialEq, Eq, Structural)]
pub enum RemoveStep {
    StopUnit,
    RemoveUnit,
    Reload,
    RemoveTree,
    DeleteRow,
}

/// A unit that does not stop is no obstacle, it may be gone; what is there is
/// taken away, the row last.
pub open spec fn remove_steps(unit_exists: bool, tree: bool) -> Seq<(RemoveStep, bool)> {
    let unit = if unit_exists {
        seq![(RemoveStep::RemoveUnit, false), (RemoveStep::Reload, true)]
    } else {
        Seq::empty()
    };
    let dir = if tree {
        seq![(RemoveStep::RemoveTree, false)]
    } else {
        Seq::empty()
    };
    seq![(RemoveStep::StopUnit, true)] + unit + dir + seq![(RemoveStep::DeleteRow, false)]
}

/// Whether a directory is one that the panel may take away.
pub open spec fn removable(install_dir: Seq<char>, exists: bool) -> bool {
    path::is_under(install_dir, PLUGIN_ROOT@) && exists
}

impl Remove {
    /// The plugin to remove, given whether there is one of that name.
    pub fn check(input: &SlugInput, found: bool) -> (r: Result<PluginSlug, FerrumError>)
        ensures
            match r {
                Ok(s) => named_plugin(*input, found) == Ok::<Seq<char>, Problem>(s@),
                Err(e) => named_plugin(*input, found) == Err::<Seq<char>, Problem>(e@),
            },
    {
        find_plugin(input, found)
    }

    /// Removes a plugin. Its directory is taken away only where plugins are
    /// installed, whatever its row says.
    pub fn course(record: &PluginRecord, unit_exists: bool, dir_exists: bool) -> (r: Procedure<
        RemoveStep,
    >)
        ensures
            r@ == Course::fresh(
                remove_steps(unit_exists, removable(record.install_dir@, dir_exists)),
                Seq::<RemoveStep>::empty(),
            ),
    {
        let mut steps: Vec<(RemoveStep, bool)> = Vec::new();
        steps.push((RemoveStep::StopUnit, true));
        if unit_exists {
            steps.push((RemoveStep::RemoveUnit, false));
            steps.push((RemoveStep::Reload, true));
        }
        if path::under(record.install_dir.as_str(), PLUGIN_ROOT) && dir_exists {
            steps.push((RemoveStep::RemoveTree, false));
        }
        steps.push((RemoveStep::DeleteRow, false));
        let undo: Vec<RemoveStep> = Vec::new();
        assert(steps@ =~= remove_steps(
            unit_exists,
            removable(record.install_dir@, dir_exists),
        ));
        assert(undo@ =~= Seq::<RemoveStep>::empty());
        Procedure::new(steps, undo)
    }

    /// What a file or directory that cannot be removed is answered with.
    pub fn removal_failed(step: RemoveStep, why: &str) -> (r: FerrumError)
        ensures
            r@ == error::problem(
                ErrorCode::Internal,
                (if step == RemoveStep::RemoveUnit {
                    "removing the unit: "@
                } else {
                    "removing the tree: "@
                }) + why@,
            ),
    {
        let mut m = if step == RemoveStep::RemoveUnit {
            "removing the unit: ".to_owned()
        } else {
            "removing the tree: ".to_owned()
        };
        m.append(why);
        FerrumError::internal(m.as_str())
    }

    pub fn finish(slug: &PluginSlug, record: &PluginRecord) -> (r: RemoveOutput)
        ensures
            r.slug@ == slug@,
            r.account_left_behind@ == record.run_user@,
    {
        RemoveOutput {
            slug: slug.as_str().to_owned(),
            account_left_behind: record.run_user.as_str().to_owned(),
        }
    }
}

} // verus!
