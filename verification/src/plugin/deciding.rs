//! Which manifests, places, trees and calls are accepted, and what every other one is
//! answered with.
use vstd::prelude::*;
use crate::codec;
use crate::error;
use crate::error::{ErrorCode, Problem};
use crate::model::{Family, UnitStatus};
use crate::path;
use crate::plugin;
use crate::plugin::minisign;
use crate::plugin::ops;
use crate::plugin::ops::{InstallStep, RemoveStep, Staged, SwitchStep};
use crate::plugin::payload;
use crate::plugin::payload::TreeEntry;
use crate::plugin::sidecar;
use crate::plugin::sidecar::{CallFailure, PluginRecord, PluginSignature};
use crate::plugin::{ExtensionPoint, Manifest, UiMount};
use crate::text;
use crate::text::laws;

verus! {

// ---------------------------------------------------------------------------
// Names
// ---------------------------------------------------------------------------

/// A slug: one to nineteen lower-case letters, digits and hyphens, with no hyphen at
/// either end.
pub open spec fn slug_shaped(s: Seq<char>) -> bool {
    &&& 1 <= s.len() <= 19
    &&& forall|i: int|
        0 <= i < s.len() ==> "abcdefghijklmnopqrstuvwxyz0123456789-"@.contains(#[trigger] s[i])
    &&& s[0] != '-'
    &&& s.last() != '-'
}

proof fn lemma_slug_char(c: char)
    ensures
        plugin::is_slug_char(c) <==> "abcdefghijklmnopqrstuvwxyz0123456789-"@.contains(c),
        plugin::is_slug_end(c) <==> plugin::is_slug_char(c) && c != '-',
{
    reveal_strlit("abcdefghijklmnopqrstuvwxyz0123456789-");
    let all = "abcdefghijklmnopqrstuvwxyz0123456789-"@;
    let n = c as int;
    if text::is_lower(c) {
        assert(all[n - 97] == c);
    }
    if text::is_digit(c) {
        assert(all[n - 48 + 26] == c);
    }
    if c == '-' {
        assert(all[36] == c);
    }
}

/// A text is a slug exactly if it is shaped as one; any other is refused as such.
pub proof fn law_what_is_a_slug(s: Seq<char>)
    ensures
        plugin::is_slug(s) <==> slug_shaped(s),
        !slug_shaped(s) ==> error::objects(
            plugin::slug_problem(s),
            ErrorCode::InvalidInput,
            Some("slug"@),
        ),
{
    if s.len() > 0 {
        lemma_slug_char(s[0]);
        lemma_slug_char(s.last());
    }
    text::lemma_utf8_len(s);
    assert forall|i: int| 0 <= i < s.len() implies (plugin::is_slug_char(#[trigger] s[i])
        <==> "abcdefghijklmnopqrstuvwxyz0123456789-"@.contains(s[i])) by {
        lemma_slug_char(s[i]);
    }
    if slug_shaped(s) {
        assert forall|i: int| 0 <= i < s.len() implies (#[trigger] s[i]) as u32 <= 127 by {
            assert(plugin::is_slug_char(s[i]));
        }
        assert(vstd::utf8::is_ascii_chars(s));
        vstd::utf8::is_ascii_chars_encode_utf8(s);
    }
}

/// Where everything of a plugin is.
pub proof fn law_where_a_plugin_lives(slug: Seq<char>)
    ensures
        plugin::run_user_of(slug) == "ferrum-plug-"@ + slug,
        plugin::unit_of(slug) == "ferrum-plugin-"@ + slug + ".service"@,
        plugin::plugin_dir_of(slug) == "/opt/ferrum/plugins/"@ + slug,
        plugin::plugin_socket_of(slug) == "/run/"@ + plugin::plugin_runtime_of(slug)
            + "/plugin.sock"@,
        plugin::plugin_runtime_of(slug) == "ferrum-plugins/"@ + slug,
        plugin::run_user_of(slug).len() <= 31 || slug.len() > 19,
{
    reveal_strlit("/");
    reveal_strlit("ferrum-plug-");
    reveal_strlit("/opt/ferrum/plugins/");
    reveal_strlit("/opt/ferrum/plugins");
    reveal_strlit("/run/");
    reveal_strlit("/run/ferrum-plugins/");
    reveal_strlit("ferrum-plugins/");
    assert("/opt/ferrum/plugins"@ + "/"@ =~= "/opt/ferrum/plugins/"@);
    assert("/opt/ferrum/plugins"@ + "/"@ + slug =~= "/opt/ferrum/plugins/"@ + slug);
    assert("/run/ferrum-plugins/"@ =~= "/run/"@ + "ferrum-plugins/"@);
    assert("/run/ferrum-plugins/"@ + slug + "/plugin.sock"@ =~= "/run/"@ + ("ferrum-plugins/"@
        + slug) + "/plugin.sock"@);
}

/// Which methods belong to which point: those of its namespace, a dot, and a verb of
/// lower-case letters and underscores; any other method belongs to none.
pub proof fn law_which_methods_belong_to_which_point(verb: Seq<char>, method: Seq<char>)
    ensures
        verb.len() > 0 && (forall|i: int|
            0 <= i < verb.len() ==> "abcdefghijklmnopqrstuvwxyz_"@.contains(#[trigger] verb[i]))
            ==> {
            &&& plugin::point_for("app."@ + verb) == Some(ExtensionPoint::AppStore)
            &&& plugin::point_for("dns."@ + verb) == Some(ExtensionPoint::DnsProvider)
            &&& plugin::point_for("backup."@ + verb) == Some(ExtensionPoint::BackupTarget)
            &&& plugin::point_for("notify."@ + verb) == Some(ExtensionPoint::Notifier)
            &&& plugin::point_for("ui."@ + verb) == Some(ExtensionPoint::UiPanel)
        },
        plugin::point_for(method) is Some ==> {
            let tail = text::tail(method, '.');
            &&& tail.len() > 0
            &&& forall|i: int|
                0 <= i < tail.len() ==> "abcdefghijklmnopqrstuvwxyz_"@.contains(#[trigger] tail[i])
            &&& method == text::head(method, '.') + "."@ + tail
            &&& {
                ||| text::head(method, '.') == "app"@
                ||| text::head(method, '.') == "dns"@
                ||| text::head(method, '.') == "backup"@
                ||| text::head(method, '.') == "notify"@
                ||| text::head(method, '.') == "ui"@
            }
        },
{
    reveal_strlit(".");
    reveal_strlit("app");
    reveal_strlit("dns");
    reveal_strlit("backup");
    reveal_strlit("notify");
    reveal_strlit("ui");
    reveal_strlit("app.");
    reveal_strlit("dns.");
    reveal_strlit("backup.");
    reveal_strlit("notify.");
    reveal_strlit("ui.");
    lemma_owners();
    if verb.len() > 0 && (forall|i: int|
        0 <= i < verb.len() ==> "abcdefghijklmnopqrstuvwxyz_"@.contains(#[trigger] verb[i])) {
        assert forall|i: int| 0 <= i < verb.len() implies text::is_lower(#[trigger] verb[i])
            || verb[i] == '_' by {
            lemma_verb_char(verb[i]);
        }
        lemma_method("app"@, verb);
        lemma_method("dns"@, verb);
        lemma_method("backup"@, verb);
        lemma_method("notify"@, verb);
        lemma_method("ui"@, verb);
        assert("app."@ + verb =~= "app"@ + seq!['.'] + verb);
        assert("dns."@ + verb =~= "dns"@ + seq!['.'] + verb);
        assert("backup."@ + verb =~= "backup"@ + seq!['.'] + verb);
        assert("notify."@ + verb =~= "notify"@ + seq!['.'] + verb);
        assert("ui."@ + verb =~= "ui"@ + seq!['.'] + verb);
    }
    if plugin::point_for(method) is Some {
        let k = text::before(method, '.') as int;
        text::lemma_before(method, '.');
        let tail = method.skip(k + 1);
        assert(text::tail(method, '.') == tail);
        assert(text::head(method, '.') == method.take(k));
        assert forall|i: int| 0 <= i < tail.len() implies "abcdefghijklmnopqrstuvwxyz_"@.contains(
            #[trigger] tail[i],
        ) by {
            lemma_verb_char(tail[i]);
        }
        assert(method =~= method.take(k) + "."@ + tail);
        lemma_owned(method.take(k), ExtensionPoint::points());
    }
}

proof fn lemma_verb_char(c: char)
    ensures
        text::is_lower(c) || c == '_' <==> "abcdefghijklmnopqrstuvwxyz_"@.contains(c),
{
    reveal_strlit("abcdefghijklmnopqrstuvwxyz_");
    let all = "abcdefghijklmnopqrstuvwxyz_"@;
    if text::is_lower(c) {
        assert(all[c as int - 97] == c);
    }
    if c == '_' {
        assert(all[26] == c);
    }
}

proof fn lemma_method(namespace: Seq<char>, verb: Seq<char>)
    requires
        plugin::is_verb(verb),
        forall|i: int| 0 <= i < namespace.len() ==> #[trigger] namespace[i] != '.',
    ensures
        plugin::point_for(namespace + seq!['.'] + verb) == plugin::owner_of(
            namespace,
            ExtensionPoint::points(),
        ),
{
    let m = namespace + seq!['.'] + verb;
    assert forall|i: int| 0 <= i < namespace.len() implies #[trigger] m[i] != '.' by {
        assert(m[i] == namespace[i]);
    }
    text::lemma_before_is(m, '.', namespace.len());
    assert(m.take(namespace.len() as int) =~= namespace);
    assert(m.skip(namespace.len() as int + 1) =~= verb);
}

proof fn lemma_owned(namespace: Seq<char>, points: Seq<ExtensionPoint>)
    ensures
        plugin::owner_of(namespace, points) matches Some(p) ==> p.methods() == namespace,
    decreases points.len(),
{
    if points.len() > 0 && points[0].methods() != namespace {
        lemma_owned(namespace, points.skip(1));
    }
}

proof fn lemma_owners()
    ensures
        plugin::owner_of("app"@, ExtensionPoint::points()) == Some(ExtensionPoint::AppStore),
        plugin::owner_of("dns"@, ExtensionPoint::points()) == Some(ExtensionPoint::DnsProvider),
        plugin::owner_of("backup"@, ExtensionPoint::points()) == Some(ExtensionPoint::BackupTarget),
        plugin::owner_of("notify"@, ExtensionPoint::points()) == Some(ExtensionPoint::Notifier),
        plugin::owner_of("ui"@, ExtensionPoint::points()) == Some(ExtensionPoint::UiPanel),
{
    lemma_owner_is("app"@, ExtensionPoint::points(), 0);
    lemma_owner_is("dns"@, ExtensionPoint::points(), 1);
    lemma_owner_is("backup"@, ExtensionPoint::points(), 2);
    lemma_owner_is("notify"@, ExtensionPoint::points(), 3);
    lemma_owner_is("ui"@, ExtensionPoint::points(), 4);
}

proof fn lemma_owner_is(namespace: Seq<char>, points: Seq<ExtensionPoint>, i: int)
    requires
        0 <= i < points.len(),
        points[i].methods() == namespace,
    ensures
        plugin::owner_of(namespace, points) == Some(points[i]),
    decreases points.len(),
{
    lemma_owned(namespace, points);
    if points[0].methods() != namespace {
        assert(points.skip(1)[i - 1] == points[i]);
        lemma_owner_is(namespace, points.skip(1), i - 1);
    } else {
        plugin::laws::law_points_are_told_apart(points[0], points[i]);
    }
}

/// The names that manifests and rows use for the points.
pub proof fn law_what_points_are_called(p: ExtensionPoint)
    ensures
        p.name() == match p {
            ExtensionPoint::AppStore => "app_store"@,
            ExtensionPoint::DnsProvider => "dns_provider"@,
            ExtensionPoint::BackupTarget => "backup_target"@,
            ExtensionPoint::Notifier => "notifier"@,
            ExtensionPoint::UiPanel => "ui_panel"@,
        },
        ExtensionPoint::points().contains(p),
        ExtensionPoint::points().no_duplicates(),
{
    let all = ExtensionPoint::points();
    match p {
        ExtensionPoint::AppStore => {
            assert(all[0] == p);
        },
        ExtensionPoint::DnsProvider => {
            assert(all[1] == p);
        },
        ExtensionPoint::BackupTarget => {
            assert(all[2] == p);
        },
        ExtensionPoint::Notifier => {
            assert(all[3] == p);
        },
        ExtensionPoint::UiPanel => {
            assert(all[4] == p);
        },
    }
}

// ---------------------------------------------------------------------------
// Manifests
// ---------------------------------------------------------------------------

/// A text that people will read: something but white space in it, no control character,
/// and not longer than so many bytes.
pub open spec fn readable(s: Seq<char>, max: nat) -> bool {
    &&& exists|i: int| 0 <= i < s.len() && !text::is_space(#[trigger] s[i])
    &&& forall|i: int| 0 <= i < s.len() ==> !text::is_control(#[trigger] s[i])
    &&& vstd::utf8::encode_utf8(s).len() <= max
}

proof fn lemma_trim_some(s: Seq<char>)
    ensures
        text::trim(s).len() > 0 <==> exists|i: int|
            0 <= i < s.len() && !text::is_space(#[trigger] s[i]),
{
    lemma_trim_start_some(s);
    let t = text::trim_start(s);
    lemma_trim_end_some(t);
    if t.len() > 0 {
        if text::trim_end(t).len() == 0 {
            assert(text::is_space(t[0]));
        }
    }
}

proof fn lemma_trim_start_some(s: Seq<char>)
    ensures
        text::trim_start(s).len() > 0 <==> exists|i: int|
            0 <= i < s.len() && !text::is_space(#[trigger] s[i]),
        text::trim_start(s).len() > 0 ==> !text::is_space(text::trim_start(s)[0]),
    decreases s.len(),
{
    if s.len() > 0 && text::is_space(s[0]) {
        let r = s.skip(1);
        lemma_trim_start_some(r);
        if exists|i: int| 0 <= i < r.len() && !text::is_space(#[trigger] r[i]) {
            let i = choose|i: int| 0 <= i < r.len() && !text::is_space(#[trigger] r[i]);
            assert(s[i + 1] == r[i]);
        }
        if exists|i: int| 0 <= i < s.len() && !text::is_space(#[trigger] s[i]) {
            let i = choose|i: int| 0 <= i < s.len() && !text::is_space(#[trigger] s[i]);
            assert(r[i - 1] == s[i]);
        }
    } else if s.len() > 0 {
        assert(!text::is_space(s[0]));
    }
}

proof fn lemma_trim_end_some(s: Seq<char>)
    ensures
        text::trim_end(s).len() == 0 ==> forall|i: int|
            0 <= i < s.len() ==> text::is_space(#[trigger] s[i]),
        text::trim_end(s).len() <= s.len(),
    decreases s.len(),
{
    if s.len() > 0 && text::is_space(s.last()) {
        lemma_trim_end_some(s.drop_last());
        if text::trim_end(s).len() == 0 {
            assert forall|i: int| 0 <= i < s.len() implies text::is_space(#[trigger] s[i]) by {
                if i < s.len() - 1 {
                    assert(s.drop_last()[i] == s[i]);
                }
            }
        }
    }
}

/// A text is accepted exactly if it is readable; another is refused under its own field.
pub proof fn law_which_texts_are_accepted(field: Seq<char>, value: Seq<char>, max: nat)
    ensures
        plugin::text_problem(field, value, max) is None <==> readable(value, max),
        !readable(value, max) ==> error::objects(
            plugin::text_problem(field, value, max),
            ErrorCode::InvalidInput,
            Some(field),
        ),
{
    lemma_trim_some(value);
}

/// What may stand in a unit file without being read as syntax.
pub open spec fn plain(s: Seq<char>) -> bool {
    forall|i: int|
        0 <= i < s.len() ==> {
            &&& !text::is_control(#[trigger] s[i])
            &&& !text::is_space(s[i])
            &&& s[i] != '%' && s[i] != '"' && s[i] != '\'' && s[i] != '`' && s[i] != '$' && s[i]
                != '\\'
        }
}

proof fn lemma_first_syntax(s: Seq<char>)
    ensures
        plugin::first_syntax(s) is None <==> plain(s),
    decreases s.len(),
{
    if s.len() > 0 {
        lemma_first_syntax(s.skip(1));
        if plain(s) {
            assert(!plugin::is_syntax(s[0]));
            assert forall|i: int| 0 <= i < s.skip(1).len() implies {
                &&& !text::is_control(#[trigger] s.skip(1)[i])
                &&& !text::is_space(s.skip(1)[i])
                &&& s.skip(1)[i] != '%' && s.skip(1)[i] != '"' && s.skip(1)[i] != '\'' && s.skip(
                    1,
                )[i] != '`' && s.skip(1)[i] != '$' && s.skip(1)[i] != '\\'
            } by {
                assert(s.skip(1)[i] == s[i + 1]);
            }
        }
        if plugin::first_syntax(s) is None {
            assert forall|i: int| 0 <= i < s.len() implies {
                &&& !text::is_control(#[trigger] s[i])
                &&& !text::is_space(s[i])
                &&& s[i] != '%' && s[i] != '"' && s[i] != '\'' && s[i] != '`' && s[i] != '$'
                    && s[i] != '\\'
            } by {
                if i > 0 {
                    assert(s.skip(1)[i - 1] == s[i]);
                }
            }
        }
    }
}

/// A path in a plugin's tree is accepted exactly if it is relative, stays inside, is one
/// word of plain characters and at most 255 bytes long; another is an invalid path.
pub open spec fn inner_path(s: Seq<char>) -> bool {
    &&& 1 <= vstd::utf8::encode_utf8(s).len() <= 255
    &&& s.len() > 0
    &&& s[0] != '/'
    &&& !path::starts_here(s)
    &&& !path::goes_up(s)
    &&& plain(s)
}

pub proof fn law_which_entries_are_accepted(s: Seq<char>)
    ensures
        plugin::entry_problem(s) is None <==> inner_path(s),
        !inner_path(s) ==> error::objects(
            plugin::entry_problem(s),
            ErrorCode::InvalidPath,
            Some("entry"@),
        ),
{
    lemma_first_syntax(s);
    text::lemma_utf8_len(s);
}

/// A place to install from is accepted exactly if it is absolute, does not go up, and is
/// neither in a tenant's home nor where plugins are installed; another is an invalid path.
pub proof fn law_which_sources_are_accepted(s: Seq<char>)
    ensures
        ({
            let parts = path::parts(s);
            let fine = {
                &&& s.len() > 0 && s[0] == '/'
                &&& !parts.contains(".."@)
                &&& !(parts.len() > 0 && parts[0] == "home"@)
                &&& !(parts.len() >= 3 && parts[0] == "opt"@ && parts[1] == "ferrum"@ && parts[2]
                    == "plugins"@)
            };
            &&& plugin::source_problem(s) is None <==> fine
            &&& !fine ==> error::objects(
                plugin::source_problem(s),
                ErrorCode::InvalidPath,
                Some("source"@),
            )
        }),
{
    reveal_strlit("/home");
    path::law_what_is_below_a_path(s, "/home"@, s);
}

proof fn lemma_twice(points: Seq<ExtensionPoint>, n: nat)
    requires
        n <= points.len(),
    ensures
        plugin::twice(points, n) is None <==> forall|i: int, j: int|
            0 <= i < j < n ==> #[trigger] points[i] != #[trigger] points[j],
    decreases n,
{
    if n > 0 {
        lemma_twice(points, (n - 1) as nat);
        let before = points.take(n - 1);
        if before.contains(points[n - 1]) {
            let i = choose|i: int| 0 <= i < before.len() && before[i] == points[n - 1];
            assert(points[i] == points[n - 1]);
        }
        if plugin::twice(points, n) is None {
            assert forall|i: int, j: int| 0 <= i < j < n implies #[trigger] points[i]
                != #[trigger] points[j] by {
                if j == n - 1 {
                    assert(before[i] == points[i]);
                }
            }
        }
    }
}

/// Points are accepted exactly if there is one at least and none occurs twice.
pub proof fn law_which_points_are_accepted(points: Seq<ExtensionPoint>)
    ensures
        ({
            let fine = points.len() > 0 && points.no_duplicates();
            &&& plugin::points_problem(points) is None <==> fine
            &&& !fine ==> error::objects(
                plugin::points_problem(points),
                ErrorCode::InvalidInput,
                Some("extensions"@),
            )
        }),
{
    lemma_twice(points, points.len());
    if plugin::twice(points, points.len()) is None {
        assert forall|i: int, j: int|
            0 <= i < points.len() && 0 <= j < points.len() && i != j implies points[i]
            != points[j] by {
            if i < j {
            } else {
                assert(points[j] != points[i]);
            }
        }
    }
}

/// A place in the panel is accepted exactly if there is none, or the point for it is
/// declared, it is a slug and both its labels are readable; what is wrong is named.
pub proof fn law_which_mounts_are_accepted(ui: Option<UiMount>, points: Seq<ExtensionPoint>)
    ensures
        ui is None ==> plugin::mount_problem(ui, points) is None,
        ui is Some ==> {
            let p = plugin::mount_problem(ui, points);
            let declared = points.contains(ExtensionPoint::UiPanel);
            let placed = slug_shaped(ui->0.path@);
            let english = readable(ui->0.label_en@, 64);
            let persian = readable(ui->0.label_fa@, 64);
            &&& p is None <==> declared && placed && english && persian
            &&& !declared ==> error::objects(p, ErrorCode::InvalidInput, Some("ui"@))
            &&& declared && !placed ==> error::objects(
                p,
                ErrorCode::InvalidInput,
                Some("ui.path"@),
            )
            &&& declared && placed && !english ==> error::objects(
                p,
                ErrorCode::InvalidInput,
                Some("ui.label_en"@),
            )
            &&& declared && placed && english && !persian ==> error::objects(
                p,
                ErrorCode::InvalidInput,
                Some("ui.label_fa"@),
            )
        },
{
    if let Some(u) = ui {
        law_what_is_a_slug(u.path@);
        law_which_texts_are_accepted("ui.label_en"@, u.label_en@, 64);
        law_which_texts_are_accepted("ui.label_fa"@, u.label_fa@, 64);
    }
}

/// A listed file: an inner path that is neither the manifest nor its signature, with
/// sixty-four hexadecimal digits.
pub open spec fn listable(file: (Seq<char>, Seq<char>)) -> bool {
    &&& inner_path(file.0)
    &&& file.0 != "plugin.toml"@
    &&& file.0 != "plugin.toml.minisig"@
    &&& file.1.len() == 64
    &&& forall|i: int|
        0 <= i < file.1.len() ==> "0123456789abcdefABCDEF"@.contains(#[trigger] file.1[i])
}

proof fn lemma_listable(file: (Seq<char>, Seq<char>))
    ensures
        plugin::file_problem(file.0, file.1) is None <==> listable(file),
        inner_path(file.0) && !listable(file) ==> error::objects(
            plugin::file_problem(file.0, file.1),
            ErrorCode::InvalidInput,
            Some("files"@),
        ),
        !inner_path(file.0) ==> error::objects(
            plugin::file_problem(file.0, file.1),
            ErrorCode::InvalidPath,
            Some("entry"@),
        ),
{
    law_which_entries_are_accepted(file.0);
    assert forall|i: int| 0 <= i < file.1.len() implies (text::is_hex_digit(#[trigger] file.1[i])
        <==> "0123456789abcdefABCDEF"@.contains(file.1[i])) by {
        laws::law_letters_and_digits(file.1[i], 0);
    }
}

proof fn lemma_files(files: Seq<(Seq<char>, Seq<char>)>, n: nat)
    requires
        n <= files.len(),
    ensures
        plugin::first_file_problem(files, n) is None <==> forall|i: int|
            0 <= i < n ==> listable(#[trigger] files[i]),
        plugin::first_file_problem(files, n) is Some ==> {
            ||| error::objects(
                plugin::first_file_problem(files, n),
                ErrorCode::InvalidInput,
                Some("files"@),
            )
            ||| error::objects(
                plugin::first_file_problem(files, n),
                ErrorCode::InvalidPath,
                Some("entry"@),
            )
        },
    decreases n,
{
    if n > 0 {
        lemma_files(files, (n - 1) as nat);
        lemma_listable(files[n - 1]);
    }
}

/// The table of files is accepted exactly if it lists one to two thousand files, each of
/// them a listable one.
pub proof fn law_which_tables_are_accepted(files: Seq<(Seq<char>, Seq<char>)>)
    ensures
        plugin::files_problem(files) is None <==> 1 <= files.len() <= 2000 && forall|i: int|
            0 <= i < files.len() ==> listable(#[trigger] files[i]),
        !(1 <= files.len() <= 2000) ==> error::objects(
            plugin::files_problem(files),
            ErrorCode::InvalidInput,
            Some("files"@),
        ),
{
    lemma_files(files, files.len());
}

/// A manifest is accepted exactly if its slug is one, it speaks the panel's version, its
/// name and version are readable, its entry, its points, its place in the panel and its
/// files are in order, and the entry is among the files.
pub proof fn law_which_manifests_are_accepted(m: Manifest)
    ensures
        plugin::manifest_problem(m) is None <==> {
            &&& slug_shaped(text::trim(m.slug@))
            &&& m.api_version == 1
            &&& readable(m.name@, 64)
            &&& readable(m.version@, 32)
            &&& inner_path(m.entry@)
            &&& m.extensions@.len() > 0 && m.extensions@.no_duplicates()
            &&& m.ui is Some ==> {
                &&& m.extensions@.contains(ExtensionPoint::UiPanel)
                &&& slug_shaped(m.ui->0.path@)
                &&& readable(m.ui->0.label_en@, 64)
                &&& readable(m.ui->0.label_fa@, 64)
            }
            &&& 1 <= m.files@.len() <= 2000
            &&& forall|i: int| 0 <= i < m.files@.len() ==> listable(#[trigger] m.files@[i])
            &&& exists|i: int| 0 <= i < m.files@.len() && (#[trigger] m.files@[i]).0 == m.entry@
        },
{
    law_what_is_a_slug(text::trim(m.slug@));
    law_which_texts_are_accepted("name"@, m.name@, 64);
    law_which_texts_are_accepted("version"@, m.version@, 32);
    law_which_entries_are_accepted(m.entry@);
    law_which_points_are_accepted(m.extensions@);
    law_which_mounts_are_accepted(m.ui, m.extensions@);
    law_which_tables_are_accepted(m.files@);
}

/// What a manifest is refused for is the first thing wrong with it, by its field.
pub proof fn law_why_a_manifest_is_refused(m: Manifest)
    ensures
        ({
            let p = plugin::manifest_problem(m);
            let a = slug_shaped(text::trim(m.slug@));
            let b = m.api_version == 1;
            let c = readable(m.name@, 64);
            let d = readable(m.version@, 32);
            let e = inner_path(m.entry@);
            let g = m.extensions@.len() > 0 && m.extensions@.no_duplicates();
            &&& !a ==> error::objects(p, ErrorCode::InvalidInput, Some("slug"@))
            &&& a && !b ==> error::objects(p, ErrorCode::InvalidInput, Some("api_version"@))
            &&& a && b && !c ==> error::objects(p, ErrorCode::InvalidInput, Some("name"@))
            &&& a && b && c && !d ==> error::objects(
                p,
                ErrorCode::InvalidInput,
                Some("version"@),
            )
            &&& a && b && c && d && !e ==> error::objects(
                p,
                ErrorCode::InvalidPath,
                Some("entry"@),
            )
            &&& a && b && c && d && e && !g ==> error::objects(
                p,
                ErrorCode::InvalidInput,
                Some("extensions"@),
            )
        }),
{
    law_what_is_a_slug(text::trim(m.slug@));
    law_which_texts_are_accepted("name"@, m.name@, 64);
    law_which_texts_are_accepted("version"@, m.version@, 32);
    law_which_entries_are_accepted(m.entry@);
    law_which_points_are_accepted(m.extensions@);
}

/// A manifest's text is accepted exactly if it is at most half a mebibyte long, could be
/// decoded and holds an acceptable manifest.
pub proof fn law_which_manifest_texts_are_accepted(
    source: Seq<char>,
    decoded: Result<Manifest, String>,
)
    ensures
        plugin::parse_problem(source, decoded) is None <==> vstd::utf8::encode_utf8(source).len()
            <= 512 * 1024 && decoded is Ok && plugin::manifest_problem(decoded->Ok_0) is None,
        vstd::utf8::encode_utf8(source).len() > 512 * 1024 || decoded is Err ==> error::objects(
            plugin::parse_problem(source, decoded),
            ErrorCode::InvalidInput,
            None,
        ),
{
}

// ---------------------------------------------------------------------------
// Letting in
// ---------------------------------------------------------------------------

/// A plugin is let in exactly if its place and its manifest are acceptable and either its
/// signature holds under the trusted keys, of which there is one at least, or it has none
/// and unsigned ones are allowed; what comes out says which.
pub proof fn law_who_is_let_in(source: Seq<char>, staged: Staged)
    ensures
        ({
            let r = ops::introduction(source, staged);
            let placed = plugin::source_problem(source) is None;
            let manifest = staged.text is Ok && plugin::parse_problem(
                staged.text->Ok_0@,
                staged.decoded,
            ) is None;
            let keys = ops::trusted(text::texts(staged.keys@), staged.keys@.len());
            let holds = minisign::verified(
                vstd::utf8::encode_utf8(staged.text->Ok_0@),
                staged.signature->0@,
                keys->Ok_0,
            );
            &&& staged.signature is Some ==> {
                &&& r is Ok <==> placed && manifest && keys is Ok && keys->Ok_0.len() > 0 && holds
                    is Ok
                &&& r is Ok ==> r->Ok_0 == (PluginSignature::Minisign, Some(holds->Ok_0))
                &&& placed && manifest && keys is Ok && keys->Ok_0.len() == 0 ==> error::refused(
                    r,
                    ErrorCode::PermissionDenied,
                    None,
                )
                &&& placed && manifest && keys is Ok && keys->Ok_0.len() > 0 && holds is Err ==> r
                    == Err::<(PluginSignature, Option<Seq<char>>), Problem>(holds->Err_0)
                &&& placed && manifest && keys is Err ==> r == Err::<
                    (PluginSignature, Option<Seq<char>>),
                    Problem,
                >(keys->Err_0)
            }
            &&& staged.signature is None ==> {
                &&& r is Ok <==> placed && manifest && staged.allow_unsigned
                &&& r is Ok ==> r->Ok_0 == (PluginSignature::Unsigned, None::<Seq<char>>)
                &&& placed && manifest && !staged.allow_unsigned ==> error::refused(
                    r,
                    ErrorCode::PermissionDenied,
                    None,
                )
            }
            &&& !placed ==> error::refused(r, ErrorCode::InvalidPath, Some("source"@))
            &&& placed && staged.text is Err ==> error::refused(r, ErrorCode::NotFound, None)
        }),
{
    law_which_sources_are_accepted(source);
    assert(text::texts(staged.keys@).len() == staged.keys@.len());
}

/// Without a trusted key no signed plugin is let in.
pub proof fn law_no_keys_no_trust(source: Seq<char>, staged: Staged)
    requires
        staged.keys@.len() == 0,
        staged.signature is Some,
    ensures
        ops::introduction(source, staged) is Err,
{
    assert(text::texts(staged.keys@).len() == 0);
}

// ---------------------------------------------------------------------------
// Trees
// ---------------------------------------------------------------------------

/// A listed file is accepted exactly if it could be read and its digest is the listed one,
/// in whatever case the digits are.
pub proof fn law_when_a_listed_file_is_accepted(
    file: (Seq<char>, Seq<char>),
    actual: Result<Seq<char>, Seq<char>>,
)
    ensures
        payload::listed_problem(file, actual) is None <==> actual is Ok && actual->Ok_0.len()
            == file.1.len() && forall|i: int|
            0 <= i < file.1.len() ==> text::lower(#[trigger] actual->Ok_0[i]) == text::lower(
                file.1[i],
            ),
        actual is Err ==> error::objects(
            payload::listed_problem(file, actual),
            ErrorCode::NotFound,
            None,
        ),
        actual is Ok && payload::listed_problem(file, actual) is Some ==> error::objects(
            payload::listed_problem(file, actual),
            ErrorCode::PermissionDenied,
            None,
        ),
{
    if let Ok(d) = actual {
        let a = text::lower_all(d);
        let b = text::lower_all(file.1);
        if a == b {
            assert(a.len() == d.len() && b.len() == file.1.len());
            assert forall|i: int| 0 <= i < file.1.len() implies text::lower(#[trigger] d[i])
                == text::lower(file.1[i]) by {
                assert(a[i] == text::lower(d[i]));
                assert(b[i] == text::lower(file.1[i]));
            }
        }
        if d.len() == file.1.len() && forall|i: int|
            0 <= i < file.1.len() ==> text::lower(#[trigger] d[i]) == text::lower(file.1[i]) {
            assert(a =~= b);
        }
    }
}

/// What an entry of a tree is answered with: a link and what is neither file nor directory
/// are invalid; what could not be read was not found.
pub proof fn law_which_entries_of_a_tree_pass(e: TreeEntry)
    ensures
        payload::tree_entry_problem(e) is None <==> e.kind is File || e.kind is Directory,
        e.kind is Symlink || e.kind is Other ==> error::objects(
            payload::tree_entry_problem(e),
            ErrorCode::InvalidPath,
            None,
        ),
        e.kind is Unread ==> error::objects(
            payload::tree_entry_problem(e),
            ErrorCode::NotFound,
            None,
        ),
        e.kind is Unknown ==> error::objects(
            payload::tree_entry_problem(e),
            ErrorCode::Internal,
            None,
        ),
{
}

/// Which files need not be listed, and no others.
pub proof fn law_what_is_outside_the_table(p: Seq<char>)
    ensures
        plugin::is_outside_table(p) <==> p == "plugin.toml"@ || p == "plugin.toml"@ + ".minisig"@,
{
    reveal_strlit("plugin.toml");
    reveal_strlit(".minisig");
    reveal_strlit("plugin.toml.minisig");
    assert("plugin.toml"@ + ".minisig"@ =~= "plugin.toml.minisig"@);
}

/// What is installed: every listed file under its path, the entry to be run and the others
/// to be read, then the manifest, and nothing else.
pub proof fn law_what_is_installed(files: Seq<(Seq<char>, Seq<char>)>, entry: Seq<char>, i: int)
    ensures
        payload::layout(files, entry).len() == files.len() + 1,
        0 <= i < files.len() ==> {
            &&& payload::layout(files, entry)[i].0 == files[i].0
            &&& files[i].0 == entry ==> payload::layout(files, entry)[i].1 == 0o755
            &&& files[i].0 != entry ==> payload::layout(files, entry)[i].1 == 0o644
        },
        payload::layout(files, entry).last() == ("plugin.toml"@, 0o644u32),
{
}

// ---------------------------------------------------------------------------
// Calls
// ---------------------------------------------------------------------------

/// A call goes to a plugin exactly if the plugin is enabled and declared the point that the
/// method belongs to; it then goes to the plugin's own socket.
pub proof fn law_when_a_call_goes_out(record: PluginRecord, method: Seq<char>)
    ensures
        ({
            let r = sidecar::call_target(record, method);
            let point = plugin::point_for(method);
            let declared = point is Some && exists|i: int|
                0 <= i < record.extensions@.len() && (#[trigger] record.extensions@[i])@
                    == point->0.name();
            &&& r is Ok <==> record.enabled && declared
            &&& r is Ok ==> r->Ok_0 == "/run/ferrum-plugins/"@ + record.slug@ + "/plugin.sock"@
            &&& !record.enabled ==> error::refused(r, ErrorCode::ServiceUnavailable, None)
            &&& record.enabled && !declared ==> error::refused(r, ErrorCode::PermissionDenied, None)
        }),
{
    let names = text::texts(record.extensions@);
    if let Some(p) = plugin::point_for(method) {
        if names.contains(p.name()) {
            let i = choose|i: int| 0 <= i < names.len() && names[i] == p.name();
            assert(record.extensions@[i]@ == p.name());
        }
        if exists|i: int|
            0 <= i < record.extensions@.len() && (#[trigger] record.extensions@[i])@ == p.name() {
            let i = choose|i: int|
                0 <= i < record.extensions@.len() && (#[trigger] record.extensions@[i])@
                    == p.name();
            assert(names[i] == p.name());
        }
    }
}

/// What is passed on of a plugin's own words: all of them up to five hundred characters,
/// and the first five hundred of more.
pub proof fn law_how_much_of_a_message_is_passed_on(s: Seq<char>)
    ensures
        ({
            let r = sidecar::first_chars(s, sidecar::MAX_MESSAGE as nat);
            &&& r.len() == if s.len() < 500 {
                s.len()
            } else {
                500
            }
            &&& r == s.take(r.len() as int)
        }),
        sidecar::MAX_PLUGIN_FRAME == 1024 * 1024,
        sidecar::CALL_TIMEOUT == 15,
        sidecar::ID_BYTES == 16,
        sidecar::SIDECAR_MEMORY_MAX_MB == 128,
{
    assert(s.take(s.len() as int) =~= s);
}

/// What a failed call is answered with.
pub proof fn law_how_a_failed_call_is_answered(f: CallFailure)
    ensures
        sidecar::call_problem(f).code == match f {
            CallFailure::Request(_) => ErrorCode::Internal,
            CallFailure::Unreachable(_) => ErrorCode::ServiceUnavailable,
            CallFailure::Closed => ErrorCode::ServiceUnavailable,
            CallFailure::NotAResponse(_) => ErrorCode::AgentProtocol,
            CallFailure::TimedOut => ErrorCode::AgentTimeout,
        },
        sidecar::call_problem(f).field is None,
{
}

// ---------------------------------------------------------------------------
// Steps
// ---------------------------------------------------------------------------

/// What each operation performs, in order, and whether the next step waits for success. A
/// unit is started before its row says so, and its row says otherwise before it is stopped;
/// a tree is taken away only where plugins are installed, and a row goes last.
pub proof fn law_what_is_performed(unit: bool, tree: bool, dir: Seq<char>, exists: bool)
    ensures
        ops::install_steps() == seq![
            (InstallStep::EnsureAccount, false),
            (InstallStep::InstallTree, false),
            (InstallStep::WriteUnit, false),
        ],
        ops::install_undo() == seq![
            InstallStep::DeleteRow,
            InstallStep::RemoveTree,
            InstallStep::RemoveUnit,
        ],
        ops::enable_steps() == seq![(SwitchStep::StartUnit, false), (SwitchStep::MarkEnabled, false)],
        ops::disable_steps() == seq![
            (SwitchStep::MarkDisabled, false),
            (SwitchStep::StopUnit, false),
        ],
        ({
            let r = ops::remove_steps(unit, tree);
            &&& r[0] == (RemoveStep::StopUnit, true)
            &&& r.last() == (RemoveStep::DeleteRow, false)
            &&& r.contains((RemoveStep::RemoveUnit, false)) <==> unit
            &&& r.contains((RemoveStep::Reload, true)) <==> unit
            &&& r.contains((RemoveStep::RemoveTree, false)) <==> tree
            &&& r.len() == 2 + (if unit {
                2int
            } else {
                0
            }) + (if tree {
                1int
            } else {
                0
            })
        }),
        ops::removable(dir, exists) <==> exists && path::is_under(dir, "/opt/ferrum/plugins"@),
{
    let r = ops::remove_steps(unit, tree);
    if unit {
        assert(r[1] == (RemoveStep::RemoveUnit, false));
        assert(r[2] == (RemoveStep::Reload, true));
    }
    if tree {
        let k: int = if unit {
            3
        } else {
            1
        };
        assert(r[k] == (RemoveStep::RemoveTree, false));
    }
}

/// A plugin is found by its slug, with any white space around it, exactly if that is a slug
/// and there is one.
pub proof fn law_when_a_plugin_is_found(input: ops::SlugInput, found: bool)
    ensures
        ({
            let r = ops::named_plugin(input, found);
            let s = text::trim(input.slug@);
            &&& slug_shaped(s) && found ==> r == Ok::<Seq<char>, Problem>(s)
            &&& !slug_shaped(s) ==> error::refused(r, ErrorCode::InvalidInput, Some("slug"@))
            &&& slug_shaped(s) && !found ==> error::refused(r, ErrorCode::NotFound, None)
        }),
{
    law_what_is_a_slug(text::trim(input.slug@));
}

/// The digest that is compared is that of what the file holds: its SHA-256 in hexadecimal.
pub proof fn law_what_is_digested(contents: Seq<Result<Vec<u8>, String>>, i: int)
    requires
        0 <= i < contents.len(),
    ensures
        payload::content_digests(contents).len() == contents.len(),
        contents[i] is Ok ==> payload::content_digests(contents)[i] == Ok::<Seq<char>, Seq<char>>(
            codec::hex_text(codec::sha256(contents[i]->Ok_0@)),
        ),
        contents[i] is Err ==> payload::content_digests(contents)[i] == Err::<
            Seq<char>,
            Seq<char>,
        >(contents[i]->Err_0@),
{
}

/// What is listed for a path is found there, and for no other path anything.
pub proof fn law_what_is_listed_is_found(s: Seq<(Seq<char>, Seq<char>)>, i: int, p: Seq<char>)
    requires
        plugin::ordered(s),
    ensures
        0 <= i < s.len() ==> plugin::digest_for(s, s[i].0) == Some(s[i].1),
        (forall|j: int| 0 <= j < s.len() ==> (#[trigger] s[j]).0 != p) ==> plugin::digest_for(s, p)
            is None,
        plugin::lists(s, p) <==> plugin::digest_for(s, p) is Some,
{
    plugin::lemma_digest_for(s, p);
    if 0 <= i < s.len() {
        plugin::lemma_digest_for(s, s[i].0);
        assert(s[i].0 == s[i].0);
        let d = plugin::digest_for(s, s[i].0)->0;
        let k = choose|k: int| 0 <= k < s.len() && #[trigger] s[k] == (s[i].0, d);
        if k < i {
            assert(text::text_le(s[k].0, s[i].0));
        } else if i < k {
            assert(text::text_le(s[i].0, s[k].0));
        }
    }
    if plugin::digest_for(s, p) is Some {
        let k = choose|k: int|
            0 <= k < s.len() && #[trigger] s[k] == (p, plugin::digest_for(s, p)->0);
        assert(s[k].0 == p);
    }
}

/// What is said of a plugin's unit, and which shell its account has.
pub proof fn law_what_is_said_of_a_unit(status: Option<UnitStatus>)
    ensures
        status is Some ==> ops::state_name(status) == status->0.state.name(),
        status is None ==> ops::state_name(status) == "unknown"@,
        sidecar::nologin(Family::Debian) == "/usr/sbin/nologin"@,
        sidecar::nologin(Family::Rhel) == "/sbin/nologin"@,
        payload::DIRECTORY_MODE == 0o755,
{
}


/// Under which settings the operator decides.
pub proof fn law_which_settings_decide()
    ensures
        plugin::ALLOW_UNSIGNED_KEY@ == "plugins."@ + "allow_unsigned"@,
        plugin::TRUSTED_KEYS_KEY@ == "plugins."@ + "trusted_keys"@,
{
    reveal_strlit("plugins.");
    reveal_strlit("allow_unsigned");
    reveal_strlit("trusted_keys");
    reveal_strlit("plugins.allow_unsigned");
    reveal_strlit("plugins.trusted_keys");
    assert("plugins.allow_unsigned"@ =~= "plugins."@ + "allow_unsigned"@);
    assert("plugins.trusted_keys"@ =~= "plugins."@ + "trusted_keys"@);
}


} // verus!
