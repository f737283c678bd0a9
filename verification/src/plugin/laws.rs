//! What holds of plugins as a whole.
use vstd::prelude::*;
use crate::codec;
use crate::error;
use crate::error::{ErrorCode, Problem};
use crate::model;
use crate::path;
use crate::plugin;
use crate::plugin::minisign;
use crate::plugin::minisign::Key;
use crate::plugin::ops;
use crate::plugin::ops::{InstallStep, RemoveStep, Staged, SwitchStep};
use crate::plugin::payload;
use crate::plugin::payload::TreeEntry;
use crate::plugin::sidecar;
use crate::plugin::sidecar::{PluginRecord, PluginSignature};
use crate::plugin::{ExtensionPoint, PLUGIN_ROOT};
use crate::procedure;
use crate::procedure::Course;
use crate::text;

verus! {

// ---------------------------------------------------------------------------
// Routing
// ---------------------------------------------------------------------------

/// No two extension points share a name or a namespace.
pub proof fn law_points_are_told_apart(a: ExtensionPoint, b: ExtensionPoint)
    ensures
        a.methods() == b.methods() ==> a == b,
        a.name() == b.name() ==> a == b,
{
    reveal_strlit("app");
    reveal_strlit("dns");
    reveal_strlit("backup");
    reveal_strlit("notify");
    reveal_strlit("ui");
    reveal_strlit("app_store");
    reveal_strlit("dns_provider");
    reveal_strlit("backup_target");
    reveal_strlit("notifier");
    reveal_strlit("ui_panel");
    assert(a.methods()[0] == b.methods()[0] && a.methods().len() == b.methods().len() ==> a == b);
    assert(a.name()[0] == b.name()[0] && a.name().len() == b.name().len() ==> a == b);
}

proof fn lemma_owner(namespace: Seq<char>, points: Seq<ExtensionPoint>)
    ensures
        plugin::owner_of(namespace, points) matches Some(p) ==> p.methods() == namespace,
    decreases points.len(),
{
    if points.len() > 0 && points[0].methods() != namespace {
        lemma_owner(namespace, points.skip(1));
    }
}

/// A plugin is asked for a method exactly if its manifest declared the point
/// that the method belongs to.
pub proof fn law_routing_follows_the_manifest(points: Seq<ExtensionPoint>, method: Seq<char>)
    ensures
        plugin::routes(plugin::point_names(points), method) == (match plugin::point_for(method) {
            Some(p) => points.contains(p),
            None => false,
        }),
{
    let names = plugin::point_names(points);
    if let Some(p) = plugin::point_for(method) {
        if names.contains(p.name()) {
            let i = choose|i: int| 0 <= i < names.len() && names[i] == p.name();
            law_points_are_told_apart(points[i], p);
            assert(points[i] == p);
        }
        if points.contains(p) {
            let i = choose|i: int| 0 <= i < points.len() && points[i] == p;
            assert(names[i] == p.name());
        }
    }
}

/// A call that goes anywhere goes to the socket of an enabled plugin, for a
/// method in the namespace of a point that the plugin declared.
pub proof fn law_only_declared_points_are_reached(record: PluginRecord, method: Seq<char>)
    ensures
        sidecar::call_target(record, method) matches Ok(socket) ==> {
            &&& record.enabled
            &&& socket == plugin::plugin_socket_of(record.slug@)
            &&& exists|p: ExtensionPoint|
                text::texts(record.extensions@).contains(#[trigger] p.name())
                    && text::starts_with(method, p.methods() + "."@)
        },
{
    if sidecar::call_target(record, method) is Ok {
        let p = plugin::point_for(method)->0;
        let k = text::before(method, '.') as int;
        text::lemma_before(method, '.');
        lemma_owner(method.take(k), ExtensionPoint::points());
        reveal_strlit(".");
        assert(p.methods() + "."@ =~= method.take(k + 1));
        assert(text::texts(record.extensions@).contains(p.name()));
        assert(text::starts_with(method, p.methods() + "."@));
    }
}

// ---------------------------------------------------------------------------
// Places
// ---------------------------------------------------------------------------

/// What a manifest names stays inside the directory that the plugin is installed
/// in.
pub proof fn law_an_entry_stays_inside(dir: Seq<char>, entry: Seq<char>)
    requires
        path::is_absolute(dir),
        !path::goes_up(dir),
        plugin::entry_problem(entry) is None,
    ensures
        path::is_under(model::join_path(dir, entry), dir),
        !path::goes_up(model::join_path(dir, entry)),
        path::parts(model::join_path(dir, entry)) == path::parts(dir) + path::parts(entry),
{
    let s = model::join_path(dir, entry);
    reveal_strlit("/");
    assert(s == dir + "/"@ + entry);
    assert(s[0] == dir[0]);
    path::lemma_parts_join(dir, entry);
    let a = path::parts(dir);
    let b = path::parts(entry);
    assert((a + b).take(a.len() as int) =~= a);
    if (a + b).contains(".."@) {
        let i = choose|i: int| 0 <= i < (a + b).len() && (a + b)[i] == ".."@;
        if i < a.len() {
            assert(a[i] == ".."@);
        } else {
            assert(b[i - a.len()] == ".."@);
        }
    }
}

/// A plugin's directory is below the one that plugins are installed in, and is
/// called as the plugin is.
pub proof fn law_a_plugin_has_its_own_directory(slug: Seq<char>)
    requires
        plugin::is_slug(slug),
    ensures
        path::is_under(plugin::plugin_dir_of(slug), PLUGIN_ROOT@),
        path::parts(plugin::plugin_dir_of(slug)) == path::parts(PLUGIN_ROOT@).push(slug),
{
    reveal_strlit("/opt/ferrum/plugins");
    reveal_strlit("/");
    reveal_strlit(".");
    let s = plugin::plugin_dir_of(slug);
    assert(s[0] == PLUGIN_ROOT@[0]);
    path::lemma_parts_join(PLUGIN_ROOT@, slug);
    assert forall|i: int| 0 <= i < slug.len() implies slug[i] != '/' by {
        assert(plugin::is_slug_char(slug[i]));
    }
    text::lemma_before(slug, '/');
    assert(model::components(slug) =~= seq![slug]);
    assert(slug != "."@) by {
        assert(plugin::is_slug_end(slug[0]));
    }
    assert(seq![slug].drop_last() =~= Seq::<Seq<char>>::empty());
    assert(path::solid(seq![slug].drop_last()) =~= Seq::<Seq<char>>::empty());
    assert(path::parts(slug) =~= seq![slug]);
    assert(path::parts(PLUGIN_ROOT@) + seq![slug] =~= path::parts(PLUGIN_ROOT@).push(slug));
    assert(path::parts(s).take(path::parts(PLUGIN_ROOT@).len() as int) =~= path::parts(
        PLUGIN_ROOT@,
    ));
}

/// Nothing of an installed tree can be written by anybody but its owner.
pub proof fn law_an_installed_tree_is_read_only(
    files: Seq<(Seq<char>, Seq<char>)>,
    entry: Seq<char>,
    i: int,
)
    requires
        0 <= i < payload::layout(files, entry).len(),
    ensures
        payload::layout(files, entry)[i].1 & 0o022 == 0,
        payload::DIRECTORY_MODE & 0o022 == 0,
{
    assert(0o755u32 & 0o022 == 0) by (bit_vector);
    assert(0o644u32 & 0o022 == 0) by (bit_vector);
}

// ---------------------------------------------------------------------------
// Authenticity and integrity
// ---------------------------------------------------------------------------

proof fn lemma_key_with_id(keys: Seq<Key>, id: Seq<u8>)
    ensures
        minisign::key_with_id(keys, id) matches Some(k) ==> keys.contains(k) && k.key_id == id,
    decreases keys.len(),
{
    if keys.len() > 0 {
        if keys[0].key_id != id {
            lemma_key_with_id(keys.skip(1), id);
            if let Some(k) = minisign::key_with_id(keys, id) {
                let i = choose|i: int| 0 <= i < keys.skip(1).len() && keys.skip(1)[i] == k;
                assert(keys[i + 1] == k);
            }
        } else {
            assert(keys.contains(keys[0]));
        }
    }
}

/// A verified signature was made by a trusted key, over the message and over the
/// trusted comment that is handed out.
pub proof fn law_both_signatures_hold(message: Seq<u8>, file: Seq<char>, keys: Seq<Key>)
    requires
        minisign::verified(message, file, keys) is Ok,
    ensures
        ({
            let d = minisign::detached(file)->Ok_0;
            &&& minisign::verified(message, file, keys)->Ok_0 == d.trusted_comment
            &&& exists|k: Key|
                {
                    &&& #[trigger] keys.contains(k)
                    &&& k.key_id == d.key_id
                    &&& codec::ed25519_key(k.key)
                    &&& codec::ed25519_verifies(
                        k.key,
                        minisign::signed_bytes(message, d.alg),
                        d.signature,
                    )
                    &&& codec::ed25519_verifies(k.key, minisign::global_bytes(d), d.global)
                }
        }),
{
    let d = minisign::detached(file)->Ok_0;
    lemma_key_with_id(keys, d.key_id);
    let k = minisign::key_with_id(keys, d.key_id)->0;
    assert(keys.contains(k));
}

/// Without a key of the id that the signature names, nothing is verified.
pub proof fn law_a_foreign_key_is_refused(message: Seq<u8>, file: Seq<char>, keys: Seq<Key>)
    requires
        minisign::detached(file) is Ok,
        forall|i: int|
            0 <= i < keys.len() ==> (#[trigger] keys[i]).key_id != minisign::detached(
                file,
            )->Ok_0.key_id,
    ensures
        minisign::verified(message, file, keys) == Err::<Seq<char>, Problem>(
            minisign::denied("this plugin is signed by a key this panel does not trust"@),
        ),
{
    lemma_key_with_id(keys, minisign::detached(file)->Ok_0.key_id);
}

/// A signature holds under a key for one text at most. It is what a signature
/// scheme is for; nothing here proves it of ed25519.
pub open spec fn signs_only(key: Seq<u8>, signature: Seq<u8>, signed: Seq<u8>) -> bool {
    forall|other: Seq<u8>| #[trigger]
        codec::ed25519_verifies(key, other, signature) ==> other == signed
}

/// The trusted comment that is handed out is the text of the third line, and
/// nobody edits it: with another text on that line the file is refused, as far
/// as the global signature holds for one text only.
pub proof fn law_an_edited_comment_is_refused(
    message: Seq<u8>,
    file: Seq<char>,
    keys: Seq<Key>,
    edited: Seq<char>,
    comment: Seq<char>,
)
    requires
        minisign::verified(message, file, keys) matches Ok(c) && c != comment,
        text::lines(edited) == text::lines(file).update(2, "trusted comment: "@ + comment),
        ({
            let d = minisign::detached(file)->Ok_0;
            let key = minisign::key_with_id(keys, d.key_id)->0;
            signs_only(key.key, d.global, minisign::global_bytes(d))
        }),
    ensures
        text::lines(file).len() > 2,
        text::lines(file)[2] == "trusted comment: "@ + minisign::verified(
            message,
            file,
            keys,
        )->Ok_0,
        minisign::verified(message, edited, keys) == Err::<Seq<char>, Problem>(
            minisign::denied("the signature's trusted comment has been tampered with"@),
        ),
{
    reveal_strlit("trusted comment: ");
    let lead = "trusted comment: "@;
    let d = minisign::detached(file)->Ok_0;
    let e = minisign::Detached { trusted_comment: comment, ..d };
    let line = text::lines(file)[2];
    assert(text::lines(file).len() > 2);
    assert(line =~= lead + line.skip(lead.len() as int));
    let changed = lead + comment;
    assert(changed.take(lead.len() as int) =~= lead);
    assert(changed.skip(lead.len() as int) =~= comment);
    assert(minisign::detached(edited) == Ok::<minisign::Detached, Problem>(e));
    if minisign::global_bytes(e) == minisign::global_bytes(d) {
        let n = d.signature.len() as int;
        let was = vstd::utf8::encode_utf8(d.trusted_comment);
        let is = vstd::utf8::encode_utf8(comment);
        assert(minisign::global_bytes(d).skip(n) =~= was);
        assert(minisign::global_bytes(e).skip(n) =~= is);
        vstd::utf8::encode_utf8_decode_utf8(d.trusted_comment);
        vstd::utf8::encode_utf8_decode_utf8(comment);
    }
}

/// Another message is refused, as far as the signature holds for one text only;
/// where the digest is what is signed, two messages of one digest are not told
/// apart.
pub proof fn law_an_edited_message_is_refused(
    message: Seq<u8>,
    file: Seq<char>,
    keys: Seq<Key>,
    edited: Seq<u8>,
)
    requires
        minisign::verified(message, file, keys) is Ok,
        ({
            let d = minisign::detached(file)->Ok_0;
            let key = minisign::key_with_id(keys, d.key_id)->0;
            &&& minisign::signed_bytes(edited, d.alg) != minisign::signed_bytes(message, d.alg)
            &&& signs_only(key.key, d.signature, minisign::signed_bytes(message, d.alg))
        }),
    ensures
        minisign::verified(edited, file, keys) == Err::<Seq<char>, Problem>(
            minisign::denied("the plugin manifest does not match its signature"@),
        ),
{
}

proof fn lemma_tree_files(walk: Seq<TreeEntry>, n: nat)
    requires
        n <= walk.len(),
    ensures
        tree_is_plain(walk, n) <==> payload::tree_files(walk, n) is Ok,
        payload::tree_files(walk, n) matches Ok(found) ==> forall|p: Seq<char>| #[trigger]
            found.contains(p) <==> is_tree_file(walk, n, p),
    decreases n,
{
    if n > 0 {
        let m = (n - 1) as nat;
        lemma_tree_files(walk, m);
        if payload::tree_files(walk, n) is Ok {
            let before = payload::tree_files(walk, m)->Ok_0;
            let found = payload::tree_files(walk, n)->Ok_0;
            assert forall|p: Seq<char>| #[trigger] found.contains(p) <==> is_tree_file(walk, n, p) by {
                if found.contains(p) {
                    let i = choose|i: int| 0 <= i < found.len() && found[i] == p;
                    if i < before.len() {
                        assert(before[i] == p);
                        assert(before.contains(p));
                        let e = choose|e: int|
                            0 <= e < m && #[trigger] walk[e].kind is File && walk[e].path@ == p;
                        assert(walk[e].kind is File);
                    } else {
                        assert(walk[n - 1].kind is File);
                    }
                }
                if is_tree_file(walk, n, p) {
                    let e = choose|e: int|
                        0 <= e < n && #[trigger] walk[e].kind is File && walk[e].path@ == p;
                    if e < n - 1 {
                        assert(is_tree_file(walk, m, p)) by {
                            assert(walk[e].kind is File);
                        }
                        assert(before.contains(p));
                        let i = choose|i: int| 0 <= i < before.len() && before[i] == p;
                        assert(found[i] == p);
                    } else {
                        assert(found[found.len() - 1] == p);
                    }
                }
            }
        }
        assert(tree_is_plain(walk, n) <==> tree_is_plain(walk, m) && payload::tree_entry_problem(
            walk[n - 1],
        ) is None);
    }
}

proof fn lemma_unlisted(found: Seq<Seq<char>>, files: Seq<(Seq<char>, Seq<char>)>, n: nat)
    requires
        n <= found.len(),
    ensures
        payload::unlisted(found, files, n) is None <==> forall|i: int|
            0 <= i < n ==> plugin::is_outside_table(#[trigger] found[i]) || plugin::lists(
                files,
                found[i],
            ),
    decreases n,
{
    if n > 0 {
        lemma_unlisted(found, files, (n - 1) as nat);
    }
}

proof fn lemma_listed(
    files: Seq<(Seq<char>, Seq<char>)>,
    digests: Seq<Result<Seq<char>, Seq<char>>>,
    n: nat,
)
    requires
        n <= files.len(),
        files.len() == digests.len(),
    ensures
        payload::first_listed_problem(files, digests, n) is None <==> forall|i: int|
            0 <= i < n ==> payload::listed_problem(#[trigger] files[i], digests[i]) is None,
    decreases n,
{
    if n > 0 {
        lemma_listed(files, digests, (n - 1) as nat);
    }
}

/// Nothing among the first `n` entries but files and directories.
pub open spec fn tree_is_plain(walk: Seq<TreeEntry>, n: nat) -> bool {
    forall|i: int|
        0 <= i < n ==> (#[trigger] walk[i]).kind is File || walk[i].kind is Directory
}

/// A file among the first `n` entries, by its path.
pub open spec fn is_tree_file(walk: Seq<TreeEntry>, n: nat, p: Seq<char>) -> bool {
    exists|i: int|
        0 <= i < n && #[trigger] walk[i].kind is File && walk[i].path@ == p
}

/// A tree passes exactly if it holds files and directories only, every file in it
/// but the manifest and its signature is listed, and every listed file is there
/// with its digest.
pub proof fn law_a_tree_is_covered_both_ways(
    walk: Seq<TreeEntry>,
    files: Seq<(Seq<char>, Seq<char>)>,
    digests: Seq<Result<Seq<char>, Seq<char>>>,
)
    requires
        files.len() == digests.len(),
    ensures
        payload::tree_problem(walk, files, digests) is None <==> {
            &&& tree_is_plain(walk, walk.len())
            &&& forall|p: Seq<char>| #[trigger]
                is_tree_file(walk, walk.len(), p) ==> plugin::is_outside_table(p) || plugin::lists(
                    files,
                    p,
                )
            &&& forall|i: int|
                0 <= i < files.len() ==> payload::listed_problem(#[trigger] files[i], digests[i]) is None
        },
{
    lemma_tree_files(walk, walk.len());
    if payload::tree_files(walk, walk.len()) is Ok {
        let found = payload::tree_files(walk, walk.len())->Ok_0;
        lemma_unlisted(found, files, found.len());
        lemma_listed(files, digests, files.len());
        if payload::unlisted(found, files, found.len()) is None {
            assert forall|p: Seq<char>| #[trigger]
                is_tree_file(walk, walk.len(), p) implies plugin::is_outside_table(p)
                || plugin::lists(files, p) by {
                assert(found.contains(p));
                let i = choose|i: int| 0 <= i < found.len() && found[i] == p;
                assert(plugin::is_outside_table(found[i]) || plugin::lists(files, found[i]));
            }
        }
        if forall|p: Seq<char>| #[trigger]
            is_tree_file(walk, walk.len(), p) ==> plugin::is_outside_table(p) || plugin::lists(
                files,
                p,
            ) {
            assert forall|i: int| 0 <= i < found.len() implies plugin::is_outside_table(
                #[trigger] found[i],
            ) || plugin::lists(files, found[i]) by {
                assert(found.contains(found[i]));
                assert(is_tree_file(walk, walk.len(), found[i]));
            }
        }
    }
}

/// What a tree is refused for: the first entry that is neither file nor directory, else a
/// file that is not listed, else the first listed file that is not what it should be.
pub proof fn law_why_a_tree_is_refused(
    walk: Seq<TreeEntry>,
    files: Seq<(Seq<char>, Seq<char>)>,
    digests: Seq<Result<Seq<char>, Seq<char>>>,
    i: int,
    p: Seq<char>,
)
    requires
        files.len() == digests.len(),
    ensures
        ({
            let r = payload::tree_problem(walk, files, digests);
            let stray = is_tree_file(walk, walk.len(), p) && !plugin::is_outside_table(p)
                && !plugin::lists(files, p);
            &&& 0 <= i < walk.len() && tree_is_plain(walk, i as nat) && !(walk[i].kind is File
                || walk[i].kind is Directory) ==> r == payload::tree_entry_problem(walk[i])
            &&& tree_is_plain(walk, walk.len()) && stray ==> error::objects(
                r,
                ErrorCode::InvalidInput,
                None,
            )
            &&& tree_is_plain(walk, walk.len()) && (forall|q: Seq<char>| #[trigger]
                is_tree_file(walk, walk.len(), q) ==> plugin::is_outside_table(q) || plugin::lists(
                    files,
                    q,
                )) && 0 <= i < files.len() && (forall|j: int|
                0 <= j < i ==> payload::listed_problem(#[trigger] files[j], digests[j]) is None)
                && payload::listed_problem(files[i], digests[i]) is Some ==> r
                == payload::listed_problem(files[i], digests[i])
        }),
{
    let n = walk.len();
    lemma_tree_files(walk, n);
    if 0 <= i < n && tree_is_plain(walk, i as nat) && !(walk[i].kind is File || walk[i].kind
        is Directory) {
        lemma_tree_files(walk, i as nat);
        lemma_first_refused(walk, i, n);
    }
    if tree_is_plain(walk, n) {
        let found = payload::tree_files(walk, n)->Ok_0;
        lemma_unlisted(found, files, found.len());
        if is_tree_file(walk, n, p) && !plugin::is_outside_table(p) && !plugin::lists(files, p) {
            assert(found.contains(p));
            let k = choose|k: int| 0 <= k < found.len() && found[k] == p;
            assert(!(plugin::is_outside_table(found[k]) || plugin::lists(files, found[k])));
        }
        if forall|q: Seq<char>| #[trigger]
            is_tree_file(walk, n, q) ==> plugin::is_outside_table(q) || plugin::lists(files, q) {
            assert forall|k: int| 0 <= k < found.len() implies plugin::is_outside_table(
                #[trigger] found[k],
            ) || plugin::lists(files, found[k]) by {
                assert(found.contains(found[k]));
            }
            if 0 <= i < files.len() && (forall|j: int|
                0 <= j < i ==> payload::listed_problem(#[trigger] files[j], digests[j]) is None)
                && payload::listed_problem(files[i], digests[i]) is Some {
                lemma_first_listed(files, digests, i, files.len());
            }
        }
    }
}

proof fn lemma_first_refused(walk: Seq<TreeEntry>, i: int, n: nat)
    requires
        0 <= i < n <= walk.len(),
        payload::tree_files(walk, i as nat) is Ok,
        payload::tree_entry_problem(walk[i]) is Some,
    ensures
        payload::tree_files(walk, n) == Err::<Seq<Seq<char>>, Problem>(
            payload::tree_entry_problem(walk[i])->0,
        ),
    decreases n,
{
    if n > i + 1 {
        lemma_first_refused(walk, i, (n - 1) as nat);
    }
}

proof fn lemma_first_listed(
    files: Seq<(Seq<char>, Seq<char>)>,
    digests: Seq<Result<Seq<char>, Seq<char>>>,
    i: int,
    n: nat,
)
    requires
        0 <= i < n <= files.len(),
        files.len() == digests.len(),
        forall|j: int|
            0 <= j < i ==> payload::listed_problem(#[trigger] files[j], digests[j]) is None,
        payload::listed_problem(files[i], digests[i]) is Some,
    ensures
        payload::first_listed_problem(files, digests, n) == payload::listed_problem(
            files[i],
            digests[i],
        ),
    decreases n,
{
    if n > i + 1 {
        lemma_first_listed(files, digests, i, (n - 1) as nat);
    } else {
        lemma_listed(files, digests, i as nat);
    }
}

/// A plugin is let in only with an acceptable manifest from an acceptable place,
/// and either with a signature that holds or, where there is no signature, with
/// unsigned plugins allowed. A signature that is there is never passed over.
pub proof fn law_nothing_unauthentic_is_let_in(source: Seq<char>, staged: Staged)
    requires
        ops::introduction(source, staged) is Ok,
    ensures
        ({
            let (signature, comment) = ops::introduction(source, staged)->Ok_0;
            let keys = ops::trusted(text::texts(staged.keys@), staged.keys@.len());
            &&& plugin::source_problem(source) is None
            &&& staged.decoded is Ok
            &&& plugin::manifest_problem(staged.decoded->Ok_0) is None
            &&& signature == PluginSignature::Unsigned <==> staged.signature is None
            &&& staged.signature is None ==> staged.allow_unsigned && comment is None
            &&& staged.signature is Some ==> keys is Ok && comment is Some && minisign::verified(
                vstd::utf8::encode_utf8(staged.text->Ok_0@),
                staged.signature->0@,
                keys->Ok_0,
            ) == Ok::<Seq<char>, crate::error::Problem>(comment->0)
        }),
{
}

// ---------------------------------------------------------------------------
// Order
// ---------------------------------------------------------------------------

/// A failed installation takes its row, its tree and its unit away; one that
/// does not fail takes nothing away.
pub proof fn law_a_failed_installation_is_undone(reports: Seq<bool>)
    ensures
        ({
            let c = Course::fresh(ops::install_steps(), ops::install_undo());
            let end = c.after_all(reports);
            let done = c.performed(reports);
            &&& end.failed && end.next() is Failed ==> done.contains(InstallStep::DeleteRow)
                && done.contains(InstallStep::RemoveTree) && done.contains(InstallStep::RemoveUnit)
            &&& !end.failed ==> !done.contains(InstallStep::DeleteRow) && !done.contains(
                InstallStep::RemoveTree,
            ) && !done.contains(InstallStep::RemoveUnit)
        }),
{
    let steps = ops::install_steps();
    let undo = ops::install_undo();
    let c = Course::fresh(steps, undo);
    let end = c.after_all(reports);
    let done = c.performed(reports);
    let n = procedure::law_what_was_performed(steps, undo, reports);
    procedure::lemma_within_undo(c, reports);
    if end.failed && end.next() is Failed {
        assert(done.len() == n + 3);
        assert(done[n] == undo[0]);
        assert(done[n + 1] == undo[1]);
        assert(done[n + 2] == undo[2]);
    }
    if !end.failed {
        assert forall|i: int| 0 <= i < done.len() implies done[i] == InstallStep::EnsureAccount
            || done[i] == InstallStep::InstallTree || done[i] == InstallStep::WriteUnit by {
            assert(done[i] == steps[i].0);
        }
    }
}

/// A plugin is marked as enabled only once its unit runs, and its unit is
/// stopped only once it is marked as disabled: it is never asked while it is
/// not meant to run.
pub proof fn law_only_running_plugins_are_asked(reports: Seq<bool>, i: int)
    ensures
        ({
            let none = Seq::<SwitchStep>::empty();
            let on = Course::fresh(ops::enable_steps(), none).performed(reports);
            let off = Course::fresh(ops::disable_steps(), none).performed(reports);
            &&& 0 <= i < on.len() && on[i] == SwitchStep::MarkEnabled ==> i == 1 && on[0]
                == SwitchStep::StartUnit && reports[0]
            &&& 0 <= i < off.len() && off[i] == SwitchStep::StopUnit ==> i == 1 && off[0]
                == SwitchStep::MarkDisabled && reports[0]
        }),
{
    let none = Seq::<SwitchStep>::empty();
    let on = Course::fresh(ops::enable_steps(), none).performed(reports);
    let off = Course::fresh(ops::disable_steps(), none).performed(reports);
    let a = procedure::law_what_was_performed(ops::enable_steps(), none, reports);
    let b = procedure::law_what_was_performed(ops::disable_steps(), none, reports);
    if 0 <= i < on.len() {
        assert(on[i] == ops::enable_steps()[i].0);
        assert(on[0] == ops::enable_steps()[0].0);
    }
    if 0 <= i < off.len() {
        assert(off[i] == ops::disable_steps()[i].0);
        assert(off[0] == ops::disable_steps()[0].0);
    }
}

/// A plugin's row goes last, once its unit file and its tree are gone; and no
/// directory is taken away that is not one of a plugin.
pub proof fn law_the_row_goes_last(
    install_dir: Seq<char>,
    unit_exists: bool,
    dir_exists: bool,
    reports: Seq<bool>,
    i: int,
)
    ensures
        ({
            let tree = ops::removable(install_dir, dir_exists);
            let steps = ops::remove_steps(unit_exists, tree);
            let done = Course::fresh(steps, Seq::<RemoveStep>::empty()).performed(reports);
            0 <= i < done.len() ==> {
                &&& done[i] == RemoveStep::DeleteRow ==> i == steps.len() - 1 && done.len() == i + 1
                &&& done[i] == RemoveStep::DeleteRow && unit_exists ==> done[1]
                    == RemoveStep::RemoveUnit && reports[1]
                &&& done[i] == RemoveStep::DeleteRow && tree ==> done[i - 1]
                    == RemoveStep::RemoveTree && reports[i - 1]
                &&& done[i] == RemoveStep::RemoveTree ==> path::is_under(install_dir, PLUGIN_ROOT@)
            }
        }),
{
    let tree = ops::removable(install_dir, dir_exists);
    let steps = ops::remove_steps(unit_exists, tree);
    let none = Seq::<RemoveStep>::empty();
    let done = Course::fresh(steps, none).performed(reports);
    let n = procedure::law_what_was_performed(steps, none, reports);
    if 0 <= i < done.len() {
        assert(done[i] == steps[i].0);
        if done[i] == RemoveStep::DeleteRow {
            assert(i == steps.len() - 1);
            if unit_exists {
                assert(done[1] == steps[1].0);
            }
            if tree {
                assert(done[i - 1] == steps[i - 1].0);
            }
        }
    }
}

} // verus!
