//! Whether a staged tree is what its manifest says, and how it is installed.
//!
//! The check goes both ways: every listed file is there with its digest, and
//! every file that is there is listed. A file that nobody listed is one that
//! nobody signed for.
use vstd::prelude::*;
use vstd::string::StringExecFns;
use crate::codec;
use crate::error;
use crate::error::{ErrorCode, FerrumError, Problem};
use crate::plugin;
use crate::plugin::{Files, Manifest};
use crate::text;

verus! {

/// What stands at a path of a tree. Links are seen, not followed.
#[derive(Debug)]
pub enum EntryKind {
    File,
    Directory,
    Symlink,
    Other,
    /// A directory that could not be read, and why.
    Unread(String),
    /// Something that could not be looked at, and why.
    Unknown(String),
}

/// An entry of a tree.
#[derive(Debug)]
pub struct TreeEntry {
    /// Relative to the root, its components joined by `/`; of a directory that
    /// could not be read, as it was opened.
    pub path: String,
    pub kind: EntryKind,
}

/// Why an entry is refused, if it is.
pub open spec fn tree_entry_problem(e: TreeEntry) -> Option<Problem> {
    match e.kind {
        EntryKind::File => None,
        EntryKind::Directory => None,
        EntryKind::Symlink => Some(
            error::problem(
                ErrorCode::InvalidPath,
                "`"@ + e.path@ + "` is a symlink; a plugin payload may not contain one"@,
            ),
        ),
        EntryKind::Other => Some(
            error::problem(
                ErrorCode::InvalidPath,
                "`"@ + e.path@ + "` is neither a file nor a directory"@,
            ),
        ),
        EntryKind::Unread(why) => Some(
            error::problem(ErrorCode::NotFound, "could not read "@ + e.path@ + ": "@ + why@),
        ),
        EntryKind::Unknown(why) => Some(error::problem(ErrorCode::Internal, why@)),
    }
}

/// The files among the first `n` entries of a walk, unless one of those is
/// refused.
pub open spec fn tree_files(walk: Seq<TreeEntry>, n: nat) -> Result<Seq<Seq<char>>, Problem>
    decreases n,
{
    if n == 0 {
        Ok(Seq::empty())
    } else {
        match tree_files(walk, (n - 1) as nat) {
            Err(p) => Err(p),
            Ok(files) => match tree_entry_problem(walk[n - 1]) {
                Some(p) => Err(p),
                None => if walk[n - 1].kind is File {
                    Ok(files.push(walk[n - 1].path@))
                } else {
                    Ok(files)
                },
            },
        }
    }
}

proof fn lemma_tree_refusal_stays(walk: Seq<TreeEntry>, m: nat, n: nat)
    requires
        m <= n,
        tree_files(walk, m) is Err,
    ensures
        tree_files(walk, n) == tree_files(walk, m),
    decreases n,
{
    if m < n {
        lemma_tree_refusal_stays(walk, m, (n - 1) as nat);
    }
}

fn quoted(path: &str, rest: &str) -> (r: String)
    ensures
        r@ == "`"@ + path@ + rest@,
{
    let mut m = "`".to_owned();
    m.append(path);
    m.append(rest);
    m
}

fn check_entry(e: &TreeEntry) -> (r: Option<FerrumError>)
    ensures
        match r {
            Some(err) => tree_entry_problem(*e) == Some(err@),
            None => tree_entry_problem(*e) is None,
        },
{
    match &e.kind {
        EntryKind::File => None,
        EntryKind::Directory => None,
        EntryKind::Symlink => {
            let m = quoted(
                e.path.as_str(),
                "` is a symlink; a plugin payload may not contain one",
            );
            Some(FerrumError::new(ErrorCode::InvalidPath, m.as_str()))
        },
        EntryKind::Other => {
            let m = quoted(e.path.as_str(), "` is neither a file nor a directory");
            Some(FerrumError::new(ErrorCode::InvalidPath, m.as_str()))
        },
        EntryKind::Unread(why) => {
            let mut m = "could not read ".to_owned();
            m.append(e.path.as_str());
            m.append(": ");
            m.append(why.as_str());
            Some(FerrumError::new(ErrorCode::NotFound, m.as_str()))
        },
        EntryKind::Unknown(why) => Some(FerrumError::internal(why.as_str())),
    }
}

/// The files of a tree, given its entries in the order of a walk.
pub fn collect_files(walk: &Vec<TreeEntry>) -> (r: Result<Vec<String>, FerrumError>)
    ensures
        match r {
            Ok(v) => tree_files(walk@, walk@.len()) == Ok::<Seq<Seq<char>>, Problem>(
                text::texts(v@),
            ),
            Err(e) => tree_files(walk@, walk@.len()) == Err::<Seq<Seq<char>>, Problem>(e@),
        },
{
    let mut out: Vec<String> = Vec::new();
    let mut i: usize = 0;
    assert(text::texts(out@) =~= Seq::<Seq<char>>::empty());
    while i < walk.len()
        invariant
            i <= walk@.len(),
            tree_files(walk@, i as nat) == Ok::<Seq<Seq<char>>, Problem>(text::texts(out@)),
        decreases walk@.len() - i,
    {
        let e = &walk[i];
        match check_entry(e) {
            Some(err) => {
                proof {
                    assert(tree_files(walk@, (i + 1) as nat) is Err);
                    lemma_tree_refusal_stays(walk@, (i + 1) as nat, walk@.len());
                }
                return Err(err);
            },
            None => {},
        }
        match e.kind {
            EntryKind::File => {
                let ghost before = out@;
                out.push(e.path.as_str().to_owned());
                assert(text::texts(out@) =~= text::texts(before).push(walk@[i as int].path@));
            },
            _ => {},
        }
        i = i + 1;
    }
    Ok(out)
}

/// A file that is there and not listed, among the first `n`.
pub open spec fn unlisted(
    found: Seq<Seq<char>>,
    files: Seq<(Seq<char>, Seq<char>)>,
    n: nat,
) -> Option<Seq<char>>
    decreases n,
{
    if n == 0 {
        None
    } else if unlisted(found, files, (n - 1) as nat) is Some {
        unlisted(found, files, (n - 1) as nat)
    } else if plugin::is_outside_table(found[n - 1]) || plugin::lists(files, found[n - 1]) {
        None
    } else {
        Some(found[n - 1])
    }
}

proof fn lemma_unlisted_stays(
    found: Seq<Seq<char>>,
    files: Seq<(Seq<char>, Seq<char>)>,
    m: nat,
    n: nat,
)
    requires
        m <= n,
        unlisted(found, files, m) is Some,
    ensures
        unlisted(found, files, n) == unlisted(found, files, m),
    decreases n,
{
    if m < n {
        lemma_unlisted_stays(found, files, m, (n - 1) as nat);
    }
}

/// A digest, or why the file could not be read.
pub open spec fn digest_view(d: Result<String, String>) -> Result<Seq<char>, Seq<char>> {
    match d {
        Ok(s) => Ok(s@),
        Err(why) => Err(why@),
    }
}

/// Why a listed file is refused, given the digest of what is there.
pub open spec fn listed_problem(
    file: (Seq<char>, Seq<char>),
    actual: Result<Seq<char>, Seq<char>>,
) -> Option<Problem> {
    match actual {
        Err(why) => Some(
            error::problem(
                ErrorCode::NotFound,
                "`"@ + file.0 + "` is listed in [files] but could not be read: "@ + why,
            ),
        ),
        Ok(digest) => if text::same_but_case(digest, file.1) {
            None
        } else {
            Some(
                error::problem(
                    ErrorCode::PermissionDenied,
                    "`"@ + file.0 + "` does not match the digest in [files]"@,
                ),
            )
        },
    }
}

/// The problem of the first of the first `n` listed files that has one.
pub open spec fn first_listed_problem(
    files: Seq<(Seq<char>, Seq<char>)>,
    digests: Seq<Result<Seq<char>, Seq<char>>>,
    n: nat,
) -> Option<Problem>
    decreases n,
{
    if n == 0 {
        None
    } else {
        plugin::or_else(
            first_listed_problem(files, digests, (n - 1) as nat),
            listed_problem(files[n - 1], digests[n - 1]),
        )
    }
}

proof fn lemma_listed_problem_stays(
    files: Seq<(Seq<char>, Seq<char>)>,
    digests: Seq<Result<Seq<char>, Seq<char>>>,
    m: nat,
    n: nat,
)
    requires
        m <= n,
        first_listed_problem(files, digests, m) is Some,
    ensures
        first_listed_problem(files, digests, n) == first_listed_problem(files, digests, m),
    decreases n,
{
    if m < n {
        lemma_listed_problem_stays(files, digests, m, (n - 1) as nat);
    }
}

/// Why a tree is not what its manifest says, given the digests of the files that
/// the manifest lists, in its order.
pub open spec fn tree_problem(
    walk: Seq<TreeEntry>,
    files: Seq<(Seq<char>, Seq<char>)>,
    digests: Seq<Result<Seq<char>, Seq<char>>>,
) -> Option<Problem> {
    match tree_files(walk, walk.len()) {
        Err(p) => Some(p),
        Ok(found) => match unlisted(found, files, found.len()) {
            Some(path) => Some(
                error::problem(
                    ErrorCode::InvalidInput,
                    "`"@ + path
                        + "` is in the payload but not in [files]; every file must be listed"@,
                ),
            ),
            None => first_listed_problem(files, digests, files.len()),
        },
    }
}

pub open spec fn digest_views(v: Seq<Result<String, String>>) -> Seq<Result<Seq<char>, Seq<char>>> {
    v.map_values(|d: Result<String, String>| digest_view(d))
}

fn check_listed(file: &plugin::FileDigest, actual: &Result<String, String>) -> (r: Result<
    (),
    FerrumError,
>)
    ensures
        match r {
            Ok(()) => listed_problem(file@, digest_view(*actual)) is None,
            Err(e) => listed_problem(file@, digest_view(*actual)) == Some(e@),
        },
{
    match actual {
        Err(why) => {
            let mut m = quoted(
                file.path.as_str(),
                "` is listed in [files] but could not be read: ",
            );
            m.append(why.as_str());
            Err(FerrumError::new(ErrorCode::NotFound, m.as_str()))
        },
        Ok(digest) => {
            if text::equals_ignoring_case(digest.as_str(), file.digest.as_str()) {
                Ok(())
            } else {
                let m = quoted(file.path.as_str(), "` does not match the digest in [files]");
                Err(FerrumError::new(ErrorCode::PermissionDenied, m.as_str()))
            }
        },
    }
}

/// Whether a tree is what its manifest says, given the digests of the files that
/// the manifest lists, in its order.
pub fn compare_tree(
    walk: &Vec<TreeEntry>,
    files: &Files,
    digests: &Vec<Result<String, String>>,
) -> (r: Result<(), FerrumError>)
    requires
        digests@.len() == files@.len(),
    ensures
        match r {
            Ok(()) => tree_problem(walk@, files@, digest_views(digests@)) is None,
            Err(e) => tree_problem(walk@, files@, digest_views(digests@)) == Some(e@),
        },
{
    let found = match collect_files(walk) {
        Ok(v) => v,
        Err(e) => return Err(e),
    };
    let ghost all = text::texts(found@);
    let mut i: usize = 0;
    while i < found.len()
        invariant
            i <= found@.len(),
            all == text::texts(found@),
            tree_files(walk@, walk@.len()) == Ok::<Seq<Seq<char>>, Problem>(all),
            unlisted(all, files@, i as nat) is None,
        decreases found@.len() - i,
    {
        let p = found[i].as_str();
        assert(all[i as int] == p@);
        if !text::same(p, "plugin.toml") && !text::same(p, "plugin.toml.minisig")
            && !files.contains(p) {
            let m = quoted(
                p,
                "` is in the payload but not in [files]; every file must be listed",
            );
            proof {
                lemma_unlisted_stays(all, files@, (i + 1) as nat, all.len());
            }
            return Err(FerrumError::new(ErrorCode::InvalidInput, m.as_str()));
        }
        i = i + 1;
    }
    let entries = files.as_slice();
    let ghost ds = digest_views(digests@);
    let mut k: usize = 0;
    while k < entries.len()
        invariant
            k <= entries@.len(),
            files@ == plugin::file_digests(entries@),
            digests@.len() == files@.len(),
            ds == digest_views(digests@),
            tree_files(walk@, walk@.len()) == Ok::<Seq<Seq<char>>, Problem>(all),
            unlisted(all, files@, all.len()) is None,
            first_listed_problem(files@, ds, k as nat) is None,
        decreases entries@.len() - k,
    {
        assert(files@[k as int] == entries@[k as int]@);
        assert(ds[k as int] == digest_view(digests@[k as int]));
        match check_listed(&entries[k], &digests[k]) {
            Ok(()) => {},
            Err(e) => {
                proof {
                    lemma_listed_problem_stays(files@, ds, (k + 1) as nat, files@.len());
                }
                return Err(e);
            },
        }
        k = k + 1;
    }
    Ok(())
}

/// The SHA-256 of some bytes, in hexadecimal.
pub open spec fn digest_text(bytes: Seq<u8>) -> Seq<char> {
    codec::hex_text(codec::sha256(bytes))
}

/// The digest of some bytes as a manifest lists it.
pub fn digest_of(bytes: &[u8]) -> (r: String)
    ensures
        r@ == digest_text(bytes@),
{
    let digest = codec::sha256_digest(bytes);
    codec::hex_encode(digest.as_slice())
}

pub open spec fn content_digest(c: Result<Vec<u8>, String>) -> Result<Seq<char>, Seq<char>> {
    match c {
        Ok(bytes) => Ok(digest_text(bytes@)),
        Err(why) => Err(why@),
    }
}

pub open spec fn content_digests(v: Seq<Result<Vec<u8>, String>>) -> Seq<
    Result<Seq<char>, Seq<char>>,
> {
    v.map_values(|c: Result<Vec<u8>, String>| content_digest(c))
}

/// Checks a tree against its manifest, given the contents of the files that the
/// manifest lists, in its order.
pub fn verify_tree(
    walk: &Vec<TreeEntry>,
    manifest: &Manifest,
    contents: &Vec<Result<Vec<u8>, String>>,
) -> (r: Result<(), FerrumError>)
    requires
        contents@.len() == manifest.files@.len(),
    ensures
        match r {
            Ok(()) => tree_problem(walk@, manifest.files@, content_digests(contents@)) is None,
            Err(e) => tree_problem(walk@, manifest.files@, content_digests(contents@)) == Some(
                e@,
            ),
        },
{
    let mut digests: Vec<Result<String, String>> = Vec::new();
    let mut i: usize = 0;
    assert(digest_views(digests@) =~= content_digests(contents@.take(0)));
    while i < contents.len()
        invariant
            i <= contents@.len(),
            digest_views(digests@) == content_digests(contents@.take(i as int)),
        decreases contents@.len() - i,
    {
        let ghost before = digests@;
        let d: Result<String, String> = match &contents[i] {
            Ok(bytes) => Ok(digest_of(bytes.as_slice())),
            Err(why) => Err(why.as_str().to_owned()),
        };
        digests.push(d);
        assert(digest_views(digests@) =~= digest_views(before).push(
            content_digest(contents@[i as int]),
        ));
        assert(content_digests(contents@.take(i + 1)) =~= content_digests(
            contents@.take(i as int),
        ).push(content_digest(contents@[i as int])));
        i = i + 1;
    }
    assert(contents@.take(i as int) =~= contents@);
    assert(digest_views(digests@).len() == digests@.len());
    assert(content_digests(contents@).len() == contents@.len());
    compare_tree(walk, &manifest.files, &digests)
}

// ---------------------------------------------------------------------------
// Installing
// ---------------------------------------------------------------------------

/// The mode of the directories of an installed tree.
pub const DIRECTORY_MODE: u32 = 0o755;

/// A file that is copied into the installed tree, and its mode there.
#[derive(Debug, PartialEq, Eq)]
pub struct Placement {
    pub path: String,
    pub mode: u32,
}

impl View for Placement {
    type V = (Seq<char>, u32);

    open spec fn view(&self) -> (Seq<char>, u32) {
        (self.path@, self.mode)
    }
}

pub open spec fn placements(v: Seq<Placement>) -> Seq<(Seq<char>, u32)> {
    v.map_values(|p: Placement| p@)
}

/// The program can be run; nothing can be written but by root.
pub open spec fn mode_of(path: Seq<char>, entry: Seq<char>) -> u32 {
    if path == entry {
        0o755
    } else {
        0o644
    }
}

/// What an installed tree holds: the listed files, in order, and the manifest.
pub open spec fn layout(files: Seq<(Seq<char>, Seq<char>)>, entry: Seq<char>) -> Seq<
    (Seq<char>, u32),
> {
    files.map_values(|f: (Seq<char>, Seq<char>)| (f.0, mode_of(f.0, entry))).push(
        ("plugin.toml"@, 0o644u32),
    )
}

/// What is copied into the installed tree. Nothing of the staged tree's own
/// modes is kept.
pub fn install_tree(manifest: &Manifest) -> (r: Vec<Placement>)
    ensures
        placements(r@) == layout(manifest.files@, manifest.entry@),
{
    let entries = manifest.files.as_slice();
    let ghost files = manifest.files@;
    let ghost entry = manifest.entry@;
    let mut out: Vec<Placement> = Vec::new();
    let mut i: usize = 0;
    while i < entries.len()
        invariant
            i <= entries@.len(),
            files == plugin::file_digests(entries@),
            entry == manifest.entry@,
            out@.len() == i,
            forall|j: int|
                0 <= j < i ==> (#[trigger] placements(out@)[j]) == (
                    files[j].0,
                    mode_of(files[j].0, entry),
                ),
        decreases entries@.len() - i,
    {
        let ghost before = placements(out@);
        let p = entries[i].path.as_str();
        assert(files[i as int].0 == p@);
        let mode: u32 = if text::same(p, manifest.entry.as_str()) {
            0o755
        } else {
            0o644
        };
        out.push(Placement { path: p.to_owned(), mode });
        assert(placements(out@) =~= before.push((p@, mode)));
        i = i + 1;
    }
    let ghost before = placements(out@);
    out.push(Placement { path: "plugin.toml".to_owned(), mode: 0o644 });
    assert(placements(out@) =~= before.push(("plugin.toml"@, 0o644u32)));
    assert(placements(out@) =~= layout(files, entry));
    out
}

} // verus!
