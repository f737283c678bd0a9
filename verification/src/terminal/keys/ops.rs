//! `ssh.keys.list`, `ssh.keys.add` and `ssh.keys.remove`.
use vstd::prelude::*;
use vstd::string::StringExecFns;
use crate::codec;
use crate::error;
use crate::error::{ErrorCode, FerrumError, Problem};
use crate::model::{LinuxUser, Plan, Role, Subscription};
use crate::model;
use crate::terminal::keys;
use crate::terminal::keys::laws;
use crate::terminal::keys::{Key, SshPublicKey};
use crate::text;

verus! {

/// The file, relative to the tenant's home.
pub const AUTHORIZED_KEYS: &'static str = ".ssh/authorized_keys";

pub const SSH_DIR: &'static str = ".ssh";

/// What sshd asks of the directory: 0700.
pub const SSH_DIR_MODE: u32 = 0o700;

/// What sshd asks of the file: 0600.
pub const AUTHORIZED_KEYS_MODE: u32 = 0o600;

/// The most of the file that is read, in bytes.
pub const MAX_FILE_BYTES: u64 = 524288;

/// How long one file operation may take, in seconds.
pub const FS_TIMEOUT_SECS: u64 = 20;

// ---------------------------------------------------------------------------
// Views
// ---------------------------------------------------------------------------

/// One key, as it is shown. The bytes are not: a fingerprint tells keys apart.
#[derive(Debug, Clone)]
pub struct KeyView {
    pub fingerprint: String,
    pub algorithm: String,
    pub comment: Option<String>,
    pub bits: Option<usize>,
}

/// A key is shown as what it is.
pub open spec fn shows(v: KeyView, key: Key) -> bool {
    &&& v.fingerprint@ == keys::key_fingerprint(key.blob)
    &&& v.algorithm@ == key.algorithm
    &&& error::opt_text(v.comment) == key.comment
    &&& match v.bits {
        Some(n) => keys::key_bits(key) == Some(n as int),
        None => keys::key_bits(key) is None,
    }
}

/// Every key of a list is shown, in order.
pub open spec fn shows_all(vs: Seq<KeyView>, ks: Seq<Key>) -> bool {
    &&& vs.len() == ks.len()
    &&& forall|i: int| 0 <= i < ks.len() ==> shows(#[trigger] vs[i], ks[i])
}

fn copied(s: &Option<String>) -> (r: Option<String>)
    ensures
        error::opt_text(r) == error::opt_text(*s),
{
    match s {
        Some(t) => Some(t.as_str().to_owned()),
        None => None,
    }
}

impl KeyView {
    pub fn of(key: &SshPublicKey) -> (r: KeyView)
        requires
            key.blob@.len() * 8 <= usize::MAX,
        ensures
            shows(r, key@),
    {
        KeyView {
            fingerprint: key.fingerprint(),
            algorithm: key.algorithm.as_str().to_owned(),
            comment: copied(&key.comment),
            bits: key.bits(),
        }
    }
}

fn copy_key(key: &SshPublicKey) -> (r: SshPublicKey)
    ensures
        r@ == key@,
{
    let mut blob: Vec<u8> = Vec::new();
    let mut i: usize = 0;
    while i < key.blob.len()
        invariant
            i <= key.blob@.len(),
            blob@ =~= key.blob@.take(i as int),
        decreases key.blob@.len() - i,
    {
        blob.push(key.blob[i]);
        i = i + 1;
    }
    assert(key.blob@.take(i as int) =~= key.blob@);
    SshPublicKey {
        algorithm: key.algorithm.as_str().to_owned(),
        blob,
        comment: copied(&key.comment),
    }
}

/// A key that was read is short.
pub open spec fn short(key: Key) -> bool {
    key.blob.len() <= keys::MAX_KEY_CHARS
}

pub open spec fn all_short(ks: Seq<Key>) -> bool {
    forall|i: int| 0 <= i < ks.len() ==> short(#[trigger] ks[i])
}

/// What a line is read as is short, and is read back from its own line.
pub proof fn lemma_read_key(input: Seq<char>)
    requires
        keys::key_of(input) is Ok,
    ensures
        short(keys::key_of(input)->Ok_0),
        laws::stored(keys::key_of(input)->Ok_0),
{
    let k = keys::key_of(input)->Ok_0;
    laws::law_a_stored_line_reads_back(input);
    text::lemma_utf8_len(input);
    text::lemma_trim_len(input);
    let line = text::trim(input);
    text::lemma_before_space(line);
    codec::lemma_base64_text(k.blob);
}

proof fn lemma_keys_on(ls: Seq<Seq<char>>)
    requires
        keys::keys_on(ls) is Ok,
    ensures
        all_short(keys::keys_on(ls)->Ok_0),
        laws::all_stored(keys::keys_on(ls)->Ok_0),
    decreases ls.len(),
{
    if ls.len() > 0 {
        lemma_keys_on(ls.drop_last());
        let before = keys::keys_on(ls.drop_last())->Ok_0;
        let now = keys::keys_on(ls)->Ok_0;
        if keys::is_key_line(ls.last()) {
            lemma_read_key(text::trim(ls.last()));
        }
        assert forall|i: int| 0 <= i < now.len() implies short(#[trigger] now[i]) by {
            if i < before.len() {
                assert(now[i] == before[i]);
            }
        }
        assert forall|i: int| 0 <= i < now.len() implies laws::stored(#[trigger] now[i]) by {
            if i < before.len() {
                assert(now[i] == before[i]);
            }
        }
    }
}

/// Every key in a block is short, and is read back from its own line.
pub proof fn lemma_block_keys(contents: Seq<char>)
    requires
        keys::block_keys(contents) is Ok,
    ensures
        all_short(keys::block_keys(contents)->Ok_0),
        laws::all_stored(keys::block_keys(contents)->Ok_0),
{
    let ls = text::lines(contents);
    if let Ok(Some((begin, end))) = keys::block_span(ls) {
        lemma_keys_on(ls.subrange(begin + 1, end));
    }
}

// ---------------------------------------------------------------------------
// Whose file
// ---------------------------------------------------------------------------

/// What the plan says to managing keys; an administrator is not asked.
pub open spec fn keys_refusal(role: Role, plan: Option<Plan>) -> Option<Problem> {
    if role == Role::Admin {
        None
    } else {
        match plan {
            Some(p) => if p.can_ssh {
                None
            } else {
                Some(
                    error::problem(
                        ErrorCode::PlanFeatureDisabled,
                        "plan `"@ + p.name@ + "` does not include SSH access"@,
                    ),
                )
            },
            None => Some(
                error::problem(
                    ErrorCode::PlanFeatureDisabled,
                    "SSH access is a plan feature and this subscription has no plan"@,
                ),
            ),
        }
    }
}

pub fn ensure_can_manage_keys(role: Role, plan: &Option<Plan>) -> (r: Result<(), FerrumError>)
    ensures
        match r {
            Ok(()) => keys_refusal(role, *plan) is None,
            Err(e) => keys_refusal(role, *plan) == Some(e@),
        },
{
    if role == Role::Admin {
        return Ok(());
    }
    match plan {
        Some(p) => {
            if p.can_ssh {
                Ok(())
            } else {
                let mut m = "plan `".to_owned();
                m.append(p.name.as_str());
                m.append("` does not include SSH access");
                Err(FerrumError::new(ErrorCode::PlanFeatureDisabled, m.as_str()))
            }
        },
        None => Err(
            FerrumError::new(
                ErrorCode::PlanFeatureDisabled,
                "SSH access is a plan feature and this subscription has no plan",
            ),
        ),
    }
}

/// The account whose file an operation is about, once its subscription is
/// resolved.
pub open spec fn key_account(role: Role, subscription: Subscription, plan: Option<Plan>) -> Result<
    Seq<char>,
    Problem,
> {
    match keys_refusal(role, plan) {
        Some(p) => Err(p),
        None => if model::is_linux_user(subscription.linux_user@) {
            Ok(subscription.linux_user@)
        } else {
            Err(
                error::problem(
                    ErrorCode::InvalidInput,
                    "`"@ + subscription.linux_user@ + "` is not a valid Linux account name"@,
                ),
            )
        },
    }
}

/// The account whose file an operation writes.
pub fn resolve(role: Role, subscription: &Subscription, plan: &Option<Plan>) -> (r: Result<
    LinuxUser,
    FerrumError,
>)
    ensures
        match r {
            Ok(u) => key_account(role, *subscription, *plan) == Ok::<Seq<char>, Problem>(u@),
            Err(e) => key_account(role, *subscription, *plan) == Err::<Seq<char>, Problem>(e@),
        },
{
    match ensure_can_manage_keys(role, plan) {
        Ok(()) => LinuxUser::parse(subscription.linux_user.as_str()),
        Err(e) => Err(e),
    }
}

// ---------------------------------------------------------------------------
// The file
// ---------------------------------------------------------------------------

/// What reading the file came to: no file is an empty one; a file that was cut
/// off or is not UTF-8 is refused.
pub open spec fn file_text(read: Result<(bool, Vec<u8>), FerrumError>) -> Result<
    Seq<char>,
    Problem,
> {
    match read {
        Err(e) => if e.code == ErrorCode::NotFound {
            Ok(Seq::empty())
        } else {
            Err(e@)
        },
        Ok((truncated, bytes)) => if truncated {
            Err(
                error::problem(
                    ErrorCode::InvalidInput,
                    "authorized_keys is larger than the panel will read; trim it by hand"@,
                ),
            )
        } else if !vstd::utf8::valid_utf8(bytes@) {
            Err(
                error::problem(
                    ErrorCode::InvalidInput,
                    "authorized_keys is not valid UTF-8; the panel will not rewrite it"@,
                ),
            )
        } else {
            Ok(vstd::utf8::decode_utf8(bytes@))
        },
    }
}

/// The current file, given what reading it came to: whether it was cut off, and
/// its bytes.
pub fn read_contents(read: Result<(bool, Vec<u8>), FerrumError>) -> (r: Result<
    String,
    FerrumError,
>)
    ensures
        error::outcome(r) == file_text(read),
{
    match read {
        Err(e) => {
            if e.code == ErrorCode::NotFound {
                let empty = String::new();
                Ok(empty)
            } else {
                Err(e)
            }
        },
        Ok((truncated, bytes)) => {
            if truncated {
                return Err(
                    FerrumError::new(
                        ErrorCode::InvalidInput,
                        "authorized_keys is larger than the panel will read; trim it by hand",
                    ),
                );
            }
            match codec::utf8_text(bytes.as_slice()) {
                Some(s) => Ok(s),
                None => Err(
                    FerrumError::new(
                        ErrorCode::InvalidInput,
                        "authorized_keys is not valid UTF-8; the panel will not rewrite it",
                    ),
                ),
            }
        },
    }
}

/// One thing to do to the tenant's files, as the tenant.
#[derive(Debug, Clone, PartialEq, Eq)]
pub enum FileRequest {
    Mkdir { path: String },
    Chmod { path: String, mode: u32 },
    Write { path: String, text: String },
}

/// A [`FileRequest`] as contracts see it.
#[verifier::ext_equal]
pub enum Request {
    Mkdir { path: Seq<char> },
    Chmod { path: Seq<char>, mode: u32 },
    Write { path: Seq<char>, text: Seq<char> },
}

impl View for FileRequest {
    type V = Request;

    open spec fn view(&self) -> Request {
        match self {
            FileRequest::Mkdir { path } => Request::Mkdir { path: path@ },
            FileRequest::Chmod { path, mode } => Request::Chmod { path: path@, mode: *mode },
            FileRequest::Write { path, text } => Request::Write { path: path@, text: text@ },
        }
    }
}

pub open spec fn requests(v: Seq<FileRequest>) -> Seq<Request> {
    v.map_values(|q: FileRequest| q@)
}

/// What writing some keys into a file takes, in order: the directory and its
/// mode first, then the file and its mode.
pub open spec fn write_requests(existing: Seq<char>, ks: Seq<Key>) -> Result<
    Seq<Request>,
    Problem,
> {
    match keys::spliced(existing, keys::block_text(ks)) {
        Err(p) => Err(p),
        Ok(updated) => Ok(
            seq![
                Request::Mkdir { path: SSH_DIR@ },
                Request::Chmod { path: SSH_DIR@, mode: SSH_DIR_MODE },
                Request::Write { path: AUTHORIZED_KEYS@, text: updated },
                Request::Chmod { path: AUTHORIZED_KEYS@, mode: AUTHORIZED_KEYS_MODE },
            ],
        ),
    }
}

/// Plans a write of the whole file with `keys` in its block.
pub fn plan_write(existing: &str, keys: &Vec<SshPublicKey>) -> (r: Result<
    Vec<FileRequest>,
    FerrumError,
>)
    requires
        all_short(keys::models(keys@)),
    ensures
        match r {
            Ok(v) => write_requests(existing@, keys::models(keys@)) == Ok::<Seq<Request>, Problem>(
                requests(v@),
            ),
            Err(e) => write_requests(existing@, keys::models(keys@)) == Err::<
                Seq<Request>,
                Problem,
            >(e@),
        },
{
    assert forall|i: int| 0 <= i < keys@.len() implies (#[trigger] keys@[i].blob@.len() + 2) / 3
        * 4 <= isize::MAX by {
        assert(short(keys::models(keys@)[i]));
    }
    let block = keys::render_block(keys);
    match keys::splice_block(existing, block.as_str()) {
        Err(e) => Err(e),
        Ok(updated) => {
            let v = vec![
                FileRequest::Mkdir { path: SSH_DIR.to_owned() },
                FileRequest::Chmod { path: SSH_DIR.to_owned(), mode: SSH_DIR_MODE },
                FileRequest::Write { path: AUTHORIZED_KEYS.to_owned(), text: updated },
                FileRequest::Chmod {
                    path: AUTHORIZED_KEYS.to_owned(),
                    mode: AUTHORIZED_KEYS_MODE,
                },
            ];
            proof {
                let want = write_requests(existing@, keys::models(keys@))->Ok_0;
                assert(requests(v@) =~= want);
            }
            Ok(v)
        },
    }
}

/// What making the directory came to: a directory that is there is one made;
/// where the home belongs to root, the error says what to do about it.
pub open spec fn mkdir_outcome(made: Result<(), FerrumError>) -> Result<(), Problem> {
    match made {
        Ok(()) => Ok(()),
        Err(e) => match e.code {
            ErrorCode::AlreadyExists => Ok(()),
            ErrorCode::PermissionDenied => Err(
                error::problem(ErrorCode::PermissionDenied, HOME_IS_ROOTS@ + e.detail@ + ")"@),
            ),
            _ => Err(e@),
        },
    }
}

pub const HOME_IS_ROOTS: &'static str = "cannot create `~/.ssh` for this account: its home is \
    owned by root, so the account cannot create anything directly inside it. That is the layout \
    `sftp.enable` leaves behind and `sftp.disable` deliberately does not undo. `sftp.enable` now \
    creates `~/.ssh` as one of the chroot's tenant-owned directories, so running it is one fix; \
    the other is to create `~/.ssh` owned by the account with mode 0700, which is what sshd \
    requires of it in any case (";

/// Whether a write can go on after the directory was asked for.
pub fn directory_made(made: Result<(), FerrumError>) -> (r: Result<(), FerrumError>)
    ensures
        error::outcome(r) == mkdir_outcome(made),
{
    match made {
        Ok(()) => Ok(()),
        Err(e) => match e.code {
            ErrorCode::AlreadyExists => Ok(()),
            ErrorCode::PermissionDenied => {
                let mut m = HOME_IS_ROOTS.to_owned();
                m.append(e.detail.as_str());
                m.append(")");
                Err(FerrumError::new(ErrorCode::PermissionDenied, m.as_str()))
            },
            _ => Err(e),
        },
    }
}

// ---------------------------------------------------------------------------
// Operations
// ---------------------------------------------------------------------------

#[derive(Debug)]
pub struct ListInput {
    pub subscription_id: Option<i64>,
}

#[derive(Debug)]
pub struct ListOutput {
    pub keys: Vec<KeyView>,
    /// Whether the file holds keys outside the managed block.
    pub has_unmanaged_keys: bool,
}

/// `ssh.keys.list`: the keys in the managed block.
pub struct List;

impl List {
    pub fn view(contents: &str) -> (r: Result<ListOutput, FerrumError>)
        ensures
            match r {
                Ok(out) => {
                    &&& keys::block_keys(contents@) matches Ok(ks)
                    &&& shows_all(out.keys@, ks)
                    &&& keys::unmanaged_keys(contents@) == Ok::<bool, Problem>(
                        out.has_unmanaged_keys,
                    )
                },
                Err(e) => keys::block_keys(contents@) == Err::<Seq<Key>, Problem>(e@),
            },
    {
        let found = match keys::read_block(contents) {
            Ok(k) => k,
            Err(e) => return Err(e),
        };
        proof {
            lemma_block_keys(contents@);
        }
        let ghost ks = keys::models(found@);
        let has_unmanaged_keys = match keys::has_keys_outside_block(contents) {
            Ok(b) => b,
            Err(e) => return Err(e),
        };
        let mut views: Vec<KeyView> = Vec::new();
        let mut i: usize = 0;
        while i < found.len()
            invariant
                i <= found@.len(),
                ks == keys::models(found@),
                all_short(ks),
                shows_all(views@, ks.take(i as int)),
            decreases found@.len() - i,
        {
            assert(short(ks[i as int]));
            let ghost before = views@;
            views.push(KeyView::of(&found[i]));
            assert forall|j: int| 0 <= j < i + 1 implies shows(
                #[trigger] views@[j],
                ks.take(i + 1)[j],
            ) by {
                if j < i {
                    assert(views@[j] == before[j]);
                    assert(shows(before[j], ks.take(i as int)[j]));
                }
            }
            i = i + 1;
        }
        assert(ks.take(i as int) =~= ks);
        Ok(ListOutput { keys: views, has_unmanaged_keys })
    }
}

#[derive(Debug)]
pub struct AddInput {
    pub subscription_id: Option<i64>,
    /// One line: `<algorithm> <base64> [comment]`.
    pub key: String,
}

#[derive(Debug)]
pub struct AddOutput {
    pub key: KeyView,
    pub count: usize,
}

pub open spec fn has_fingerprint(ks: Seq<Key>, fingerprint: Seq<char>) -> bool {
    exists|i: int|
        0 <= i < ks.len() && keys::key_fingerprint((#[trigger] ks[i]).blob) == fingerprint
}

/// The keys of a file's block once a key is added.
pub open spec fn added(contents: Seq<char>, key: Key) -> Result<Seq<Key>, Problem> {
    match keys::block_keys(contents) {
        Err(p) => Err(p),
        Ok(ks) => if has_fingerprint(ks, keys::key_fingerprint(key.blob)) {
            Err(
                error::problem(
                    ErrorCode::AlreadyExists,
                    "that key is already installed for this account"@,
                ),
            )
        } else if ks.len() >= keys::MAX_KEYS {
            Err(
                error::problem(
                    ErrorCode::QuotaExceeded,
                    "an account may hold at most 32 keys"@,
                ),
            )
        } else {
            Ok(ks.push(key))
        },
    }
}

fn find_fingerprint(list: &Vec<SshPublicKey>, fingerprint: &str) -> (r: bool)
    ensures
        r == has_fingerprint(keys::models(list@), fingerprint@),
{
    let ghost ks = keys::models(list@);
    let mut i: usize = 0;
    while i < list.len()
        invariant
            i <= list@.len(),
            ks == keys::models(list@),
            forall|j: int|
                0 <= j < i ==> keys::key_fingerprint((#[trigger] ks[j]).blob) != fingerprint@,
        decreases list@.len() - i,
    {
        let f = list[i].fingerprint();
        assert(ks[i as int] == list@[i as int]@);
        if text::same(f.as_str(), fingerprint) {
            assert(keys::key_fingerprint(ks[i as int].blob) == fingerprint@);
            return true;
        }
        i = i + 1;
    }
    false
}

/// `ssh.keys.add`: puts a key into the managed block.
pub struct Add;

impl Add {
    /// The answer, and the keys to write. The key is one that
    /// [`keys::parse_authorized_key`] gave.
    pub fn apply(contents: &str, key: &SshPublicKey) -> (r: Result<
        (AddOutput, Vec<SshPublicKey>),
        FerrumError,
    >)
        requires
            short(key@),
        ensures
            match r {
                Ok((out, now)) => {
                    &&& added(contents@, key@) == Ok::<Seq<Key>, Problem>(keys::models(now@))
                    &&& shows(out.key, key@)
                    &&& out.count == now@.len()
                    &&& all_short(keys::models(now@))
                },
                Err(e) => added(contents@, key@) == Err::<Seq<Key>, Problem>(e@),
            },
    {
        let mut now = match keys::read_block(contents) {
            Ok(k) => k,
            Err(e) => return Err(e),
        };
        proof {
            lemma_block_keys(contents@);
        }
        let ghost before = now@;
        let fingerprint = key.fingerprint();
        if find_fingerprint(&now, fingerprint.as_str()) {
            return Err(
                FerrumError::new(
                    ErrorCode::AlreadyExists,
                    "that key is already installed for this account",
                ),
            );
        }
        if now.len() >= keys::MAX_KEYS {
            return Err(
                FerrumError::new(ErrorCode::QuotaExceeded, "an account may hold at most 32 keys"),
            );
        }
        now.push(copy_key(key));
        let ghost ks = keys::models(now@);
        assert(ks =~= keys::models(before).push(key@));
        assert forall|i: int| 0 <= i < ks.len() implies short(#[trigger] ks[i]) by {
            if i < before.len() {
                assert(short(keys::models(before)[i]));
            }
        }
        let count: usize = now.len();
        Ok((AddOutput { key: KeyView::of(key), count }, now))
    }
}

#[derive(Debug)]
pub struct RemoveInput {
    pub subscription_id: Option<i64>,
    pub fingerprint: String,
}

#[derive(Debug)]
pub struct RemoveOutput {
    pub removed: bool,
    pub count: usize,
}

/// The keys with another fingerprint, in order.
pub open spec fn kept(ks: Seq<Key>, fingerprint: Seq<char>) -> Seq<Key>
    decreases ks.len(),
{
    if ks.len() == 0 {
        ks
    } else if keys::key_fingerprint(ks.last().blob) == fingerprint {
        kept(ks.drop_last(), fingerprint)
    } else {
        kept(ks.drop_last(), fingerprint).push(ks.last())
    }
}

/// What is kept is some of what was there, and has another fingerprint.
pub proof fn lemma_kept(ks: Seq<Key>, fingerprint: Seq<char>)
    ensures
        kept(ks, fingerprint).len() <= ks.len(),
        !has_fingerprint(kept(ks, fingerprint), fingerprint),
        forall|i: int|
            0 <= i < kept(ks, fingerprint).len() ==> ks.contains(
                #[trigger] kept(ks, fingerprint)[i],
            ),
        kept(ks, fingerprint).len() < ks.len() <==> has_fingerprint(ks, fingerprint),
    decreases ks.len(),
{
    if ks.len() > 0 {
        let before = ks.drop_last();
        lemma_kept(before, fingerprint);
        let now = kept(ks, fingerprint);
        let was = kept(before, fingerprint);
        assert forall|i: int| 0 <= i < now.len() implies ks.contains(#[trigger] now[i]) by {
            if i < was.len() {
                assert(now[i] == was[i]);
                assert(before.contains(was[i]));
                let j = choose|j: int| 0 <= j < before.len() && before[j] == was[i];
                assert(ks[j] == now[i]);
            } else {
                assert(ks[ks.len() - 1] == now[i]);
            }
        }
        assert(!has_fingerprint(now, fingerprint)) by {
            if has_fingerprint(now, fingerprint) {
                let i = choose|i: int|
                    0 <= i < now.len() && keys::key_fingerprint((#[trigger] now[i]).blob)
                        == fingerprint;
                if i < was.len() {
                    assert(now[i] == was[i]);
                }
            }
        }
        if has_fingerprint(before, fingerprint) {
            let i = choose|i: int|
                0 <= i < before.len() && keys::key_fingerprint((#[trigger] before[i]).blob)
                    == fingerprint;
            assert(ks[i] == before[i]);
            assert(has_fingerprint(ks, fingerprint));
        } else if keys::key_fingerprint(ks.last().blob) == fingerprint {
            assert(keys::key_fingerprint(ks[ks.len() - 1].blob) == fingerprint);
        } else if has_fingerprint(ks, fingerprint) {
            let i = choose|i: int|
                0 <= i < ks.len() && keys::key_fingerprint((#[trigger] ks[i]).blob) == fingerprint;
            assert(before[i] == ks[i]);
        }
    }
}

/// `ssh.keys.remove`: takes a key out of the managed block.
pub struct Remove;

impl Remove {
    /// The answer, and the keys to write if one was removed.
    pub fn apply(contents: &str, fingerprint: &str) -> (r: Result<
        (RemoveOutput, Vec<SshPublicKey>),
        FerrumError,
    >)
        ensures
            match r {
                Ok((out, now)) => {
                    &&& keys::block_keys(contents@) matches Ok(ks)
                    &&& keys::models(now@) == kept(ks, fingerprint@)
                    &&& out.removed == has_fingerprint(ks, fingerprint@)
                    &&& out.count == now@.len()
                    &&& all_short(keys::models(now@))
                },
                Err(e) => keys::block_keys(contents@) == Err::<Seq<Key>, Problem>(e@),
            },
    {
        let found = match keys::read_block(contents) {
            Ok(k) => k,
            Err(e) => return Err(e),
        };
        proof {
            lemma_block_keys(contents@);
        }
        let ghost ks = keys::models(found@);
        let mut now: Vec<SshPublicKey> = Vec::new();
        let mut i: usize = 0;
        assert(ks.take(0) =~= Seq::<Key>::empty());
        assert(keys::models(now@) =~= Seq::<Key>::empty());
        while i < found.len()
            invariant
                i <= found@.len(),
                ks == keys::models(found@),
                keys::models(now@) == kept(ks.take(i as int), fingerprint@),
            decreases found@.len() - i,
        {
            let ghost next = ks.take(i + 1);
            assert(next.drop_last() =~= ks.take(i as int));
            assert(next.last() == found@[i as int]@);
            let f = found[i].fingerprint();
            if !text::same(f.as_str(), fingerprint) {
                let ghost before = now@;
                now.push(copy_key(&found[i]));
                assert(keys::models(now@) =~= keys::models(before).push(ks[i as int]));
            }
            i = i + 1;
        }
        assert(ks.take(i as int) =~= ks);
        proof {
            lemma_kept(ks, fingerprint@);
            let m = keys::models(now@);
            assert forall|j: int| 0 <= j < m.len() implies short(#[trigger] m[j]) by {
                assert(ks.contains(kept(ks, fingerprint@)[j]));
                let k = choose|k: int| 0 <= k < ks.len() && ks[k] == m[j];
                assert(short(ks[k]));
            }
        }
        let removed = now.len() != found.len();
        let count: usize = now.len();
        Ok((RemoveOutput { removed, count }, now))
    }
}

// ---------------------------------------------------------------------------
// Laws
// ---------------------------------------------------------------------------

/// A key that is added is installed: the file that is written holds the keys
/// that were there and the new one at the end.
pub proof fn law_an_added_key_is_installed(contents: Seq<char>, input: Seq<char>)
    requires
        keys::key_of(input) is Ok,
        added(contents, keys::key_of(input)->Ok_0) is Ok,
    ensures
        ({
            let key = keys::key_of(input)->Ok_0;
            let now = added(contents, key)->Ok_0;
            &&& now == keys::block_keys(contents)->Ok_0.push(key)
            &&& keys::spliced(contents, keys::block_text(now)) matches Ok(file)
            &&& keys::block_keys(file) == Ok::<Seq<Key>, Problem>(now)
        }),
{
    let key = keys::key_of(input)->Ok_0;
    let before = keys::block_keys(contents)->Ok_0;
    let now = before.push(key);
    lemma_read_key(input);
    lemma_block_keys(contents);
    assert forall|i: int| 0 <= i < now.len() implies laws::stored(#[trigger] now[i]) by {
        if i < before.len() {
            assert(laws::stored(before[i]));
        }
    }
    laws::law_the_block_reads_back(contents, now);
}

/// A key that is removed is gone, and no other: the file that is written holds
/// the other keys, in order. (When none is left, the block itself goes, as
/// [`laws::law_a_blank_block_leaves_no_keys`] says.)
pub proof fn law_a_removed_key_is_gone(contents: Seq<char>, fingerprint: Seq<char>)
    requires
        keys::block_keys(contents) is Ok,
        kept(keys::block_keys(contents)->Ok_0, fingerprint).len() > 0,
    ensures
        ({
            let now = kept(keys::block_keys(contents)->Ok_0, fingerprint);
            &&& keys::spliced(contents, keys::block_text(now)) matches Ok(file)
            &&& keys::block_keys(file) == Ok::<Seq<Key>, Problem>(now)
            &&& !has_fingerprint(now, fingerprint)
        }),
{
    let before = keys::block_keys(contents)->Ok_0;
    let now = kept(before, fingerprint);
    lemma_block_keys(contents);
    lemma_kept(before, fingerprint);
    assert forall|i: int| 0 <= i < now.len() implies laws::stored(#[trigger] now[i]) by {
        assert(before.contains(now[i]));
        let j = choose|j: int| 0 <= j < before.len() && before[j] == now[i];
        assert(laws::stored(before[j]));
    }
    laws::law_the_block_reads_back(contents, now);
}

/// No two keys have the same fingerprint.
pub open spec fn distinct(ks: Seq<Key>) -> bool {
    forall|i: int, j: int|
        0 <= i < j < ks.len() ==> keys::key_fingerprint((#[trigger] ks[i]).blob)
            != keys::key_fingerprint((#[trigger] ks[j]).blob)
}

/// Adding keeps the keys distinct and within the limit.
pub proof fn law_adding_keeps_keys_distinct_and_few(contents: Seq<char>, key: Key)
    requires
        added(contents, key) is Ok,
        distinct(keys::block_keys(contents)->Ok_0),
    ensures
        distinct(added(contents, key)->Ok_0),
        added(contents, key)->Ok_0.len() <= keys::MAX_KEYS,
{
    let before = keys::block_keys(contents)->Ok_0;
    let now = before.push(key);
    assert forall|i: int, j: int| 0 <= i < j < now.len() implies keys::key_fingerprint(
        (#[trigger] now[i]).blob,
    ) != keys::key_fingerprint((#[trigger] now[j]).blob) by {
        assert(now[i] == before[i]);
        if j < before.len() {
            assert(now[j] == before[j]);
        }
    }
}

} // verus!
