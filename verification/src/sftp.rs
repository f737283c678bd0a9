//! SFTP access for tenants.
//!
//! A tenant with SFTP logs in to a chroot, which is their home: the home itself
//! belongs to root, and the directories inside it that the tenant writes to are
//! theirs. Being in one group is what opens the access; it is given last, when
//! the chroot is known to be valid.
use vstd::prelude::*;
use vstd::string::StringExecFns;
use vstd::string::StrSliceExecFns;
use crate::codec;
use crate::error;
use crate::error::{ErrorCode, FerrumError, Problem};
use crate::model;
use crate::model::{CmdOutput, LinuxUser, Subscription};
use crate::path;
use crate::procedure;
use crate::procedure::{Course, Procedure};
use crate::text;

pub mod laws;

verus! {

/// The group that has SFTP access.
pub const SFTP_GROUP: &'static str = "ferrum-sftp";

/// The mode of the drop-in for sshd.
pub const DROPIN_MODE: u32 = 0o600;

/// How many random bytes a password's salt is made of. They are written as
/// sixteen characters, which is all that a login reads back.
pub const SALT_BYTES: usize = 12;

// ---------------------------------------------------------------------------
// Commands
// ---------------------------------------------------------------------------

/// `groupadd --system -- ferrum-sftp`.
pub fn groupadd_argv() -> (r: Vec<String>)
    ensures
        text::texts(r@) == seq!["--system"@, "--"@, SFTP_GROUP@],
{
    let v = vec!["--system".to_owned(), "--".to_owned(), SFTP_GROUP.to_owned()];
    assert(text::texts(v@) =~= seq!["--system"@, "--"@, SFTP_GROUP@]);
    v
}

/// `usermod --append --groups ferrum-sftp -- <user>`: a grant, which leaves the
/// tenant's other groups.
pub fn usermod_group_argv(user: &LinuxUser) -> (r: Vec<String>)
    ensures
        text::texts(r@) == seq!["--append"@, "--groups"@, SFTP_GROUP@, "--"@, user@],
{
    let v = vec![
        "--append".to_owned(),
        "--groups".to_owned(),
        SFTP_GROUP.to_owned(),
        "--".to_owned(),
        user.as_str().to_owned(),
    ];
    assert(text::texts(v@) =~= seq!["--append"@, "--groups"@, SFTP_GROUP@, "--"@, user@]);
    v
}

/// `gpasswd --delete <user> -- ferrum-sftp`.
pub fn gpasswd_remove_argv(user: &LinuxUser) -> (r: Vec<String>)
    ensures
        text::texts(r@) == seq!["--delete"@, user@, "--"@, SFTP_GROUP@],
{
    let v = vec![
        "--delete".to_owned(),
        user.as_str().to_owned(),
        "--".to_owned(),
        SFTP_GROUP.to_owned(),
    ];
    assert(text::texts(v@) =~= seq!["--delete"@, user@, "--"@, SFTP_GROUP@]);
    v
}

/// `usermod --password <hash> -- <user>`.
pub fn usermod_password_argv(user: &LinuxUser, hash: &str) -> (r: Vec<String>)
    ensures
        text::texts(r@) == seq!["--password"@, hash@, "--"@, user@],
{
    let v = vec![
        "--password".to_owned(),
        hash.to_owned(),
        "--".to_owned(),
        user.as_str().to_owned(),
    ];
    assert(text::texts(v@) =~= seq!["--password"@, hash@, "--"@, user@]);
    v
}

/// The block of `sshd_config` that shuts the group in: to its home, to SFTP, and
/// without forwarding.
pub open spec fn dropin_lines() -> Seq<Seq<char>> {
    seq![
        "Match Group "@ + SFTP_GROUP@,
        "    ChrootDirectory %h"@,
        "    ForceCommand internal-sftp"@,
        "    AllowTcpForwarding no"@,
        "    X11Forwarding no"@,
    ]
}

/// The drop-in for sshd.
pub fn sshd_dropin() -> (r: String)
    ensures
        r@ == text::join(dropin_lines(), "\n"@) + "\n"@,
{
    let mut first = "Match Group ".to_owned();
    first.append(SFTP_GROUP);
    let lines = vec![
        first,
        "    ChrootDirectory %h".to_owned(),
        "    ForceCommand internal-sftp".to_owned(),
        "    AllowTcpForwarding no".to_owned(),
        "    X11Forwarding no".to_owned(),
    ];
    assert(text::texts(lines@) =~= dropin_lines());
    let mut out = text::joined(&lines, "\n");
    out.append("\n");
    out
}

/// Whether the group is there after `groupadd`: it was made, or another enable
/// made it meanwhile (exit status 9).
pub fn group_ready(out: &CmdOutput) -> (r: Result<(), FerrumError>)
    ensures
        error::outcome(r) == (if out.status == 0 || out.status == 9 {
            Ok::<(), Problem>(())
        } else {
            Err::<(), Problem>(
                error::problem(
                    ErrorCode::CommandFailed,
                    "groupadd "@ + SFTP_GROUP@ + " failed: "@ + out.failure@,
                ),
            )
        }),
{
    if out.success() || out.status == 9 {
        return Ok(());
    }
    let mut m = "groupadd ".to_owned();
    m.append(SFTP_GROUP);
    m.append(" failed: ");
    m.append(out.failure.as_str());
    Err(FerrumError::new(ErrorCode::CommandFailed, m.as_str()))
}

/// Whether an account is in the group, given what `id -nG` answered. An account
/// that is missing is in no group.
pub fn is_group_member(answer: &Option<CmdOutput>) -> (r: bool)
    ensures
        r == (match answer {
            Some(out) => out.status == 0 && text::words(out.stdout@).contains(SFTP_GROUP@),
            None => false,
        }),
{
    match answer {
        Some(out) => {
            let names = text::words_of(out.stdout.as_str());
            out.success() && text::listed(&names, SFTP_GROUP)
        },
        None => false,
    }
}

/// The group that `sites` belongs to: that of the web server, if it is there.
pub fn sites_group(web_group: &str, exists: bool) -> (r: String)
    ensures
        r@ == (if exists {
            web_group@
        } else {
            Seq::<char>::empty()
        }),
{
    if exists {
        web_group.to_owned()
    } else {
        String::new()
    }
}

// ---------------------------------------------------------------------------
// Ownership
// ---------------------------------------------------------------------------

/// One directory and what it has to be.
#[derive(Debug, Clone, PartialEq, Eq)]
pub struct OwnershipStep {
    pub path: String,
    /// Make it first.
    pub create: bool,
    /// `user:group`.
    pub owner: String,
    pub mode: u32,
}

/// An [`OwnershipStep`] as contracts see it.
#[verifier::ext_equal]
pub struct Ownership {
    pub path: Seq<char>,
    pub create: bool,
    pub owner: Seq<char>,
    pub mode: u32,
}

impl View for OwnershipStep {
    type V = Ownership;

    open spec fn view(&self) -> Ownership {
        Ownership { path: self.path@, create: self.create, owner: self.owner@, mode: self.mode }
    }
}

pub open spec fn ownerships(v: Seq<OwnershipStep>) -> Seq<Ownership> {
    v.map_values(|s: OwnershipStep| s@)
}

/// The home belongs to root, and everybody may pass through it.
pub fn home_step(home: &str) -> (r: OwnershipStep)
    ensures
        r@ == (Ownership { path: home@, create: false, owner: "root:root"@, mode: 0o755 }),
{
    OwnershipStep {
        path: home.to_owned(),
        create: false,
        owner: "root:root".to_owned(),
        mode: 0o755,
    }
}

/// What stands where a directory should be.
#[derive(Debug)]
pub enum Found {
    Missing,
    Directory,
    Symlink,
    Other,
    /// It could not be looked at.
    Unknown(String),
}

/// What stands in a home under the names that matter.
#[derive(Debug)]
pub struct HomeFacts {
    pub sites: Found,
    pub trash: Found,
    pub ssh: Found,
}

/// One of the tenant's directories: its owner, its mode, and whether it is made
/// where it is missing.
#[verifier::ext_equal]
pub struct Island {
    pub name: Seq<char>,
    pub owner: Seq<char>,
    pub mode: u32,
    pub create: bool,
}

/// The tenant's directories inside the chroot, and no others.
pub open spec fn islands(user: Seq<char>, group: Seq<char>) -> Seq<Island> {
    let own = user + ":"@ + user;
    seq![
        Island {
            name: "sites"@,
            owner: if group.len() == 0 {
                own
            } else {
                user + ":"@ + group
            },
            mode: 0o750,
            create: true,
        },
        Island { name: ".trash"@, owner: own, mode: 0o700, create: false },
        Island { name: ".ssh"@, owner: own, mode: 0o700, create: true },
    ]
}

/// What one directory needs: nothing where it is missing and not wanted; a
/// symlink, or anything but a directory, is refused.
pub open spec fn island_step(home: Seq<char>, island: Island, found: Found) -> Result<
    Option<Ownership>,
    Problem,
> {
    let path = model::join_path(home, island.name);
    let step = Ownership { path, create: false, owner: island.owner, mode: island.mode };
    match found {
        Found::Missing => if island.create {
            Ok(Some(Ownership { create: true, ..step }))
        } else {
            Ok(None)
        },
        Found::Directory => Ok(Some(step)),
        Found::Symlink => Err(
            error::problem(
                ErrorCode::InvalidPath,
                path + " is a symlink; refusing to change ownership through it"@,
            ),
        ),
        Found::Other => Err(
            error::problem(ErrorCode::InvalidPath, path + " exists but is not a directory"@),
        ),
        Found::Unknown(why) => Err(
            error::problem(ErrorCode::Internal, "could not inspect "@ + path + ": "@ + why@),
        ),
    }
}

pub open spec fn found_for(facts: HomeFacts, i: int) -> Found {
    if i == 0 {
        facts.sites
    } else if i == 1 {
        facts.trash
    } else {
        facts.ssh
    }
}

/// What the first `n` directories need; the first that is refused decides.
pub open spec fn island_steps(
    home: Seq<char>,
    islands: Seq<Island>,
    facts: HomeFacts,
    n: nat,
) -> Result<Seq<Ownership>, Problem>
    decreases n,
{
    if n == 0 {
        Ok(Seq::empty())
    } else {
        match island_steps(home, islands, facts, (n - 1) as nat) {
            Err(p) => Err(p),
            Ok(steps) => match island_step(home, islands[n - 1], found_for(facts, n - 1)) {
                Err(p) => Err(p),
                Ok(None) => Ok(steps),
                Ok(Some(s)) => Ok(steps.push(s)),
            },
        }
    }
}

fn plan_island(
    home: &str,
    name: &str,
    owner: String,
    mode: u32,
    create: bool,
    found: &Found,
) -> (r: Result<Option<OwnershipStep>, FerrumError>)
    ensures
        ({
            let island = Island { name: name@, owner: owner@, mode, create };
            match r {
                Ok(None) => island_step(home@, island, *found) == Ok::<Option<Ownership>, Problem>(
                    None,
                ),
                Ok(Some(s)) => island_step(home@, island, *found) == Ok::<
                    Option<Ownership>,
                    Problem,
                >(Some(s@)),
                Err(e) => island_step(home@, island, *found) == Err::<Option<Ownership>, Problem>(
                    e@,
                ),
            }
        }),
{
    let path = model::joined_path(home, name);
    match found {
        Found::Missing => {
            if create {
                Ok(Some(OwnershipStep { path, create: true, owner, mode }))
            } else {
                Ok(None)
            }
        },
        Found::Directory => Ok(Some(OwnershipStep { path, create: false, owner, mode })),
        Found::Symlink => {
            let mut m = path;
            m.append(" is a symlink; refusing to change ownership through it");
            Err(FerrumError::new(ErrorCode::InvalidPath, m.as_str()))
        },
        Found::Other => {
            let mut m = path;
            m.append(" exists but is not a directory");
            Err(FerrumError::new(ErrorCode::InvalidPath, m.as_str()))
        },
        Found::Unknown(why) => {
            let mut m = "could not inspect ".to_owned();
            m.append(path.as_str());
            m.append(": ");
            m.append(why.as_str());
            Err(FerrumError::internal(m.as_str()))
        },
    }
}

fn owner_of(user: &str, group: &str) -> (r: String)
    ensures
        r@ == user@ + ":"@ + group@,
{
    let mut s = user.to_owned();
    s.append(":");
    s.append(group);
    s
}

fn push_step(out: &mut Vec<OwnershipStep>, step: Option<OwnershipStep>)
    ensures
        ownerships(final(out)@) == (match step {
            Some(s) => ownerships(old(out)@).push(s@),
            None => ownerships(old(out)@),
        }),
{
    let ghost before = out@;
    if let Some(s) = step {
        out.push(s);
        assert(ownerships(out@) =~= ownerships(before).push(s@));
    }
}

/// What the tenant's directories need, given what stands in the home now that it
/// belongs to root.
pub fn subdir_steps(home: &str, user: &LinuxUser, group: &str, facts: &HomeFacts) -> (r: Result<
    Vec<OwnershipStep>,
    FerrumError,
>)
    ensures
        match r {
            Ok(v) => island_steps(home@, islands(user@, group@), *facts, 3) == Ok::<
                Seq<Ownership>,
                Problem,
            >(ownerships(v@)),
            Err(e) => island_steps(home@, islands(user@, group@), *facts, 3) == Err::<
                Seq<Ownership>,
                Problem,
            >(e@),
        },
{
    let tenant = user.as_str();
    let ghost all = islands(user@, group@);
    proof {
        reveal_with_fuel(island_steps, 4);
    }
    let sites_owner = if group.unicode_len() == 0 {
        owner_of(tenant, tenant)
    } else {
        owner_of(tenant, group)
    };
    let mut steps: Vec<OwnershipStep> = Vec::new();
    assert(ownerships(steps@) =~= Seq::<Ownership>::empty());
    let a = match plan_island(home, "sites", sites_owner, 0o750, true, &facts.sites) {
        Ok(s) => s,
        Err(e) => return Err(e),
    };
    push_step(&mut steps, a);
    let b = match plan_island(home, ".trash", owner_of(tenant, tenant), 0o700, false, &facts.trash) {
        Ok(s) => s,
        Err(e) => return Err(e),
    };
    push_step(&mut steps, b);
    let c = match plan_island(home, ".ssh", owner_of(tenant, tenant), 0o700, true, &facts.ssh) {
        Ok(s) => s,
        Err(e) => return Err(e),
    };
    push_step(&mut steps, c);
    Ok(steps)
}

/// A mode as `chmod` is given it: four octal digits.
pub open spec fn octal_mode(mode: u32) -> Seq<char> {
    text::zero_padded(text::numeral(mode as nat, 8), 4)
}

/// The commands that carry a step out. A symlink is never followed.
pub open spec fn step_commands(s: Ownership) -> Seq<Seq<Seq<char>>> {
    let make = if s.create {
        seq![seq!["mkdir"@, "-p"@, "--"@, s.path]]
    } else {
        Seq::empty()
    };
    make + seq![
        seq!["chown"@, "-h"@, s.owner, "--"@, s.path],
        seq!["chmod"@, octal_mode(s.mode), "--"@, s.path],
    ]
}

pub open spec fn commands(v: Seq<Vec<String>>) -> Seq<Seq<Seq<char>>> {
    v.map_values(|argv: Vec<String>| text::texts(argv@))
}

/// The commands of a step, in order.
pub fn apply_step(step: &OwnershipStep) -> (r: Vec<Vec<String>>)
    ensures
        commands(r@) == step_commands(step@),
{
    let mut out: Vec<Vec<String>> = Vec::new();
    if step.create {
        let mkdir = vec![
            "mkdir".to_owned(),
            "-p".to_owned(),
            "--".to_owned(),
            step.path.as_str().to_owned(),
        ];
        assert(text::texts(mkdir@) =~= seq!["mkdir"@, "-p"@, "--"@, step.path@]);
        out.push(mkdir);
    }
    let chown = vec![
        "chown".to_owned(),
        "-h".to_owned(),
        step.owner.as_str().to_owned(),
        "--".to_owned(),
        step.path.as_str().to_owned(),
    ];
    assert(text::texts(chown@) =~= seq!["chown"@, "-h"@, step.owner@, "--"@, step.path@]);
    let digits = text::numeral_of(step.mode as u64, 8);
    let mode = text::zero_padded_of(digits.as_str(), 4);
    let chmod = vec![
        "chmod".to_owned(),
        mode,
        "--".to_owned(),
        step.path.as_str().to_owned(),
    ];
    assert(text::texts(chmod@) =~= seq![
        "chmod"@,
        octal_mode(step.mode),
        "--"@,
        step.path@,
    ]);
    out.push(chown);
    out.push(chmod);
    assert(commands(out@) =~= step_commands(step@));
    out
}

/// The home of an account, if the row says so too. Anything else is a row that
/// was tampered with, and is not touched.
pub open spec fn trusted_home(subscription: Subscription, user: Seq<char>) -> Result<
    Seq<char>,
    Problem,
> {
    let expected = model::home_of(user);
    if path::same_path(subscription.home_dir@, expected) {
        Ok(expected)
    } else {
        Err(
            error::problem(
                ErrorCode::Internal,
                "subscription "@ + text::signed_decimal(subscription.id as int) + " has home `"@
                    + subscription.home_dir@ + "`, expected `"@ + expected
                    + "` — refusing to touch it"@,
            ),
        )
    }
}

pub fn verified_home(subscription: &Subscription, user: &LinuxUser) -> (r: Result<
    String,
    FerrumError,
>)
    ensures
        error::outcome(r) == trusted_home(*subscription, user@),
{
    let expected = model::home_path(user.as_str());
    let stored = subscription.home_dir.as_str();
    let a = path::parts_of(stored);
    let b = path::parts_of(expected.as_str());
    if path::absolute(stored) == path::absolute(expected.as_str()) && path::same_lists(&a, &b)
        && path::here(stored) == path::here(expected.as_str()) {
        return Ok(expected);
    }
    let mut m = "subscription ".to_owned();
    let id = text::signed_decimal_of(subscription.id);
    m.append(id.as_str());
    m.append(" has home `");
    m.append(stored);
    m.append("`, expected `");
    m.append(expected.as_str());
    m.append("` — refusing to touch it");
    Err(FerrumError::internal(m.as_str()))
}

// ---------------------------------------------------------------------------
// Passwords
// ---------------------------------------------------------------------------

/// What hashing a password with a salt comes to.
pub open spec fn password_hash(password: Seq<char>, salt: Seq<u8>) -> Result<Seq<char>, Problem> {
    match codec::sha512_crypt(password, salt) {
        Ok(hash) => Ok(hash),
        Err(why) => Err(error::problem(ErrorCode::Internal, "sha512-crypt failed: "@ + why)),
    }
}

/// The hash of a password with a given salt.
pub fn hash_with_salt(password: &str, salt: &Vec<u8>) -> (r: Result<String, FerrumError>)
    requires
        salt@.len() * 4 <= usize::MAX,
    ensures
        error::outcome(r) == password_hash(password@, salt@),
        r matches Ok(hash) ==> text::starts_with(hash@, "$6$"@),
{
    match codec::sha512_crypt_hash(password, salt.as_slice()) {
        Ok(hash) => Ok(hash),
        Err(why) => {
            let mut m = "sha512-crypt failed: ".to_owned();
            m.append(why.as_str());
            Err(FerrumError::internal(m.as_str()))
        },
    }
}

/// The hash of an SFTP password with a salt of its own. A password that is too
/// weak for the panel is too weak here.
pub fn sftp_password_hash(password: &str, strength: Result<(), FerrumError>) -> (r: Result<
    String,
    FerrumError,
>)
    ensures
        match strength {
            Err(weak) => r matches Err(e) && e@ == weak@,
            Ok(()) => exists|salt: Seq<u8>|
                salt.len() == SALT_BYTES && error::outcome(r) == #[trigger] password_hash(
                    password@,
                    salt,
                ),
        },
        r matches Ok(hash) ==> text::starts_with(hash@, "$6$"@),
{
    match strength {
        Ok(()) => {},
        Err(e) => return Err(e),
    }
    let salt = codec::random_bytes(SALT_BYTES);
    let r = hash_with_salt(password, &salt);
    assert(error::outcome(r) == password_hash(password@, salt@));
    r
}

// ---------------------------------------------------------------------------
// Operations
// ---------------------------------------------------------------------------

/// `sftp.enable`.
pub struct Enable;

/// The password is never shown: see [`EnableInput::describe`].
pub struct EnableInput {
    pub subscription_id: i64,
    pub password: Option<String>,
}

impl EnableInput {
    /// The input as a log may show it.
    pub open spec fn shown(&self) -> Seq<char> {
        "EnableInput { subscription_id: "@ + text::signed_decimal(self.subscription_id as int)
            + ", password: "@ + (if self.password is Some {
            "Some(\"<redacted>\")"@
        } else {
            "None"@
        }) + " }"@
    }

    pub fn describe(&self) -> (r: String)
        ensures
            r@ == self.shown(),
    {
        let mut s = "EnableInput { subscription_id: ".to_owned();
        let id = text::signed_decimal_of(self.subscription_id);
        s.append(id.as_str());
        s.append(", password: ");
        if self.password.is_some() {
            s.append("Some(\"<redacted>\")");
        } else {
            s.append("None");
        }
        s.append(" }");
        s
    }
}

#[derive(Debug)]
pub struct EnableOutput {
    pub linux_user: String,
    pub group: String,
    /// Whether the drop-in changed.
    pub config_changed: bool,
    pub password_set: bool,
}

/// A plan whose features cannot be looked up grants nothing.
pub open spec fn plan_refusal(subscription: Subscription) -> Option<Problem> {
    match subscription.plan_id {
        None => None,
        Some(id) => Some(
            error::problem(
                ErrorCode::PlanFeatureDisabled,
                "cannot verify that plan "@ + text::signed_decimal(id as int)
                    + " grants shell access: the plan feature lookup is not wired into sftp.enable yet"@,
            ),
        ),
    }
}

pub fn ensure_plan_allows_sftp(subscription: &Subscription) -> (r: Result<(), FerrumError>)
    ensures
        match r {
            Ok(()) => plan_refusal(*subscription) is None,
            Err(e) => plan_refusal(*subscription) == Some(e@),
        },
{
    match subscription.plan_id {
        None => Ok(()),
        Some(id) => {
            let mut m = "cannot verify that plan ".to_owned();
            let n = text::signed_decimal_of(id);
            m.append(n.as_str());
            m.append(
                " grants shell access: the plan feature lookup is not wired into sftp.enable yet",
            );
            Err(FerrumError::new(ErrorCode::PlanFeatureDisabled, m.as_str()))
        },
    }
}

/// What is known before anything is touched: the subscription in the caller's
/// scope, what the password policy says of the password (if there is one), and
/// whether the account exists.
pub struct EnableFacts {
    pub subscription: Option<Subscription>,
    pub strength: Result<(), FerrumError>,
    pub account_exists: bool,
}

/// Whose access is opened, and where. A request that is refused leaves no trace.
pub open spec fn enable_target(input: EnableInput, facts: EnableFacts) -> Result<
    (Seq<char>, Seq<char>),
    Problem,
> {
    match facts.subscription {
        None => Err(error::not_found_problem("subscription"@)),
        Some(s) => if plan_refusal(s) is Some {
            Err(plan_refusal(s)->0)
        } else if input.password is Some && facts.strength is Err {
            Err(facts.strength->Err_0@)
        } else if !model::is_linux_user(s.linux_user@) {
            Err(
                error::problem(
                    ErrorCode::InvalidInput,
                    "`"@ + s.linux_user@ + "` is not a valid Linux account name"@,
                ),
            )
        } else {
            match trusted_home(s, s.linux_user@) {
                Err(p) => Err(p),
                Ok(home) => if facts.account_exists {
                    Ok((s.linux_user@, home))
                } else {
                    Err(
                        error::problem(
                            ErrorCode::Conflict,
                            "the Linux account `"@ + s.linux_user@
                                + "` has not been provisioned yet — create a site under this subscription first"@,
                        ),
                    )
                },
            }
        },
    }
}

/// What opening SFTP access takes.
#[derive(Debug, Clone, Copy, PartialEq, Eq, Structural)]
pub enum EnableStep {
    EnsureGroup,
    /// The home goes to root before anything inside it is looked at, so that the
    /// tenant cannot swap what is found there.
    SurrenderHome,
    FixIslands,
    RenderDropin,
    /// Only now is access open.
    JoinGroup,
    SetPassword,
}

pub open spec fn enable_steps(password: bool) -> Seq<(EnableStep, bool)> {
    seq![
        (EnableStep::EnsureGroup, false),
        (EnableStep::SurrenderHome, false),
        (EnableStep::FixIslands, false),
        (EnableStep::RenderDropin, false),
        (EnableStep::JoinGroup, false),
    ] + if password {
        seq![(EnableStep::SetPassword, false)]
    } else {
        Seq::empty()
    }
}

impl Enable {
    /// Whose access may be opened, and their home.
    pub fn check(input: &EnableInput, facts: EnableFacts) -> (r: Result<
        (LinuxUser, String),
        FerrumError,
    >)
        ensures
            match r {
                Ok((user, home)) => enable_target(*input, facts) == Ok::<
                    (Seq<char>, Seq<char>),
                    Problem,
                >((user@, home@)),
                Err(e) => enable_target(*input, facts) == Err::<(Seq<char>, Seq<char>), Problem>(
                    e@,
                ),
            },
    {
        let s = match &facts.subscription {
            Some(s) => s,
            None => return Err(FerrumError::not_found("subscription")),
        };
        match ensure_plan_allows_sftp(s) {
            Ok(()) => {},
            Err(e) => return Err(e),
        }
        if input.password.is_some() {
            match facts.strength {
                Ok(()) => {},
                Err(e) => return Err(e),
            }
        }
        let user = match LinuxUser::parse(s.linux_user.as_str()) {
            Ok(u) => u,
            Err(e) => return Err(e),
        };
        let home = match verified_home(s, &user) {
            Ok(h) => h,
            Err(e) => return Err(e),
        };
        if !facts.account_exists {
            let mut m = "the Linux account `".to_owned();
            m.append(user.as_str());
            m.append(
                "` has not been provisioned yet — create a site under this subscription first",
            );
            return Err(FerrumError::new(ErrorCode::Conflict, m.as_str()));
        }
        Ok((user, home))
    }

    pub fn course(password: bool) -> (r: Procedure<EnableStep>)
        ensures
            r@ == Course::fresh(enable_steps(password), Seq::<EnableStep>::empty()),
    {
        let mut steps: Vec<(EnableStep, bool)> = Vec::new();
        steps.push((EnableStep::EnsureGroup, false));
        steps.push((EnableStep::SurrenderHome, false));
        steps.push((EnableStep::FixIslands, false));
        steps.push((EnableStep::RenderDropin, false));
        steps.push((EnableStep::JoinGroup, false));
        if password {
            steps.push((EnableStep::SetPassword, false));
        }
        assert(steps@ =~= enable_steps(password));
        let undo: Vec<EnableStep> = Vec::new();
        assert(undo@ =~= Seq::<EnableStep>::empty());
        Procedure::new(steps, undo)
    }

    pub fn finish(user: &LinuxUser, config_changed: bool, password_set: bool) -> (r: EnableOutput)
        ensures
            r.linux_user@ == user@,
            r.group@ == SFTP_GROUP@,
            r.config_changed == config_changed,
            r.password_set == password_set,
    {
        EnableOutput {
            linux_user: user.as_str().to_owned(),
            group: SFTP_GROUP.to_owned(),
            config_changed,
            password_set,
        }
    }
}

/// `sftp.disable`.
pub struct Disable;

#[derive(Debug)]
pub struct DisableInput {
    pub subscription_id: i64,
}

#[derive(Debug)]
pub struct DisableOutput {
    pub linux_user: String,
    pub removed: bool,
}

impl Disable {
    /// Whose access is closed. No plan is asked: closing always works.
    pub fn check(found: &Option<Subscription>) -> (r: Result<LinuxUser, FerrumError>)
        ensures
            error::outcome(
                match r {
                    Ok(_) => Ok::<(), FerrumError>(()),
                    Err(e) => Err::<(), FerrumError>(e),
                },
            ) == (match found {
                None => Err::<(), Problem>(error::not_found_problem("subscription"@)),
                Some(s) => if model::is_linux_user(s.linux_user@) {
                    Ok::<(), Problem>(())
                } else {
                    Err::<(), Problem>(
                        error::problem(
                            ErrorCode::InvalidInput,
                            "`"@ + s.linux_user@ + "` is not a valid Linux account name"@,
                        ),
                    )
                },
            }),
            r matches Ok(u) ==> u@ == found->0.linux_user@,
    {
        match found {
            None => Err(FerrumError::not_found("subscription")),
            Some(s) => LinuxUser::parse(s.linux_user.as_str()),
        }
    }

    /// The one command there is to run, for an account that is in the group.
    pub fn command(user: &LinuxUser, member: bool) -> (r: Option<Vec<String>>)
        ensures
            match r {
                Some(argv) => member && text::texts(argv@) == seq![
                    "--delete"@,
                    user@,
                    "--"@,
                    SFTP_GROUP@,
                ],
                None => !member,
            },
    {
        if member {
            Some(gpasswd_remove_argv(user))
        } else {
            None
        }
    }

    pub fn finish(user: &LinuxUser, removed: bool) -> (r: DisableOutput)
        ensures
            r.linux_user@ == user@,
            r.removed == removed,
    {
        DisableOutput { linux_user: user.as_str().to_owned(), removed }
    }
}

// ---------------------------------------------------------------------------
// Laws
// ---------------------------------------------------------------------------

/// Access opens only once the chroot is valid: nobody joins the group before the
/// home is root's, the tenant's directories are in order and sshd has taken the
/// drop-in.
pub proof fn law_access_opens_last(password: bool, reports: Seq<bool>)
    ensures
        ({
            let done = Course::fresh(
                enable_steps(password),
                Seq::<EnableStep>::empty(),
            ).performed(reports);
            forall|i: int|
                0 <= i < done.len() && (#[trigger] done[i]) == EnableStep::JoinGroup ==> i == 4
                    && done[1] == EnableStep::SurrenderHome && reports[1] && done[2]
                    == EnableStep::FixIslands && reports[2] && done[3] == EnableStep::RenderDropin
                    && reports[3]
        }),
{
    let steps = enable_steps(password);
    let none = Seq::<EnableStep>::empty();
    let c = Course::fresh(steps, none);
    let done = c.performed(reports);
    let n = procedure::law_what_was_performed(steps, none, reports);
    assert forall|i: int| 0 <= i < done.len() && (#[trigger] done[i]) == EnableStep::JoinGroup implies i
        == 4 && done[1] == EnableStep::SurrenderHome && reports[1] && done[2]
        == EnableStep::FixIslands && reports[2] && done[3] == EnableStep::RenderDropin
        && reports[3] by {
        assert(done[i] == steps[i].0);
        assert(i == 4);
        assert(done[1] == steps[1].0);
        assert(done[2] == steps[2].0);
        assert(done[3] == steps[3].0);
    }
}

/// Only the tenant's directories are touched: whatever stands in a home, no step
/// is for any other path, none goes through a symlink, and each gives the
/// directory to the tenant.
pub proof fn law_only_the_islands_are_touched(
    home: Seq<char>,
    user: Seq<char>,
    group: Seq<char>,
    facts: HomeFacts,
    n: nat,
)
    requires
        n <= 3,
        island_steps(home, islands(user, group), facts, n) is Ok,
    ensures
        ({
            let steps = island_steps(home, islands(user, group), facts, n)->Ok_0;
            forall|i: int|
                #![trigger steps[i]]
                0 <= i < steps.len() ==> exists|k: int|
                    #![trigger found_for(facts, k)]
                    0 <= k < n && steps[i].path == model::join_path(
                        home,
                        islands(user, group)[k].name,
                    ) && steps[i].owner == islands(user, group)[k].owner && steps[i].mode
                        == islands(user, group)[k].mode && (found_for(facts, k) is Missing
                        || found_for(facts, k) is Directory)
        }),
    decreases n,
{
    if n > 0 {
        let m = (n - 1) as nat;
        law_only_the_islands_are_touched(home, user, group, facts, m);
        let all = islands(user, group);
        let before = island_steps(home, all, facts, m)->Ok_0;
        let steps = island_steps(home, all, facts, n)->Ok_0;
        assert forall|i: int|
            #![trigger steps[i]]
            0 <= i < steps.len() implies exists|k: int|
            #![trigger found_for(facts, k)]
            0 <= k < n && steps[i].path == model::join_path(home, all[k].name) && steps[i].owner
                == all[k].owner && steps[i].mode == all[k].mode && (found_for(facts, k) is Missing
                || found_for(facts, k) is Directory) by {
            if i < before.len() {
                assert(steps[i] == before[i]);
            } else {
                assert(found_for(facts, m as int) is Missing || found_for(
                    facts,
                    m as int,
                ) is Directory);
            }
        }
    }
}

/// What a log shows of a request does not depend on the password.
pub proof fn law_the_password_is_never_shown(a: EnableInput, b: EnableInput)
    requires
        a.subscription_id == b.subscription_id,
        a.password is Some <==> b.password is Some,
    ensures
        a.shown() == b.shown(),
{
}

} // verus!
