//! Who may use SFTP, and what of a home is theirs.
use vstd::prelude::*;
use crate::codec;
use crate::error;
use crate::error::{ErrorCode, Problem};
use crate::model;
use crate::model::Subscription;
use crate::path;
use crate::sftp;
use crate::sftp::{EnableFacts, EnableInput, EnableStep, Found, HomeFacts, Island, Ownership};
use crate::text;

verus! {

/// Access is opened exactly for a subscription without a plan whose account has a proper
/// name, exists, and has the home that its name says, with a password that is strong enough
/// where one is given; it is opened for that account, in that home.
pub proof fn law_whose_access_is_opened(input: EnableInput, facts: EnableFacts)
    ensures
        ({
            let r = sftp::enable_target(input, facts);
            let s = facts.subscription->0;
            let there = facts.subscription is Some;
            let free = s.plan_id is None;
            let strong = input.password is None || facts.strength is Ok;
            let named = model::is_linux_user(s.linux_user@);
            let housed = path::same_path(s.home_dir@, "/home/"@ + s.linux_user@);
            &&& r is Ok <==> there && free && strong && named && housed && facts.account_exists
            &&& r is Ok ==> r->Ok_0 == (s.linux_user@, "/home/"@ + s.linux_user@)
            &&& !there ==> error::refused(r, ErrorCode::NotFound, None)
            &&& there && !free ==> error::refused(r, ErrorCode::PlanFeatureDisabled, None)
            &&& there && free && !strong ==> r == Err::<(Seq<char>, Seq<char>), Problem>(
                facts.strength->Err_0@,
            )
            &&& there && free && strong && !named ==> error::refused(
                r,
                ErrorCode::InvalidInput,
                None,
            )
            &&& there && free && strong && named && !housed ==> error::refused(
                r,
                ErrorCode::Internal,
                None,
            )
            &&& there && free && strong && named && housed && !facts.account_exists
                ==> error::refused(r, ErrorCode::Conflict, None)
        }),
{
}

/// A stored home is the one expected exactly if it is absolute and names the same two
/// pieces.
pub proof fn law_which_homes_are_trusted(s: Subscription, user: Seq<char>)
    requires
        model::is_linux_user(user),
    ensures
        ({
            let fits = s.home_dir@.len() > 0 && s.home_dir@[0] == '/' && path::parts(s.home_dir@)
                == seq!["home"@, user];
            &&& fits ==> sftp::trusted_home(s, user) == Ok::<Seq<char>, Problem>("/home/"@ + user)
            &&& !fits ==> error::refused(sftp::trusted_home(s, user), ErrorCode::Internal, None)
        }),
{
    reveal_strlit("/");
    reveal_strlit("home");
    reveal_strlit("/home/");
    reveal_strlit(".");
    assert(!user.contains('/')) by {
        if user.contains('/') {
            let i = choose|i: int| 0 <= i < user.len() && user[i] == '/';
            assert(model::is_name_char(user[i]));
        }
    }
    assert(user != "."@) by {
        assert(model::is_name_char(user[0]));
    }
    path::law_a_path_names_its_pieces("/"@, "home"@);
    path::law_a_path_names_its_pieces("/"@ + "home"@, user);
    let home = "/home/"@ + user;
    assert(home =~= "/"@ + "home"@ + "/"@ + user);
    assert(seq!["home"@].push(user) =~= seq!["home"@, user]);
    assert(home[0] == '/');
    assert(model::home_of(user) == home);
}

/// The tenant's directories: the sites with the web server's group where there is one, the
/// trash and the keys for themselves alone; the trash is not made where it is missing.
pub proof fn law_what_is_the_tenants(user: Seq<char>, group: Seq<char>)
    ensures
        ({
            let v = sftp::islands(user, group);
            let own = user + ":"@ + user;
            &&& v.len() == 3
            &&& v[0].name == "sites"@ && v[0].mode == 0o750 && v[0].create
            &&& group.len() > 0 ==> v[0].owner == user + ":"@ + group
            &&& group.len() == 0 ==> v[0].owner == own
            &&& v[1].name == ".trash"@ && v[1].mode == 0o700 && !v[1].create && v[1].owner == own
            &&& v[2].name == ".ssh"@ && v[2].mode == 0o700 && v[2].create && v[2].owner == own
        }),
{
}

/// What one directory comes to: it is made where it is missing and wanted, taken over
/// where it is there, left alone where it is missing and not wanted; anything else in its
/// place is refused, a link above all.
pub proof fn law_what_a_directory_needs(home: Seq<char>, island: Island, found: Found)
    requires
        island.name.len() > 0,
        island.name[0] != '/',
    ensures
        ({
            let r = sftp::island_step(home, island, found);
            let at = home + "/"@ + island.name;
            &&& r is Ok <==> found is Missing || found is Directory
            &&& r == Ok::<Option<Ownership>, Problem>(None) <==> found is Missing && !island.create
            &&& r is Ok && r->Ok_0 is Some ==> {
                let s = r->Ok_0->0;
                &&& s.path == at
                &&& s.owner == island.owner
                &&& s.mode == island.mode
                &&& s.create <==> found is Missing
            }
            &&& found is Symlink || found is Other ==> error::refused(
                r,
                ErrorCode::InvalidPath,
                None,
            )
            &&& found is Unknown ==> error::refused(r, ErrorCode::Internal, None)
        }),
{
}

/// Every directory is looked at, in order: one that is refused refuses them all, and every
/// one that needs something gets it.
pub proof fn law_every_directory_counts(home: Seq<char>, v: Seq<Island>, facts: HomeFacts, n: nat)
    ensures
        sftp::island_steps(home, v, facts, 0) == Ok::<Seq<Ownership>, Problem>(Seq::empty()),
        n > 0 ==> {
            let before = sftp::island_steps(home, v, facts, (n - 1) as nat);
            let one = sftp::island_step(home, v[n - 1], sftp::found_for(facts, n - 1));
            let r = sftp::island_steps(home, v, facts, n);
            &&& r is Ok <==> before is Ok && one is Ok
            &&& r is Ok && one->Ok_0 is Some ==> r->Ok_0 == before->Ok_0.push(one->Ok_0->0)
            &&& r is Ok && one->Ok_0 is None ==> r->Ok_0 == before->Ok_0
        },
        sftp::found_for(facts, 0) == facts.sites,
        sftp::found_for(facts, 1) == facts.trash,
        sftp::found_for(facts, 2) == facts.ssh,
{
}

/// The number that some octal digits write.
pub open spec fn octal_value(s: Seq<char>) -> int
    decreases s.len(),
{
    if s.len() == 0 {
        0
    } else {
        8 * octal_value(s.drop_last()) + (s.last() as int - '0' as int)
    }
}

/// A mode is written in octal with four digits at least, and reads back as itself.
pub proof fn law_modes_read_back(mode: u32)
    ensures
        sftp::octal_mode(mode).len() >= 4,
        octal_value(sftp::octal_mode(mode)) == mode,
        forall|i: int|
            0 <= i < sftp::octal_mode(mode).len() ==> '0' <= #[trigger] sftp::octal_mode(mode)[i]
                <= '7',
{
    let s = text::numeral(mode as nat, 8);
    lemma_octal(mode as nat);
    if s.len() < 4 {
        let k = (4 - s.len()) as nat;
        lemma_zeroes(k, s);
        assert(sftp::octal_mode(mode) == Seq::new(k, |i: int| '0') + s);
    }
}

proof fn lemma_octal(n: nat)
    ensures
        octal_value(text::numeral(n, 8)) == n,
        forall|i: int|
            0 <= i < text::numeral(n, 8).len() ==> '0' <= #[trigger] text::numeral(n, 8)[i] <= '7',
    decreases n,
{
    let s = text::numeral(n, 8);
    if n >= 8 {
        lemma_octal(n / 8);
        let t = text::numeral(n / 8, 8);
        assert(s.drop_last() =~= t);
        assert(s.last() as int - '0' as int == n % 8);
        assert forall|i: int| 0 <= i < s.len() implies '0' <= #[trigger] s[i] <= '7' by {
            if i < t.len() {
                assert(s[i] == t[i]);
            }
        }
    } else {
        assert(octal_value(s.drop_last()) == 0);
    }
}

proof fn lemma_zeroes(k: nat, s: Seq<char>)
    ensures
        octal_value(Seq::new(k, |i: int| '0') + s) == octal_value(s),
    decreases k + s.len(),
{
    let z = Seq::new(k, |i: int| '0');
    let all = z + s;
    if s.len() > 0 {
        lemma_zeroes(k, s.drop_last());
        assert(all.drop_last() =~= z + s.drop_last());
    } else if k > 0 {
        let y = Seq::new((k - 1) as nat, |i: int| '0');
        lemma_zeroes((k - 1) as nat, s);
        assert(all.drop_last() =~= y + s);
        assert(all.last() == '0');
    }
}

/// How a step is carried out: a directory is made first where that is wanted, then its
/// owner is set, never through a link, then its mode; each names the path behind `--`.
pub proof fn law_how_a_step_is_carried_out(s: Ownership)
    ensures
        ({
            let c = sftp::step_commands(s);
            let n = c.len() as int;
            &&& n == if s.create {
                3int
            } else {
                2
            }
            &&& s.create ==> c[0] == seq!["mkdir"@, "-p"@, "--"@, s.path]
            &&& c[n - 2] == seq!["chown"@, "-h"@, s.owner, "--"@, s.path]
            &&& c[n - 1] == seq!["chmod"@, sftp::octal_mode(s.mode), "--"@, s.path]
        }),
{
}

/// What sshd is told: the group is locked in its home, with SFTP and nothing else.
pub proof fn law_what_sshd_is_told(password: bool)
    ensures
        sftp::dropin_lines() == seq![
            "Match Group "@ + "ferrum-sftp"@,
            "    ChrootDirectory %h"@,
            "    ForceCommand internal-sftp"@,
            "    AllowTcpForwarding no"@,
            "    X11Forwarding no"@,
        ],
        sftp::enable_steps(password).take(5) == seq![
            (EnableStep::EnsureGroup, false),
            (EnableStep::SurrenderHome, false),
            (EnableStep::FixIslands, false),
            (EnableStep::RenderDropin, false),
            (EnableStep::JoinGroup, false),
        ],
        password ==> sftp::enable_steps(password).skip(5) == seq![(EnableStep::SetPassword, false)],
        !password ==> sftp::enable_steps(password).len() == 5,
        sftp::DROPIN_MODE == 0o600,
        sftp::SALT_BYTES == 12,
{
    assert(sftp::enable_steps(password).take(5) =~= seq![
        (EnableStep::EnsureGroup, false),
        (EnableStep::SurrenderHome, false),
        (EnableStep::FixIslands, false),
        (EnableStep::RenderDropin, false),
        (EnableStep::JoinGroup, false),
    ]);
}

/// A password's hash is what the crypt function gives for that password and that salt.
pub proof fn law_what_a_password_is_hashed_to(password: Seq<char>, salt: Seq<u8>)
    ensures
        codec::sha512_crypt(password, salt) is Ok ==> sftp::password_hash(password, salt) == Ok::<
            Seq<char>,
            Problem,
        >(codec::sha512_crypt(password, salt)->Ok_0),
        codec::sha512_crypt(password, salt) is Err ==> error::refused(
            sftp::password_hash(password, salt),
            ErrorCode::Internal,
            None,
        ),
{
}


} // verus!
