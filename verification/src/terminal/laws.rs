//! Who gets a shell, and which.
use vstd::prelude::*;
use crate::error;
use crate::error::{ErrorCode, Problem};
use crate::model;
use crate::model::{AuthContext, Permission, Plan, Role, Subscription, TenantScope};
use crate::terminal;
use crate::terminal::pty;
use crate::terminal::{Account, AccountSource, Facts, Grant, Holdings, TerminalTarget};
use crate::text;

verus! {

/// The shells that may be started, and those that say that there is none.
pub open spec fn is_login_shell(s: Seq<char>) -> bool {
    ||| s == "/bin/bash"@
    ||| s == "/usr/bin/bash"@
    ||| s == "/bin/sh"@
    ||| s == "/usr/bin/sh"@
    ||| s == "/bin/zsh"@
    ||| s == "/usr/bin/zsh"@
    ||| s == "/bin/dash"@
    ||| s == "/usr/bin/dash"@
    ||| s == "/usr/bin/fish"@
}

pub open spec fn is_no_shell(s: Seq<char>) -> bool {
    ||| s == "/usr/sbin/nologin"@
    ||| s == "/sbin/nologin"@
    ||| s == "/usr/bin/nologin"@
    ||| s == "/bin/false"@
    ||| s == "/usr/bin/false"@
}

/// Every one of the nine shells is accepted and no other; those that say that there is no
/// shell are a matter of the plan, any other is not accepted as input.
pub proof fn law_which_shells_are_accepted(s: Seq<char>)
    ensures
        terminal::shell_refusal(s) is None <==> is_login_shell(s),
        is_no_shell(s) ==> error::objects(
            terminal::shell_refusal(s),
            ErrorCode::PlanFeatureDisabled,
            None,
        ),
        !is_login_shell(s) && !is_no_shell(s) ==> error::objects(
            terminal::shell_refusal(s),
            ErrorCode::InvalidInput,
            None,
        ),
{
    lemma_lists(s);
    lemma_shells_differ(s);
}

proof fn lemma_lists(s: Seq<char>)
    ensures
        terminal::allowed_shells().contains(s) <==> is_login_shell(s),
        terminal::refused_shells().contains(s) <==> is_no_shell(s),
{
    let a = terminal::allowed_shells();
    let b = terminal::refused_shells();
    if is_login_shell(s) {
        assert(a[0] == s || a[1] == s || a[2] == s || a[3] == s || a[4] == s || a[5] == s || a[6]
            == s || a[7] == s || a[8] == s);
    }
    if is_no_shell(s) {
        assert(b[0] == s || b[1] == s || b[2] == s || b[3] == s || b[4] == s);
    }
}

proof fn lemma_shells_differ(s: Seq<char>)
    ensures
        !(is_login_shell(s) && is_no_shell(s)),
{
    reveal_strlit("/bin/bash");
    reveal_strlit("/usr/bin/bash");
    reveal_strlit("/bin/sh");
    reveal_strlit("/usr/bin/sh");
    reveal_strlit("/bin/zsh");
    reveal_strlit("/usr/bin/zsh");
    reveal_strlit("/bin/dash");
    reveal_strlit("/usr/bin/dash");
    reveal_strlit("/usr/bin/fish");
    reveal_strlit("/usr/sbin/nologin");
    reveal_strlit("/sbin/nologin");
    reveal_strlit("/usr/bin/nologin");
    reveal_strlit("/bin/false");
    reveal_strlit("/usr/bin/false");
    let n = s.len() as int;
    if is_login_shell(s) {
        assert(s[n - 1] == 'h');
    }
    if is_no_shell(s) {
        assert(s[n - 1] == 'n' || s[n - 1] == 'e');
    }
}

/// Root's shell is the first of the nine that is installed; without one there is none.
pub proof fn law_which_shell_root_gets(installed: Seq<Seq<char>>, i: int)
    ensures
        0 <= i < 9 && installed.contains(terminal::allowed_shells()[i]) && (forall|j: int|
            0 <= j < i ==> !installed.contains(#[trigger] terminal::allowed_shells()[j]))
            ==> terminal::root_shell(installed) == Ok::<Seq<char>, Problem>(
            terminal::allowed_shells()[i],
        ),
        (forall|s: Seq<char>| #[trigger] installed.contains(s) ==> !is_login_shell(s))
            ==> error::refused(terminal::root_shell(installed), ErrorCode::Internal, None),
        terminal::allowed_shells()[0] == "/bin/bash"@,
        terminal::allowed_shells().len() == 9,
{
    let all = terminal::allowed_shells();
    if 0 <= i < 9 && installed.contains(all[i]) && (forall|j: int|
        0 <= j < i ==> !installed.contains(#[trigger] all[j])) {
        lemma_first(all, installed, i);
    }
    if forall|s: Seq<char>| #[trigger] installed.contains(s) ==> !is_login_shell(s) {
        assert forall|j: int| 0 <= j < all.len() implies !installed.contains(#[trigger] all[j]) by {
            assert(all.contains(all[j]));
            lemma_lists(all[j]);
        }
        lemma_none(all, installed);
    }
}

proof fn lemma_first(shells: Seq<Seq<char>>, installed: Seq<Seq<char>>, i: int)
    requires
        0 <= i < shells.len(),
        installed.contains(shells[i]),
        forall|j: int| 0 <= j < i ==> !installed.contains(#[trigger] shells[j]),
    ensures
        terminal::first_installed(shells, installed) == Some(shells[i]),
    decreases shells.len(),
{
    if i > 0 {
        assert(!installed.contains(shells[0]));
        let rest = shells.skip(1);
        assert forall|j: int| 0 <= j < i - 1 implies !installed.contains(#[trigger] rest[j]) by {
            assert(rest[j] == shells[j + 1]);
        }
        assert(rest[i - 1] == shells[i]);
        lemma_first(rest, installed, i - 1);
    }
}

proof fn lemma_none(shells: Seq<Seq<char>>, installed: Seq<Seq<char>>)
    requires
        forall|j: int| 0 <= j < shells.len() ==> !installed.contains(#[trigger] shells[j]),
    ensures
        terminal::first_installed(shells, installed) is None,
    decreases shells.len(),
{
    if shells.len() > 0 {
        assert(!installed.contains(shells[0]));
        let rest = shells.skip(1);
        assert forall|j: int| 0 <= j < rest.len() implies !installed.contains(
            #[trigger] rest[j],
        ) by {
            assert(rest[j] == shells[j + 1]);
        }
        lemma_none(rest, installed);
    }
}

/// Which way a request goes: an administrator may ask for root's shell or a tenant's,
/// whatever the plan; a customer for a tenant's, if the plan has it; nobody else for any.
pub proof fn law_which_way_a_request_goes(auth: AuthContext, target: TerminalTarget)
    ensures
        ({
            let r = terminal::route(auth, target);
            let may = auth.permissions@.contains(Permission::TerminalAccess);
            &&& r is Ok <==> may && (auth.acting_role == Role::Admin || (auth.acting_role
                == Role::Customer && target is Tenant))
            &&& r is Err ==> error::refused(r, ErrorCode::PermissionDenied, None)
            &&& r is Ok && target is Root ==> r->Ok_0 is Root
            &&& r is Ok && target is Tenant ==> {
                &&& r->Ok_0 is Tenant
                &&& r->Ok_0->subscription_id == target->subscription_id
                &&& r->Ok_0->require_plan_flag <==> auth.acting_role == Role::Customer
            }
        }),
{
    assert(model::granted(auth.permissions@).contains(Permission::TerminalAccess)
        <==> auth.permissions@.contains(Permission::TerminalAccess));
}

/// Which subscription is meant: the one that was named, else the caller's own with the
/// least id; who has the whole server has none of their own.
pub proof fn law_which_subscription_is_meant(scope: TenantScope, id: Option<i64>, held: Holdings)
    ensures
        ({
            let r = terminal::subscription_for(scope, id, held);
            &&& id is Some && held.named is Some ==> r == Ok::<Subscription, Problem>(held.named->0)
            &&& id is Some && held.named is None ==> error::refused(r, ErrorCode::NotFound, None)
            &&& id is None && scope is Global ==> error::refused(
                r,
                ErrorCode::InvalidInput,
                Some("subscription_id"@),
            )
            &&& id is None && !(scope is Global) && held.mine@.len() == 0 ==> error::refused(
                r,
                ErrorCode::NotFound,
                None,
            )
            &&& id is None && !(scope is Global) && held.mine@.len() > 0 ==> {
                &&& r is Ok
                &&& held.mine@.contains(r->Ok_0)
                &&& forall|j: int|
                    0 <= j < held.mine@.len() ==> r->Ok_0.id <= (#[trigger] held.mine@[j]).id
            }
        }),
{
    terminal::law_the_oldest_has_the_least_id(held.mine@);
}

/// A tenant's shell is granted exactly if the subscription serves, the plan has shell
/// access where that is asked, the account's name is one, the account exists, is not
/// root's, and has a login shell; what is granted is that account with its own home.
pub proof fn law_when_a_tenant_gets_a_shell(
    s: Subscription,
    plan: Option<Plan>,
    asked: bool,
    account: Option<Account>,
)
    ensures
        ({
            let r = terminal::tenant_grant(s, plan, asked, account);
            let serves = s.status is Active;
            let planned = !asked || (plan is Some && plan->0.can_ssh);
            let named = model::is_linux_user(s.linux_user@);
            let there = account is Some;
            let tame = account->0.uid != 0 && account->0.gid != 0;
            let shell = is_login_shell(account->0.shell@);
            &&& r is Ok <==> serves && planned && named && there && tame && shell
            &&& r is Ok ==> {
                &&& r->Ok_0 is Tenant
                &&& r->Ok_0->uid == account->0.uid
                &&& r->Ok_0->gid == account->0.gid
                &&& r->Ok_0->linux_user == s.linux_user@
                &&& r->Ok_0->subscription_id == s.id
                &&& r->Ok_0->Tenant_home == s.home_dir@
                &&& r->Ok_0->Tenant_shell == account->0.shell@
            }
            &&& !serves ==> error::refused(r, ErrorCode::AccountSuspended, None)
            &&& serves && !planned ==> error::refused(r, ErrorCode::PlanFeatureDisabled, None)
            &&& serves && planned && !named ==> error::refused(r, ErrorCode::InvalidInput, None)
            &&& serves && planned && named && !there ==> error::refused(
                r,
                ErrorCode::NotFound,
                None,
            )
            &&& serves && planned && named && there && !tame ==> error::refused(
                r,
                ErrorCode::Internal,
                None,
            )
        }),
{
    if account is Some {
        law_which_shells_are_accepted(account->0.shell@);
    }
}

/// What a request comes to: for root, root's home and shell; for a tenant, what the tenant
/// gets; and it is the tenant's own account that is looked up, if one is.
pub proof fn law_what_a_request_comes_to(
    auth: AuthContext,
    target: TerminalTarget,
    facts: Facts,
    account: Option<Account>,
)
    requires
        terminal::route(auth, target) is Ok,
    ensures
        ({
            let r = terminal::authorized(auth, target, facts, account);
            let way = terminal::route(auth, target)->Ok_0;
            let shell = terminal::root_shell(text::texts(facts.installed_shells@));
            let sub = terminal::subscription_for(
                auth.tenant_scope,
                way->subscription_id,
                facts.held,
            );
            &&& way is Root ==> (r is Ok <==> shell is Ok)
            &&& way is Root && r is Ok ==> r->Ok_0 is Root && r->Ok_0->Root_home == "/root"@
                && r->Ok_0->Root_shell == shell->Ok_0
            &&& way is Root ==> terminal::looks_up(auth, target, facts) is None
            &&& way is Tenant && sub is Err ==> r == Err::<Grant, Problem>(sub->Err_0)
            &&& way is Tenant && sub is Ok ==> r == terminal::tenant_grant(
                sub->Ok_0,
                facts.plan,
                way->require_plan_flag,
                account,
            )
            &&& way is Tenant && sub is Ok && r is Ok ==> terminal::looks_up(auth, target, facts)
                == Some(sub->Ok_0.linux_user@)
        }),
{
}

/// A window has one column and one row at least, and is else as large as was asked for.
pub proof fn law_windows_are_never_empty(cols: u16, rows: u16)
    ensures
        cols > 0 ==> pty::usable(cols, rows).0 == cols,
        rows > 0 ==> pty::usable(cols, rows).1 == rows,
        pty::usable(0, rows).0 == 1,
        pty::usable(cols, 0).1 == 1,
{
}

/// What is answered for a user was answered to the question for that very name.
pub proof fn law_the_right_account_is_asked_for<A: AccountSource>(
    accounts: &A,
    user: Seq<char>,
    found: Option<Account>,
)
    requires
        terminal::answered(accounts, user, found),
    ensures
        exists|name: &str|
            name@ == user && #[trigger] call_ensures(A::lookup, (accounts, name), found),
{
}


} // verus!
