//! What creating, changing and deleting a site comes to.
use vstd::prelude::*;
use crate::error;
use crate::error::{ErrorCode, FerrumError, Problem};
use crate::model;
use crate::model::{PhpVersion, Site, Subscription};
use crate::site;
use crate::site::{
    CreateFacts, CreateInput, DeleteStep, PhpFacts, RenderStep, SiteContext, SiteStep,
    SiteTypeInput, UpdateInput, WwwPolicyInput,
};

verus! {

// ---------------------------------------------------------------------------
// Creating
// ---------------------------------------------------------------------------

/// A PHP version can serve: it is recorded as installed, or the service manager
/// knows its unit.
pub open spec fn php_can_serve(php: PhpFacts) -> bool {
    ||| php.component matches Some(c) && c is Installed
    ||| php.unit matches Some(u) && !(u.state is NotFound)
}

/// A site is created exactly if its kind has what it needs (PHP a version that is
/// there, a proxy a port, a redirect a target), an active subscription with a
/// usable account and room in its plan hosts it, and the domain is free or a failed
/// attempt of that subscription.
pub proof fn law_a_creation_is_accepted_exactly_if(input: CreateInput, facts: CreateFacts)
    ensures
        site::acceptance(input, facts) is Ok <==> {
            &&& input.site_type is Php ==> input.php_version is Some && php_can_serve(facts.php)
            &&& input.site_type is Proxy ==> input.proxy_port is Some
            &&& input.site_type is Redirect ==> input.redirect_target is Some
            &&& facts.subscription matches Some(s)
            &&& s.status is Active
            &&& facts.plan matches Some(p) ==> facts.used < p.max_sites
            &&& model::is_linux_user(s.linux_user@)
            &&& facts.existing matches Some(e) ==> e.subscription_id == s.id && e.status is Failed
        },
{
}

/// What is stored is what was asked for, field by field: so an accepted proxy
/// always has the port it was asked to forward to, and an accepted redirect goes to
/// the target it was asked to go to.
pub proof fn law_what_is_stored_is_what_was_asked_for(input: CreateInput, facts: CreateFacts)
    requires
        site::acceptance(input, facts) is Ok,
    ensures
        ({
            let a = site::acceptance(input, facts)->Ok_0;
            let s = facts.subscription->0;
            &&& a.domain == input.domain@
            &&& a.site_type is Php <==> input.site_type is Php
            &&& a.site_type is Static <==> input.site_type is Static
            &&& a.site_type is Proxy <==> input.site_type is Proxy
            &&& a.site_type is Redirect <==> input.site_type is Redirect
            &&& a.proxy_port == input.proxy_port
            &&& a.site_type is Proxy ==> a.proxy_port is Some
            &&& a.redirect_target is Some <==> input.redirect_target is Some
            &&& a.redirect_target matches Some(url) ==> url == "https://"@
                + input.redirect_target->0@
            &&& a.site_type is Redirect ==> a.redirect_target is Some
            &&& a.site_type is Php ==> a.php_version is Some && a.php_version == input.php_version
            &&& !(a.site_type is Php) ==> a.php_version is None
            &&& a.subscription_id == s.id
            &&& a.linux_user == s.linux_user@
            &&& a.root_dir == "/home/"@ + s.linux_user@ + "/sites/"@ + input.domain@ + "/public"@
            &&& a.reclaim is Some <==> facts.existing is Some
            &&& a.reclaim matches Some(id) ==> id == facts.existing->0.id
        }),
{
}

/// Why a creation is refused: what is wrong with the input is said first, naming the
/// field, then what is wrong with the host, then what is wrong with the domain.
pub proof fn law_why_a_creation_is_refused(input: CreateInput, facts: CreateFacts)
    ensures
        ({
            let kind = input.site_type;
            let fits = {
                &&& kind is Php ==> input.php_version is Some && php_can_serve(facts.php)
                &&& kind is Proxy ==> input.proxy_port is Some
                &&& kind is Redirect ==> input.redirect_target is Some
            };
            let hosted = fits && facts.subscription is Some && facts.subscription->0.status is Active;
            let roomy = hosted && (facts.plan matches Some(p) ==> facts.used < p.max_sites);
            let r = site::acceptance(input, facts);
            &&& kind is Php && input.php_version is None ==> error::refused(
                r,
                ErrorCode::InvalidInput,
                Some("php_version"@),
            )
            &&& kind is Php && input.php_version is Some && !php_can_serve(facts.php) ==> error::refused(
                r,
                ErrorCode::NotFound,
                Some("php_version"@),
            )
            &&& kind is Proxy && input.proxy_port is None ==> error::refused(
                r,
                ErrorCode::InvalidInput,
                Some("proxy_port"@),
            )
            &&& kind is Redirect && input.redirect_target is None ==> error::refused(
                r,
                ErrorCode::InvalidInput,
                Some("redirect_target"@),
            )
            &&& fits && facts.subscription is None ==> error::refused(r, ErrorCode::NotFound, None)
            &&& fits && facts.subscription is Some && !hosted ==> error::refused(
                r,
                ErrorCode::AccountSuspended,
                None,
            )
            &&& hosted && !roomy ==> error::refused(r, ErrorCode::QuotaExceeded, None)
            &&& roomy && !model::is_linux_user(facts.subscription->0.linux_user@) ==> error::refused(
                r,
                ErrorCode::InvalidInput,
                None,
            )
            &&& roomy && model::is_linux_user(facts.subscription->0.linux_user@)
                && facts.existing is Some ==> {
                let e = facts.existing->0;
                &&& e.subscription_id != facts.subscription->0.id ==> error::refused(
                    r,
                    ErrorCode::DomainAlreadyExists,
                    None,
                )
                &&& e.subscription_id == facts.subscription->0.id && e.status is Provisioning
                    ==> error::refused(r, ErrorCode::Conflict, None)
                &&& e.subscription_id == facts.subscription->0.id && (e.status is Active
                    || e.status is Suspended) ==> error::refused(r, ErrorCode::DomainAlreadyExists, None)
            }
        }),
{
}

/// Two creations that differ only in the port are decided alike where the kind is
/// no proxy, and each stores its own port.
pub proof fn law_the_port_is_kept_whatever_it_is(a: CreateInput, b: CreateInput, facts: CreateFacts)
    requires
        b == (CreateInput { proxy_port: b.proxy_port, ..a }),
        !(a.site_type is Proxy) || a.proxy_port is Some && b.proxy_port is Some,
    ensures
        site::acceptance(a, facts) is Ok <==> site::acceptance(b, facts) is Ok,
        site::acceptance(a, facts) is Ok && a.proxy_port != b.proxy_port ==> site::acceptance(
            a,
            facts,
        )->Ok_0.proxy_port != site::acceptance(b, facts)->Ok_0.proxy_port,
{
}

/// What provisioning performs: every step once, the alias only where it is asked for
/// and the pool only where there is PHP. Nothing but a missing alias is put up with.
pub proof fn law_what_provisioning_performs(with_www: bool, php: bool, step: SiteStep, tolerated: bool)
    ensures
        site::provision_steps(with_www, php).contains((step, tolerated)) <==> match step {
            SiteStep::AddAlias => with_www && tolerated,
            SiteStep::RenderPool => php && !tolerated,
            SiteStep::MarkFailed => false,
            _ => !tolerated,
        },
        site::provision_steps(with_www, php).no_duplicates(),
        site::provision_steps(with_www, php).last() == (SiteStep::RenderLogrotate, false),
        with_www ==> site::provision_steps(with_www, php)[0] == (SiteStep::AddAlias, true),
        ({
            let v = site::provision_steps(with_www, php);
            let k: int = if with_www {
                1
            } else {
                0
            };
            &&& v[k] == (SiteStep::CheckDomain, false)
            &&& v[k + 1] == (SiteStep::EnsureAccount, false)
            &&& v[k + 2] == (SiteStep::EnsureDirectories, false)
            &&& v[k + 3] == (SiteStep::WritePlaceholder, false)
            &&& v[v.len() - 2] == (SiteStep::RenderVhost, false)
        }),
{
    let v = site::provision_steps(with_www, php);
    let k: int = if with_www {
        1
    } else {
        0
    };
    let m: int = if php {
        1
    } else {
        0
    };
    assert(v.len() == k + m + 6);
    assert(with_www ==> v[0] == (SiteStep::AddAlias, true));
    assert(v[k] == (SiteStep::CheckDomain, false));
    assert(v[k + 1] == (SiteStep::EnsureAccount, false));
    assert(v[k + 2] == (SiteStep::EnsureDirectories, false));
    assert(v[k + 3] == (SiteStep::WritePlaceholder, false));
    assert(php ==> v[k + 4] == (SiteStep::RenderPool, false));
    assert(v[k + m + 4] == (SiteStep::RenderVhost, false));
    assert(v[k + m + 5] == (SiteStep::RenderLogrotate, false));
    if v.contains((step, tolerated)) {
        let i = choose|i: int| 0 <= i < v.len() && v[i] == (step, tolerated);
        assert(i < k || i == k || i == k + 1 || i == k + 2 || i == k + 3 || i == k + 4 || i == k + m
            + 4 || i == k + m + 5);
    }
}

// ---------------------------------------------------------------------------
// What is rendered
// ---------------------------------------------------------------------------

/// A number in a context is the stored one where that is in range, and the nearest
/// bound where it is not.
pub open spec fn brought_into(stored: i64, lo: int, hi: int, shown: int) -> bool {
    &&& lo <= shown <= hi
    &&& lo <= stored <= hi ==> shown == stored
    &&& stored < lo ==> shown == lo
    &&& stored > hi ==> shown == hi
}

/// A vhost is rendered from what is stored of its site, value by value.
pub proof fn law_a_vhost_shows_the_row(c: SiteContext, row: Site, user: Seq<char>)
    requires
        site::describes(c, row, user),
    ensures
        c.domain@ == row.domain@,
        c.linux_user@ == user,
        c.site_type == row.site_type,
        row.php_version matches Some(v) ==> c.php_version == v,
        row.php_version is None ==> c.php_version.major == 8 && c.php_version.minor == 3,
        c.force_https == row.force_https,
        c.http3 == row.http3,
        c.client_max_body_size@ == row.client_max_body_size@,
        c.custom_snippet is Some <==> row.custom_nginx_snippet is Some,
        c.custom_snippet matches Some(s) ==> s@ == row.custom_nginx_snippet->0@,
        c.rate_limit_enabled == row.rate_limit_enabled,
        brought_into(row.rate_limit_rps, 1, 10_000, c.rate_limit_rps as int),
        brought_into(row.rate_limit_burst, 1, 100_000, c.rate_limit_burst as int),
        brought_into(row.conn_limit, 1, 10_000, c.conn_limit as int),
        c.proxy_port is Some <==> row.proxy_port is Some,
        c.proxy_port matches Some(p) ==> brought_into(row.proxy_port->0, 1, 65_535, p as int),
        c.redirect is Some <==> row.redirect_target is Some,
        c.redirect matches Some(r) ==> r.0@ == row.redirect_target->0@ && brought_into(
            row.redirect_code,
            300,
            399,
            r.1 as int,
        ),
{
}

// ---------------------------------------------------------------------------
// Changing
// ---------------------------------------------------------------------------

/// How often a character stands in a text.
pub open spec fn occurrences(s: Seq<char>, c: char) -> nat {
    s.to_multiset().count(c)
}

/// The blocks of a snippet close as they open: no start of it closes more of them
/// than it opens, and the whole closes all.
pub open spec fn is_balanced(s: Seq<char>) -> bool {
    &&& forall|k: int|
        0 <= k <= s.len() ==> occurrences(#[trigger] s.take(k), '}') <= occurrences(
            s.take(k),
            '{',
        )
    &&& occurrences(s, '}') == occurrences(s, '{')
}

proof fn lemma_depth(s: Seq<char>)
    ensures
        site::depth(s) == occurrences(s, '{') - occurrences(s, '}'),
    decreases s.len(),
{
    broadcast use vstd::seq_lib::group_to_multiset_ensures;

    if s.len() > 0 {
        lemma_depth(s.drop_last());
        assert(s =~= s.drop_last().push(s.last()));
    } else {
        assert(s =~= Seq::<char>::empty());
        if occurrences(s, '{') > 0 {
            assert(s.contains('{'));
        }
        if occurrences(s, '}') > 0 {
            assert(s.contains('}'));
        }
    }
}

/// A snippet is taken exactly if it is short enough, holds no NUL and its braces
/// balance; every refusal is of the snippet.
pub proof fn law_a_snippet_is_taken_exactly_if(s: Seq<char>)
    ensures
        site::snippet_problem(s) is None <==> {
            &&& vstd::utf8::encode_utf8(s).len() <= 16384
            &&& forall|i: int| 0 <= i < s.len() ==> #[trigger] s[i] != '\0'
            &&& is_balanced(s)
        },
        site::snippet_problem(s) matches Some(p) ==> p.code == ErrorCode::InvalidInput && p.field
            == Some("custom_nginx_snippet"@),
{
    lemma_depth(s);
    assert forall|k: int| 0 <= k <= s.len() implies site::depth(#[trigger] s.take(k))
        == occurrences(s.take(k), '{') - occurrences(s.take(k), '}') by {
        lemma_depth(s.take(k));
    }
    assert(s.contains('\0') <==> !(forall|i: int| 0 <= i < s.len() ==> #[trigger] s[i] != '\0'));
    if !site::overcloses(s) {
        assert forall|k: int| 0 <= k <= s.len() implies occurrences(#[trigger] s.take(k), '}')
            <= occurrences(s.take(k), '{') by {
            assert(!(site::depth(s.take(k)) < 0));
        }
    } else {
        let k = choose|k: int| 0 <= k <= s.len() && #[trigger] site::depth(s.take(k)) < 0;
        assert(occurrences(s.take(k), '}') > occurrences(s.take(k), '{'));
    }
}

/// An update is stored exactly if the site is there, a PHP version that is asked for
/// can serve, and a snippet that is given is one that can be taken. What is left out,
/// or taken away, is never in the way.
pub proof fn law_an_update_is_stored_exactly_if(input: UpdateInput, found: Option<Site>, php: PhpFacts)
    ensures
        site::update_refusal(input, found, php) is None <==> {
            &&& found is Some
            &&& input.php_version is Some ==> php_can_serve(php)
            &&& input.custom_nginx_snippet matches Some(Some(s)) ==> {
                &&& vstd::utf8::encode_utf8(s@).len() <= 16384
                &&& forall|i: int| 0 <= i < s@.len() ==> #[trigger] s@[i] != '\0'
                &&& is_balanced(s@)
            }
        },
        found is None ==> error::objects(
            site::update_refusal(input, found, php),
            ErrorCode::NotFound,
            None,
        ),
        found is Some && input.php_version is Some && !php_can_serve(php) ==> error::objects(
            site::update_refusal(input, found, php),
            ErrorCode::NotFound,
            Some("php_version"@),
        ),
{
    if let Some(Some(s)) = input.custom_nginx_snippet {
        law_a_snippet_is_taken_exactly_if(s@);
    }
}

/// What an update renders: the vhost always; the pool of the version that is asked
/// for, or of the one that stays; and it takes the pool of the version before away
/// where that changes. Only a pool that will not go is put up with.
pub proof fn law_what_an_update_renders(
    before: Option<PhpVersion>,
    asked: Option<PhpVersion>,
    now: Option<PhpVersion>,
    step: RenderStep,
    tolerated: bool,
)
    ensures
        ({
            let moves = asked is Some && asked != before;
            site::update_steps(before, asked, now).contains((step, tolerated)) <==> match step {
                RenderStep::Vhost => !tolerated,
                RenderStep::Pool { version } => !tolerated && if moves {
                    asked == Some(version)
                } else {
                    now == Some(version)
                },
                RenderStep::RemovePool { version } => tolerated && moves && before == Some(version),
            }
        }),
        site::update_steps(before, asked, now).no_duplicates(),
        site::update_steps(before, asked, now).len() > 1 ==> site::update_steps(
            before,
            asked,
            now,
        )[0].0 is Pool,
{
    let v = site::update_steps(before, asked, now);
    let moves = asked is Some && asked != before;
    if moves {
        assert(v[0] == (RenderStep::Pool { version: asked->0 }, false));
        assert(v[1] == (RenderStep::Vhost, false));
        if before is Some {
            assert(v[2] == (RenderStep::RemovePool { version: before->0 }, true));
            assert(v.len() == 3);
        } else {
            assert(v.len() == 2);
        }
    } else if now is Some {
        assert(v[0] == (RenderStep::Pool { version: now->0 }, false));
        assert(v[1] == (RenderStep::Vhost, false));
        assert(v.len() == 2);
    } else {
        assert(v[0] == (RenderStep::Vhost, false));
        assert(v.len() == 1);
    }
}

/// Kinds and policies are stored as what they are called.
pub proof fn law_kinds_and_policies_are_stored_as_asked(kind: SiteTypeInput, policy: WwwPolicyInput)
    ensures
        kind is Php <==> site::stored_type(kind) is Php,
        kind is Static <==> site::stored_type(kind) is Static,
        kind is Proxy <==> site::stored_type(kind) is Proxy,
        kind is Redirect <==> site::stored_type(kind) is Redirect,
        policy is Leave <==> site::stored_policy(policy) is Leave,
        policy is Add <==> site::stored_policy(policy) is Add,
        policy is Strip <==> site::stored_policy(policy) is Strip,
{
}

// ---------------------------------------------------------------------------
// Deleting
// ---------------------------------------------------------------------------

/// A site is deleted exactly if it is there, the account behind it is usable and its
/// stored domain is one; the account and the domain that go on are those two.
pub proof fn law_a_deletion_is_accepted_exactly_if(
    found: Option<Site>,
    owner: Option<Subscription>,
    domain: Result<String, FerrumError>,
)
    ensures
        site::delete_target(found, owner, domain) is Ok <==> {
            &&& found is Some
            &&& owner matches Some(s)
            &&& model::is_linux_user(s.linux_user@)
            &&& domain is Ok
        },
        site::delete_target(found, owner, domain) matches Ok(t) ==> t.0 == owner->0.linux_user@ && t.1
            == domain->Ok_0@,
        found is None ==> error::refused(
            site::delete_target(found, owner, domain),
            ErrorCode::NotFound,
            None,
        ),
        found is Some && owner is None ==> error::refused(
            site::delete_target(found, owner, domain),
            ErrorCode::Internal,
            None,
        ),
        found is Some && owner is Some && !model::is_linux_user(owner->0.linux_user@) ==> error::refused(
            site::delete_target(found, owner, domain),
            ErrorCode::InvalidInput,
            None,
        ),
        found is Some && owner is Some && model::is_linux_user(owner->0.linux_user@)
            && domain is Err ==> site::delete_target(found, owner, domain) == Err::<
            (Seq<char>, Seq<char>),
            Problem,
        >(domain->Err_0@),
        site::site_account(found, owner) is Ok <==> found is Some && owner is Some
            && model::is_linux_user(owner->0.linux_user@),
        site::site_account(found, owner) matches Ok(user) ==> user == owner->0.linux_user@,
{
}

/// What deleting a site performs: everything of it goes once, the pool where there is
/// PHP and the files where that is asked for. The vhost, the files and the row must
/// go; the rest may stay behind.
pub proof fn law_what_a_deletion_performs(
    php: Option<PhpVersion>,
    purge_files: bool,
    step: DeleteStep,
    tolerated: bool,
)
    ensures
        site::delete_steps(php, purge_files).contains((step, tolerated)) <==> match step {
            DeleteStep::RemoveVhost => !tolerated,
            DeleteStep::RemovePool { version } => tolerated && php == Some(version),
            DeleteStep::RemoveLogrotate => tolerated,
            DeleteStep::ForgetVhostRevisions => tolerated,
            DeleteStep::ForgetLogrotateRevisions => tolerated,
            DeleteStep::PurgeFiles => !tolerated && purge_files,
            DeleteStep::DeleteRow => !tolerated,
        },
        site::delete_steps(php, purge_files).no_duplicates(),
        site::delete_steps(php, purge_files)[0].0 == DeleteStep::RemoveVhost,
        site::delete_steps(php, purge_files).last().0 == DeleteStep::DeleteRow,
        purge_files ==> site::delete_steps(php, purge_files)[site::delete_steps(
            php,
            purge_files,
        ).len() - 2].0 == DeleteStep::PurgeFiles,
{
    let v = site::delete_steps(php, purge_files);
    let k: int = if php is Some {
        1
    } else {
        0
    };
    let m: int = if purge_files {
        1
    } else {
        0
    };
    assert(v.len() == k + m + 5);
    assert(v[0] == (DeleteStep::RemoveVhost, false));
    assert(php is Some ==> v[1] == (DeleteStep::RemovePool { version: php->0 }, true));
    assert(v[k + 1] == (DeleteStep::RemoveLogrotate, true));
    assert(v[k + 2] == (DeleteStep::ForgetVhostRevisions, true));
    assert(v[k + 3] == (DeleteStep::ForgetLogrotateRevisions, true));
    assert(purge_files ==> v[k + 4] == (DeleteStep::PurgeFiles, false));
    assert(v[k + m + 4] == (DeleteStep::DeleteRow, false));
    if v.contains((step, tolerated)) {
        let i = choose|i: int| 0 <= i < v.len() && v[i] == (step, tolerated);
        assert(i == 0 || i == 1 || i == k + 1 || i == k + 2 || i == k + 3 || i == k + 4 || i == k + m
            + 4);
    }
}

/// How long a snippet may be, and how long logs are kept.
pub proof fn law_what_bounds_a_site()
    ensures
        site::MAX_SNIPPET == 16 * 1024,
        site::LOG_KEEP_DAYS == 14,
{
}


} // verus!
