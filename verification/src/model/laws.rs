//! What names, paths and versions are, one by one.
use vstd::prelude::*;
use crate::error;
use crate::error::ErrorCode;
use crate::model;
use crate::model::{ComponentStatus, PhpVersion, SubscriptionStatus, UnitState, UnitStatus};
use crate::path;
use crate::text;
use crate::text::laws;

verus! {

/// Every character of `s` stands in `alphabet`.
pub open spec fn over(s: Seq<char>, alphabet: Seq<char>) -> bool {
    forall|i: int| 0 <= i < s.len() ==> alphabet.contains(#[trigger] s[i])
}

proof fn lemma_name_char(c: char)
    ensures
        model::is_name_char(c) <==> "abcdefghijklmnopqrstuvwxyz0123456789_-"@.contains(c),
        text::is_lower(c) || text::is_digit(c)
            <==> "abcdefghijklmnopqrstuvwxyz0123456789"@.contains(c),
{
    reveal_strlit("abcdefghijklmnopqrstuvwxyz0123456789_-");
    reveal_strlit("abcdefghijklmnopqrstuvwxyz0123456789");
    let all = "abcdefghijklmnopqrstuvwxyz0123456789_-"@;
    let n = c as int;
    if text::is_lower(c) {
        assert(all[n - 97] == c);
        assert("abcdefghijklmnopqrstuvwxyz0123456789"@[n - 97] == c);
    }
    if text::is_digit(c) {
        assert(all[n - 48 + 26] == c);
        assert("abcdefghijklmnopqrstuvwxyz0123456789"@[n - 48 + 26] == c);
    }
    if c == '_' {
        assert(all[36] == c);
    }
    if c == '-' {
        assert(all[37] == c);
    }
}

proof fn lemma_unit_char(c: char)
    ensures
        model::is_unit_char(c)
            <==> "abcdefghijklmnopqrstuvwxyzABCDEFGHIJKLMNOPQRSTUVWXYZ0123456789:-_.@"@.contains(c),
{
    reveal_strlit("abcdefghijklmnopqrstuvwxyzABCDEFGHIJKLMNOPQRSTUVWXYZ0123456789:-_.@");
    let all = "abcdefghijklmnopqrstuvwxyzABCDEFGHIJKLMNOPQRSTUVWXYZ0123456789:-_.@"@;
    let n = c as int;
    if text::is_lower(c) {
        assert(all[n - 97] == c);
    }
    if text::is_upper(c) {
        assert(all[n - 65 + 26] == c);
    }
    if text::is_digit(c) {
        assert(all[n - 48 + 52] == c);
    }
    if c == ':' {
        assert(all[62] == c);
    }
    if c == '-' {
        assert(all[63] == c);
    }
    if c == '_' {
        assert(all[64] == c);
    }
    if c == '.' {
        assert(all[65] == c);
    }
    if c == '@' {
        assert(all[66] == c);
    }
}

/// Which texts are names: of accounts, of applications and of units.
pub proof fn law_which_texts_are_names(s: Seq<char>)
    ensures
        model::is_linux_user(s) <==> 1 <= s.len() <= 32 && over(
            s,
            "abcdefghijklmnopqrstuvwxyz0123456789_-"@,
        ),
        model::is_app_name(s) <==> 1 <= s.len() <= 32 && over(
            s,
            "abcdefghijklmnopqrstuvwxyz0123456789_-"@,
        ) && s[0] != '_' && s[0] != '-',
        model::is_unit_name(s) <==> 1 <= s.len() <= 255 && over(
            s,
            "abcdefghijklmnopqrstuvwxyzABCDEFGHIJKLMNOPQRSTUVWXYZ0123456789:-_.@"@,
        ),
{
    assert forall|i: int| 0 <= i < s.len() implies (model::is_name_char(#[trigger] s[i])
        <==> "abcdefghijklmnopqrstuvwxyz0123456789_-"@.contains(s[i])) && (model::is_unit_char(s[i])
        <==> "abcdefghijklmnopqrstuvwxyzABCDEFGHIJKLMNOPQRSTUVWXYZ0123456789:-_.@"@.contains(
        s[i],
    )) by {
        lemma_name_char(s[i]);
        lemma_unit_char(s[i]);
    }
    if s.len() > 0 && model::is_name_char(s[0]) {
        lemma_name_char(s[0]);
    }
}

/// A path inside a home is made of pieces none of which is `..`, does not start with a
/// slash and holds no control character; and nothing else is one.
pub proof fn law_which_paths_stay_in_a_home(a: Seq<char>, b: Seq<char>)
    requires
        !a.contains('/'),
    ensures
        model::is_tenant_path(a) <==> a != ".."@ && forall|i: int|
            0 <= i < a.len() ==> !text::is_control(#[trigger] a[i]),
        model::is_tenant_path(a + "/"@ + b) <==> {
            &&& a.len() > 0
            &&& a != ".."@
            &&& forall|i: int| 0 <= i < a.len() ==> !text::is_control(#[trigger] a[i])
            &&& !model::components(b).contains(".."@)
            &&& forall|i: int| 0 <= i < b.len() ==> !text::is_control(#[trigger] b[i])
        },
{
    reveal_strlit("/");
    let s = a + "/"@ + b;
    path::lemma_components_join(a, b);
    text::lemma_before(a, '/');
    if text::before(a, '/') < a.len() {
        assert(a.contains(a[text::before(a, '/') as int]));
    }
    assert(model::components(a) =~= seq![a]);
    assert(seq![a][0] == a);
    let x = seq![a];
    let y = model::components(b);
    if (x + y).contains(".."@) {
        let i = choose|i: int| 0 <= i < (x + y).len() && (x + y)[i] == ".."@;
        if i > 0 {
            assert(y[i - 1] == ".."@);
        }
    }
    if a == ".."@ {
        assert((x + y)[0] == ".."@);
        assert(x.contains(".."@));
    }
    if y.contains(".."@) {
        let i = choose|i: int| 0 <= i < y.len() && y[i] == ".."@;
        assert((x + y)[i + 1] == ".."@);
    }
    if a.len() > 0 {
        assert(s[0] == a[0]);
        assert(a.contains(a[0]));
    } else {
        assert(s[0] == '/');
    }
    if forall|i: int| 0 <= i < s.len() ==> !text::is_control(#[trigger] s[i]) {
        assert forall|i: int| 0 <= i < a.len() implies !text::is_control(#[trigger] a[i]) by {
            assert(s[i] == a[i]);
        }
        assert forall|i: int| 0 <= i < b.len() implies !text::is_control(#[trigger] b[i]) by {
            assert(s[i + a.len() + 1] == b[i]);
        }
    }
    if (forall|i: int| 0 <= i < a.len() ==> !text::is_control(#[trigger] a[i])) && (forall|i: int|
        0 <= i < b.len() ==> !text::is_control(#[trigger] b[i])) {
        assert forall|i: int| 0 <= i < s.len() implies !text::is_control(#[trigger] s[i]) by {
            if i < a.len() {
                assert(s[i] == a[i]);
            } else if i > a.len() {
                assert(s[i] == b[i - a.len() - 1]);
            }
        }
    }
}

/// Where things are.
pub proof fn law_where_things_are(user: Seq<char>, name: Seq<char>, extra: Seq<char>)
    ensures
        model::home_of(user) == "/home/"@ + user,
        model::app_dir_of(user, name) == "/home/"@ + user + "/apps/"@ + name,
        model::unit_path_of(name) == "/etc/systemd/system/"@ + name,
        model::unit_dropin_of(name, extra) == "/etc/systemd/system/"@ + name + ".d/"@ + extra,
        name.len() > 0 && name[0] == '/' ==> model::join_path(user, name) == name,
        !(name.len() > 0 && name[0] == '/') ==> model::join_path(user, name) == user + "/"@ + name,
{
}

/// A version reads back from either of the ways it is written in, as far as its second
/// number is one digit.
pub proof fn law_versions_read_back(v: PhpVersion)
    ensures
        laws::decimal_value(text::head(v.dotted(), '.')) == v.major,
        laws::decimal_value(text::tail(v.dotted(), '.')) == v.minor,
        v.minor < 10 ==> v.compact().len() > 1 && laws::decimal_value(v.compact().drop_last())
            == v.major && laws::decimal_value(seq![v.compact().last()]) == v.minor,
{
    reveal_strlit(".");
    let a = text::decimal(v.major as nat);
    let b = text::decimal(v.minor as nat);
    laws::law_decimals_read_back(v.major as nat);
    laws::law_decimals_read_back(v.minor as nat);
    assert(!a.contains('.')) by {
        if a.contains('.') {
            let i = choose|i: int| 0 <= i < a.len() && a[i] == '.';
            assert(text::is_digit(a[i]));
        }
    }
    laws::law_the_first_one_parts_a_text(a, '.', b);
    assert(v.dotted() =~= a + seq!['.'] + b);
    if v.minor < 10 {
        assert(b.len() == 1);
        assert(v.compact().drop_last() =~= a);
        assert(seq![v.compact().last()] =~= b);
    }
}

/// What states are called, which of them mean that a service is there or runs, and which
/// subscriptions serve.
pub proof fn law_what_states_mean(u: UnitStatus, s: SubscriptionStatus, c: ComponentStatus)
    ensures
        u.installed() <==> !(u.state is NotFound),
        u.active() <==> u.state is Active,
        s.serves() <==> s is Active,
        u.state.name() == match u.state {
            UnitState::Active => "active"@,
            UnitState::Inactive => "inactive"@,
            UnitState::Failed => "failed"@,
            UnitState::NotFound => "notfound"@,
            UnitState::Unknown => "unknown"@,
        },
        c.name() == match c {
            ComponentStatus::Absent => "absent"@,
            ComponentStatus::Installing => "installing"@,
            ComponentStatus::Installed => "installed"@,
            ComponentStatus::Removing => "removing"@,
            ComponentStatus::Failed => "failed"@,
        },
{
}

/// A page is what was asked for; the default length, and the start, where nothing was.
pub proof fn law_what_page_is_shown(n: i64, k: i64, default: i64)
    ensures
        model::page_of(Some(n), Some(k), default) == (n, k),
        model::page_of(None, Some(k), default) == (default, k),
        model::page_of(Some(n), None, default) == (n, 0i64),
        model::page_of(None, None, default) == (default, 0i64),
{
}

/// A version that there is not, or that is missing, is not accepted as input; a right that
/// is missing is a matter of permission.
pub proof fn law_how_vocabulary_is_refused(t: Seq<char>)
    ensures
        model::unknown_version(t).code == ErrorCode::InvalidInput,
        text::contains(model::unknown_version(t).detail, t),
        model::missing_version().code == ErrorCode::InvalidInput,
        model::denied_problem().code == ErrorCode::PermissionDenied,
        error::not_found_problem(t).code == ErrorCode::NotFound,
        text::contains(error::not_found_problem(t).detail, t),
        error::problem(ErrorCode::Conflict, t).detail == t,
        error::problem(ErrorCode::Conflict, t).field is None,
        error::field_problem(ErrorCode::Conflict, t, t).field == Some(t),
{
    let none = Seq::<char>::empty();
    laws::law_parts_of_a_text("`"@, t, "` is not a PHP version the panel manages"@, none);
    laws::law_parts_of_a_text(none, t, " not found"@, none);
    assert(none + t + " not found"@ =~= t + " not found"@);
}


} // verus!
