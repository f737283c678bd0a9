//! What an app is created from, and what systemd makes of it.
use vstd::prelude::*;
use crate::error;
use crate::error::{ErrorCode, Problem};
use crate::model;
use crate::model::{Permission, Plan, Subscription};
use crate::nodeapp;
use crate::nodeapp::ops;
use crate::nodeapp::ops::{AppStep, CreateInput};
use crate::nodeapp::{AppUnitContext, EnvVar, NodeApp};
use crate::text;
use crate::text::laws;

verus! {

// ---------------------------------------------------------------------------
// Reading an assignment
// ---------------------------------------------------------------------------

/// An assignment without the double quotes around it, where there are some.
pub open spec fn unquoted(s: Seq<char>) -> Seq<char> {
    if s.len() >= 2 && s[0] == '"' && s.last() == '"' {
        s.subrange(1, s.len() - 1)
    } else {
        s
    }
}

/// A text with its specifiers read: `%%` is one `%`. Any other specifier, or a `%` at
/// the end, stands for something that is not in the text.
pub open spec fn specifiers_read(s: Seq<char>) -> Option<Seq<char>>
    decreases s.len(),
{
    if s.len() == 0 {
        Some(s)
    } else if s[0] != '%' {
        match specifiers_read(s.skip(1)) {
            Some(rest) => Some(seq![s[0]] + rest),
            None => None,
        }
    } else if s.len() > 1 && s[1] == '%' {
        match specifiers_read(s.skip(2)) {
            Some(rest) => Some(seq!['%'] + rest),
            None => None,
        }
    } else {
        None
    }
}

/// What systemd reads in an `Environment=` assignment: one word, which is quoted
/// where it holds white space, with its specifiers read.
pub open spec fn assignment_read(s: Seq<char>) -> Option<Seq<char>> {
    if unquoted(s) == s && !laws::is_solid(s) {
        None
    } else if unquoted(s).contains('"') || unquoted(s).contains('\\') {
        None
    } else {
        specifiers_read(unquoted(s))
    }
}

proof fn lemma_read_concat(x: Seq<char>, y: Seq<char>)
    requires
        specifiers_read(x) is Some,
    ensures
        specifiers_read(x + y) == (match specifiers_read(y) {
            Some(r) => Some(specifiers_read(x)->0 + r),
            None => None,
        }),
    decreases x.len(),
{
    if x.len() == 0 {
        assert(x + y =~= y);
        if let Some(r) = specifiers_read(y) {
            assert(x + r =~= r);
        }
    } else {
        let k: int = if x[0] != '%' {
            1
        } else {
            2
        };
        assert((x + y).skip(k) =~= x.skip(k) + y);
        assert((x + y)[0] == x[0]);
        if k == 2 {
            assert((x + y)[1] == x[1]);
        }
        lemma_read_concat(x.skip(k), y);
        if let Some(r) = specifiers_read(y) {
            let tail = specifiers_read(x.skip(k))->0;
            assert(seq![x[0]] + (tail + r) =~= seq![x[0]] + tail + r);
        }
    }
}

proof fn lemma_read_plain(s: Seq<char>)
    requires
        !s.contains('%'),
    ensures
        specifiers_read(s) == Some(s),
    decreases s.len(),
{
    if s.len() > 0 {
        assert(s.contains(s[0]));
        assert forall|i: int| 0 <= i < s.skip(1).len() implies #[trigger] s.skip(1)[i] != '%' by {
            assert(s.contains(s[i + 1]));
        }
        lemma_read_plain(s.skip(1));
        assert(seq![s[0]] + s.skip(1) =~= s);
    }
}

proof fn lemma_read_doubled(s: Seq<char>)
    ensures
        specifiers_read(nodeapp::percent_doubled(s)) == Some(s),
        forall|i: int|
            0 <= i < nodeapp::percent_doubled(s).len() ==> s.contains(
                #[trigger] nodeapp::percent_doubled(s)[i],
            ),
    decreases s.len(),
{
    let d = nodeapp::percent_doubled(s);
    if s.len() > 0 {
        let front = s.drop_last();
        let before = nodeapp::percent_doubled(front);
        let c = s.last();
        lemma_read_doubled(front);
        let end = if c == '%' {
            seq!['%', '%']
        } else {
            seq![c]
        };
        assert(d =~= before + end);
        assert(end.skip(1).len() == 0 || end.skip(2).len() == 0);
        assert(specifiers_read(Seq::<char>::empty()) == Some(Seq::<char>::empty()));
        assert(end.skip(end.len() as int) =~= Seq::<char>::empty());
        assert(specifiers_read(end) == Some(seq![c])) by {
            assert(seq![c] + Seq::<char>::empty() =~= seq![c]);
        }
        lemma_read_concat(before, end);
        assert(front + seq![c] =~= s);
        assert forall|i: int| 0 <= i < d.len() implies s.contains(#[trigger] d[i]) by {
            if i < before.len() {
                assert(d[i] == before[i]);
                assert(front.contains(before[i]));
                let j = choose|j: int| 0 <= j < front.len() && front[j] == before[i];
                assert(s[j] == d[i]);
            } else {
                assert(s[s.len() - 1] == c);
            }
        }
    } else {
        assert(d =~= s);
    }
}

/// A key that an assignment can start with.
spec fn is_plain_key(key: Seq<char>) -> bool {
    &&& key.len() > 0
    &&& forall|i: int|
        0 <= i < key.len() ==> !text::is_space(#[trigger] key[i]) && key[i] != '%' && key[i] != '"'
            && key[i] != '\\'
}

proof fn lemma_assignment(key: Seq<char>, value: Seq<char>)
    requires
        is_plain_key(key),
        !value.contains('"'),
        !value.contains('\\'),
    ensures
        assignment_read(nodeapp::assignment(key, value)) == Some(key + "="@ + value),
        forall|i: int|
            0 <= i < nodeapp::assignment(key, value).len() ==> ({
                let c = #[trigger] nodeapp::assignment(key, value)[i];
                c == '"' || c == '=' || key.contains(c) || value.contains(c)
            }),
{
    reveal_strlit("=");
    reveal_strlit("\"");
    let lead = key + "="@;
    let doubled = nodeapp::percent_doubled(value);
    let plain = lead + doubled;
    let line = nodeapp::assignment(key, value);
    assert forall|i: int| 0 <= i < lead.len() implies #[trigger] lead[i] != '%' by {
        if i < key.len() {
            assert(lead[i] == key[i]);
        }
    }
    lemma_read_plain(lead);
    lemma_read_doubled(value);
    lemma_read_concat(lead, doubled);
    assert forall|i: int| 0 <= i < plain.len() implies ({
        let c = #[trigger] plain[i];
        c == '=' || key.contains(c) || value.contains(c)
    }) by {
        if i < key.len() {
            assert(plain[i] == key[i]);
        } else if i >= lead.len() {
            assert(plain[i] == doubled[i - lead.len()]);
        }
    }
    assert forall|i: int| 0 <= i < plain.len() implies #[trigger] plain[i] != '"' && plain[i]
        != '\\' by {
        let c = plain[i];
        if key.contains(c) {
            let j = choose|j: int| 0 <= j < key.len() && key[j] == c;
            assert(key[j] == c);
        }
    }
    assert(plain[0] == key[0]);
    if nodeapp::has_space(value) {
        assert(line[0] == '"' && line.last() == '"');
        assert(unquoted(line) =~= plain);
        assert forall|i: int| 0 <= i < line.len() implies ({
            let c = #[trigger] line[i];
            c == '"' || c == '=' || key.contains(c) || value.contains(c)
        }) by {
            if 0 < i < line.len() - 1 {
                assert(line[i] == plain[i - 1]);
            }
        }
        assert(unquoted(line).len() != line.len());
    } else {
        assert(line == plain);
        assert(unquoted(line) == plain);
        assert forall|i: int| 0 <= i < plain.len() implies !text::is_space(#[trigger] plain[i]) by {
            let c = plain[i];
            if key.contains(c) {
                let j = choose|j: int| 0 <= j < key.len() && key[j] == c;
                assert(!text::is_space(key[j]));
            }
            if value.contains(c) {
                let j = choose|j: int| 0 <= j < value.len() && value[j] == c;
                assert(!text::is_space(value[j]));
            }
        }
    }
}

// ---------------------------------------------------------------------------
// The environment
// ---------------------------------------------------------------------------

/// A name of a variable: a letter or `_`, then letters, digits and `_`, of 64 at
/// most, and neither of the two that the panel sets.
pub open spec fn is_free_name(key: Seq<char>) -> bool {
    &&& 1 <= key.len() <= 64
    &&& !text::is_digit(key[0])
    &&& forall|i: int|
        0 <= i < key.len() ==> (text::is_letter(#[trigger] key[i]) || text::is_digit(key[i]) || key[i]
            == '_')
    &&& text::lower_all(key) != "port"@
    &&& text::lower_all(key) != "node_env"@
}

/// A value that can stand in a line: of 4096 bytes at most, without quotes,
/// backslashes and control characters.
pub open spec fn is_plain_value(value: Seq<char>) -> bool {
    &&& vstd::utf8::encode_utf8(value).len() <= 4096
    &&& forall|i: int|
        0 <= i < value.len() ==> (#[trigger] value[i]) != '"' && value[i] != '\\'
            && !text::is_control(value[i])
}

proof fn lemma_reserved(key: Seq<char>)
    ensures
        nodeapp::is_reserved(key) <==> text::lower_all(key) == "port"@ || text::lower_all(key)
            == "node_env"@,
{
    reveal_strlit("PORT");
    reveal_strlit("NODE_ENV");
    reveal_strlit("port");
    reveal_strlit("node_env");
    assert(text::lower_all("PORT"@) =~= "port"@);
    assert(text::lower_all("NODE_ENV"@) =~= "node_env"@);
}

proof fn lemma_breaks(s: Seq<char>)
    ensures
        nodeapp::before_break(s) >= s.len() <==> forall|i: int|
            0 <= i < s.len() ==> (#[trigger] s[i]) != '"' && s[i] != '\\' && !text::is_control(s[i]),
        nodeapp::before_break(s) <= s.len(),
        nodeapp::before_break(s) < s.len() ==> nodeapp::breaks_line(
            s[nodeapp::before_break(s) as int],
        ),
    decreases s.len(),
{
    if s.len() > 0 {
        lemma_breaks(s.skip(1));
        if nodeapp::before_break(s) >= s.len() {
            assert forall|i: int| 0 <= i < s.len() implies (#[trigger] s[i]) != '"' && s[i] != '\\'
                && !text::is_control(s[i]) by {
                if i > 0 {
                    assert(s.skip(1)[i - 1] == s[i]);
                }
            }
        }
        if forall|i: int|
            0 <= i < s.len() ==> (#[trigger] s[i]) != '"' && s[i] != '\\' && !text::is_control(s[i]) {
            assert(!nodeapp::breaks_line(s[0]));
            assert forall|i: int| 0 <= i < s.skip(1).len() implies (#[trigger] s.skip(1)[i]) != '"'
                && s.skip(1)[i] != '\\' && !text::is_control(s.skip(1)[i]) by {
                assert(s[i + 1] != '"' && s[i + 1] != '\\' && !text::is_control(s[i + 1]));
            }
        }
    }
}

proof fn lemma_refusal(key: Seq<char>, value: Seq<char>, seen: Seq<Seq<char>>)
    ensures
        nodeapp::env_refusal(key, value, seen) is None <==> is_free_name(key) && is_plain_value(
            value,
        ) && !seen.contains(key),
        nodeapp::env_refusal(key, value, seen) is Some ==> error::objects(
            nodeapp::env_refusal(key, value, seen),
            ErrorCode::InvalidInput,
            Some("env"@),
        ),
{
    lemma_reserved(key);
    lemma_breaks(value);
    if nodeapp::is_env_name(key) {
        assert(vstd::utf8::is_ascii_chars(key)) by {
            assert forall|i: int| 0 <= i < key.len() implies '\0' <= #[trigger] key[i] <= '\u{7f}' by {
                assert(text::is_letter(key[i]) || text::is_digit(key[i]) || key[i] == '_');
            }
        }
        vstd::utf8::is_ascii_chars_encode_utf8(key);
    }
    if is_free_name(key) {
        assert(text::is_letter(key[0]) || text::is_digit(key[0]) || key[0] == '_');
    }
    if key.len() > 0 {
        text::lemma_utf8_len(key);
    }
}

/// A variable as it will be set.
pub open spec fn set_key(v: EnvVar) -> Seq<char> {
    text::trim(v.key@)
}

/// Every variable among the first `n` is fine and has a name of its own.
pub open spec fn env_is_fine(env: Seq<EnvVar>, n: int) -> bool {
    forall|i: int|
        0 <= i < n ==> is_free_name(set_key(#[trigger] env[i])) && is_plain_value(env[i].value@)
            && forall|j: int| 0 <= j < i ==> set_key(#[trigger] env[j]) != set_key(env[i])
}

proof fn lemma_env(env: Seq<EnvVar>, n: int)
    requires
        0 <= n <= env.len(),
    ensures
        nodeapp::env_assignments(env.take(n)) is Ok <==> env_is_fine(env, n),
        nodeapp::env_assignments(env.take(n)) is Err ==> error::refused(
            nodeapp::env_assignments(env.take(n)),
            ErrorCode::InvalidInput,
            Some("env"@),
        ),
        nodeapp::env_assignments(env.take(n)) matches Ok(lines) ==> lines.len() == n && forall|i: int|
            0 <= i < n ==> #[trigger] lines[i] == nodeapp::assignment(
                set_key(env[i]),
                env[i].value@,
            ),
    decreases n,
{
    if n == 0 {
        assert(env.take(0).len() == 0);
    } else {
        lemma_env(env, n - 1);
        let t = env.take(n);
        let f = env.take(n - 1);
        assert(t.drop_last() =~= f);
        assert(t.last() == env[n - 1]);
        let key = set_key(env[n - 1]);
        let seen = nodeapp::env_keys(f);
        lemma_refusal(key, env[n - 1].value@, seen);
        assert(seen.contains(key) <==> exists|j: int|
            0 <= j < n - 1 && set_key(#[trigger] env[j]) == key) by {
            if seen.contains(key) {
                let j = choose|j: int| 0 <= j < seen.len() && seen[j] == key;
                assert(set_key(env[j]) == key);
            }
            if exists|j: int| 0 <= j < n - 1 && set_key(#[trigger] env[j]) == key {
                let j = choose|j: int| 0 <= j < n - 1 && set_key(#[trigger] env[j]) == key;
                assert(seen[j] == key);
            }
        }
        assert(env_is_fine(env, n) <==> env_is_fine(env, n - 1) && is_free_name(key)
            && is_plain_value(env[n - 1].value@) && forall|j: int|
            0 <= j < n - 1 ==> set_key(#[trigger] env[j]) != key);
    }
}

/// An environment is accepted exactly if it has 64 variables at most, each with a
/// name that is free, a value that can stand in a line, and a name that no earlier
/// one has. Every refusal is of the environment.
pub proof fn law_an_environment_is_accepted_exactly_if(env: Seq<EnvVar>)
    ensures
        nodeapp::environment(env) is Ok <==> env.len() <= 64 && env_is_fine(env, env.len() as int),
        nodeapp::environment(env) is Err ==> error::refused(
            nodeapp::environment(env),
            ErrorCode::InvalidInput,
            Some("env"@),
        ),
{
    lemma_env(env, env.len() as int);
    assert(env.take(env.len() as int) =~= env);
}

/// Reading an accepted line back the way systemd does gives the variable: one word,
/// quoted where it must be, which with its specifiers read is the key, `=` and the
/// value, and nothing in it ends the line.
pub proof fn law_an_accepted_line_reads_back(env: Seq<EnvVar>, i: int)
    requires
        nodeapp::environment(env) is Ok,
        0 <= i < env.len(),
    ensures
        nodeapp::environment(env)->Ok_0.len() == env.len(),
        assignment_read(nodeapp::environment(env)->Ok_0[i]) == Some(
            text::trim(env[i].key@) + "="@ + env[i].value@,
        ),
        forall|j: int|
            0 <= j < nodeapp::environment(env)->Ok_0[i].len() ==> !text::is_control(
                #[trigger] nodeapp::environment(env)->Ok_0[i][j],
            ),
{
    lemma_env(env, env.len() as int);
    assert(env.take(env.len() as int) =~= env);
    let key = set_key(env[i]);
    let value = env[i].value@;
    assert(is_free_name(key) && is_plain_value(value));
    assert forall|j: int| 0 <= j < key.len() implies !text::is_space(#[trigger] key[j]) && key[j]
        != '%' && key[j] != '"' && key[j] != '\\' && !text::is_control(key[j]) by {
        assert(text::is_letter(key[j]) || text::is_digit(key[j]) || key[j] == '_');
    }
    lemma_assignment(key, value);
    let line = nodeapp::environment(env)->Ok_0[i];
    assert(line == nodeapp::assignment(key, value));
    assert forall|j: int| 0 <= j < line.len() implies !text::is_control(#[trigger] line[j]) by {
        let c = line[j];
        if key.contains(c) {
            let m = choose|m: int| 0 <= m < key.len() && key[m] == c;
            assert(!text::is_control(key[m]));
        }
        if value.contains(c) {
            let m = choose|m: int| 0 <= m < value.len() && value[m] == c;
            assert(!text::is_control(value[m]));
        }
    }
}

/// The environment of an app starts with the two variables that the panel sets, which
/// read back as what is stored of the app, and goes on with the tenant's, in order.
pub proof fn law_the_panels_variables_come_first(app: NodeApp, env: Seq<Seq<char>>)
    requires
        !app.node_env@.contains('"'),
        !app.node_env@.contains('\\'),
    ensures
        nodeapp::full_environment(app, env).len() == env.len() + 2,
        assignment_read(nodeapp::full_environment(app, env)[0]) == Some(
            "NODE_ENV="@ + app.node_env@,
        ),
        assignment_read(nodeapp::full_environment(app, env)[1]) == Some(
            "PORT="@ + text::signed_decimal(app.port as int),
        ),
        nodeapp::full_environment(app, env).skip(2) == env,
{
    reveal_strlit("NODE_ENV");
    reveal_strlit("NODE_ENV=");
    reveal_strlit("PORT");
    reveal_strlit("PORT=");
    reveal_strlit("=");
    let port = text::signed_decimal(app.port as int);
    let n: nat = if app.port < 0 {
        (-app.port) as nat
    } else {
        app.port as nat
    };
    laws::law_decimals_read_back(n);
    let digits = text::decimal(n);
    assert forall|i: int| 0 <= i < port.len() implies #[trigger] port[i] != '"' && port[i]
        != '\\' by {
        if app.port < 0 {
            if i > 0 {
                assert(port[i] == digits[i - 1]);
                assert(text::is_digit(digits[i - 1]));
            }
        } else {
            assert(text::is_digit(digits[i]));
        }
    }
    lemma_assignment("NODE_ENV"@, app.node_env@);
    lemma_assignment("PORT"@, port);
    assert("NODE_ENV"@ + "="@ + app.node_env@ =~= "NODE_ENV="@ + app.node_env@);
    assert("PORT"@ + "="@ + port =~= "PORT="@ + port);
    assert(nodeapp::full_environment(app, env).skip(2) =~= env);
}

// ---------------------------------------------------------------------------
// The entry point
// ---------------------------------------------------------------------------

proof fn lemma_syntax(s: Seq<char>)
    ensures
        nodeapp::before_syntax(s) >= s.len() <==> forall|i: int|
            0 <= i < s.len() ==> !text::is_space(#[trigger] s[i]) && s[i] != '%' && s[i] != '"'
                && s[i] != '\'' && s[i] != '`' && s[i] != '$',
    decreases s.len(),
{
    if s.len() > 0 {
        lemma_syntax(s.skip(1));
        if nodeapp::before_syntax(s) >= s.len() {
            assert forall|i: int| 0 <= i < s.len() implies !text::is_space(#[trigger] s[i]) && s[i]
                != '%' && s[i] != '"' && s[i] != '\'' && s[i] != '`' && s[i] != '$' by {
                if i > 0 {
                    assert(s.skip(1)[i - 1] == s[i]);
                }
            }
        }
        if forall|i: int|
            0 <= i < s.len() ==> !text::is_space(#[trigger] s[i]) && s[i] != '%' && s[i] != '"'
                && s[i] != '\'' && s[i] != '`' && s[i] != '$' {
            assert(!nodeapp::is_exec_syntax(s[0]));
            assert forall|i: int| 0 <= i < s.skip(1).len() implies !text::is_space(
                #[trigger] s.skip(1)[i],
            ) && s.skip(1)[i] != '%' && s.skip(1)[i] != '"' && s.skip(1)[i] != '\'' && s.skip(1)[i]
                != '`' && s.skip(1)[i] != '$' by {
                assert(!text::is_space(s[i + 1]));
            }
        }
    }
}

/// An entry point is taken exactly if it names something and holds nothing that
/// `ExecStart=` reads as syntax; it then is one word of the command.
pub proof fn law_an_entry_point_is_one_word(entry: Seq<char>)
    ensures
        nodeapp::entry_refusal(entry) is None <==> entry.len() > 0 && forall|i: int|
            0 <= i < entry.len() ==> !text::is_space(#[trigger] entry[i]) && entry[i] != '%'
                && entry[i] != '"' && entry[i] != '\'' && entry[i] != '`' && entry[i] != '$',
        nodeapp::entry_refusal(entry) is Some ==> error::objects(
            nodeapp::entry_refusal(entry),
            ErrorCode::InvalidPath,
            Some("entry"@),
        ),
        nodeapp::entry_refusal(entry) is None ==> text::words(entry) == seq![entry],
{
    lemma_syntax(entry);
    if nodeapp::entry_refusal(entry) is None {
        let none = Seq::<char>::empty();
        laws::law_words_stand_between_white_space(none, entry, none, none);
        assert(none + entry + none + none =~= entry);
        assert(text::words(none) == Seq::<Seq<char>>::empty()) by {
            assert(text::trim_start(none) == none);
        }
        assert(seq![entry] + Seq::<Seq<char>>::empty() =~= seq![entry]);
    }
}

// ---------------------------------------------------------------------------
// Accepting
// ---------------------------------------------------------------------------

/// An app is created exactly if an active subscription with a usable account owns it,
/// its plan does not rule Node apps out, an interpreter was found, the entry point and
/// the environment are fine, and whoever wants it published may manage sites.
pub proof fn law_a_creation_is_accepted_exactly_if(
    program: Seq<char>,
    input: CreateInput,
    subscription: Option<Subscription>,
    plan: Option<Plan>,
    node: Option<Seq<char>>,
    permissions: Set<Permission>,
)
    ensures
        ops::acceptance(program, input, subscription, plan, node, permissions) is Ok <==> {
            &&& subscription matches Some(s)
            &&& s.status is Active
            &&& model::is_linux_user(s.linux_user@)
            &&& plan matches Some(p) ==> p.can_node_apps
            &&& node is Some
            &&& input.entry@.len() > 0
            &&& forall|i: int|
                0 <= i < input.entry@.len() ==> !text::is_space(#[trigger] input.entry@[i])
                    && input.entry@[i] != '%' && input.entry@[i] != '"' && input.entry@[i] != '\''
                    && input.entry@[i] != '`' && input.entry@[i] != '$'
            &&& input.env@.len() <= 64 && env_is_fine(input.env@, input.env@.len() as int)
            &&& input.proxy_domain is Some ==> permissions.contains(Permission::SiteManage)
        },
        ops::acceptance(program, input, subscription, plan, node, permissions) matches Ok(a) ==> {
            &&& a.user == subscription->0.linux_user@
            &&& a.node_binary == node->0
            &&& Ok::<Seq<Seq<char>>, Problem>(a.env) == nodeapp::environment(input.env@)
        },
{
    law_an_entry_point_is_one_word(input.entry@);
    law_an_environment_is_accepted_exactly_if(input.env@);
}

/// Why an app is refused, in the order in which things are looked at.
pub proof fn law_why_a_creation_is_refused(
    program: Seq<char>,
    input: CreateInput,
    subscription: Option<Subscription>,
    plan: Option<Plan>,
    node: Option<Seq<char>>,
    permissions: Set<Permission>,
)
    ensures
        ({
            let r = ops::acceptance(program, input, subscription, plan, node, permissions);
            let owned = subscription is Some && subscription->0.status is Active;
            let planned = owned && (plan matches Some(p) ==> p.can_node_apps);
            let runs = planned && node is Some;
            let enters = runs && nodeapp::entry_refusal(input.entry@) is None;
            let set = enters && nodeapp::environment(input.env@) is Ok;
            let may = set && (input.proxy_domain is Some ==> permissions.contains(
                Permission::SiteManage,
            ));
            &&& subscription is None ==> error::refused(r, ErrorCode::NotFound, None)
            &&& subscription is Some && !owned ==> error::refused(
                r,
                ErrorCode::AccountSuspended,
                None,
            )
            &&& owned && !planned ==> error::refused(r, ErrorCode::PlanFeatureDisabled, None)
            &&& planned && !runs ==> error::refused(r, ErrorCode::NotFound, None)
            &&& runs && !enters ==> error::refused(r, ErrorCode::InvalidPath, Some("entry"@))
            &&& enters && !set ==> error::refused(r, ErrorCode::InvalidInput, Some("env"@))
            &&& set && !may ==> error::refused(r, ErrorCode::PermissionDenied, None)
            &&& may && !model::is_linux_user(subscription->0.linux_user@) ==> error::refused(
                r,
                ErrorCode::InvalidInput,
                None,
            )
        }),
{
    law_an_entry_point_is_one_word(input.entry@);
    law_an_environment_is_accepted_exactly_if(input.env@);
}

/// An app's row is found again exactly if it and its subscription are there and both
/// names are usable.
pub proof fn law_an_app_is_identified_by_its_row(app: Option<NodeApp>, owner: Option<Subscription>)
    ensures
        ops::app_identity(app, owner) is Ok <==> app is Some && owner is Some
            && model::is_linux_user(owner->0.linux_user@) && model::is_app_name(app->0.name@),
        ops::app_identity(app, owner) matches Ok(id) ==> id.0 == owner->0.linux_user@ && id.1
            == app->0.name@,
        app is None ==> error::refused(ops::app_identity(app, owner), ErrorCode::NotFound, None),
        app is Some && owner is None ==> error::refused(
            ops::app_identity(app, owner),
            ErrorCode::Internal,
            None,
        ),
{
}

// ---------------------------------------------------------------------------
// Steps
// ---------------------------------------------------------------------------

/// What creating an app performs, and what undoes it: everything once, publishing
/// only where it is asked for and last, and no failure is put up with.
pub proof fn law_what_a_creation_performs(publish: bool, step: AppStep, tolerated: bool)
    ensures
        ops::provision_steps(publish).contains((step, tolerated)) <==> !tolerated && match step {
            AppStep::Account | AppStep::Directory | AppStep::JoinSlice | AppStep::WriteUnit
            | AppStep::Start => true,
            AppStep::Publish => publish,
            _ => false,
        },
        ops::provision_steps(publish).no_duplicates(),
        publish ==> ops::provision_steps(publish).last() == (AppStep::Publish, false),
        !publish ==> ops::provision_steps(publish).last() == (AppStep::Start, false),
        ops::rollback_steps().contains(step) <==> (step is Stop || step is RemoveUnit
            || step is ForgetUnit || step is RemoveSlice || step is ForgetSlice
            || step is DeleteRow),
        ops::rollback_steps()[0] is Stop,
        ops::rollback_steps().last() is DeleteRow,
        ops::deletion_steps().contains((step, tolerated)) <==> ops::rollback_steps().contains(step)
            && tolerated == !(step is DeleteRow),
        ops::deletion_steps()[0].0 is Stop,
        ops::deletion_steps().last().0 is DeleteRow,
{
    let v = ops::provision_steps(publish);
    assert(v[0] == (AppStep::Account, false));
    assert(v[1] == (AppStep::Directory, false));
    assert(v[2] == (AppStep::JoinSlice, false));
    assert(v[3] == (AppStep::WriteUnit, false));
    assert(v[4] == (AppStep::Start, false));
    assert(publish ==> v[5] == (AppStep::Publish, false));
    let u = ops::rollback_steps();
    let d = ops::deletion_steps();
    assert forall|i: int| 0 <= i < 6 implies d[i].0 == #[trigger] u[i] by {}
    assert(u[0] is Stop && u[1] is RemoveUnit && u[2] is ForgetUnit && u[3] is RemoveSlice
        && u[4] is ForgetSlice && u[5] is DeleteRow);
    if u.contains(step) && tolerated == !(step is DeleteRow) {
        let i = choose|i: int| 0 <= i < u.len() && u[i] == step;
        assert(d[i] == (step, tolerated));
    }
    if d.contains((step, tolerated)) {
        let i = choose|i: int| 0 <= i < d.len() && d[i] == (step, tolerated);
        assert(u[i] == step);
    }
}

/// A request for log lines gets as many as it asks for, within one and two thousand;
/// two hundred where it does not ask.
pub proof fn law_log_lines_are_bounded(asked: Option<u32>)
    ensures
        asked is None ==> ops::log_lines(asked) == 200,
        asked matches Some(n) ==> {
            &&& 1 <= n <= 2000 ==> ops::log_lines(asked) == n
            &&& n == 0 ==> ops::log_lines(asked) == 1
            &&& n > 2000 ==> ops::log_lines(asked) == 2000
        },
{
}

// ---------------------------------------------------------------------------
// Places and the unit
// ---------------------------------------------------------------------------

/// Where an app lives: its directory is in its tenant's home, its unit where systemd
/// looks for units, and the drop-in beside it.
pub proof fn law_where_an_app_lives(user: Seq<char>, name: Seq<char>)
    ensures
        model::home_of(user) == "/home/"@ + user,
        model::app_dir_of(user, name) == "/home/"@ + user + "/apps/"@ + name,
        model::unit_path_of(nodeapp::unit_file_name_of(user, name)) == "/etc/systemd/system/"@ + (
        "ferrum-app-"@ + user + "-"@ + name + ".service"@),
        model::unit_dropin_of(nodeapp::unit_file_name_of(user, name), "ferrum-slice.conf"@)
            == "/etc/systemd/system/"@ + ("ferrum-app-"@ + user + "-"@ + name + ".service"@)
            + ".d/"@ + "ferrum-slice.conf"@,
{
}

/// An app's directory and the one above it are each made, handed to the tenant and
/// closed to others, in that order; no command is for anything else, and none reads
/// its path as an option.
pub proof fn law_an_apps_directory_is_the_tenants(user: Seq<char>, name: Seq<char>, i: int)
    requires
        0 <= i < 2,
    ensures
        ({
            let v = nodeapp::app_dir_commands(user, name);
            let path = if i == 0 {
                "/home/"@ + user + "/apps"@
            } else {
                "/home/"@ + user + "/apps/"@ + name
            };
            &&& v.len() == 6
            &&& v[3 * i] == seq!["mkdir"@, "-p"@, "--"@, path]
            &&& v[3 * i + 1] == seq!["chown"@, user + ":"@ + user, "--"@, path]
            &&& v[3 * i + 2] == seq!["chmod"@, "0750"@, "--"@, path]
        }),
{
}

/// A memory cap is the one that is asked for, but never under 64 MB.
pub proof fn law_a_memory_cap_is_never_too_small(asked: Option<u32>)
    ensures
        nodeapp::memory_cap(asked) is Some <==> asked is Some,
        asked matches Some(n) ==> nodeapp::memory_cap(asked) == Some(
            if n >= 64 {
                n
            } else {
                64
            },
        ),
{
}

/// The lines of a unit file, directive by directive.
pub open spec fn unit_lines(c: AppUnitContext) -> Seq<Seq<char>> {
    seq![
        "[Unit]"@,
        "Description=Ferrum Node app "@ + c.name@ + " ("@ + c.linux_user@ + ")"@,
        "After=network-online.target"@,
        "Wants=network-online.target"@,
        "StartLimitIntervalSec=60"@,
        "StartLimitBurst=5"@,
        Seq::empty(),
        "[Service]"@,
        "Type=simple"@,
        "User="@ + c.linux_user@,
        "Group="@ + c.linux_user@,
        "WorkingDirectory="@ + c.working_dir@,
        "ExecStart="@ + c.node_binary@ + " "@ + c.entry_path@,
    ] + environment_directives(text::texts(c.environment@)) + seq![
        "Restart=always"@,
        "RestartSec=2s"@,
    ] + memory_directives(c.memory_max_mb) + seq![
        "StandardOutput=journal"@,
        "StandardError=journal"@,
        Seq::empty(),
        "NoNewPrivileges=yes"@,
        "PrivateTmp=yes"@,
        "ProtectSystem=full"@,
        Seq::empty(),
        "[Install]"@,
        "WantedBy=multi-user.target"@,
    ]
}

/// One `Environment=` for each assignment, in order.
pub open spec fn environment_directives(env: Seq<Seq<char>>) -> Seq<Seq<char>> {
    env.map_values(|line: Seq<char>| "Environment="@ + line)
}

/// A `MemoryMax=` where there is a cap.
pub open spec fn memory_directives(cap: Option<u32>) -> Seq<Seq<char>> {
    match cap {
        Some(mb) => seq!["MemoryMax="@ + text::decimal(mb as nat) + "M"@],
        None => Seq::empty(),
    }
}

proof fn lemma_block_push(v: Seq<Seq<char>>, line: Seq<char>)
    ensures
        laws::block(v.push(line)) == laws::block(v) + line + seq!['\n'],
{
    assert(v.push(line).drop_last() =~= v);
}

proof fn lemma_block_add(a: Seq<Seq<char>>, b: Seq<Seq<char>>)
    ensures
        laws::block(a + b) == laws::block(a) + laws::block(b),
    decreases b.len(),
{
    if b.len() == 0 {
        assert(a + b =~= a);
        assert(laws::block(a) + laws::block(b) =~= laws::block(a));
    } else {
        assert((a + b).drop_last() =~= a + b.drop_last());
        lemma_block_add(a, b.drop_last());
        assert(laws::block(a + b) =~= laws::block(a) + laws::block(b));
    }
}

proof fn lemma_environment_block(env: Seq<Seq<char>>)
    ensures
        nodeapp::environment_text(env) == laws::block(environment_directives(env)),
    decreases env.len(),
{
    reveal_strlit("\n");
    let v = environment_directives(env);
    if env.len() > 0 {
        lemma_environment_block(env.drop_last());
        assert(v.drop_last() =~= environment_directives(env.drop_last()));
        assert("\n"@ =~= seq!['\n']);
        assert(nodeapp::environment_text(env) =~= laws::block(v.drop_last()) + v.last() + seq![
            '\n',
        ]);
    }
}

/// The first part of a unit file, up to its command.
spec fn unit_head(c: AppUnitContext) -> Seq<char> {
    "[Unit]\nDescription=Ferrum Node app "@ + c.name@ + " ("@ + c.linux_user@
        + ")\nAfter=network-online.target\nWants=network-online.target\nStartLimitIntervalSec=60\nStartLimitBurst=5\n\n[Service]\nType=simple\nUser="@
        + c.linux_user@ + "\nGroup="@ + c.linux_user@ + "\nWorkingDirectory="@ + c.working_dir@
        + "\nExecStart="@ + c.node_binary@ + " "@ + c.entry_path@ + "\n"@
}

spec fn head_lines(c: AppUnitContext) -> Seq<Seq<char>> {
    seq![
        "[Unit]"@,
        "Description=Ferrum Node app "@ + c.name@ + " ("@ + c.linux_user@ + ")"@,
        "After=network-online.target"@,
        "Wants=network-online.target"@,
        "StartLimitIntervalSec=60"@,
        "StartLimitBurst=5"@,
        Seq::empty(),
        "[Service]"@,
        "Type=simple"@,
        "User="@ + c.linux_user@,
        "Group="@ + c.linux_user@,
        "WorkingDirectory="@ + c.working_dir@,
        "ExecStart="@ + c.node_binary@ + " "@ + c.entry_path@,
    ]
}

#[verifier::spinoff_prover]
#[verifier::rlimit(60)]
proof fn lemma_head(c: AppUnitContext)
    ensures
        laws::block(head_lines(c)) == unit_head(c),
{
    reveal_strlit("\n");
    let nl = seq!['\n'];
    assert("\n"@ =~= nl);
    let v = head_lines(c);
    let none = Seq::<Seq<char>>::empty();
    let v2 = none.push(v[0]).push(v[1]);
    let v9 = v2.push(v[2]).push(v[3]).push(v[4]).push(v[5]).push(v[6]).push(v[7]).push(v[8]);
    assert(v =~= v9.push(v[9]).push(v[10]).push(v[11]).push(v[12]));
    lemma_block_push(none, v[0]);
    lemma_block_push(none.push(v[0]), v[1]);
    let b2 = laws::block(v2);
    let s1 = "[Unit]\nDescription=Ferrum Node app "@;
    assert(s1 =~= "[Unit]"@ + nl + "Description=Ferrum Node app "@) by {
        reveal_strlit("[Unit]\nDescription=Ferrum Node app ");
        reveal_strlit("[Unit]");
        reveal_strlit("Description=Ferrum Node app ");
    }
    assert(b2 =~= s1 + c.name@ + " ("@ + c.linux_user@ + ")"@ + nl);
    lemma_middle(c);
    let middle = middle_lines();
    assert(v9 =~= v2 + middle);
    lemma_block_add(v2, middle);
    lemma_block_push(v9, v[9]);
    lemma_block_push(v9.push(v[9]), v[10]);
    lemma_block_push(v9.push(v[9]).push(v[10]), v[11]);
    lemma_block_push(v9.push(v[9]).push(v[10]).push(v[11]), v[12]);
    assert("\nGroup="@ =~= nl + "Group="@) by {
        reveal_strlit("\nGroup=");
        reveal_strlit("Group=");
    }
    assert("\nWorkingDirectory="@ =~= nl + "WorkingDirectory="@) by {
        reveal_strlit("\nWorkingDirectory=");
        reveal_strlit("WorkingDirectory=");
    }
    assert("\nExecStart="@ =~= nl + "ExecStart="@) by {
        reveal_strlit("\nExecStart=");
        reveal_strlit("ExecStart=");
    }
    let m = ")\nAfter=network-online.target\nWants=network-online.target\nStartLimitIntervalSec=60\nStartLimitBurst=5\n\n[Service]\nType=simple\nUser="@;
    assert(m == ")"@ + nl + laws::block(middle) + "User="@);
    let start = s1 + c.name@ + " ("@ + c.linux_user@;
    assert(laws::block(v9) =~= start + (")"@ + nl + laws::block(middle)));
    assert(laws::block(v9) + "User="@ =~= start + m);
    assert(laws::block(v) =~= laws::block(v9) + "User="@ + c.linux_user@ + (nl + "Group="@)
        + c.linux_user@ + (nl + "WorkingDirectory="@) + c.working_dir@ + (nl + "ExecStart="@)
        + c.node_binary@ + " "@ + c.entry_path@ + nl);
}

spec fn middle_lines() -> Seq<Seq<char>> {
    seq![
        "After=network-online.target"@,
        "Wants=network-online.target"@,
        "StartLimitIntervalSec=60"@,
        "StartLimitBurst=5"@,
        Seq::empty(),
        "[Service]"@,
        "Type=simple"@,
    ]
}

#[verifier::spinoff_prover]
#[verifier::rlimit(60)]
proof fn lemma_middle(c: AppUnitContext)
    ensures
        ")\nAfter=network-online.target\nWants=network-online.target\nStartLimitIntervalSec=60\nStartLimitBurst=5\n\n[Service]\nType=simple\nUser="@
            == ")"@ + seq!['\n'] + laws::block(middle_lines()) + "User="@,
{
    let v = middle_lines();
    let none = Seq::<Seq<char>>::empty();
    let v1 = none.push(v[0]);
    let v2 = v1.push(v[1]);
    let v3 = v2.push(v[2]);
    let v4 = v3.push(v[3]);
    let v5 = v4.push(v[4]);
    let v6 = v5.push(v[5]);
    assert(v =~= v6.push(v[6]));
    lemma_block_push(none, v[0]);
    lemma_block_push(v1, v[1]);
    lemma_block_push(v2, v[2]);
    lemma_block_push(v3, v[3]);
    lemma_block_push(v4, v[4]);
    lemma_block_push(v5, v[5]);
    lemma_block_push(v6, v[6]);
    reveal_strlit(")");
    reveal_strlit("User=");
    reveal_strlit("After=network-online.target");
    reveal_strlit("Wants=network-online.target");
    reveal_strlit("StartLimitIntervalSec=60");
    reveal_strlit("StartLimitBurst=5");
    reveal_strlit("[Service]");
    reveal_strlit("Type=simple");
    reveal_strlit(
        ")\nAfter=network-online.target\nWants=network-online.target\nStartLimitIntervalSec=60\nStartLimitBurst=5\n\n[Service]\nType=simple\nUser=",
    );
    assert(")\nAfter=network-online.target\nWants=network-online.target\nStartLimitIntervalSec=60\nStartLimitBurst=5\n\n[Service]\nType=simple\nUser="@
        =~= ")"@ + seq!['\n'] + laws::block(v) + "User="@);
}

spec fn tail_lines() -> Seq<Seq<char>> {
    seq![
        "StandardOutput=journal"@,
        "StandardError=journal"@,
        Seq::empty(),
        "NoNewPrivileges=yes"@,
        "PrivateTmp=yes"@,
        "ProtectSystem=full"@,
        Seq::empty(),
        "[Install]"@,
        "WantedBy=multi-user.target"@,
    ]
}

#[verifier::spinoff_prover]
#[verifier::rlimit(60)]
proof fn lemma_tail()
    ensures
        "StandardOutput=journal\nStandardError=journal\n\nNoNewPrivileges=yes\nPrivateTmp=yes\nProtectSystem=full\n\n[Install]\nWantedBy=multi-user.target\n"@
            == laws::block(tail_lines()),
        "Restart=always\nRestartSec=2s\n"@ == laws::block(
            seq!["Restart=always"@, "RestartSec=2s"@],
        ),
{
    let v = tail_lines();
    let none = Seq::<Seq<char>>::empty();
    let v1 = none.push(v[0]);
    let v2 = v1.push(v[1]);
    let v3 = v2.push(v[2]);
    let v4 = v3.push(v[3]);
    let v5 = v4.push(v[4]);
    let v6 = v5.push(v[5]);
    let v7 = v6.push(v[6]);
    let v8 = v7.push(v[7]);
    assert(v =~= v8.push(v[8]));
    lemma_block_push(none, v[0]);
    lemma_block_push(v1, v[1]);
    lemma_block_push(v2, v[2]);
    lemma_block_push(v3, v[3]);
    lemma_block_push(v4, v[4]);
    lemma_block_push(v5, v[5]);
    lemma_block_push(v6, v[6]);
    lemma_block_push(v7, v[7]);
    lemma_block_push(v8, v[8]);
    reveal_strlit("StandardOutput=journal");
    reveal_strlit("StandardError=journal");
    reveal_strlit("NoNewPrivileges=yes");
    reveal_strlit("PrivateTmp=yes");
    reveal_strlit("ProtectSystem=full");
    reveal_strlit("[Install]");
    reveal_strlit("WantedBy=multi-user.target");
    reveal_strlit(
        "StandardOutput=journal\nStandardError=journal\n\nNoNewPrivileges=yes\nPrivateTmp=yes\nProtectSystem=full\n\n[Install]\nWantedBy=multi-user.target\n",
    );
    assert("StandardOutput=journal\nStandardError=journal\n\nNoNewPrivileges=yes\nPrivateTmp=yes\nProtectSystem=full\n\n[Install]\nWantedBy=multi-user.target\n"@
        =~= laws::block(v));
    let two = seq!["Restart=always"@, "RestartSec=2s"@];
    assert(two =~= none.push(two[0]).push(two[1]));
    lemma_block_push(none, two[0]);
    lemma_block_push(none.push(two[0]), two[1]);
    reveal_strlit("Restart=always");
    reveal_strlit("RestartSec=2s");
    reveal_strlit("Restart=always\nRestartSec=2s\n");
    assert("Restart=always\nRestartSec=2s\n"@ =~= laws::block(two));
}

proof fn lemma_memory_block(cap: Option<u32>)
    ensures
        nodeapp::memory_text(cap) == laws::block(memory_directives(cap)),
{
    let none = Seq::<Seq<char>>::empty();
    if let Some(mb) = cap {
        let line = "MemoryMax="@ + text::decimal(mb as nat) + "M"@;
        lemma_block_push(none, line);
        assert(memory_directives(cap) =~= none.push(line));
        reveal_strlit("M");
        reveal_strlit("M\n");
        assert("M\n"@ =~= "M"@ + seq!['\n']);
        assert(nodeapp::memory_text(cap) =~= laws::block(memory_directives(cap)));
    }
}

/// Nothing that a unit file is made from breaks a line.
pub open spec fn fits_on_lines(c: AppUnitContext) -> bool {
    &&& laws::is_line(c.name@)
    &&& laws::is_line(c.linux_user@)
    &&& laws::is_line(c.working_dir@)
    &&& laws::is_line(c.node_binary@)
    &&& laws::is_line(c.entry_path@)
    &&& forall|i: int| 0 <= i < c.environment@.len() ==> laws::is_line(#[trigger] c.environment@[i]@)
}

proof fn lemma_line_add(a: Seq<char>, b: Seq<char>)
    requires
        laws::is_line(a),
        laws::is_line(b),
    ensures
        laws::is_line(a + b),
{
    assert forall|i: int| 0 <= i < (a + b).len() implies #[trigger] (a + b)[i] != '\n' by {
        if i < a.len() {
            assert((a + b)[i] == a[i]);
        } else {
            assert((a + b)[i] == b[i - a.len()]);
        }
    }
    if b.len() == 0 {
        assert(a + b =~= a);
    }
}

#[verifier::spinoff_prover]
#[verifier::rlimit(60)]
proof fn lemma_fixed_lines()
    ensures
        laws::is_line("[Unit]"@),
        laws::is_line("Description=Ferrum Node app "@),
        laws::is_line(" ("@),
        laws::is_line(")"@),
        laws::is_line("User="@),
        laws::is_line("Group="@),
        laws::is_line("WorkingDirectory="@),
        laws::is_line("ExecStart="@),
        laws::is_line(" "@),
        laws::is_line("Environment="@),
        laws::is_line("MemoryMax="@),
        laws::is_line("M"@),
        laws::is_line("Restart=always"@),
        laws::is_line("RestartSec=2s"@),
        forall|i: int| 0 <= i < middle_lines().len() ==> laws::is_line(#[trigger] middle_lines()[i]),
        forall|i: int| 0 <= i < tail_lines().len() ==> laws::is_line(#[trigger] tail_lines()[i]),
{
    reveal_strlit("[Unit]");
    reveal_strlit("Description=Ferrum Node app ");
    reveal_strlit(" (");
    reveal_strlit(")");
    reveal_strlit("User=");
    reveal_strlit("Group=");
    reveal_strlit("WorkingDirectory=");
    reveal_strlit("ExecStart=");
    reveal_strlit(" ");
    reveal_strlit("Environment=");
    reveal_strlit("MemoryMax=");
    reveal_strlit("M");
    reveal_strlit("Restart=always");
    reveal_strlit("RestartSec=2s");
    reveal_strlit("After=network-online.target");
    reveal_strlit("Wants=network-online.target");
    reveal_strlit("StartLimitIntervalSec=60");
    reveal_strlit("StartLimitBurst=5");
    reveal_strlit("[Service]");
    reveal_strlit("Type=simple");
    reveal_strlit("StandardOutput=journal");
    reveal_strlit("StandardError=journal");
    reveal_strlit("NoNewPrivileges=yes");
    reveal_strlit("PrivateTmp=yes");
    reveal_strlit("ProtectSystem=full");
    reveal_strlit("[Install]");
    reveal_strlit("WantedBy=multi-user.target");
}

/// Read line by line, a unit file runs the entry point with the interpreter, as the
/// tenant, in the app's directory, with one `Environment=` for each assignment in
/// order and the memory cap where there is one.
pub proof fn law_a_unit_says_what_it_was_made_from(c: AppUnitContext)
    requires
        fits_on_lines(c),
    ensures
        text::lines(c.unit_text()) == unit_lines(c),
{
    let env = text::texts(c.environment@);
    let e = environment_directives(env);
    let m = memory_directives(c.memory_max_mb);
    let two = seq!["Restart=always"@, "RestartSec=2s"@];
    let h = head_lines(c);
    let t = tail_lines();
    let all = unit_lines(c);
    assert(all =~= h + e + two + m + t);
    lemma_block_add(h + e + two + m, t);
    lemma_block_add(h + e + two, m);
    lemma_block_add(h + e, two);
    lemma_block_add(h, e);
    lemma_head(c);
    lemma_environment_block(env);
    lemma_memory_block(c.memory_max_mb);
    lemma_tail();
    assert(c.unit_text() =~= unit_head(c) + nodeapp::environment_text(env)
        + "Restart=always\nRestartSec=2s\n"@ + nodeapp::memory_text(c.memory_max_mb)
        + "StandardOutput=journal\nStandardError=journal\n\nNoNewPrivileges=yes\nPrivateTmp=yes\nProtectSystem=full\n\n[Install]\nWantedBy=multi-user.target\n"@);
    assert(c.unit_text() == laws::block(all));
    lemma_fixed_lines();
    lemma_line_add("Description=Ferrum Node app "@, c.name@);
    lemma_line_add("Description=Ferrum Node app "@ + c.name@, " ("@);
    lemma_line_add("Description=Ferrum Node app "@ + c.name@ + " ("@, c.linux_user@);
    lemma_line_add("Description=Ferrum Node app "@ + c.name@ + " ("@ + c.linux_user@, ")"@);
    lemma_line_add("User="@, c.linux_user@);
    lemma_line_add("Group="@, c.linux_user@);
    lemma_line_add("WorkingDirectory="@, c.working_dir@);
    lemma_line_add("ExecStart="@, c.node_binary@);
    lemma_line_add("ExecStart="@ + c.node_binary@, " "@);
    lemma_line_add("ExecStart="@ + c.node_binary@ + " "@, c.entry_path@);
    assert forall|i: int| 0 <= i < h.len() implies laws::is_line(#[trigger] h[i]) by {
        if 2 <= i < 9 {
            assert(h[i] == middle_lines()[i - 2]);
        }
    }
    assert forall|i: int| 0 <= i < e.len() implies laws::is_line(#[trigger] e[i]) by {
        assert(laws::is_line(c.environment@[i]@));
        lemma_line_add("Environment="@, env[i]);
    }
    if let Some(mb) = c.memory_max_mb {
        laws::law_decimals_read_back(mb as nat);
        let d = text::decimal(mb as nat);
        assert(laws::is_line(d)) by {
            assert forall|i: int| 0 <= i < d.len() implies #[trigger] d[i] != '\n' by {
                assert(text::is_digit(d[i]));
            }
            assert(text::is_digit(d[d.len() - 1]));
        }
        lemma_line_add("MemoryMax="@, d);
        lemma_line_add("MemoryMax="@ + d, "M"@);
    }
    assert forall|i: int| 0 <= i < all.len() implies laws::is_line(#[trigger] all[i]) by {
        if i < h.len() {
            assert(all[i] == h[i]);
        } else if i < h.len() + e.len() {
            assert(all[i] == e[i - h.len()]);
        } else if i < h.len() + e.len() + 2 {
            assert(all[i] == two[i - h.len() - e.len()]);
        } else if i < h.len() + e.len() + 2 + m.len() {
            assert(all[i] == m[i - h.len() - e.len() - 2]);
        } else {
            assert(all[i] == t[i - h.len() - e.len() - 2 - m.len()]);
        }
    }
    laws::law_a_block_has_its_lines(all);
}

/// A line is quoted exactly if its value holds white space.
pub proof fn law_when_a_line_is_quoted(key: Seq<char>, value: Seq<char>)
    ensures
        ({
            let s = nodeapp::assignment(key, value);
            let spaced = exists|i: int| 0 <= i < value.len() && text::is_space(#[trigger] value[i]);
            &&& spaced ==> text::starts_with(s, seq!['"'] + key + seq!['=']) && s.last() == '"'
            &&& !spaced ==> text::starts_with(s, key + seq!['='])
        }),
{
    reveal_strlit("=");
    reveal_strlit("\"");
    let s = nodeapp::assignment(key, value);
    let d = nodeapp::percent_doubled(value);
    let n = key.len() as int;
    if exists|i: int| 0 <= i < value.len() && text::is_space(#[trigger] value[i]) {
        assert(s.take(n + 2) =~= seq!['"'] + key + seq!['=']);
    } else {
        assert(s =~= key + "="@ + d);
        assert(s.take(n + 1) =~= key + seq!['=']);
    }
}


/// How much of an environment and of a log there may be.
pub proof fn law_what_bounds_an_app()
    ensures
        nodeapp::MAX_ENV_VARS == 64,
        nodeapp::MAX_ENV_VALUE == 4 * 1024,
        nodeapp::DEFAULT_LOG_LINES == 200,
        nodeapp::MAX_LOG_LINES == 2000,
{
}


} // verus!
