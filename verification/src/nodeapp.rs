//! Tenant Node.js applications.
//!
//! An app is four things that have to agree: a row (which owns the port), a
//! directory in the tenant's home, a systemd unit running as the tenant inside
//! the tenant's slice, and, optionally, a reverse-proxy vhost in front of it.
//! They are created in that order and, on any failure, unwound in the reverse
//! one.
use vstd::prelude::*;
use vstd::string::StringExecFns;

use crate::error;
use crate::error::{ErrorCode, FerrumError, Problem};
use crate::model;
use crate::model::{AppName, LinuxUser, TenantPath, UnitName};
use crate::text;

pub use crate::nodeapp::ops::{
    AppView, Create, CreateInput, CreateOutput, Delete, DeleteInput, DeleteOutput, List, ListInput,
    ListOutput, Logs, LogsInput, LogsOutput, Restart, RestartInput, RestartOutput,
};

pub mod laws;
pub mod ops;

verus! {

/// How many environment variables one app may declare.
pub const MAX_ENV_VARS: usize = 64;

/// Longest accepted environment value, in bytes.
pub const MAX_ENV_VALUE: usize = 4096;

/// How many journal lines an unasked-for tail returns.
pub const DEFAULT_LOG_LINES: u32 = 200;

/// The most any single request may ask for.
pub const MAX_LOG_LINES: u32 = 2000;

// ---------------------------------------------------------------------------
// Names and paths
// ---------------------------------------------------------------------------

/// `ferrum-app-<user>-<name>.service`.
pub open spec fn unit_file_name_of(user: Seq<char>, name: Seq<char>) -> Seq<char> {
    "ferrum-app-"@ + user + "-"@ + name + ".service"@
}

/// The unit file name for an app. Both halves are needed: two tenants may each
/// have a `blog`, and one tenant may have several apps.
pub fn unit_file_name(user: &LinuxUser, name: &AppName) -> (r: String)
    ensures
        r@ == unit_file_name_of(user@, name@),
{
    let mut s = "ferrum-app-".to_owned();
    s.append(user.as_str());
    s.append("-");
    s.append(name.as_str());
    s.append(".service");
    s
}

/// Two units have one name exactly if user, hyphen and app name read the same: so
/// two apps of one user never do, nor two users' apps of one name. (Two that
/// differ in both may meet: user `a` with app `b-c`, and user `a-b` with app `c`.)
pub proof fn law_unit_names_tell_apart(
    user: Seq<char>,
    name: Seq<char>,
    other_user: Seq<char>,
    other_name: Seq<char>,
)
    ensures
        unit_file_name_of(user, name) == unit_file_name_of(other_user, other_name) <==> user + "-"@
            + name == other_user + "-"@ + other_name,
        user == other_user && name != other_name ==> unit_file_name_of(user, name)
            != unit_file_name_of(other_user, other_name),
        user != other_user && name == other_name ==> unit_file_name_of(user, name)
            != unit_file_name_of(other_user, other_name),
{
    reveal_strlit("ferrum-app-");
    reveal_strlit("-");
    reveal_strlit(".service");
    let a = unit_file_name_of(user, name);
    let b = unit_file_name_of(other_user, other_name);
    let p = user + "-"@ + name;
    let q = other_user + "-"@ + other_name;
    assert(a =~= "ferrum-app-"@ + p + ".service"@);
    assert(b =~= "ferrum-app-"@ + q + ".service"@);
    assert(a.subrange(11, 11 + p.len() as int) =~= p);
    assert(b.subrange(11, 11 + q.len() as int) =~= q);
    if p == q {
        if user == other_user {
            let lo = user.len() as int + 1;
            assert(p.skip(lo) =~= name);
            assert(q.skip(lo) =~= other_name);
        } else if name == other_name {
            let hi = user.len() as int;
            assert(p.take(hi) =~= user);
            assert(q.take(hi) =~= other_user);
        }
    }
}

/// A valid account and a valid app name always form a valid unit name, which is
/// a `ferrum-*.service`.
pub proof fn law_unit_names_are_valid(user: Seq<char>, name: Seq<char>)
    requires
        model::is_linux_user(user),
        model::is_app_name(name),
    ensures
        model::is_unit_name(unit_file_name_of(user, name)),
        text::starts_with(unit_file_name_of(user, name), "ferrum-"@),
        text::ends_with(unit_file_name_of(user, name), ".service"@),
{
    reveal_strlit("ferrum-app-");
    reveal_strlit("ferrum-");
    reveal_strlit("-");
    reveal_strlit(".service");
    let u = unit_file_name_of(user, name);
    let a = "ferrum-app-"@;
    assert(u.take(7) =~= "ferrum-"@);
    assert(u.skip(u.len() - 8) =~= ".service"@);
    assert forall|i: int| 0 <= i < u.len() implies model::is_unit_char(#[trigger] u[i]) by {
        if i < 11 {
            assert(u[i] == a[i]);
        } else if i < 11 + user.len() {
            assert(u[i] == user[i - 11]);
        } else if i == 11 + user.len() {
            assert(u[i] == '-');
        } else if i < 12 + user.len() + name.len() {
            assert(u[i] == name[i - 12 - user.len()]);
        } else {
            assert(u[i] == ".service"@[i - 12 - user.len() - name.len()]);
        }
    }
}

/// The same, as a [`UnitName`].
pub fn app_unit_name(user: &LinuxUser, name: &AppName) -> (r: UnitName)
    ensures
        r@ == unit_file_name_of(user@, name@),
{
    let file = unit_file_name(user, name);
    let u = user.as_str();
    let n = name.as_str();
    proof {
        law_unit_names_are_valid(u@, n@);
    }
    UnitName::known(file)
}

/// `/etc/systemd/system/ferrum-app-<user>-<name>.service`.
pub fn app_unit_path(user: &LinuxUser, name: &AppName) -> (r: String)
    ensures
        r@ == model::unit_path_of(unit_file_name_of(user@, name@)),
{
    model::unit_path(unit_file_name(user, name).as_str())
}

/// The drop-in that puts the unit into its tenant's slice.
pub fn slice_dropin_path(user: &LinuxUser, name: &AppName) -> (r: String)
    ensures
        r@ == model::unit_dropin_of(unit_file_name_of(user@, name@), "ferrum-slice.conf"@),
{
    model::unit_dropin_path(unit_file_name(user, name).as_str(), "ferrum-slice.conf")
}

// ---------------------------------------------------------------------------
// The environment
// ---------------------------------------------------------------------------

/// One environment variable, as the API spells it. Order is meaningful to
/// systemd: later `Environment=` lines win.
#[derive(Debug, Clone)]
pub struct EnvVar {
    pub key: String,
    pub value: String,
}

pub open spec fn env_problem(detail: Seq<char>) -> Problem {
    error::field_problem(ErrorCode::InvalidInput, detail, "env"@)
}

/// A name that a shell would accept too: a letter or `_`, then letters, digits
/// and `_`.
pub open spec fn is_env_name(s: Seq<char>) -> bool {
    &&& s.len() > 0
    &&& text::is_letter(s[0]) || s[0] == '_'
    &&& forall|i: int|
        0 <= i < s.len() ==> text::is_letter(#[trigger] s[i]) || text::is_digit(s[i]) || s[i] == '_'
}

/// The panel sets these itself.
pub open spec fn is_reserved(key: Seq<char>) -> bool {
    text::same_but_case(key, "PORT"@) || text::same_but_case(key, "NODE_ENV"@)
}

/// A character that cannot stand in an `Environment=` line.
pub open spec fn breaks_line(c: char) -> bool {
    text::is_control(c) || c == '"' || c == '\\'
}

/// How many characters stand before the first that breaks the line.
pub open spec fn before_break(s: Seq<char>) -> nat
    decreases s.len(),
{
    if s.len() == 0 || breaks_line(s[0]) {
        0
    } else {
        1 + before_break(s.skip(1))
    }
}

/// What to call a refused character.
pub open spec fn char_name(c: char) -> Seq<char> {
    if c == '\n' {
        "a newline"@
    } else if c == '\r' {
        "a carriage return"@
    } else if c == '\t' {
        "a tab"@
    } else if c == '"' {
        "a double quote"@
    } else if c == '\\' {
        "a backslash"@
    } else {
        "a control character"@
    }
}

/// Every `%` doubled: systemd reads a single one as a specifier.
pub open spec fn percent_doubled(s: Seq<char>) -> Seq<char>
    decreases s.len(),
{
    if s.len() == 0 {
        Seq::empty()
    } else if s.last() == '%' {
        percent_doubled(s.drop_last()).push('%').push('%')
    } else {
        percent_doubled(s.drop_last()).push(s.last())
    }
}

pub open spec fn has_space(s: Seq<char>) -> bool {
    exists|i: int| 0 <= i < s.len() && text::is_space(#[trigger] s[i])
}

/// One assignment the way systemd parses it: quoted as a whole where the value
/// holds white space.
pub open spec fn assignment(key: Seq<char>, value: Seq<char>) -> Seq<char> {
    let plain = key + "="@ + percent_doubled(value);
    if has_space(value) {
        "\""@ + plain + "\""@
    } else {
        plain
    }
}

/// The names of the variables, as they will be set.
pub open spec fn env_keys(env: Seq<EnvVar>) -> Seq<Seq<char>> {
    env.map_values(|v: EnvVar| text::trim(v.key@))
}

/// Why one variable is refused, given the names before it.
pub open spec fn env_refusal(key: Seq<char>, value: Seq<char>, seen: Seq<Seq<char>>) -> Option<
    Problem,
> {
    if key.len() == 0 || vstd::utf8::encode_utf8(key).len() > 64 {
        Some(env_problem("an environment variable name must be 1-64 characters"@))
    } else if !is_env_name(key) {
        Some(env_problem("`"@ + key + "` is not a valid environment variable name"@))
    } else if is_reserved(key) {
        Some(env_problem("`"@ + key + "` is set by the panel and cannot be overridden"@))
    } else if seen.contains(key) {
        Some(
            env_problem(
                "`"@ + key + "` is declared twice; systemd would silently keep the last one"@,
            ),
        )
    } else if vstd::utf8::encode_utf8(value).len() > MAX_ENV_VALUE {
        Some(
            env_problem(
                "the value of `"@ + key + "` exceeds "@ + text::decimal(MAX_ENV_VALUE as nat)
                    + " characters"@,
            ),
        )
    } else if before_break(value) < value.len() {
        Some(
            env_problem(
                "the value of `"@ + key + "` contains "@ + char_name(
                    value[before_break(value) as int],
                ) + ", which cannot appear in a systemd Environment= line"@,
            ),
        )
    } else {
        None
    }
}

/// The assignments, or why the first refused variable is refused.
pub open spec fn env_assignments(env: Seq<EnvVar>) -> Result<Seq<Seq<char>>, Problem>
    decreases env.len(),
{
    if env.len() == 0 {
        Ok(Seq::empty())
    } else {
        let last = env.last();
        let key = text::trim(last.key@);
        match env_assignments(env.drop_last()) {
            Ok(lines) => match env_refusal(key, last.value@, env_keys(env.drop_last())) {
                Some(p) => Err(p),
                None => Ok(lines.push(assignment(key, last.value@))),
            },
            Err(p) => Err(p),
        }
    }
}

pub open spec fn environment(env: Seq<EnvVar>) -> Result<Seq<Seq<char>>, Problem> {
    if env.len() > MAX_ENV_VARS {
        Err(
            env_problem(
                "an app may declare at most "@ + text::decimal(MAX_ENV_VARS as nat)
                    + " environment variables"@,
            ),
        )
    } else {
        env_assignments(env)
    }
}

pub fn describe_char(c: char) -> (r: &'static str)
    ensures
        r@ == char_name(c),
{
    if c == '\n' {
        "a newline"
    } else if c == '\r' {
        "a carriage return"
    } else if c == '\t' {
        "a tab"
    } else if c == '"' {
        "a double quote"
    } else if c == '\\' {
        "a backslash"
    } else {
        "a control character"
    }
}

fn has_space_in(v: &Vec<char>) -> (r: bool)
    ensures
        r == has_space(v@),
{
    let mut i: usize = 0;
    while i < v.len()
        invariant
            i <= v@.len(),
            forall|j: int| 0 <= j < i ==> !text::is_space(#[trigger] v@[j]),
        decreases v@.len() - i,
    {
        if text::char_is_space(v[i]) {
            assert(text::is_space(v@[i as int]));
            return true;
        }
        i = i + 1;
    }
    false
}

fn double_percent(v: &Vec<char>) -> (r: String)
    ensures
        r@ == percent_doubled(v@),
{
    let mut out = String::new();
    let mut i: usize = 0;
    assert(v@.take(0) =~= Seq::empty());
    while i < v.len()
        invariant
            i <= v@.len(),
            out@ == percent_doubled(v@.take(i as int)),
        decreases v@.len() - i,
    {
        assert(v@.take(i + 1).drop_last() =~= v@.take(i as int));
        let c = v[i];
        if c == '%' {
            out.push('%');
        }
        out.push(c);
        i = i + 1;
    }
    assert(v@.take(i as int) =~= v@);
    out
}

/// One validated pair, formatted the way systemd parses it.
pub fn environment_line(key: &str, value: &str) -> (r: String)
    ensures
        r@ == assignment(key@, value@),
{
    let v = text::chars_of(value);
    let escaped = double_percent(&v);
    let mut plain = key.to_owned();
    plain.append("=");
    plain.append(escaped.as_str());
    if has_space_in(&v) {
        let mut quoted = "\"".to_owned();
        quoted.append(plain.as_str());
        quoted.append("\"");
        quoted
    } else {
        plain
    }
}

fn is_env_name_of(v: &Vec<char>) -> (r: bool)
    ensures
        r == is_env_name(v@),
{
    if v.len() == 0 {
        return false;
    }
    let first = v[0];
    if !(text::char_is_lower(first) || text::char_is_upper(first) || first == '_') {
        return false;
    }
    let mut i: usize = 0;
    while i < v.len()
        invariant
            i <= v@.len(),
            forall|j: int|
                0 <= j < i ==> text::is_letter(#[trigger] v@[j]) || text::is_digit(v@[j]) || v@[j]
                    == '_',
        decreases v@.len() - i,
    {
        let c = v[i];
        if !(text::char_is_lower(c) || text::char_is_upper(c) || text::char_is_digit(c) || c
            == '_') {
            assert(!(text::is_letter(v@[i as int]) || text::is_digit(v@[i as int]) || v@[i as int]
                == '_'));
            return false;
        }
        i = i + 1;
    }
    true
}

fn find_break(v: &Vec<char>) -> (r: usize)
    ensures
        r == before_break(v@),
        r <= v@.len(),
{
    let mut i: usize = 0;
    assert(v@.skip(0) =~= v@);
    while i < v.len()
        invariant
            i <= v@.len(),
            i + before_break(v@.skip(i as int)) == before_break(v@),
        decreases v@.len() - i,
    {
        assert(v@.skip(i as int)[0] == v@[i as int]);
        let c = v[i];
        if text::char_is_control(c) || c == '"' || c == '\\' {
            return i;
        }
        assert(v@.skip(i as int).skip(1) =~= v@.skip(i + 1));
        i = i + 1;
    }
    i
}

fn seen_before(keys: &Vec<String>, key: &str) -> (r: bool)
    ensures
        r == text::texts(keys@).contains(key@),
{
    let mut i: usize = 0;
    while i < keys.len()
        invariant
            i <= keys@.len(),
            forall|j: int| 0 <= j < i ==> #[trigger] text::texts(keys@)[j] != key@,
        decreases keys@.len() - i,
    {
        if text::same(keys[i].as_str(), key) {
            assert(text::texts(keys@)[i as int] == key@);
            return true;
        }
        assert(text::texts(keys@)[i as int] == keys@[i as int]@);
        i = i + 1;
    }
    false
}

fn env_error(detail: &str) -> (r: FerrumError)
    ensures
        r@ == env_problem(detail@),
{
    FerrumError::new(ErrorCode::InvalidInput, detail).with_field("env")
}

fn around(before: &str, middle: &str, after: &str) -> (r: String)
    ensures
        r@ == before@ + middle@ + after@,
{
    let mut s = before.to_owned();
    s.append(middle);
    s.append(after);
    s
}

fn check_env(key: &str, value: &str, seen: &Vec<String>) -> (r: Option<FerrumError>)
    ensures
        match r {
            Some(e) => env_refusal(key@, value@, text::texts(seen@)) == Some(e@),
            None => env_refusal(key@, value@, text::texts(seen@)) is None,
        },
{
    if key.is_empty() || text::utf8_len(key) > 64 {
        return Some(env_error("an environment variable name must be 1-64 characters"));
    }
    let k = text::chars_of(key);
    if !is_env_name_of(&k) {
        return Some(
            env_error(around("`", key, "` is not a valid environment variable name").as_str()),
        );
    }
    if text::equals_ignoring_case(key, "PORT") || text::equals_ignoring_case(key, "NODE_ENV") {
        return Some(
            env_error(around("`", key, "` is set by the panel and cannot be overridden").as_str()),
        );
    }
    if seen_before(seen, key) {
        return Some(
            env_error(
                around(
                    "`",
                    key,
                    "` is declared twice; systemd would silently keep the last one",
                ).as_str(),
            ),
        );
    }
    if text::utf8_len(value) > MAX_ENV_VALUE {
        let mut m = around("the value of `", key, "` exceeds ");
        m.append(text::decimal_of(MAX_ENV_VALUE as u64).as_str());
        m.append(" characters");
        return Some(env_error(m.as_str()));
    }
    let v = text::chars_of(value);
    let bad: usize = find_break(&v);
    if bad < v.len() {
        let mut m = around("the value of `", key, "` contains ");
        m.append(describe_char(v[bad]));
        m.append(", which cannot appear in a systemd Environment= line");
        return Some(env_error(m.as_str()));
    }
    None
}

/// Turn the caller's environment into `Environment=` payloads.
///
/// A value with white space is quoted, `%` is doubled, and quotes, backslashes
/// and control characters are refused outright: a `"` would end the quoting and
/// a newline would start a directive.
pub fn environment_lines(env: &[EnvVar]) -> (r: Result<Vec<String>, FerrumError>)
    ensures
        match r {
            Ok(lines) => environment(env@) == Ok::<Seq<Seq<char>>, Problem>(text::texts(lines@)),
            Err(e) => environment(env@) == Err::<Seq<Seq<char>>, Problem>(e@),
        },
{
    if env.len() > MAX_ENV_VARS {
        let n = text::decimal_of(MAX_ENV_VARS as u64);
        return Err(
            env_error(
                around(
                    "an app may declare at most ",
                    n.as_str(),
                    " environment variables",
                ).as_str(),
            ),
        );
    }
    let mut seen: Vec<String> = Vec::new();
    let mut lines: Vec<String> = Vec::new();
    let mut i: usize = 0;
    assert(env@.take(0) =~= Seq::empty());
    assert(text::texts(lines@) =~= Seq::empty());
    assert(text::texts(seen@) =~= env_keys(env@.take(0)));
    while i < env.len()
        invariant
            i <= env@.len() <= MAX_ENV_VARS,
            text::texts(seen@) == env_keys(env@.take(i as int)),
            env_assignments(env@.take(i as int)) == Ok::<Seq<Seq<char>>, Problem>(
                text::texts(lines@),
            ),
        decreases env@.len() - i,
    {
        let ghost front = env@.take(i as int);
        let ghost next = env@.take(i + 1);
        assert(next.drop_last() =~= front);
        assert(next.last() == env@[i as int]);
        let key = text::trimmed(env[i].key.as_str());
        let value = env[i].value.as_str();
        match check_env(key.as_str(), value, &seen) {
            Some(e) => {
                proof {
                    lemma_refusal_stays(env@, i + 1);
                }
                return Err(e);
            },
            None => {},
        }
        let line = environment_line(key.as_str(), value);
        let ghost before = lines@;
        let ghost seen_before_push = seen@;
        lines.push(line);
        assert(text::texts(lines@) =~= text::texts(before).push(line@));
        seen.push(key);
        assert(text::texts(seen@) =~= text::texts(seen_before_push).push(key@));
        assert(env_keys(next) =~= env_keys(front).push(key@));
        i = i + 1;
    }
    assert(env@.take(i as int) =~= env@);
    Ok(lines)
}

proof fn lemma_refusal_stays(env: Seq<EnvVar>, k: int)
    requires
        0 <= k <= env.len(),
        env_assignments(env.take(k)) is Err,
    ensures
        env_assignments(env) == env_assignments(env.take(k)),
    decreases env.len(),
{
    if k == env.len() {
        assert(env.take(k) =~= env);
    } else {
        assert(env.drop_last().take(k) =~= env.take(k));
        lemma_refusal_stays(env.drop_last(), k);
    }
}

/// No accepted environment holds a character that could end its line or its
/// quoting, or sets a variable that the panel owns, or names one twice.
pub proof fn law_accepted_environments_are_inert(env: Seq<EnvVar>, i: int)
    requires
        environment(env) is Ok,
        0 <= i < env.len(),
    ensures
        environment(env)->Ok_0.len() == env.len(),
        environment(env)->Ok_0[i] == assignment(env_keys(env)[i], env[i].value@),
        is_env_name(env_keys(env)[i]),
        !is_reserved(env_keys(env)[i]),
        forall|j: int| 0 <= j < i ==> #[trigger] env_keys(env)[j] != env_keys(env)[i],
        forall|j: int| 0 <= j < env[i].value@.len() ==> !breaks_line(#[trigger] env[i].value@[j]),
{
    lemma_accepted(env, i);
}

proof fn lemma_accepted(env: Seq<EnvVar>, i: int)
    requires
        env_assignments(env) is Ok,
        0 <= i < env.len(),
    ensures
        env_assignments(env)->Ok_0.len() == env.len(),
        env_assignments(env)->Ok_0[i] == assignment(env_keys(env)[i], env[i].value@),
        is_env_name(env_keys(env)[i]),
        !is_reserved(env_keys(env)[i]),
        forall|j: int| 0 <= j < i ==> #[trigger] env_keys(env)[j] != env_keys(env)[i],
        forall|j: int| 0 <= j < env[i].value@.len() ==> !breaks_line(#[trigger] env[i].value@[j]),
    decreases env.len(),
{
    let front = env.drop_last();
    if front.len() > 0 {
        lemma_accepted(
            front,
            if i < front.len() {
                i
            } else {
                0
            },
        );
    } else {
        assert(env_assignments(front) == Ok::<Seq<Seq<char>>, Problem>(Seq::empty()));
    }
    if i < front.len() {
        assert(env_keys(env)[i] == env_keys(front)[i]);
        assert forall|j: int| 0 <= j < i implies #[trigger] env_keys(env)[j] != env_keys(
            env,
        )[i] by {
            assert(env_keys(front)[j] == env_keys(env)[j]);
        }
    } else {
        let value = env[i].value@;
        lemma_before_break(value);
        assert forall|j: int| 0 <= j < i implies #[trigger] env_keys(env)[j] != env_keys(
            env,
        )[i] by {
            assert(env_keys(front)[j] == env_keys(env)[j]);
        }
    }
}

proof fn lemma_before_break(s: Seq<char>)
    ensures
        before_break(s) <= s.len(),
        forall|j: int| 0 <= j < before_break(s) ==> !breaks_line(#[trigger] s[j]),
    decreases s.len(),
{
    if s.len() > 0 && !breaks_line(s[0]) {
        lemma_before_break(s.skip(1));
        assert forall|j: int| 0 <= j < before_break(s) implies !breaks_line(#[trigger] s[j]) by {
            if j > 0 {
                assert(s.skip(1)[j - 1] == s[j]);
            }
        }
    }
}

// ---------------------------------------------------------------------------
// The entry point and the interpreter
// ---------------------------------------------------------------------------

/// A character that `ExecStart=` would read as syntax.
pub open spec fn is_exec_syntax(c: char) -> bool {
    text::is_space(c) || c == '%' || c == '"' || c == '\'' || c == '`' || c == '$'
}

/// How many characters stand before the first such character.
pub open spec fn before_syntax(s: Seq<char>) -> nat
    decreases s.len(),
{
    if s.len() == 0 || is_exec_syntax(s[0]) {
        0
    } else {
        1 + before_syntax(s.skip(1))
    }
}

/// Why an entry path is refused.
pub open spec fn entry_refusal(entry: Seq<char>) -> Option<Problem> {
    if entry.len() == 0 {
        Some(
            error::field_problem(
                ErrorCode::InvalidPath,
                "the entry point is empty"@,
                "entry"@,
            ),
        )
    } else if before_syntax(entry) < entry.len() {
        Some(
            error::field_problem(
                ErrorCode::InvalidPath,
                "the entry path contains `"@ + seq![entry[before_syntax(entry) as int]]
                    + "`, which systemd would treat as syntax in ExecStart; rename the file or directory"@,
                "entry"@,
            ),
        )
    } else {
        None
    }
}

/// Refuse an entry path that would need quoting in `ExecStart=`.
pub fn check_entry(entry: &TenantPath) -> (r: Result<(), FerrumError>)
    ensures
        match r {
            Ok(()) => entry_refusal(entry@) is None,
            Err(e) => entry_refusal(entry@) == Some(e@),
        },
{
    let v = text::chars_of(entry.as_str());
    if v.len() == 0 {
        return Err(
            FerrumError::new(ErrorCode::InvalidPath, "the entry point is empty").with_field(
                "entry",
            ),
        );
    }
    let mut i: usize = 0;
    assert(v@.skip(0) =~= v@);
    while i < v.len()
        invariant
            i <= v@.len(),
            v@.len() > 0,
            v@ == entry@,
            i + before_syntax(v@.skip(i as int)) == before_syntax(v@),
        decreases v@.len() - i,
    {
        let c = v[i];
        assert(v@.skip(i as int)[0] == c);
        if text::char_is_space(c) || c == '%' || c == '"' || c == '\'' || c == '`' || c == '$' {
            let mut m = "the entry path contains `".to_owned();
            let ghost start = m@;
            m.push(c);
            assert(m@ =~= start + seq![c]);
            m.append(
                "`, which systemd would treat as syntax in ExecStart; rename the file or directory",
            );
            return Err(
                FerrumError::new(ErrorCode::InvalidPath, m.as_str()).with_field("entry"),
            );
        }
        assert(v@.skip(i as int).skip(1) =~= v@.skip(i + 1));
        i = i + 1;
    }
    Ok(())
}

pub open spec fn no_node_problem(program: Seq<char>) -> Problem {
    error::problem(
        ErrorCode::NotFound,
        "Node.js is not installed: no `"@ + program
            + "` binary in the system directories. Install a Node LTS line first — `apt install nodejs` / `dnf install nodejs`, or a NodeSource release — then create the app again."@,
    )
}

/// The interpreter that was found, or a refusal naming what to install.
pub fn locate_node(program: &str, found: &Option<String>) -> (r: Result<String, FerrumError>)
    ensures
        error::outcome(r) == (match error::opt_text(*found) {
            Some(path) => Ok::<Seq<char>, Problem>(path),
            None => Err::<Seq<char>, Problem>(no_node_problem(program@)),
        }),
{
    match found {
        Some(path) => Ok(path.clone()),
        None => {
            let m = around(
                "Node.js is not installed: no `",
                program,
                "` binary in the system directories. Install a Node LTS line first — `apt install nodejs` / `dnf install nodejs`, or a NodeSource release — then create the app again.",
            );
            Err(FerrumError::new(ErrorCode::NotFound, m.as_str()))
        },
    }
}

// ---------------------------------------------------------------------------
// The unit file
// ---------------------------------------------------------------------------

/// A stored application.
#[derive(Debug)]
pub struct NodeApp {
    pub id: i64,
    pub subscription_id: i64,
    pub site_id: Option<i64>,
    pub name: String,
    pub entry: String,
    pub port: i64,
    /// What `NODE_ENV` is set to.
    pub node_env: String,
    pub enabled: bool,
}

/// What a unit file is rendered from. Every string in here has been through
/// validation; rendering only interpolates.
#[derive(Debug)]
pub struct AppUnitContext {
    pub name: String,
    pub linux_user: String,
    pub working_dir: String,
    pub node_binary: String,
    pub entry_path: String,
    /// `Environment=` payloads, `NODE_ENV` and `PORT` first.
    pub environment: Vec<String>,
    pub memory_max_mb: Option<u32>,
}

/// A memory cap with which a Node process can still start.
pub open spec fn memory_cap(mb: Option<u32>) -> Option<u32> {
    match mb {
        Some(n) => Some(
            if n < 64 {
                64u32
            } else {
                n
            },
        ),
        None => None,
    }
}

/// The panel's own two variables, then the tenant's: systemd keeps the last
/// assignment of a name.
pub open spec fn full_environment(app: NodeApp, env: Seq<Seq<char>>) -> Seq<Seq<char>> {
    seq![
        assignment("NODE_ENV"@, app.node_env@),
        assignment("PORT"@, text::signed_decimal(app.port as int)),
    ] + env
}

impl AppUnitContext {
    pub fn new(
        app: &NodeApp,
        name: &AppName,
        user: &LinuxUser,
        node_binary: &str,
        env: Vec<String>,
        memory_max_mb: Option<u32>,
    ) -> (r: AppUnitContext)
        ensures
            r.name@ == name@,
            r.linux_user@ == user@,
            r.working_dir@ == model::app_dir_of(user@, name@),
            r.node_binary@ == node_binary@,
            r.entry_path@ == model::join_path(model::home_of(user@), app.entry@),
            text::texts(r.environment@) == full_environment(*app, text::texts(env@)),
            r.memory_max_mb == memory_cap(memory_max_mb),
    {
        let mut environment: Vec<String> = Vec::new();
        environment.push(environment_line("NODE_ENV", app.node_env.as_str()));
        let port = text::signed_decimal_of(app.port);
        environment.push(environment_line("PORT", port.as_str()));
        let ghost own = environment@;
        let mut rest = env;
        let ghost theirs = rest@;
        environment.append(&mut rest);
        assert(text::texts(environment@) =~= full_environment(*app, text::texts(theirs)));
        let home = model::home_path(user.as_str());
        AppUnitContext {
            name: name.as_str().to_owned(),
            linux_user: user.as_str().to_owned(),
            working_dir: model::app_dir_path(user.as_str(), name.as_str()),
            node_binary: node_binary.to_owned(),
            entry_path: model::joined_path(home.as_str(), app.entry.as_str()),
            environment,
            memory_max_mb: match memory_max_mb {
                Some(mb) => Some(
                    if mb < 64 {
                        64
                    } else {
                        mb
                    },
                ),
                None => None,
            },
        }
    }

    /// The unit file.
    pub open spec fn unit_text(self) -> Seq<char> {
        "[Unit]\nDescription=Ferrum Node app "@ + self.name@ + " ("@ + self.linux_user@
            + ")\nAfter=network-online.target\nWants=network-online.target\nStartLimitIntervalSec=60\nStartLimitBurst=5\n\n[Service]\nType=simple\nUser="@
            + self.linux_user@ + "\nGroup="@ + self.linux_user@ + "\nWorkingDirectory="@
            + self.working_dir@ + "\nExecStart="@ + self.node_binary@ + " "@ + self.entry_path@
            + "\n"@ + environment_text(text::texts(self.environment@))
            + "Restart=always\nRestartSec=2s\n"@ + memory_text(self.memory_max_mb)
            + "StandardOutput=journal\nStandardError=journal\n\nNoNewPrivileges=yes\nPrivateTmp=yes\nProtectSystem=full\n\n[Install]\nWantedBy=multi-user.target\n"@
    }

    pub fn render(&self) -> (r: String)
        ensures
            r@ == self.unit_text(),
    {
        let mut s = "[Unit]\nDescription=Ferrum Node app ".to_owned();
        s.append(self.name.as_str());
        s.append(" (");
        s.append(self.linux_user.as_str());
        s.append(
            ")\nAfter=network-online.target\nWants=network-online.target\nStartLimitIntervalSec=60\nStartLimitBurst=5\n\n[Service]\nType=simple\nUser=",
        );
        s.append(self.linux_user.as_str());
        s.append("\nGroup=");
        s.append(self.linux_user.as_str());
        s.append("\nWorkingDirectory=");
        s.append(self.working_dir.as_str());
        s.append("\nExecStart=");
        s.append(self.node_binary.as_str());
        s.append(" ");
        s.append(self.entry_path.as_str());
        s.append("\n");
        s.append(environment_text_of(&self.environment).as_str());
        s.append("Restart=always\nRestartSec=2s\n");
        s.append(memory_text_of(self.memory_max_mb).as_str());
        s.append(
            "StandardOutput=journal\nStandardError=journal\n\nNoNewPrivileges=yes\nPrivateTmp=yes\nProtectSystem=full\n\n[Install]\nWantedBy=multi-user.target\n",
        );
        s
    }
}

pub open spec fn environment_text(env: Seq<Seq<char>>) -> Seq<char>
    decreases env.len(),
{
    if env.len() == 0 {
        Seq::empty()
    } else {
        environment_text(env.drop_last()) + "Environment="@ + env.last() + "\n"@
    }
}

pub open spec fn memory_text(mb: Option<u32>) -> Seq<char> {
    match mb {
        Some(n) => "MemoryMax="@ + text::decimal(n as nat) + "M\n"@,
        None => Seq::empty(),
    }
}

fn environment_text_of(env: &Vec<String>) -> (r: String)
    ensures
        r@ == environment_text(text::texts(env@)),
{
    let mut s = String::new();
    let mut i: usize = 0;
    assert(text::texts(env@).take(0) =~= Seq::empty());
    while i < env.len()
        invariant
            i <= env@.len(),
            s@ == environment_text(text::texts(env@).take(i as int)),
        decreases env@.len() - i,
    {
        let ghost next = text::texts(env@).take(i + 1);
        assert(next.drop_last() =~= text::texts(env@).take(i as int));
        assert(next.last() == env@[i as int]@);
        s.append("Environment=");
        s.append(env[i].as_str());
        s.append("\n");
        i = i + 1;
    }
    assert(text::texts(env@).take(i as int) =~= text::texts(env@));
    s
}

fn memory_text_of(mb: Option<u32>) -> (r: String)
    ensures
        r@ == memory_text(mb),
{
    match mb {
        Some(n) => around("MemoryMax=", text::decimal_of(n as u64).as_str(), "M\n"),
        None => String::new(),
    }
}

// ---------------------------------------------------------------------------
// The app directory
// ---------------------------------------------------------------------------

/// Create one directory, hand it to the tenant, close it to others. The `--`
/// keeps a path from being read as an option.
pub open spec fn dir_commands(path: Seq<char>, owner: Seq<char>) -> Seq<Seq<Seq<char>>> {
    seq![
        seq!["mkdir"@, "-p"@, "--"@, path],
        seq!["chown"@, owner, "--"@, path],
        seq!["chmod"@, "0750"@, "--"@, path],
    ]
}

/// `<home>/apps` first, then `<home>/apps/<name>`: a leaf-only chown would leave
/// the parent owned by root.
pub open spec fn app_dir_commands(user: Seq<char>, name: Seq<char>) -> Seq<Seq<Seq<char>>> {
    let owner = user + ":"@ + user;
    dir_commands(model::home_of(user) + "/apps"@, owner) + dir_commands(
        model::app_dir_of(user, name),
        owner,
    )
}

pub open spec fn argv_texts(v: Seq<Vec<String>>) -> Seq<Seq<Seq<char>>> {
    v.map_values(|a: Vec<String>| text::texts(a@))
}

fn command(program: &str, arg: &str, path: &str) -> (r: Vec<String>)
    ensures
        text::texts(r@) == seq![program@, arg@, "--"@, path@],
{
    let mut v: Vec<String> = Vec::new();
    v.push(program.to_owned());
    v.push(arg.to_owned());
    v.push("--".to_owned());
    v.push(path.to_owned());
    assert(text::texts(v@) =~= seq![program@, arg@, "--"@, path@]);
    v
}

/// The exact commands that create an app's directory.
pub fn app_dir_argv(user: &LinuxUser, name: &AppName) -> (r: Vec<Vec<String>>)
    ensures
        argv_texts(r@) == app_dir_commands(user@, name@),
{
    let u = user.as_str();
    let owner = around(u, ":", u);
    let mut parent = model::home_path(u);
    parent.append("/apps");
    let leaf = model::app_dir_path(u, name.as_str());
    let mut argv: Vec<Vec<String>> = Vec::new();
    argv.push(command("mkdir", "-p", parent.as_str()));
    argv.push(command("chown", owner.as_str(), parent.as_str()));
    argv.push(command("chmod", "0750", parent.as_str()));
    argv.push(command("mkdir", "-p", leaf.as_str()));
    argv.push(command("chown", owner.as_str(), leaf.as_str()));
    argv.push(command("chmod", "0750", leaf.as_str()));
    assert(argv_texts(argv@) =~= app_dir_commands(user@, name@));
    argv
}

} // verus!
