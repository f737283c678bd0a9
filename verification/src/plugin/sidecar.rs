//! Asking a running plugin, and what it runs under.
use vstd::prelude::*;
use vstd::string::StringExecFns;
use crate::codec;
use crate::error;
use crate::error::{ErrorCode, FerrumError, Problem};
use crate::model;
use crate::model::Family;
use crate::plugin;
use crate::plugin::{Manifest, PluginSlug, PLUGIN_API_VERSION};
use crate::text;

verus! {

/// A JSON value, which is only carried through.
#[verifier::external_type_specification]
#[verifier::external_body]
pub struct ExJsonValue(serde_json::Value);

/// How many bytes a plugin's reply may have.
pub const MAX_PLUGIN_FRAME: usize = 1048576;

/// How many seconds a plugin has to answer.
pub const CALL_TIMEOUT: u64 = 15;

/// How much of a plugin's own words is passed on.
pub const MAX_MESSAGE: usize = 500;

/// How many bytes a call's id is made of.
pub const ID_BYTES: usize = 16;

/// How much memory a plugin may have, in MiB.
pub const SIDECAR_MEMORY_MAX_MB: u32 = 128;

/// How a plugin was authenticated when it was installed.
#[derive(Debug, Clone, Copy, PartialEq, Eq, Structural)]
pub enum PluginSignature {
    Minisign,
    Unsigned,
}

/// An installed plugin.
#[derive(Debug)]
pub struct PluginRecord {
    pub slug: String,
    pub name: String,
    pub version: String,
    pub manifest: serde_json::Value,
    /// The names of the points that the manifest declared.
    pub extensions: Vec<String>,
    pub install_dir: String,
    pub run_user: String,
    pub signature: PluginSignature,
    pub enabled: bool,
    pub last_error: Option<String>,
    pub installed_at: i64,
    pub updated_at: i64,
}

/// One call. It does not say who asks.
#[derive(Debug)]
pub struct PluginRequest {
    pub v: u16,
    pub id: String,
    pub method: String,
    pub params: serde_json::Value,
}

/// What a plugin answers.
#[derive(Debug)]
pub enum PluginResponse {
    Answer { data: serde_json::Value },
    Failure { message: String },
}

/// Where a call goes, or why it goes nowhere: the plugin is not enabled, or did
/// not declare a point that the method belongs to.
pub open spec fn call_target(record: PluginRecord, method: Seq<char>) -> Result<
    Seq<char>,
    Problem,
> {
    if !record.enabled {
        Err(
            error::problem(
                ErrorCode::ServiceUnavailable,
                "plugin `"@ + record.slug@ + "` is not enabled"@,
            ),
        )
    } else if !plugin::routes(text::texts(record.extensions@), method) {
        Err(
            error::problem(
                ErrorCode::PermissionDenied,
                "plugin `"@ + record.slug@ + "` did not declare an extension point covering `"@
                    + method + "`"@,
            ),
        )
    } else {
        Ok(plugin::plugin_socket_of(record.slug@))
    }
}

/// The socket that a call goes to.
pub fn call(record: &PluginRecord, method: &str) -> (r: Result<String, FerrumError>)
    ensures
        error::outcome(r) == call_target(*record, method@),
{
    if !record.enabled {
        let mut m = "plugin `".to_owned();
        m.append(record.slug.as_str());
        m.append("` is not enabled");
        return Err(FerrumError::new(ErrorCode::ServiceUnavailable, m.as_str()));
    }
    if !plugin::route_allowed(&record.extensions, method) {
        let mut m = "plugin `".to_owned();
        m.append(record.slug.as_str());
        m.append("` did not declare an extension point covering `");
        m.append(method);
        m.append("`");
        return Err(FerrumError::new(ErrorCode::PermissionDenied, m.as_str()));
    }
    Ok(plugin::plugin_socket(record.slug.as_str()))
}

/// What is sent. The id is random, and only ever echoed.
pub fn request(method: &str, params: serde_json::Value) -> (r: PluginRequest)
    ensures
        r.v == PLUGIN_API_VERSION,
        r.method@ == method@,
        r.params == params,
        exists|bytes: Seq<u8>|
            bytes.len() == ID_BYTES && r.id@ == #[trigger] codec::hex_text(bytes),
{
    let bytes = codec::random_bytes(ID_BYTES);
    let id = codec::hex_encode(bytes.as_slice());
    assert(id@ == codec::hex_text(bytes@));
    PluginRequest { v: PLUGIN_API_VERSION, id, method: method.to_owned(), params }
}

/// The first characters of a text.
pub open spec fn first_chars(s: Seq<char>, n: nat) -> Seq<char> {
    if s.len() <= n {
        s
    } else {
        s.take(n as int)
    }
}

/// What a plugin's response comes to: what it answered, or a failure in its own
/// words, of which only so many are passed on.
pub fn answer(response: PluginResponse) -> (r: Result<serde_json::Value, FerrumError>)
    ensures
        match response {
            PluginResponse::Answer { data } => r == Ok::<serde_json::Value, FerrumError>(data),
            PluginResponse::Failure { message } => r matches Err(e) && e@ == error::problem(
                ErrorCode::CommandFailed,
                first_chars(message@, MAX_MESSAGE as nat),
            ),
        },
{
    match response {
        PluginResponse::Answer { data } => Ok(data),
        PluginResponse::Failure { message } => {
            let v = text::chars_of(message.as_str());
            let n: usize = if v.len() <= MAX_MESSAGE {
                v.len()
            } else {
                MAX_MESSAGE
            };
            let words = text::string_of(v.as_slice(), 0, n);
            assert(words@ =~= first_chars(message@, MAX_MESSAGE as nat));
            Err(FerrumError::new(ErrorCode::CommandFailed, words.as_str()))
        },
    }
}

/// Why a call got no response.
#[derive(Debug)]
pub enum CallFailure {
    /// The request could not be written down.
    Request(String),
    Unreachable(String),
    /// The connection was closed.
    Closed,
    /// What came back was none.
    NotAResponse(String),
    TimedOut,
}

pub open spec fn call_problem(f: CallFailure) -> Problem {
    match f {
        CallFailure::Request(why) => error::problem(
            ErrorCode::Internal,
            "plugin request: "@ + why@,
        ),
        CallFailure::Unreachable(why) => error::problem(
            ErrorCode::ServiceUnavailable,
            "could not reach the plugin socket: "@ + why@,
        ),
        CallFailure::Closed => error::problem(
            ErrorCode::ServiceUnavailable,
            "the plugin closed the connection without answering"@,
        ),
        CallFailure::NotAResponse(why) => error::problem(
            ErrorCode::AgentProtocol,
            "the plugin sent something that is not a response: "@ + why@,
        ),
        CallFailure::TimedOut => error::problem(
            ErrorCode::AgentTimeout,
            "the plugin did not answer within 15 seconds"@,
        ),
    }
}

pub fn call_failed(f: &CallFailure) -> (r: FerrumError)
    ensures
        r@ == call_problem(*f),
{
    match f {
        CallFailure::Request(why) => {
            let mut m = "plugin request: ".to_owned();
            m.append(why.as_str());
            FerrumError::internal(m.as_str())
        },
        CallFailure::Unreachable(why) => {
            let mut m = "could not reach the plugin socket: ".to_owned();
            m.append(why.as_str());
            FerrumError::new(ErrorCode::ServiceUnavailable, m.as_str())
        },
        CallFailure::Closed => FerrumError::new(
            ErrorCode::ServiceUnavailable,
            "the plugin closed the connection without answering",
        ),
        CallFailure::NotAResponse(why) => {
            let mut m = "the plugin sent something that is not a response: ".to_owned();
            m.append(why.as_str());
            FerrumError::new(ErrorCode::AgentProtocol, m.as_str())
        },
        CallFailure::TimedOut => FerrumError::new(
            ErrorCode::AgentTimeout,
            "the plugin did not answer within 15 seconds",
        ),
    }
}

// ---------------------------------------------------------------------------
// The account and the unit
// ---------------------------------------------------------------------------

pub open spec fn nologin(family: Family) -> Seq<char> {
    match family {
        Family::Debian => "/usr/sbin/nologin"@,
        Family::Rhel => "/sbin/nologin"@,
    }
}

/// What `useradd` is given for a plugin's account, unless the account is there:
/// a system account without a home, which nobody can log in to.
pub fn ensure_plugin_user(family: Family, slug: &PluginSlug, exists: bool) -> (r: Option<
    Vec<String>,
>)
    ensures
        match r {
            None => exists,
            Some(argv) => !exists && text::texts(argv@) == seq![
                "--system"@,
                "--no-create-home"@,
                "--shell"@,
                nologin(family),
                "--comment"@,
                "Ferrum plugin"@,
                "--"@,
                plugin::run_user_of(slug@),
            ],
        },
{
    if exists {
        return None;
    }
    let shell = match family {
        Family::Debian => "/usr/sbin/nologin",
        Family::Rhel => "/sbin/nologin",
    };
    let v = vec![
        "--system".to_owned(),
        "--no-create-home".to_owned(),
        "--shell".to_owned(),
        shell.to_owned(),
        "--comment".to_owned(),
        "Ferrum plugin".to_owned(),
        "--".to_owned(),
        slug.run_user(),
    ];
    assert(text::texts(v@) =~= seq![
        "--system"@,
        "--no-create-home"@,
        "--shell"@,
        nologin(family),
        "--comment"@,
        "Ferrum plugin"@,
        "--"@,
        plugin::run_user_of(slug@),
    ]);
    Some(v)
}

/// What a plugin's unit file is rendered from.
#[derive(Debug)]
pub struct UnitContext {
    pub slug: String,
    pub run_user: String,
    pub install_dir: String,
    pub exec_start: String,
    pub socket_path: String,
    pub runtime_dir: String,
    pub api_version: u16,
    pub memory_max_mb: u32,
}

/// The context of a plugin's unit.
pub fn unit_context(slug: &PluginSlug, manifest: &Manifest, install_dir: &str, run_user: &str) -> (r:
    UnitContext)
    ensures
        r.slug@ == slug@,
        r.run_user@ == run_user@,
        r.install_dir@ == install_dir@,
        r.exec_start@ == model::join_path(install_dir@, manifest.entry@),
        r.socket_path@ == plugin::plugin_socket_of(slug@),
        r.runtime_dir@ == plugin::plugin_runtime_of(slug@),
        r.api_version == PLUGIN_API_VERSION,
        r.memory_max_mb == SIDECAR_MEMORY_MAX_MB,
{
    UnitContext {
        slug: slug.as_str().to_owned(),
        run_user: run_user.to_owned(),
        install_dir: install_dir.to_owned(),
        exec_start: model::joined_path(install_dir, manifest.entry.as_str()),
        socket_path: plugin::plugin_socket(slug.as_str()),
        runtime_dir: plugin::plugin_runtime_dir(slug.as_str()),
        api_version: PLUGIN_API_VERSION,
        memory_max_mb: SIDECAR_MEMORY_MAX_MB,
    }
}

} // verus!
