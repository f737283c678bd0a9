//! Service status and lifecycle.
//!
//! A caller names one of the services the panel manages; a request for any other
//! unit is refused.
use vstd::prelude::*;
use vstd::string::StringExecFns;
use crate::error;
use crate::error::{ErrorCode, FerrumError, Problem};
use crate::model;
use crate::model::{Family, PhpVersion, UnitStatus};
use crate::text;

pub mod laws;

verus! {

/// The PostgreSQL release line the panel installs.
pub const POSTGRES_MAJOR: &'static str = "17";

/// The MariaDB release series the panel installs.
pub const MARIADB_SERIES: &'static str = "11.8";

/// A service the panel manages.
#[derive(Debug, Clone, Copy, PartialEq, Eq, Structural)]
pub enum ManagedUnit {
    Nginx,
    PhpFpm { version: PhpVersion },
    MariaDb,
    PostgreSql,
    Sshd,
    FerrumAgentd,
    FerrumWeb,
}

/// What can be done to a service.
#[derive(Debug, Clone, Copy, PartialEq, Eq, Structural)]
pub enum SvcAction {
    Start,
    Stop,
    Restart,
    Reload,
}

impl SvcAction {
    pub open spec fn name(self) -> Seq<char> {
        match self {
            SvcAction::Start => "start"@,
            SvcAction::Stop => "stop"@,
            SvcAction::Restart => "restart"@,
            SvcAction::Reload => "reload"@,
        }
    }

    pub fn as_str(self) -> (r: &'static str)
        ensures
            r@ == self.name(),
    {
        match self {
            SvcAction::Start => "start",
            SvcAction::Stop => "stop",
            SvcAction::Restart => "restart",
            SvcAction::Reload => "reload",
        }
    }

    /// The action of a name.
    pub fn named(name: &str) -> (r: Result<SvcAction, FerrumError>)
        ensures
            match r {
                Ok(a) => a.name() == name@,
                Err(e) => e@ == unknown_action(name@) && forall|a: SvcAction|
                    #[trigger] a.name() != name@,
            },
    {
        if text::same(name, "start") {
            return Ok(SvcAction::Start);
        }
        if text::same(name, "stop") {
            return Ok(SvcAction::Stop);
        }
        if text::same(name, "restart") {
            return Ok(SvcAction::Restart);
        }
        if text::same(name, "reload") {
            return Ok(SvcAction::Reload);
        }
        let mut m = "`".to_owned();
        m.append(name);
        m.append("` is not something that can be done to a service");
        Err(FerrumError::new(ErrorCode::InvalidInput, m.as_str()))
    }
}

pub open spec fn unknown_action(name: Seq<char>) -> Problem {
    error::problem(
        ErrorCode::InvalidInput,
        "`"@ + name + "` is not something that can be done to a service"@,
    )
}

/// What a request for a service that there is not is answered.
pub open spec fn unknown_service(name: Seq<char>, version: Option<&str>) -> Problem {
    if name == "php_fpm"@ {
        match version {
            Some(t) => model::unknown_version(t@),
            None => model::missing_version(),
        }
    } else {
        error::problem(
            ErrorCode::InvalidInput,
            "`"@ + name + "` is not a service the panel manages"@,
        )
    }
}

impl ManagedUnit {
    /// What a caller calls a service.
    pub open spec fn called(self) -> Seq<char> {
        match self {
            ManagedUnit::Nginx => "nginx"@,
            ManagedUnit::PhpFpm { .. } => "php_fpm"@,
            ManagedUnit::MariaDb => "maria_db"@,
            ManagedUnit::PostgreSql => "postgre_sql"@,
            ManagedUnit::Sshd => "sshd"@,
            ManagedUnit::FerrumAgentd => "ferrum_agentd"@,
            ManagedUnit::FerrumWeb => "ferrum_web"@,
        }
    }

    /// Whether a request by name, with a version where one is given, is for this.
    pub open spec fn asked_for(
        self,
        name: Seq<char>,
        version: Option<&str>,
        known: Seq<PhpVersion>,
    ) -> bool {
        &&& self.called() == name
        &&& self matches ManagedUnit::PhpFpm { version: v } ==> {
            &&& known.contains(v)
            &&& version matches Some(t)
            &&& t@ == v.dotted()
        }
    }

    /// The service of a name. No other unit can be named, nor a PHP version that
    /// there is not.
    pub fn named(name: &str, version: Option<&str>, known: &Vec<PhpVersion>) -> (r: Result<
        ManagedUnit,
        FerrumError,
    >)
        ensures
            match r {
                Ok(u) => u.asked_for(name@, version, known@),
                Err(e) => e@ == unknown_service(name@, version) && forall|u: ManagedUnit|
                    !#[trigger] u.asked_for(name@, version, known@),
            },
    {
        proof {
            reveal_strlit("nginx");
            reveal_strlit("php_fpm");
            reveal_strlit("maria_db");
            reveal_strlit("postgre_sql");
            reveal_strlit("sshd");
            reveal_strlit("ferrum_agentd");
            reveal_strlit("ferrum_web");
        }
        if text::same(name, "php_fpm") {
            return match model::required_version(version, known) {
                Ok(version) => Ok(ManagedUnit::PhpFpm { version }),
                Err(e) => Err(e),
            };
        }
        if text::same(name, "nginx") {
            return Ok(ManagedUnit::Nginx);
        }
        if text::same(name, "maria_db") {
            return Ok(ManagedUnit::MariaDb);
        }
        if text::same(name, "postgre_sql") {
            return Ok(ManagedUnit::PostgreSql);
        }
        if text::same(name, "sshd") {
            return Ok(ManagedUnit::Sshd);
        }
        if text::same(name, "ferrum_agentd") {
            return Ok(ManagedUnit::FerrumAgentd);
        }
        if text::same(name, "ferrum_web") {
            return Ok(ManagedUnit::FerrumWeb);
        }
        let mut m = "`".to_owned();
        m.append(name);
        m.append("` is not a service the panel manages");
        Err(FerrumError::new(ErrorCode::InvalidInput, m.as_str()))
    }

    /// The unit's name, which differs between the families of distributions.
    pub open spec fn unit(self, family: Family) -> Seq<char> {
        match (self, family) {
            (ManagedUnit::Nginx, _) => "nginx.service"@,
            (ManagedUnit::PhpFpm { version }, Family::Debian) => "php"@ + version.dotted()
                + "-fpm.service"@,
            (ManagedUnit::PhpFpm { version }, Family::Rhel) => "php"@ + version.compact()
                + "-php-fpm.service"@,
            (ManagedUnit::MariaDb, _) => "mariadb.service"@,
            (ManagedUnit::PostgreSql, Family::Debian) => "postgresql.service"@,
            (ManagedUnit::PostgreSql, Family::Rhel) => "postgresql-"@ + POSTGRES_MAJOR@
                + ".service"@,
            (ManagedUnit::Sshd, Family::Debian) => "ssh.service"@,
            (ManagedUnit::Sshd, Family::Rhel) => "sshd.service"@,
            (ManagedUnit::FerrumAgentd, _) => "ferrum-agentd.service"@,
            (ManagedUnit::FerrumWeb, _) => "ferrum-web.service"@,
        }
    }

    pub fn unit_name(self, family: Family) -> (r: String)
        ensures
            r@ == self.unit(family),
    {
        match (self, family) {
            (ManagedUnit::Nginx, _) => "nginx.service".to_owned(),
            (ManagedUnit::PhpFpm { version }, Family::Debian) => {
                let mut s = "php".to_owned();
                let v = version.as_text();
                s.append(v.as_str());
                s.append("-fpm.service");
                s
            },
            (ManagedUnit::PhpFpm { version }, Family::Rhel) => {
                let mut s = "php".to_owned();
                let v = version.compact_text();
                s.append(v.as_str());
                s.append("-php-fpm.service");
                s
            },
            (ManagedUnit::MariaDb, _) => "mariadb.service".to_owned(),
            (ManagedUnit::PostgreSql, Family::Debian) => "postgresql.service".to_owned(),
            (ManagedUnit::PostgreSql, Family::Rhel) => {
                let mut s = "postgresql-".to_owned();
                s.append(POSTGRES_MAJOR);
                s.append(".service");
                s
            },
            (ManagedUnit::Sshd, Family::Debian) => "ssh.service".to_owned(),
            (ManagedUnit::Sshd, Family::Rhel) => "sshd.service".to_owned(),
            (ManagedUnit::FerrumAgentd, _) => "ferrum-agentd.service".to_owned(),
            (ManagedUnit::FerrumWeb, _) => "ferrum-web.service".to_owned(),
        }
    }

    pub open spec fn label(self) -> Seq<char> {
        match self {
            ManagedUnit::Nginx => "Nginx"@,
            ManagedUnit::PhpFpm { version } => "PHP "@ + version.dotted() + " FPM"@,
            ManagedUnit::MariaDb => "MariaDB"@,
            ManagedUnit::PostgreSql => "PostgreSQL"@,
            ManagedUnit::Sshd => "OpenSSH"@,
            ManagedUnit::FerrumAgentd => "Ferrum agent"@,
            ManagedUnit::FerrumWeb => "Ferrum web"@,
        }
    }

    pub fn display_name(self) -> (r: String)
        ensures
            r@ == self.label(),
    {
        match self {
            ManagedUnit::Nginx => "Nginx".to_owned(),
            ManagedUnit::PhpFpm { version } => {
                let mut s = "PHP ".to_owned();
                let v = version.as_text();
                s.append(v.as_str());
                s.append(" FPM");
                s
            },
            ManagedUnit::MariaDb => "MariaDB".to_owned(),
            ManagedUnit::PostgreSql => "PostgreSQL".to_owned(),
            ManagedUnit::Sshd => "OpenSSH".to_owned(),
            ManagedUnit::FerrumAgentd => "Ferrum agent".to_owned(),
            ManagedUnit::FerrumWeb => "Ferrum web".to_owned(),
        }
    }

    /// Services whose loss locks an operator out.
    pub open spec fn critical(self) -> bool {
        self is Sshd || self is FerrumAgentd
    }

    pub fn is_critical(self) -> (r: bool)
        ensures
            r == self.critical(),
    {
        match self {
            ManagedUnit::Sshd => true,
            ManagedUnit::FerrumAgentd => true,
            _ => false,
        }
    }
}

/// `svc.status`.
pub struct Status;

#[derive(Debug)]
pub struct StatusInput {
    pub unit: ManagedUnit,
}

#[derive(Debug)]
pub struct StatusOutput {
    pub display_name: String,
    pub unit: String,
    pub status: UnitStatus,
}

impl Status {
    pub fn view(input: &StatusInput, family: Family, status: UnitStatus) -> (r: StatusOutput)
        ensures
            r.display_name@ == input.unit.label(),
            r.unit@ == input.unit.unit(family),
            r.status == status,
    {
        StatusOutput {
            display_name: input.unit.display_name(),
            unit: input.unit.unit_name(family),
            status,
        }
    }
}

/// `svc.action`.
pub struct Action;

#[derive(Debug)]
pub struct ActionInput {
    pub unit: ManagedUnit,
    pub action: SvcAction,
}

#[derive(Debug)]
pub struct ActionOutput {
    pub unit: String,
    pub action: &'static str,
    /// The state after the action.
    pub status: UnitStatus,
}

/// Stopping what the panel is reached through is refused.
pub open spec fn action_refusal(input: ActionInput) -> Option<Problem> {
    if input.unit.critical() && input.action == SvcAction::Stop {
        Some(
            error::field_problem(
                ErrorCode::Conflict,
                input.unit.label()
                    + " cannot be stopped from the panel — do it over a console you still control"@,
                "unit"@,
            ),
        )
    } else {
        None
    }
}

impl Action {
    pub fn check(input: &ActionInput) -> (r: Result<(), FerrumError>)
        ensures
            match r {
                Ok(()) => action_refusal(*input) is None,
                Err(e) => action_refusal(*input) == Some(e@),
            },
    {
        if input.unit.is_critical() && input.action == SvcAction::Stop {
            let mut m = input.unit.display_name();
            m.append(
                " cannot be stopped from the panel — do it over a console you still control",
            );
            return Err(FerrumError::new(ErrorCode::Conflict, m.as_str()).with_field("unit"));
        }
        Ok(())
    }

    pub fn finish(input: &ActionInput, family: Family, status: UnitStatus) -> (r: ActionOutput)
        ensures
            r.unit@ == input.unit.unit(family),
            r.action@ == input.action.name(),
            r.status == status,
    {
        ActionOutput {
            unit: input.unit.unit_name(family),
            action: input.action.as_str(),
            status,
        }
    }
}

} // verus!
