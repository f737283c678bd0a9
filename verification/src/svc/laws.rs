//! Which services there are and what may be done to them.
use vstd::prelude::*;
use crate::error;
use crate::error::ErrorCode;
use crate::model::{Family, PhpVersion};
use crate::svc;
use crate::svc::{ActionInput, ManagedUnit, SvcAction};

verus! {

/// Which action is refused: stopping what the panel is reached by. Every other action on
/// every other service is allowed.
pub proof fn law_which_actions_are_refused(input: ActionInput)
    ensures
        ({
            let cut_off = input.action == SvcAction::Stop && (input.unit is Sshd || input.unit
                is FerrumAgentd);
            &&& !cut_off ==> svc::action_refusal(input) is None
            &&& cut_off ==> error::objects(
                svc::action_refusal(input),
                ErrorCode::Conflict,
                Some("unit"@),
            )
        }),
{
}

/// A service is asked for exactly by its name, and PHP with one of the known versions.
pub proof fn law_how_services_are_asked_for(
    u: ManagedUnit,
    name: Seq<char>,
    version: Option<&str>,
    known: Seq<PhpVersion>,
)
    ensures
        u.asked_for(name, version, known) <==> match u {
            ManagedUnit::Nginx => name == "nginx"@,
            ManagedUnit::PhpFpm { version: v } => name == "php_fpm"@ && known.contains(v) && version
                is Some && version->0@ == v.dotted(),
            ManagedUnit::MariaDb => name == "maria_db"@,
            ManagedUnit::PostgreSql => name == "postgre_sql"@,
            ManagedUnit::Sshd => name == "sshd"@,
            ManagedUnit::FerrumAgentd => name == "ferrum_agentd"@,
            ManagedUnit::FerrumWeb => name == "ferrum_web"@,
        },
        svc::unknown_service(name, version).code == ErrorCode::InvalidInput,
        svc::unknown_action(name).code == ErrorCode::InvalidInput,
{
}

/// The unit of each service on either family.
pub proof fn law_which_unit_a_service_is(v: PhpVersion, family: Family)
    ensures
        ManagedUnit::Nginx.unit(family) == "nginx.service"@,
        (ManagedUnit::PhpFpm { version: v }).unit(Family::Debian) == "php"@ + v.dotted()
            + "-fpm.service"@,
        (ManagedUnit::PhpFpm { version: v }).unit(Family::Rhel) == "php"@ + v.compact()
            + "-php-fpm.service"@,
        ManagedUnit::MariaDb.unit(family) == "mariadb.service"@,
        ManagedUnit::PostgreSql.unit(Family::Debian) == "postgresql.service"@,
        ManagedUnit::PostgreSql.unit(Family::Rhel) == "postgresql-17.service"@,
        ManagedUnit::Sshd.unit(Family::Debian) == "ssh.service"@,
        ManagedUnit::Sshd.unit(Family::Rhel) == "sshd.service"@,
        ManagedUnit::FerrumAgentd.unit(family) == "ferrum-agentd.service"@,
        ManagedUnit::FerrumWeb.unit(family) == "ferrum-web.service"@,
{
    reveal_strlit("17");
    reveal_strlit("postgresql-");
    reveal_strlit(".service");
    reveal_strlit("postgresql-17.service");
    assert("postgresql-"@ + "17"@ + ".service"@ =~= "postgresql-17.service"@);
}

/// What actions and services are called to the service manager and to people.
pub proof fn law_what_services_are_called(a: SvcAction, u: ManagedUnit)
    ensures
        a.name() == match a {
            SvcAction::Start => "start"@,
            SvcAction::Stop => "stop"@,
            SvcAction::Restart => "restart"@,
            SvcAction::Reload => "reload"@,
        },
        u.label() == match u {
            ManagedUnit::Nginx => "Nginx"@,
            ManagedUnit::PhpFpm { version } => "PHP "@ + version.dotted() + " FPM"@,
            ManagedUnit::MariaDb => "MariaDB"@,
            ManagedUnit::PostgreSql => "PostgreSQL"@,
            ManagedUnit::Sshd => "OpenSSH"@,
            ManagedUnit::FerrumAgentd => "Ferrum agent"@,
            ManagedUnit::FerrumWeb => "Ferrum web"@,
        },
{
}

} // verus!
