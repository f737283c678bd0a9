//! How a configuration is checked and activated on this machine.
use vstd::prelude::*;
use vstd::string::StringExecFns;
use crate::model::{CmdOutput, Family, PhpVersion, UnitStatus};
use crate::svc::{ManagedUnit, SvcAction};
use crate::text;

verus! {

/// What checks a configuration before it is activated.
#[derive(Debug, Clone, Copy, PartialEq, Eq, Structural)]
pub enum Check {
    /// `nginx -t`.
    Nginx,
    /// `php-fpm -t` of one version, which checks all of its pools.
    Fpm { family: Family, version: PhpVersion },
    /// `mariadbd --help --verbose`, which reads every option file and exits.
    MariaDb,
    /// `sshd -t`, on the whole installed configuration.
    Sshd,
}

/// `nginx -t`.
pub struct NginxValidator;

/// `php-fpm -t` of one version.
pub struct FpmValidator {
    pub binary: String,
}

/// `mariadbd --help --verbose`.
pub struct MariaDbValidator;

/// A check that always passes, for what is written before the service is there.
pub struct SkipValidation;

/// A reload that does nothing, for the same reason.
pub struct NoReload;

/// The name of the FPM program of one version.
pub open spec fn fpm_binary(family: Family, version: PhpVersion) -> Seq<char> {
    match family {
        Family::Debian => "php-fpm"@ + version.dotted(),
        Family::Rhel => "/opt/remi/php"@ + version.compact() + "/root/usr/sbin/php-fpm"@,
    }
}

impl FpmValidator {
    pub fn new(family: Family, version: PhpVersion) -> (r: FpmValidator)
        ensures
            r.binary@ == fpm_binary(family, version),
    {
        let binary = match family {
            Family::Debian => {
                let mut s = "php-fpm".to_owned();
                let v = version.as_text();
                s.append(v.as_str());
                s
            },
            Family::Rhel => {
                let mut s = "/opt/remi/php".to_owned();
                let v = version.compact_text();
                s.append(v.as_str());
                s.append("/root/usr/sbin/php-fpm");
                s
            },
        };
        FpmValidator { binary }
    }
}

impl Check {
    /// The command that makes the check.
    pub open spec fn command(self) -> Seq<Seq<char>> {
        match self {
            Check::Nginx => seq!["nginx"@, "-t"@],
            Check::Fpm { family, version } => seq![fpm_binary(family, version), "-t"@],
            Check::MariaDb => seq!["mariadbd"@, "--help"@, "--verbose"@],
            Check::Sshd => seq!["sshd"@, "-t"@],
        }
    }

    pub fn argv(self) -> (r: Vec<String>)
        ensures
            text::texts(r@) == self.command(),
    {
        let v = match self {
            Check::Nginx => vec!["nginx".to_owned(), "-t".to_owned()],
            Check::Fpm { family, version } => {
                let f = FpmValidator::new(family, version);
                vec![f.binary, "-t".to_owned()]
            },
            Check::MariaDb => vec![
                "mariadbd".to_owned(),
                "--help".to_owned(),
                "--verbose".to_owned(),
            ],
            Check::Sshd => vec!["sshd".to_owned(), "-t".to_owned()],
        };
        assert(text::texts(v@) =~= self.command());
        v
    }

    /// What a check came to. A MariaDB that cannot be run is not installed yet,
    /// and passes.
    pub open spec fn judged(self, answer: Result<CmdOutput, String>) -> Result<(), Seq<char>> {
        match answer {
            Ok(out) => if out.status == 0 {
                Ok(())
            } else {
                Err(out.failure@)
            },
            Err(why) => if self is MariaDb {
                Ok(())
            } else {
                Err(why@)
            },
        }
    }

    /// Judges what running the command came to.
    pub fn verdict(self, answer: Result<CmdOutput, String>) -> (r: Result<(), String>)
        ensures
            match r {
                Ok(()) => self.judged(answer) is Ok,
                Err(why) => self.judged(answer) == Err::<(), Seq<char>>(why@),
            },
    {
        match answer {
            Ok(out) => {
                if out.success() {
                    Ok(())
                } else {
                    Err(out.failure)
                }
            },
            Err(why) => match self {
                Check::MariaDb => Ok(()),
                _ => Err(why),
            },
        }
    }
}

/// `systemd-analyze verify` on one unit file.
pub struct UnitVerify {
    pub path: String,
}

impl UnitVerify {
    /// The command to run, if there is such a program on this machine: a unit
    /// that cannot be checked is no reason to refuse it.
    pub fn command(&self, available: bool) -> (r: Option<Vec<String>>)
        ensures
            match r {
                Some(argv) => available && text::texts(argv@) == seq![
                    "systemd-analyze"@,
                    "verify"@,
                    "--"@,
                    self.path@,
                ],
                None => !available,
            },
    {
        if !available {
            return None;
        }
        let v = vec![
            "systemd-analyze".to_owned(),
            "verify".to_owned(),
            "--".to_owned(),
            self.path.as_str().to_owned(),
        ];
        assert(text::texts(v@) =~= seq!["systemd-analyze"@, "verify"@, "--"@, self.path@]);
        Some(v)
    }

    /// What the check came to, in the tool's own words; a check that was not
    /// made passes.
    pub fn verdict(answer: Option<Result<CmdOutput, String>>) -> (r: Result<(), String>)
        ensures
            match answer {
                None => r is Ok,
                Some(Ok(out)) => if out.status == 0 {
                    r is Ok
                } else {
                    r matches Err(why) && why@ == out.failure@
                },
                Some(Err(e)) => r matches Err(why) && why@ == e@,
            },
    {
        match answer {
            None => Ok(()),
            Some(Ok(out)) => {
                if out.success() {
                    Ok(())
                } else {
                    Err(out.failure)
                }
            },
            Some(Err(e)) => Err(e),
        }
    }
}

/// Activates a configuration in a running service.
#[derive(Debug, Clone, Copy)]
pub struct UnitReloader {
    pub unit: ManagedUnit,
    /// Reload where the service can, restart where it cannot.
    pub action: SvcAction,
}

impl UnitReloader {
    /// nginx reloads without dropping a connection.
    pub fn nginx() -> (r: UnitReloader)
        ensures
            r.unit == ManagedUnit::Nginx,
            r.action == SvcAction::Reload,
    {
        UnitReloader { unit: ManagedUnit::Nginx, action: SvcAction::Reload }
    }

    /// MariaDB binds its address when it starts, so it is restarted.
    pub fn mariadb() -> (r: UnitReloader)
        ensures
            r.unit == ManagedUnit::MariaDb,
            r.action == SvcAction::Restart,
    {
        UnitReloader { unit: ManagedUnit::MariaDb, action: SvcAction::Restart }
    }

    /// php-fpm drains its workers when it reloads.
    pub fn fpm(version: PhpVersion) -> (r: UnitReloader)
        ensures
            r.unit == (ManagedUnit::PhpFpm { version }),
            r.action == SvcAction::Reload,
    {
        UnitReloader { unit: ManagedUnit::PhpFpm { version }, action: SvcAction::Reload }
    }

    /// sshd re-reads its configuration and keeps every session.
    pub fn sshd() -> (r: UnitReloader)
        ensures
            r.unit == ManagedUnit::Sshd,
            r.action == SvcAction::Reload,
    {
        UnitReloader { unit: ManagedUnit::Sshd, action: SvcAction::Reload }
    }

    /// What to do now that the unit's status is known: a service that is not
    /// there or not running has nothing to reload, which is no failure.
    pub fn decide(&self, status: &UnitStatus) -> (r: Option<SvcAction>)
        ensures
            r == (if status.installed() && status.active() {
                Some(self.action)
            } else {
                None
            }),
    {
        if !status.is_installed() || !status.is_active() {
            None
        } else {
            Some(self.action)
        }
    }
}

/// A configuration file as it was once activated.
#[derive(Debug, PartialEq, Eq)]
pub struct StoredRevision {
    pub id: i64,
    pub path: String,
    pub sha256: String,
    pub content: String,
}

/// Where revisions are kept.
pub struct DbRevisions;

impl DbRevisions {
    /// A row as a revision. A row without its content reads as an empty file.
    pub fn revision(id: i64, path: String, sha256: String, content: Option<String>) -> (r:
        StoredRevision)
        ensures
            r.id == id,
            r.path == path,
            r.sha256 == sha256,
            r.content@ == (match content {
                Some(c) => c@,
                None => Seq::<char>::empty(),
            }),
    {
        let content = match content {
            Some(c) => c,
            None => String::new(),
        };
        StoredRevision { id, path, sha256, content }
    }
}

// ---------------------------------------------------------------------------
// What holds of checks
// ---------------------------------------------------------------------------

/// A check passes exactly if its command succeeded; MariaDB's passes also where it cannot
/// be run. A check that fails says why, in the command's words or in those of the attempt.
pub proof fn law_when_a_check_passes(check: Check, answer: Result<CmdOutput, String>)
    ensures
        check.judged(answer) is Ok <==> (answer is Ok && answer->Ok_0.status == 0) || (answer is Err
            && check is MariaDb),
        answer is Ok && check.judged(answer) is Err ==> check.judged(answer)->Err_0
            == answer->Ok_0.failure@,
        answer is Err && check.judged(answer) is Err ==> check.judged(answer)->Err_0
            == answer->Err_0@,
{
}

/// What is run to check each configuration.
pub proof fn law_what_is_run_to_check(v: PhpVersion)
    ensures
        Check::Nginx.command() == seq!["nginx"@, "-t"@],
        Check::Sshd.command() == seq!["sshd"@, "-t"@],
        Check::MariaDb.command() == seq!["mariadbd"@, "--help"@, "--verbose"@],
        (Check::Fpm { family: Family::Debian, version: v }).command() == seq![
            "php-fpm"@ + v.dotted(),
            "-t"@,
        ],
        (Check::Fpm { family: Family::Rhel, version: v }).command() == seq![
            "/opt/remi/php"@ + v.compact() + "/root/usr/sbin/php-fpm"@,
            "-t"@,
        ],
{
}

} // verus!
