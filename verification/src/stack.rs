//! The stack manager: installing and removing what the server serves with.
use vstd::prelude::*;
use vstd::string::StringExecFns;
use crate::error;
use crate::error::{ErrorCode, FerrumError, Problem};
use crate::model;
use crate::model::{CmdOutput, ComponentStatus, Family, PhpVersion, Site, UnitStatus};
use crate::procedure;
use crate::procedure::{Course, Procedure};
use crate::svc;
use crate::svc::ManagedUnit;
use crate::text;

pub mod laws;

verus! {

/// A component that can be installed. A request for any other package is refused.
#[derive(Debug, Clone, Copy, PartialEq, Eq, Structural)]
pub enum StackComponent {
    Nginx,
    Php { version: PhpVersion },
    Mariadb,
    Postgres,
}

/// What a request for a component that there is not is answered.
pub open spec fn unknown_component(name: Seq<char>, version: Option<&str>) -> Problem {
    if name == "php"@ {
        match version {
            Some(t) => model::unknown_version(t@),
            None => model::missing_version(),
        }
    } else {
        error::problem(
            ErrorCode::InvalidInput,
            "`"@ + name + "` is not a component the panel manages"@,
        )
    }
}

impl StackComponent {
    /// What a caller calls a component.
    pub open spec fn called(self) -> Seq<char> {
        match self {
            StackComponent::Nginx => "nginx"@,
            StackComponent::Php { .. } => "php"@,
            StackComponent::Mariadb => "mariadb"@,
            StackComponent::Postgres => "postgres"@,
        }
    }

    /// Whether a request by name, with a version where one is given, is for this.
    pub open spec fn asked_for(
        self,
        name: Seq<char>,
        version: Option<&str>,
        known: Seq<PhpVersion>,
    ) -> bool {
        &&& self.called() == name
        &&& self matches StackComponent::Php { version: v } ==> {
            &&& known.contains(v)
            &&& version matches Some(t)
            &&& t@ == v.dotted()
        }
    }

    /// The component of a name. No other package can be named, nor a PHP version
    /// that there is not.
    pub fn named(name: &str, version: Option<&str>, known: &Vec<PhpVersion>) -> (r: Result<
        StackComponent,
        FerrumError,
    >)
        ensures
            match r {
                Ok(c) => c.asked_for(name@, version, known@),
                Err(e) => e@ == unknown_component(name@, version) && forall|c: StackComponent|
                    !#[trigger] c.asked_for(name@, version, known@),
            },
    {
        proof {
            reveal_strlit("nginx");
            reveal_strlit("php");
            reveal_strlit("mariadb");
            reveal_strlit("postgres");
        }
        if text::same(name, "php") {
            return match model::required_version(version, known) {
                Ok(version) => Ok(StackComponent::Php { version }),
                Err(e) => Err(e),
            };
        }
        if text::same(name, "nginx") {
            return Ok(StackComponent::Nginx);
        }
        if text::same(name, "mariadb") {
            return Ok(StackComponent::Mariadb);
        }
        if text::same(name, "postgres") {
            return Ok(StackComponent::Postgres);
        }
        let mut m = "`".to_owned();
        m.append(name);
        m.append("` is not a component the panel manages");
        Err(FerrumError::new(ErrorCode::InvalidInput, m.as_str()))
    }

    /// The key a component is recorded under.
    pub open spec fn key(self) -> Seq<char> {
        match self {
            StackComponent::Nginx => "nginx"@,
            StackComponent::Php { version } => "php"@ + version.dotted(),
            StackComponent::Mariadb => "mariadb"@,
            StackComponent::Postgres => "postgres"@,
        }
    }

    pub fn slug(self) -> (r: String)
        ensures
            r@ == self.key(),
    {
        match self {
            StackComponent::Nginx => "nginx".to_owned(),
            StackComponent::Php { version } => {
                let mut s = "php".to_owned();
                let v = version.as_text();
                s.append(v.as_str());
                s
            },
            StackComponent::Mariadb => "mariadb".to_owned(),
            StackComponent::Postgres => "postgres".to_owned(),
        }
    }

    /// What a component is called, with the release that would be installed.
    pub open spec fn label(self) -> Seq<char> {
        match self {
            StackComponent::Nginx => "Nginx"@,
            StackComponent::Php { version } => "PHP "@ + version.dotted(),
            StackComponent::Mariadb => "MariaDB "@ + svc::MARIADB_SERIES@,
            StackComponent::Postgres => "PostgreSQL "@ + svc::POSTGRES_MAJOR@,
        }
    }

    pub fn display_name(self) -> (r: String)
        ensures
            r@ == self.label(),
    {
        match self {
            StackComponent::Nginx => "Nginx".to_owned(),
            StackComponent::Php { version } => {
                let mut s = "PHP ".to_owned();
                let v = version.as_text();
                s.append(v.as_str());
                s
            },
            StackComponent::Mariadb => {
                let mut s = "MariaDB ".to_owned();
                s.append(svc::MARIADB_SERIES);
                s
            },
            StackComponent::Postgres => {
                let mut s = "PostgreSQL ".to_owned();
                s.append(svc::POSTGRES_MAJOR);
                s
            },
        }
    }

    /// The packages of a component. Those of a PHP version come from the
    /// catalogue of its extensions.
    pub open spec fn package_names(self, family: Family, php: Seq<Seq<char>>) -> Seq<Seq<char>> {
        match (self, family) {
            (StackComponent::Nginx, _) => seq!["nginx"@],
            (StackComponent::Php { .. }, _) => php,
            (StackComponent::Mariadb, Family::Debian) => seq![
                "mariadb-server"@,
                "mariadb-client"@,
                "mariadb-backup"@,
                "mariadb-server-compat"@,
                "mariadb-client-compat"@,
            ],
            (StackComponent::Mariadb, Family::Rhel) => seq![
                "MariaDB-server"@,
                "MariaDB-client"@,
                "MariaDB-backup"@,
                "MariaDB-server-compat"@,
                "MariaDB-client-compat"@,
            ],
            (StackComponent::Postgres, Family::Debian) => seq![
                "postgresql-"@ + svc::POSTGRES_MAJOR@,
                "postgresql-client-"@ + svc::POSTGRES_MAJOR@,
            ],
            (StackComponent::Postgres, Family::Rhel) => seq![
                "postgresql"@ + svc::POSTGRES_MAJOR@ + "-server"@,
                "postgresql"@ + svc::POSTGRES_MAJOR@,
                "postgresql"@ + svc::POSTGRES_MAJOR@ + "-contrib"@,
            ],
        }
    }

    pub fn packages(self, family: Family, php: &Vec<String>) -> (r: Vec<String>)
        ensures
            text::texts(r@) == self.package_names(family, text::texts(php@)),
    {
        let v = match (self, family) {
            (StackComponent::Nginx, _) => vec!["nginx".to_owned()],
            (StackComponent::Php { .. }, _) => copy_list(php),
            (StackComponent::Mariadb, Family::Debian) => vec![
                "mariadb-server".to_owned(),
                "mariadb-client".to_owned(),
                "mariadb-backup".to_owned(),
                "mariadb-server-compat".to_owned(),
                "mariadb-client-compat".to_owned(),
            ],
            (StackComponent::Mariadb, Family::Rhel) => vec![
                "MariaDB-server".to_owned(),
                "MariaDB-client".to_owned(),
                "MariaDB-backup".to_owned(),
                "MariaDB-server-compat".to_owned(),
                "MariaDB-client-compat".to_owned(),
            ],
            (StackComponent::Postgres, Family::Debian) => vec![
                concat("postgresql-", svc::POSTGRES_MAJOR, ""),
                concat("postgresql-client-", svc::POSTGRES_MAJOR, ""),
            ],
            (StackComponent::Postgres, Family::Rhel) => vec![
                concat("postgresql", svc::POSTGRES_MAJOR, "-server"),
                concat("postgresql", svc::POSTGRES_MAJOR, ""),
                concat("postgresql", svc::POSTGRES_MAJOR, "-contrib"),
            ],
        };
        proof {
            reveal_strlit("");
            let p = svc::POSTGRES_MAJOR@;
            assert("postgresql-"@ + p + ""@ =~= "postgresql-"@ + p);
            assert("postgresql-client-"@ + p + ""@ =~= "postgresql-client-"@ + p);
            assert("postgresql"@ + p + ""@ =~= "postgresql"@ + p);
        }
        assert(text::texts(v@) =~= self.package_names(family, text::texts(php@)));
        v
    }

    pub fn unit(self) -> (r: ManagedUnit)
        ensures
            r == (match self {
                StackComponent::Nginx => ManagedUnit::Nginx,
                StackComponent::Php { version } => ManagedUnit::PhpFpm { version },
                StackComponent::Mariadb => ManagedUnit::MariaDb,
                StackComponent::Postgres => ManagedUnit::PostgreSql,
            }),
    {
        match self {
            StackComponent::Nginx => ManagedUnit::Nginx,
            StackComponent::Php { version } => ManagedUnit::PhpFpm { version },
            StackComponent::Mariadb => ManagedUnit::MariaDb,
            StackComponent::Postgres => ManagedUnit::PostgreSql,
        }
    }
}

fn concat(a: &str, b: &str, c: &str) -> (r: String)
    ensures
        r@ == a@ + b@ + c@,
{
    let mut s = a.to_owned();
    s.append(b);
    s.append(c);
    s
}

fn copy_list(v: &Vec<String>) -> (r: Vec<String>)
    ensures
        text::texts(r@) == text::texts(v@),
{
    let mut out: Vec<String> = Vec::new();
    let mut i: usize = 0;
    while i < v.len()
        invariant
            i <= v@.len(),
            out@.len() == i,
            forall|j: int| 0 <= j < i ==> (#[trigger] out@[j])@ == v@[j]@,
        decreases v@.len() - i,
    {
        out.push(v[i].as_str().to_owned());
        i = i + 1;
    }
    assert(text::texts(out@) =~= text::texts(v@));
    out
}

/// The extensions that are installed: those asked for, or the usual ones where
/// none is.
pub fn chosen_extensions(asked: &Vec<String>, usual: &Vec<String>) -> (r: Vec<String>)
    ensures
        text::texts(r@) == (if asked@.len() == 0 {
            text::texts(usual@)
        } else {
            text::texts(asked@)
        }),
{
    if asked.len() == 0 {
        copy_list(usual)
    } else {
        copy_list(asked)
    }
}

// ---------------------------------------------------------------------------
// stack.status
// ---------------------------------------------------------------------------

/// `stack.status`.
pub struct Status;

#[derive(Debug)]
pub struct StatusInput {}

#[derive(Debug)]
pub struct ComponentView {
    pub slug: String,
    pub display_name: String,
    pub status: String,
    pub installed_version: Option<String>,
    pub last_error: Option<String>,
    /// The service manager's own view, which can disagree.
    pub unit_state: String,
    pub unit_active: bool,
}

#[derive(Debug)]
pub struct StatusOutput {
    pub components: Vec<ComponentView>,
    /// Repository pins that were not corroborated.
    pub unverified_pins: Vec<String>,
}

/// A component as it is recorded.
#[derive(Debug)]
pub struct ComponentRow {
    pub slug: String,
    pub status: ComponentStatus,
    pub installed_version: Option<String>,
    pub last_error: Option<String>,
}

/// Every component there is: nginx, the PHP versions, the databases.
pub open spec fn all_components(versions: Seq<PhpVersion>) -> Seq<StackComponent> {
    seq![StackComponent::Nginx] + versions.map_values(
        |version: PhpVersion| StackComponent::Php { version },
    ) + seq![StackComponent::Mariadb, StackComponent::Postgres]
}

fn copied(s: &Option<String>) -> (r: Option<String>)
    ensures
        error::opt_text(r) == error::opt_text(*s),
{
    match s {
        Some(t) => Some(t.as_str().to_owned()),
        None => None,
    }
}

/// The position of the row of a component, the first if there are several.
pub open spec fn row_of(rows: Seq<ComponentRow>, key: Seq<char>) -> Option<int>
    decreases rows.len(),
{
    if rows.len() == 0 {
        None
    } else {
        match row_of(rows.drop_last(), key) {
            Some(i) => Some(i),
            None => if rows.last().slug@ == key {
                Some(rows.len() - 1)
            } else {
                None
            },
        }
    }
}

fn find_row(rows: &Vec<ComponentRow>, key: &str) -> (r: Option<usize>)
    ensures
        match r {
            Some(i) => row_of(rows@, key@) == Some(i as int) && i < rows@.len(),
            None => row_of(rows@, key@) is None,
        },
{
    let mut found: Option<usize> = None;
    let mut i: usize = 0;
    assert(rows@.take(0) =~= Seq::<ComponentRow>::empty());
    while i < rows.len()
        invariant
            i <= rows@.len(),
            match found {
                Some(k) => row_of(rows@.take(i as int), key@) == Some(k as int) && k < i,
                None => row_of(rows@.take(i as int), key@) is None,
            },
        decreases rows@.len() - i,
    {
        let ghost next = rows@.take(i + 1);
        assert(next.drop_last() =~= rows@.take(i as int));
        assert(next.last() == rows@[i as int]);
        if found.is_none() && text::same(rows[i].slug.as_str(), key) {
            found = Some(i);
        }
        i = i + 1;
    }
    assert(rows@.take(i as int) =~= rows@);
    found
}

impl Status {
    /// What is shown, in the order in which it is shown.
    pub fn candidates(versions: &Vec<PhpVersion>) -> (r: Vec<StackComponent>)
        ensures
            r@ == all_components(versions@),
    {
        let mut out: Vec<StackComponent> = Vec::new();
        out.push(StackComponent::Nginx);
        let mut i: usize = 0;
        while i < versions.len()
            invariant
                i <= versions@.len(),
                out@.len() == i + 1,
                out@[0] == StackComponent::Nginx,
                forall|j: int|
                    0 <= j < i ==> #[trigger] out@[j + 1] == (StackComponent::Php {
                        version: versions@[j],
                    }),
            decreases versions@.len() - i,
        {
            out.push(StackComponent::Php { version: versions[i] });
            i = i + 1;
        }
        out.push(StackComponent::Mariadb);
        out.push(StackComponent::Postgres);
        proof {
            let want = all_components(versions@);
            assert forall|k: int| 0 <= k < want.len() implies #[trigger] out@[k] == want[k] by {
                if 0 < k <= versions@.len() {
                    assert(out@[(k - 1) + 1] == (StackComponent::Php { version: versions@[k - 1] }));
                }
            }
            assert(out@ =~= want);
        }
        out
    }

    /// One component: what is recorded of it beside what its service says.
    pub fn view(
        component: StackComponent,
        rows: &Vec<ComponentRow>,
        unit: Option<UnitStatus>,
    ) -> (r: ComponentView)
        ensures
            r.slug@ == component.key(),
            r.display_name@ == component.label(),
            match row_of(rows@, component.key()) {
                Some(i) => r.status@ == rows@[i].status.name() && error::opt_text(
                    r.installed_version,
                ) == error::opt_text(rows@[i].installed_version) && error::opt_text(r.last_error)
                    == error::opt_text(rows@[i].last_error),
                None => r.status@ == ComponentStatus::Absent.name() && r.installed_version is None
                    && r.last_error is None,
            },
            r.unit_state@ == (match unit {
                Some(u) => u.state.name(),
                None => "unknown"@,
            }),
            r.unit_active == (match unit {
                Some(u) => u.active(),
                None => false,
            }),
    {
        let slug = component.slug();
        let (status, installed_version, last_error) = match find_row(rows, slug.as_str()) {
            Some(i) => (
                rows[i].status.as_str().to_owned(),
                copied(&rows[i].installed_version),
                copied(&rows[i].last_error),
            ),
            None => (ComponentStatus::Absent.as_str().to_owned(), None, None),
        };
        let (unit_state, unit_active) = match unit {
            Some(u) => (u.state.as_text().to_owned(), u.is_active()),
            None => ("unknown".to_owned(), false),
        };
        ComponentView {
            slug,
            display_name: component.display_name(),
            status,
            installed_version,
            last_error,
            unit_state,
            unit_active,
        }
    }
}

// ---------------------------------------------------------------------------
// stack.install
// ---------------------------------------------------------------------------

/// `stack.install`.
pub struct Install;

#[derive(Debug)]
pub struct InstallInput {
    pub component: StackComponent,
    /// Extensions of a PHP version; the usual ones if there are none.
    pub extensions: Vec<String>,
}

#[derive(Debug)]
pub struct InstallOutput {
    pub slug: String,
    pub installed_version: Option<String>,
    pub packages: Vec<String>,
}

/// What is answered while another task has the component.
pub open spec fn busy(component: StackComponent) -> Problem {
    error::problem(
        ErrorCode::Conflict,
        component.label() + " is already being installed or removed"@,
    )
}

/// Goes on only where the component was claimed.
pub fn require_claim(component: StackComponent, claimed: bool) -> (r: Result<(), FerrumError>)
    ensures
        error::outcome(r) == (if claimed {
            Ok::<(), Problem>(())
        } else {
            Err::<(), Problem>(busy(component))
        }),
{
    if claimed {
        return Ok(());
    }
    let mut m = component.display_name();
    m.append(" is already being installed or removed");
    Err(FerrumError::new(ErrorCode::Conflict, m.as_str()))
}

/// What installing a component takes.
#[derive(Debug, Clone, Copy, PartialEq, Eq, Structural)]
pub enum InstallStep {
    AddPrerequisites,
    FetchKey,
    AddRepository,
    InstallPackages,
    BootstrapNginx,
    HardenMariadb,
    /// Take the stock pool away before it starts a worker.
    RetireStockPool,
    BootstrapPostgres,
    /// Say so where the SELinux policy did not come along.
    WarnAboutSelinux,
    EnableUnit,
    WaitUntilReady,
    /// Record why it failed.
    RecordFailure,
}

/// What stands between the packages and the start of a service.
pub open spec fn preparation(component: StackComponent, family: Family) -> Seq<(InstallStep, bool)> {
    match component {
        StackComponent::Nginx => seq![(InstallStep::BootstrapNginx, false)],
        StackComponent::Php { .. } => seq![(InstallStep::RetireStockPool, true)],
        StackComponent::Postgres => seq![(InstallStep::BootstrapPostgres, false)],
        StackComponent::Mariadb => if family == Family::Rhel {
            seq![(InstallStep::HardenMariadb, false), (InstallStep::WarnAboutSelinux, true)]
        } else {
            seq![(InstallStep::HardenMariadb, false)]
        },
    }
}

/// The repository and its key first, then the packages, then what the component
/// needs before it starts, and only then the service.
pub open spec fn install_steps(component: StackComponent, family: Family) -> Seq<
    (InstallStep, bool),
> {
    seq![
        (InstallStep::AddPrerequisites, false),
        (InstallStep::FetchKey, false),
        (InstallStep::AddRepository, false),
        (InstallStep::InstallPackages, false),
    ] + preparation(component, family) + seq![
        (InstallStep::EnableUnit, false),
        (InstallStep::WaitUntilReady, false),
    ]
}

impl Install {
    /// Installs a component that was claimed. A failure is recorded.
    pub fn course(component: StackComponent, family: Family) -> (r: Procedure<InstallStep>)
        ensures
            r@ == Course::fresh(install_steps(component, family), seq![InstallStep::RecordFailure]),
    {
        let mut steps: Vec<(InstallStep, bool)> = Vec::new();
        steps.push((InstallStep::AddPrerequisites, false));
        steps.push((InstallStep::FetchKey, false));
        steps.push((InstallStep::AddRepository, false));
        steps.push((InstallStep::InstallPackages, false));
        match component {
            StackComponent::Nginx => {
                steps.push((InstallStep::BootstrapNginx, false));
            },
            StackComponent::Php { .. } => {
                steps.push((InstallStep::RetireStockPool, true));
            },
            StackComponent::Postgres => {
                steps.push((InstallStep::BootstrapPostgres, false));
            },
            StackComponent::Mariadb => {
                steps.push((InstallStep::HardenMariadb, false));
                if family == Family::Rhel {
                    steps.push((InstallStep::WarnAboutSelinux, true));
                }
            },
        }
        steps.push((InstallStep::EnableUnit, false));
        steps.push((InstallStep::WaitUntilReady, false));
        assert(steps@ =~= install_steps(component, family));
        let undo = vec![InstallStep::RecordFailure];
        assert(undo@ =~= seq![InstallStep::RecordFailure]);
        Procedure::new(steps, undo)
    }

    /// The answer: the version that is installed, not the one that was asked for.
    pub fn finish(
        component: StackComponent,
        packages: Vec<String>,
        installed_version: Option<String>,
    ) -> (r: InstallOutput)
        ensures
            r.slug@ == component.key(),
            r.installed_version == installed_version,
            r.packages == packages,
    {
        InstallOutput { slug: component.slug(), installed_version, packages }
    }
}

// ---------------------------------------------------------------------------
// Bootstrapping
// ---------------------------------------------------------------------------

/// What nginx needs before it is worth starting.
#[derive(Debug, Clone, Copy, PartialEq, Eq, Structural)]
pub enum NginxStep {
    WriteDefaultCertificate,
    CreateChallengeDirectory,
    MakeStateTraversable,
    OpenWebroot,
    OpenChallengeDirectory,
    CreateLogDirectory,
    /// Written unchecked: a tree without it cannot test it.
    ApplyHook,
    /// Now the whole tree can be tested.
    ApplyDefaultServer,
    /// A firewall that refuses does not undo the rest.
    OpenWebPorts,
}

pub open spec fn nginx_steps(certificate_present: bool) -> Seq<(NginxStep, bool)> {
    (if certificate_present {
        Seq::empty()
    } else {
        seq![(NginxStep::WriteDefaultCertificate, false)]
    }) + seq![
        (NginxStep::CreateChallengeDirectory, false),
        (NginxStep::MakeStateTraversable, false),
        (NginxStep::OpenWebroot, false),
        (NginxStep::OpenChallengeDirectory, false),
        (NginxStep::CreateLogDirectory, false),
        (NginxStep::ApplyHook, false),
        (NginxStep::ApplyDefaultServer, false),
        (NginxStep::OpenWebPorts, true),
    ]
}

/// The mode of what a worker has to reach.
pub const WEBROOT_MODE: u32 = 0o755;

/// Gives nginx a default server, so that no customer's site answers for another
/// one's domain.
pub fn bootstrap_nginx(certificate_present: bool) -> (r: Procedure<NginxStep>)
    ensures
        r@ == Course::fresh(nginx_steps(certificate_present), Seq::<NginxStep>::empty()),
{
    let mut steps: Vec<(NginxStep, bool)> = Vec::new();
    if !certificate_present {
        steps.push((NginxStep::WriteDefaultCertificate, false));
    }
    steps.push((NginxStep::CreateChallengeDirectory, false));
    steps.push((NginxStep::MakeStateTraversable, false));
    steps.push((NginxStep::OpenWebroot, false));
    steps.push((NginxStep::OpenChallengeDirectory, false));
    steps.push((NginxStep::CreateLogDirectory, false));
    steps.push((NginxStep::ApplyHook, false));
    steps.push((NginxStep::ApplyDefaultServer, false));
    steps.push((NginxStep::OpenWebPorts, true));
    assert(steps@ =~= nginx_steps(certificate_present));
    let undo: Vec<NginxStep> = Vec::new();
    assert(undo@ =~= Seq::<NginxStep>::empty());
    Procedure::new(steps, undo)
}

/// The ports to open: none where there is no firewall, or none that answers.
pub fn web_ports(firewall_active: Option<bool>) -> (r: Vec<u16>)
    ensures
        r@ == (if firewall_active == Some(true) {
            seq![80u16, 443u16]
        } else {
            Seq::<u16>::empty()
        }),
{
    let r: Vec<u16> = match firewall_active {
        Some(true) => vec![80, 443],
        _ => Vec::new(),
    };
    assert(r@ =~= (if firewall_active == Some(true) {
        seq![80u16, 443u16]
    } else {
        Seq::<u16>::empty()
    }));
    r
}

/// The file that shows that a data directory was initialised.
pub open spec fn cluster_marker() -> Seq<char> {
    "/var/lib/pgsql/"@ + svc::POSTGRES_MAJOR@ + "/data/PG_VERSION"@
}

pub fn postgres_marker() -> (r: String)
    ensures
        r@ == cluster_marker(),
{
    concat("/var/lib/pgsql/", svc::POSTGRES_MAJOR, "/data/PG_VERSION")
}

pub open spec fn initdb_command() -> Seq<Seq<char>> {
    seq![
        "/usr/pgsql-"@ + svc::POSTGRES_MAJOR@ + "/bin/postgresql-"@ + svc::POSTGRES_MAJOR@
            + "-setup"@,
        "initdb"@,
    ]
}

/// The command that initialises PostgreSQL, where it has to be run: Debian's
/// packages do it themselves, and a directory that was initialised stays.
pub fn bootstrap_postgres(family: Family, initialised: bool) -> (r: Option<Vec<String>>)
    ensures
        match r {
            Some(argv) => family == Family::Rhel && !initialised && text::texts(argv@)
                == initdb_command(),
            None => family != Family::Rhel || initialised,
        },
{
    if family != Family::Rhel || initialised {
        return None;
    }
    let mut program = concat("/usr/pgsql-", svc::POSTGRES_MAJOR, "/bin/postgresql-");
    program.append(svc::POSTGRES_MAJOR);
    program.append("-setup");
    let argv = vec![program, "initdb".to_owned()];
    assert(text::texts(argv@) =~= initdb_command());
    Some(argv)
}

/// Traversal for everybody, without a listing: the mode to set, if it is not
/// there already.
pub fn make_traversable(mode: u32) -> (r: Option<u32>)
    ensures
        r == (if (mode & 0o7777u32) & 1u32 == 0 {
            Some((mode & 0o7777u32) | 1u32)
        } else {
            None
        }),
{
    let m: u32 = mode & 0o7777u32;
    if m & 1u32 == 0 {
        Some(m | 1u32)
    } else {
        None
    }
}

// ---------------------------------------------------------------------------
// Readiness
// ---------------------------------------------------------------------------

/// What asks a database whether it accepts connections. For the others, a
/// service that is active is one that serves.
pub open spec fn probe_command(component: StackComponent, family: Family) -> Option<
    Seq<Seq<char>>,
> {
    match (component, family) {
        (StackComponent::Mariadb, _) => Some(
            seq![
                "mariadb"@,
                "--no-defaults"@,
                "--protocol=socket"@,
                "--user=root"@,
                "--connect-timeout=3"@,
                "--execute"@,
                "SELECT 1"@,
            ],
        ),
        (StackComponent::Postgres, Family::Debian) => Some(seq!["pg_isready"@, "--quiet"@]),
        (StackComponent::Postgres, Family::Rhel) => Some(
            seq!["/usr/pgsql-"@ + svc::POSTGRES_MAJOR@ + "/bin/pg_isready"@, "--quiet"@],
        ),
        _ => None,
    }
}

pub fn readiness_probe(component: StackComponent, family: Family) -> (r: Option<Vec<String>>)
    ensures
        match r {
            Some(argv) => probe_command(component, family) == Some(text::texts(argv@)),
            None => probe_command(component, family) is None,
        },
{
    match (component, family) {
        (StackComponent::Mariadb, _) => {
            let argv = vec![
                "mariadb".to_owned(),
                "--no-defaults".to_owned(),
                "--protocol=socket".to_owned(),
                "--user=root".to_owned(),
                "--connect-timeout=3".to_owned(),
                "--execute".to_owned(),
                "SELECT 1".to_owned(),
            ];
            assert(text::texts(argv@) =~= probe_command(component, family)->0);
            Some(argv)
        },
        (StackComponent::Postgres, Family::Debian) => {
            let argv = vec!["pg_isready".to_owned(), "--quiet".to_owned()];
            assert(text::texts(argv@) =~= probe_command(component, family)->0);
            Some(argv)
        },
        (StackComponent::Postgres, Family::Rhel) => {
            let argv = vec![
                concat("/usr/pgsql-", svc::POSTGRES_MAJOR, "/bin/pg_isready"),
                "--quiet".to_owned(),
            ];
            assert(text::texts(argv@) =~= probe_command(component, family)->0);
            Some(argv)
        },
        _ => None,
    }
}

/// How often a database is asked.
pub const PROBE_ATTEMPTS: u32 = 12;

/// The first wait, in milliseconds.
pub const FIRST_DELAY_MS: u64 = 500;

/// The longest wait, in milliseconds.
pub const LONGEST_DELAY_MS: u64 = 5000;

/// The wait after the `n`-th attempt that failed: twice the one before, up to
/// the longest.
pub open spec fn delay_after(n: nat) -> nat
    decreases n,
{
    if n <= 1 {
        FIRST_DELAY_MS as nat
    } else if delay_after((n - 1) as nat) * 2 < LONGEST_DELAY_MS {
        delay_after((n - 1) as nat) * 2
    } else {
        LONGEST_DELAY_MS as nat
    }
}

/// How long to wait once so many attempts failed before the next; none comes after
/// the last.
pub open spec fn patience(failures: nat) -> Option<nat> {
    if failures < PROBE_ATTEMPTS {
        Some(delay_after(failures))
    } else {
        None
    }
}

/// How long the waits after the first `n` failures are, all together.
pub open spec fn waited(n: nat) -> nat
    decreases n,
{
    if n == 0 {
        0
    } else {
        waited((n - 1) as nat) + match patience(n) {
            Some(ms) => ms,
            None => 0,
        }
    }
}

/// What to do after an attempt.
#[derive(Debug)]
pub enum AfterProbe {
    Ready,
    /// Wait so many milliseconds, then ask again.
    AskAgain { wait_ms: u64 },
    GiveUp(FerrumError),
}

/// Asking a database until it answers.
pub struct Waiting {
    component: StackComponent,
    failed: u32,
    delay_ms: u64,
}

pub open spec fn never_ready(component: StackComponent, why: Seq<char>) -> Problem {
    error::problem(
        ErrorCode::ServiceActionFailed,
        component.label() + " started but never became ready to accept connections: "@ + why,
    )
}

impl Waiting {
    /// How many attempts failed.
    pub closed spec fn failures(&self) -> nat {
        self.failed as nat
    }

    pub closed spec fn what(&self) -> StackComponent {
        self.component
    }

    pub closed spec fn wf(&self) -> bool {
        self.failed < PROBE_ATTEMPTS && self.delay_ms == delay_after((self.failed + 1) as nat)
    }

    pub fn new(component: StackComponent) -> (r: Waiting)
        ensures
            r.wf(),
            r.failures() == 0,
            r.what() == component,
    {
        Waiting { component, failed: 0, delay_ms: FIRST_DELAY_MS }
    }

    /// What to do now that the probe was run: it succeeded, it failed with some
    /// words, or it could not be run.
    pub fn probed(&mut self, answer: Result<CmdOutput, String>) -> (r: AfterProbe)
        requires
            old(self).wf(),
        ensures
            final(self).what() == old(self).what(),
            match answer {
                Ok(out) if out.status == 0 => r is Ready && *final(self) == *old(self),
                _ => {
                    let why = match answer {
                        Ok(out) => out.failure@,
                        Err(e) => e@,
                    };
                    match patience(old(self).failures() + 1) {
                        Some(ms) => {
                            &&& final(self).wf()
                            &&& final(self).failures() == old(self).failures() + 1
                            &&& r matches AfterProbe::AskAgain { wait_ms }
                            &&& wait_ms == ms
                        },
                        None => {
                            &&& r matches AfterProbe::GiveUp(e)
                            &&& e@ == never_ready(old(self).what(), why)
                        },
                    }
                },
            },
    {
        let why = match answer {
            Ok(out) => {
                if out.success() {
                    return AfterProbe::Ready;
                }
                out.failure
            },
            Err(e) => e,
        };
        if self.failed + 1 < PROBE_ATTEMPTS {
            let wait_ms: u64 = self.delay_ms;
            self.failed = self.failed + 1;
            proof {
                lemma_delay(self.failed as nat);
            }
            self.delay_ms = if wait_ms * 2 < LONGEST_DELAY_MS {
                wait_ms * 2
            } else {
                LONGEST_DELAY_MS
            };
            return AfterProbe::AskAgain { wait_ms };
        }
        let mut m = self.component.display_name();
        m.append(" started but never became ready to accept connections: ");
        m.append(why.as_str());
        AfterProbe::GiveUp(FerrumError::new(ErrorCode::ServiceActionFailed, m.as_str()))
    }
}

proof fn lemma_delay(n: nat)
    ensures
        FIRST_DELAY_MS <= delay_after(n) <= LONGEST_DELAY_MS,
    decreases n,
{
    if n > 1 {
        lemma_delay((n - 1) as nat);
    }
}

// ---------------------------------------------------------------------------
// stack.remove
// ---------------------------------------------------------------------------

/// `stack.remove`.
pub struct Remove;

#[derive(Debug)]
pub struct RemoveInput {
    pub component: StackComponent,
}

#[derive(Debug)]
pub struct RemoveOutput {
    pub slug: String,
}

/// The domains of the sites on a PHP version.
pub open spec fn dependents(sites: Seq<Site>, version: PhpVersion) -> Seq<Seq<char>>
    decreases sites.len(),
{
    if sites.len() == 0 {
        Seq::empty()
    } else if sites.last().php_version == Some(version) {
        dependents(sites.drop_last(), version).push(sites.last().domain@)
    } else {
        dependents(sites.drop_last(), version)
    }
}

/// Why a component stays: sites still need it.
pub open spec fn removal_refusal(component: StackComponent, sites: Seq<Site>) -> Option<Problem> {
    match component {
        StackComponent::Php { version } => {
            let using = dependents(sites, version);
            if using.len() > 0 {
                Some(
                    error::problem(
                        ErrorCode::DependentsExist,
                        text::decimal(using.len()) + " sites still use PHP "@ + version.dotted()
                            + ": "@ + text::join(using, ", "@)
                            + ". Move them to another version first."@,
                    ),
                )
            } else {
                None
            }
        },
        StackComponent::Nginx => if sites.len() > 0 {
            Some(
                error::problem(
                    ErrorCode::DependentsExist,
                    text::decimal(sites.len())
                        + " sites are still configured; removing nginx would take them all offline"@,
                ),
            )
        } else {
            None
        },
        _ => None,
    }
}

fn dependents_of(sites: &Vec<Site>, version: PhpVersion) -> (r: Vec<String>)
    ensures
        text::texts(r@) == dependents(sites@, version),
{
    let mut out: Vec<String> = Vec::new();
    let mut i: usize = 0;
    assert(sites@.take(0) =~= Seq::<Site>::empty());
    assert(text::texts(out@) =~= Seq::<Seq<char>>::empty());
    while i < sites.len()
        invariant
            i <= sites@.len(),
            text::texts(out@) == dependents(sites@.take(i as int), version),
        decreases sites@.len() - i,
    {
        let ghost next = sites@.take(i + 1);
        assert(next.drop_last() =~= sites@.take(i as int));
        assert(next.last() == sites@[i as int]);
        let on = match sites[i].php_version {
            Some(v) => v == version,
            None => false,
        };
        if on {
            let ghost before = out@;
            out.push(sites[i].domain.as_str().to_owned());
            assert(text::texts(out@) =~= text::texts(before).push(sites@[i as int].domain@));
        }
        i = i + 1;
    }
    assert(sites@.take(i as int) =~= sites@);
    out
}

/// What removing a component takes.
#[derive(Debug, Clone, Copy, PartialEq, Eq, Structural)]
pub enum RemoveStep {
    DisableUnit,
    RemovePackages,
    RecordFailure,
}

pub open spec fn remove_steps() -> Seq<(RemoveStep, bool)> {
    seq![(RemoveStep::DisableUnit, true), (RemoveStep::RemovePackages, false)]
}

impl Remove {
    /// Refuses while anything depends on the component, and says what.
    pub fn check(component: StackComponent, sites: &Vec<Site>) -> (r: Result<(), FerrumError>)
        ensures
            match r {
                Ok(()) => removal_refusal(component, sites@) is None,
                Err(e) => removal_refusal(component, sites@) == Some(e@),
            },
    {
        match component {
            StackComponent::Php { version } => {
                let using = dependents_of(sites, version);
                if using.len() > 0 {
                    let mut m = text::decimal_of(using.len() as u64);
                    m.append(" sites still use PHP ");
                    let v = version.as_text();
                    m.append(v.as_str());
                    m.append(": ");
                    let list = text::joined(&using, ", ");
                    m.append(list.as_str());
                    m.append(". Move them to another version first.");
                    assert(using@.len() == text::texts(using@).len());
                    return Err(FerrumError::new(ErrorCode::DependentsExist, m.as_str()));
                }
                assert(text::texts(using@).len() == 0);
                Ok(())
            },
            StackComponent::Nginx => {
                if sites.len() > 0 {
                    let mut m = text::decimal_of(sites.len() as u64);
                    m.append(
                        " sites are still configured; removing nginx would take them all offline",
                    );
                    return Err(FerrumError::new(ErrorCode::DependentsExist, m.as_str()));
                }
                Ok(())
            },
            _ => Ok(()),
        }
    }

    /// Removes a component that was claimed. A failure is recorded.
    pub fn course() -> (r: Procedure<RemoveStep>)
        ensures
            r@ == Course::fresh(remove_steps(), seq![RemoveStep::RecordFailure]),
    {
        let steps = vec![(RemoveStep::DisableUnit, true), (RemoveStep::RemovePackages, false)];
        assert(steps@ =~= remove_steps());
        let undo = vec![RemoveStep::RecordFailure];
        assert(undo@ =~= seq![RemoveStep::RecordFailure]);
        Procedure::new(steps, undo)
    }

    pub fn finish(component: StackComponent) -> (r: RemoveOutput)
        ensures
            r.slug@ == component.key(),
    {
        RemoveOutput { slug: component.slug() }
    }
}

// ---------------------------------------------------------------------------
// Signing keys
// ---------------------------------------------------------------------------

/// The largest keyring that is accepted, in bytes.
pub const MAX_KEY_BYTES: usize = 1048576;

/// How long a key server has to answer, in seconds.
pub const KEY_TIMEOUT_SECS: u64 = 30;

/// Refuses to bootstrap trust over anything but HTTPS.
pub fn check_key_url(url: &str) -> (r: Result<(), FerrumError>)
    ensures
        error::outcome(r) == (if text::starts_with(url@, "https://"@) {
            Ok::<(), Problem>(())
        } else {
            Err::<(), Problem>(
                error::problem(ErrorCode::Internal, "refusing to fetch a key over `"@ + url@ + "`"@),
            )
        }),
{
    if text::has_prefix(url, "https://") {
        return Ok(());
    }
    let m = concat("refusing to fetch a key over `", url, "`");
    Err(FerrumError::internal(m.as_str()))
}

/// What a key server answered: its status, in words, and whether it is one of
/// success; and how many bytes came.
pub fn check_key_answer(url: &str, success: bool, status: &str, bytes: usize) -> (r: Result<
    (),
    FerrumError,
>)
    ensures
        error::outcome(r) == (if !success {
            Err::<(), Problem>(
                error::problem(
                    ErrorCode::PackageBackendFailed,
                    url@ + " returned "@ + status@,
                ),
            )
        } else if bytes > MAX_KEY_BYTES {
            Err::<(), Problem>(
                error::problem(
                    ErrorCode::PackageBackendFailed,
                    url@ + " served "@ + text::decimal(bytes as nat)
                        + " bytes, which is not a keyring"@,
                ),
            )
        } else {
            Ok::<(), Problem>(())
        }),
{
    if !success {
        let m = concat(url, " returned ", status);
        return Err(FerrumError::new(ErrorCode::PackageBackendFailed, m.as_str()));
    }
    if bytes > MAX_KEY_BYTES {
        let n = text::decimal_of(bytes as u64);
        let mut m = concat(url, " served ", n.as_str());
        m.append(" bytes, which is not a keyring");
        return Err(FerrumError::new(ErrorCode::PackageBackendFailed, m.as_str()));
    }
    Ok(())
}

// ---------------------------------------------------------------------------
// Laws
// ---------------------------------------------------------------------------

/// Nothing that a site runs on is removed under it.
pub proof fn law_no_site_loses_its_stack(component: StackComponent, sites: Seq<Site>, i: int)
    requires
        removal_refusal(component, sites) is None,
        0 <= i < sites.len(),
    ensures
        component != StackComponent::Nginx,
        component matches StackComponent::Php { version } ==> sites[i].php_version != Some(version),
{
    if let StackComponent::Php { version } = component {
        if sites[i].php_version == Some(version) {
            lemma_dependents(sites, version, i);
        }
    }
}

proof fn lemma_dependents(sites: Seq<Site>, version: PhpVersion, i: int)
    requires
        0 <= i < sites.len(),
        sites[i].php_version == Some(version),
    ensures
        dependents(sites, version).len() > 0,
    decreases sites.len(),
{
    if i < sites.len() - 1 {
        lemma_dependents(sites.drop_last(), version, i);
    }
}

/// No package is installed before its repository's key was fetched and the
/// repository added, and no service starts before its packages are there and it
/// was prepared.
pub proof fn law_trust_comes_before_packages(
    component: StackComponent,
    family: Family,
    reports: Seq<bool>,
)
    ensures
        ({
            let c = Course::fresh(
                install_steps(component, family),
                seq![InstallStep::RecordFailure],
            );
            let done = c.performed(reports);
            &&& forall|i: int|
                0 <= i < done.len() && (#[trigger] done[i]) == InstallStep::InstallPackages ==> i == 3
                    && done[1] == InstallStep::FetchKey && reports[1] && done[2]
                    == InstallStep::AddRepository && reports[2]
            &&& forall|i: int|
                0 <= i < done.len() && (#[trigger] done[i]) == InstallStep::EnableUnit ==> i > 3
                    && done[3] == InstallStep::InstallPackages && reports[3]
            &&& c.after_all(reports).failed && c.after_all(reports).next() is Failed ==> done.last()
                == InstallStep::RecordFailure
        }),
{
    let steps = install_steps(component, family);
    let undo = seq![InstallStep::RecordFailure];
    let c = Course::fresh(steps, undo);
    let done = c.performed(reports);
    let n = procedure::law_what_was_performed(steps, undo, reports);
    lemma_install_steps(component, family);
    assert forall|i: int| 0 <= i < done.len() && (#[trigger] done[i]) == InstallStep::InstallPackages implies i
        == 3 && done[1] == InstallStep::FetchKey && reports[1] && done[2]
        == InstallStep::AddRepository && reports[2] by {
        if i < n {
            assert(done[i] == steps[i].0);
            assert(i == 3);
            assert(done[1] == steps[1].0);
            assert(done[2] == steps[2].0);
        }
    }
    assert forall|i: int| 0 <= i < done.len() && (#[trigger] done[i]) == InstallStep::EnableUnit implies i
        > 3 && done[3] == InstallStep::InstallPackages && reports[3] by {
        if i < n {
            assert(done[i] == steps[i].0);
            assert(i > 3);
            assert(done[3] == steps[3].0);
        }
    }
    if c.after_all(reports).failed && c.after_all(reports).next() is Failed {
        assert(done[done.len() - 1] == undo[done.len() - 1 - n]);
    }
}

proof fn lemma_install_steps(component: StackComponent, family: Family)
    ensures
        ({
            let steps = install_steps(component, family);
            &&& steps.len() >= 6
            &&& steps[0] == (InstallStep::AddPrerequisites, false)
            &&& steps[1] == (InstallStep::FetchKey, false)
            &&& steps[2] == (InstallStep::AddRepository, false)
            &&& steps[3] == (InstallStep::InstallPackages, false)
            &&& forall|i: int|
                3 < i < steps.len() ==> (#[trigger] steps[i]).0 != InstallStep::InstallPackages
        }),
{
}

/// Waiting for a database ends: with as many failures as there are attempts it is
/// given up, and with fewer it is asked again. No wait is longer than the longest,
/// and all together they take forty-two and a half seconds at most.
pub proof fn law_every_wait_is_bounded(n: nat)
    ensures
        patience(n) is None <==> n >= PROBE_ATTEMPTS,
        patience(n) matches Some(ms) ==> FIRST_DELAY_MS <= ms <= LONGEST_DELAY_MS,
        waited(n) <= 42_500,
        n >= PROBE_ATTEMPTS ==> waited(n) == 42_500,
    decreases n,
{
    lemma_delay(n);
    if n > PROBE_ATTEMPTS {
        law_every_wait_is_bounded((n - 1) as nat);
    } else {
        assert(delay_after(1) == 500);
        assert(delay_after(2) == 1_000);
        assert(delay_after(3) == 2_000);
        assert(delay_after(4) == 4_000);
        assert(waited(0) == 0);
        assert(waited(1) == 500);
        assert(waited(2) == 1_500);
        assert(waited(3) == 3_500);
        assert(waited(4) == 7_500);
        lemma_waited_on(n);
        lemma_waited_on(PROBE_ATTEMPTS as nat);
    }
}

/// From the fifth failure on every wait is the longest.
proof fn lemma_waited_on(n: nat)
    requires
        n <= PROBE_ATTEMPTS,
        delay_after(4) == 4_000,
        waited(4) == 7_500,
    ensures
        n >= 5 ==> delay_after(n) == LONGEST_DELAY_MS,
        4 <= n < PROBE_ATTEMPTS ==> waited(n) == 7_500 + LONGEST_DELAY_MS * (n - 4),
        n == PROBE_ATTEMPTS ==> waited(n) == 42_500,
    decreases n,
{
    if n > 4 {
        lemma_waited_on((n - 1) as nat);
    }
}

/// Making a directory traversable grants the right to pass and no other: every
/// other bit of its mode stays, and doing it again changes nothing.
pub proof fn law_traversal_is_all_that_is_granted(mode: u32)
    ensures
        (((mode & 0o7777u32) | 1u32) & 0o7776u32) == (mode & 0o7776u32),
        ((mode & 0o7777u32) | 1u32) & 0o7777u32 & 1u32 != 0,
{
    assert((((mode & 0o7777u32) | 1u32) & 0o7776u32) == (mode & 0o7776u32)) by (bit_vector);
    assert(((mode & 0o7777u32) | 1u32) & 0o7777u32 & 1u32 != 0) by (bit_vector);
}

} // verus!
