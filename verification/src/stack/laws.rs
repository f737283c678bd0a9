//! What every component is, needs and leaves behind.
use vstd::prelude::*;
use crate::error;
use crate::error::ErrorCode;
use crate::model;
use crate::model::{Family, PhpVersion, Site};
use crate::stack;
use crate::stack::{ComponentRow, InstallStep, NginxStep, RemoveStep, StackComponent};

verus! {

/// What components are called by callers, in rows and to people.
pub proof fn law_what_components_are_called(v: PhpVersion)
    ensures
        StackComponent::Nginx.called() == "nginx"@,
        (StackComponent::Php { version: v }).called() == "php"@,
        StackComponent::Mariadb.called() == "mariadb"@,
        StackComponent::Postgres.called() == "postgres"@,
        StackComponent::Nginx.key() == "nginx"@,
        (StackComponent::Php { version: v }).key() == "php"@ + v.dotted(),
        StackComponent::Mariadb.key() == "mariadb"@,
        StackComponent::Postgres.key() == "postgres"@,
        StackComponent::Nginx.label() == "Nginx"@,
        (StackComponent::Php { version: v }).label() == "PHP "@ + v.dotted(),
        StackComponent::Mariadb.label() == "MariaDB "@ + "11.8"@,
        StackComponent::Postgres.label() == "PostgreSQL "@ + "17"@,
{
}

proof fn lemma_first_letters(c: StackComponent)
    ensures
        c.key().len() >= 3,
        c.key()[0] == 'n' <==> c is Nginx,
        c.key()[0] == 'm' <==> c is Mariadb,
        c.key()[1] == 'o' <==> c is Postgres,
        c.key()[1] == 'h' <==> c is Php,
{
    reveal_strlit("nginx");
    reveal_strlit("php");
    reveal_strlit("mariadb");
    reveal_strlit("postgres");
    if let StackComponent::Php { version } = c {
        assert(c.key()[0] == "php"@[0]);
        assert(c.key()[1] == "php"@[1]);
    }
}

/// No two components share a key, so that no row speaks of two.
pub proof fn law_components_are_told_apart(a: StackComponent, b: StackComponent)
    requires
        a.key() == b.key(),
    ensures
        a == b,
{
    reveal_strlit("php");
    lemma_first_letters(a);
    lemma_first_letters(b);
    if let StackComponent::Php { version: v } = a {
        if let StackComponent::Php { version: w } = b {
            assert(a.key().skip(3) =~= v.dotted());
            assert(b.key().skip(3) =~= w.dotted());
            model::laws::law_versions_read_back(v);
            model::laws::law_versions_read_back(w);
        }
    }
}

/// A component is asked for exactly by its name, and PHP with one of the known versions.
pub proof fn law_how_components_are_asked_for(
    c: StackComponent,
    name: Seq<char>,
    version: Option<&str>,
    known: Seq<PhpVersion>,
)
    ensures
        c.asked_for(name, version, known) <==> match c {
            StackComponent::Nginx => name == "nginx"@,
            StackComponent::Mariadb => name == "mariadb"@,
            StackComponent::Postgres => name == "postgres"@,
            StackComponent::Php { version: v } => name == "php"@ && known.contains(v) && version
                is Some && version->0@ == v.dotted(),
        },
        stack::unknown_component(name, version).code == ErrorCode::InvalidInput,
        stack::unknown_component(name, version).field is None,
{
}

/// What is listed: nginx, every version, and both databases, each once and nothing else.
pub proof fn law_every_component_is_listed(versions: Seq<PhpVersion>, c: StackComponent)
    ensures
        stack::all_components(versions).contains(c) <==> match c {
            StackComponent::Php { version } => versions.contains(version),
            _ => true,
        },
        stack::all_components(versions).len() == versions.len() + 3,
{
    let all = stack::all_components(versions);
    let n = versions.len() as int;
    match c {
        StackComponent::Nginx => {
            assert(all[0] == c);
        },
        StackComponent::Mariadb => {
            assert(all[n + 1] == c);
        },
        StackComponent::Postgres => {
            assert(all[n + 2] == c);
        },
        StackComponent::Php { version } => {
            if versions.contains(version) {
                let i = choose|i: int| 0 <= i < versions.len() && versions[i] == version;
                assert(all[i + 1] == c);
            }
            if all.contains(c) {
                let i = choose|i: int| 0 <= i < all.len() && all[i] == c;
                assert(0 < i <= n);
                assert(all[i] == (StackComponent::Php { version: versions[i - 1] }));
                assert(versions[i - 1] == version);
            }
        },
    }
}

/// The row of a component is the first of its key, wherever it stands.
pub proof fn law_the_first_row_counts(rows: Seq<ComponentRow>, key: Seq<char>, i: int)
    ensures
        0 <= i < rows.len() && rows[i].slug@ == key && (forall|j: int|
            0 <= j < i ==> (#[trigger] rows[j]).slug@ != key) ==> stack::row_of(rows, key) == Some(
            i,
        ),
        (forall|j: int| 0 <= j < rows.len() ==> (#[trigger] rows[j]).slug@ != key)
            ==> stack::row_of(rows, key) is None,
    decreases rows.len(),
{
    if rows.len() > 0 {
        let front = rows.drop_last();
        let n = rows.len() - 1;
        assert forall|j: int| 0 <= j < n implies front[j] == #[trigger] rows[j] by {}
        law_the_first_row_counts(front, key, i);
        if forall|j: int| 0 <= j < n ==> (#[trigger] rows[j]).slug@ != key {
            assert forall|j: int| 0 <= j < front.len() implies (#[trigger] front[j]).slug@ != key by {
                assert(rows[j].slug@ != key);
            }
        }
        if 0 <= i < n && forall|j: int| 0 <= j < i ==> (#[trigger] rows[j]).slug@ != key {
            assert forall|j: int| 0 <= j < i implies (#[trigger] front[j]).slug@ != key by {
                assert(rows[j].slug@ != key);
            }
        }
    }
}

/// The packages of each component.
pub proof fn law_what_packages_there_are(php: Seq<Seq<char>>, v: PhpVersion, family: Family)
    ensures
        StackComponent::Nginx.package_names(family, php) == seq!["nginx"@],
        (StackComponent::Php { version: v }).package_names(family, php) == php,
        StackComponent::Mariadb.package_names(Family::Debian, php) == seq![
            "mariadb-server"@,
            "mariadb-client"@,
            "mariadb-backup"@,
            "mariadb-server-compat"@,
            "mariadb-client-compat"@,
        ],
        StackComponent::Mariadb.package_names(Family::Rhel, php) == seq![
            "MariaDB-server"@,
            "MariaDB-client"@,
            "MariaDB-backup"@,
            "MariaDB-server-compat"@,
            "MariaDB-client-compat"@,
        ],
        StackComponent::Postgres.package_names(Family::Debian, php) == seq![
            "postgresql-17"@,
            "postgresql-client-17"@,
        ],
        StackComponent::Postgres.package_names(Family::Rhel, php) == seq![
            "postgresql17-server"@,
            "postgresql17"@,
            "postgresql17-contrib"@,
        ],
{
    reveal_strlit("17");
    reveal_strlit("postgresql-");
    reveal_strlit("postgresql-client-");
    reveal_strlit("postgresql-17");
    reveal_strlit("postgresql-client-17");
    reveal_strlit("postgresql");
    reveal_strlit("-server");
    reveal_strlit("-contrib");
    reveal_strlit("postgresql17");
    reveal_strlit("postgresql17-server");
    reveal_strlit("postgresql17-contrib");
    assert("postgresql-"@ + "17"@ =~= "postgresql-17"@);
    assert("postgresql-client-"@ + "17"@ =~= "postgresql-client-17"@);
    assert("postgresql"@ + "17"@ =~= "postgresql17"@);
    assert("postgresql"@ + "17"@ + "-server"@ =~= "postgresql17-server"@);
    assert("postgresql"@ + "17"@ + "-contrib"@ =~= "postgresql17-contrib"@);
}

/// What installing performs: trust and packages first, the service last, and between
/// them what the component needs, no more and no less.
pub proof fn law_what_installing_performs(c: StackComponent, family: Family)
    ensures
        ({
            let s = stack::install_steps(c, family);
            let n = s.len() as int;
            &&& s.take(4) == seq![
                (InstallStep::AddPrerequisites, false),
                (InstallStep::FetchKey, false),
                (InstallStep::AddRepository, false),
                (InstallStep::InstallPackages, false),
            ]
            &&& s.skip(n - 2) == seq![
                (InstallStep::EnableUnit, false),
                (InstallStep::WaitUntilReady, false),
            ]
            &&& c is Nginx ==> s.subrange(4, n - 2) == seq![(InstallStep::BootstrapNginx, false)]
            &&& c is Php ==> s.subrange(4, n - 2) == seq![(InstallStep::RetireStockPool, true)]
            &&& c is Postgres ==> s.subrange(4, n - 2) == seq![
                (InstallStep::BootstrapPostgres, false),
            ]
            &&& c is Mariadb && family == Family::Debian ==> s.subrange(4, n - 2) == seq![
                (InstallStep::HardenMariadb, false),
            ]
            &&& c is Mariadb && family == Family::Rhel ==> s.subrange(4, n - 2) == seq![
                (InstallStep::HardenMariadb, false),
                (InstallStep::WarnAboutSelinux, true),
            ]
        }),
{
    let s = stack::install_steps(c, family);
    let n = s.len() as int;
    assert(s.take(4) =~= seq![
        (InstallStep::AddPrerequisites, false),
        (InstallStep::FetchKey, false),
        (InstallStep::AddRepository, false),
        (InstallStep::InstallPackages, false),
    ]);
    assert(s.skip(n - 2) =~= seq![
        (InstallStep::EnableUnit, false),
        (InstallStep::WaitUntilReady, false),
    ]);
    assert(s.subrange(4, n - 2) =~= stack::preparation(c, family));
}

/// What setting nginx up performs: a certificate only where there is none, the hook before
/// the whole tree is tested, and the ports last, without which all the rest stands.
pub proof fn law_what_setting_nginx_up_performs(present: bool)
    ensures
        ({
            let s = stack::nginx_steps(present);
            let rest = seq![
                (NginxStep::CreateChallengeDirectory, false),
                (NginxStep::MakeStateTraversable, false),
                (NginxStep::OpenWebroot, false),
                (NginxStep::OpenChallengeDirectory, false),
                (NginxStep::CreateLogDirectory, false),
                (NginxStep::ApplyHook, false),
                (NginxStep::ApplyDefaultServer, false),
                (NginxStep::OpenWebPorts, true),
            ];
            &&& present ==> s == rest
            &&& !present ==> s == seq![(NginxStep::WriteDefaultCertificate, false)] + rest
        }),
        stack::WEBROOT_MODE == 0o755,
        stack::remove_steps() == seq![
            (RemoveStep::DisableUnit, true),
            (RemoveStep::RemovePackages, false),
        ],
{
}

/// Which database is asked how whether it is ready; nothing else is asked.
pub proof fn law_how_readiness_is_asked(c: StackComponent, family: Family)
    ensures
        stack::probe_command(c, family) is Some <==> c is Mariadb || c is Postgres,
        c is Mariadb ==> stack::probe_command(c, family) == Some(
            seq![
                "mariadb"@,
                "--no-defaults"@,
                "--protocol=socket"@,
                "--user=root"@,
                "--connect-timeout=3"@,
                "--execute"@,
                "SELECT 1"@,
            ],
        ),
        c is Postgres && family == Family::Debian ==> stack::probe_command(c, family) == Some(
            seq!["pg_isready"@, "--quiet"@],
        ),
        c is Postgres && family == Family::Rhel ==> stack::probe_command(c, family) == Some(
            seq!["/usr/pgsql-17/bin/pg_isready"@, "--quiet"@],
        ),
        stack::cluster_marker() == "/var/lib/pgsql/17/data/PG_VERSION"@,
        stack::initdb_command() == seq!["/usr/pgsql-17/bin/postgresql-17-setup"@, "initdb"@],
{
    reveal_strlit("17");
    reveal_strlit("/usr/pgsql-");
    reveal_strlit("/bin/pg_isready");
    reveal_strlit("/usr/pgsql-17/bin/pg_isready");
    reveal_strlit("/var/lib/pgsql/");
    reveal_strlit("/data/PG_VERSION");
    reveal_strlit("/var/lib/pgsql/17/data/PG_VERSION");
    reveal_strlit("/bin/postgresql-");
    reveal_strlit("-setup");
    reveal_strlit("/usr/pgsql-17/bin/postgresql-17-setup");
    assert("/usr/pgsql-"@ + "17"@ + "/bin/pg_isready"@ =~= "/usr/pgsql-17/bin/pg_isready"@);
    assert("/var/lib/pgsql/"@ + "17"@ + "/data/PG_VERSION"@
        =~= "/var/lib/pgsql/17/data/PG_VERSION"@);
    assert("/usr/pgsql-"@ + "17"@ + "/bin/postgresql-"@ + "17"@ + "-setup"@
        =~= "/usr/pgsql-17/bin/postgresql-17-setup"@);
}

/// The waits: half a second, then twice as long each time, and never more than five; there
/// are eleven of them, after which it is given up.
pub proof fn law_how_long_each_wait_is(n: nat)
    ensures
        stack::patience(1) == Some(500nat),
        stack::patience(2) == Some(1000nat),
        stack::patience(3) == Some(2000nat),
        stack::patience(4) == Some(4000nat),
        5 <= n < 12 ==> stack::patience(n) == Some(5000nat),
        n >= 12 ==> stack::patience(n) is None,
    decreases n,
{
    assert(stack::delay_after(1) == 500);
    assert(stack::delay_after(2) == 1000);
    assert(stack::delay_after(3) == 2000);
    assert(stack::delay_after(4) == 4000);
    if 5 < n < 12 {
        law_how_long_each_wait_is((n - 1) as nat);
    }
}

/// Whoever uses a version is found, each in their order.
pub proof fn law_who_depends_on_a_version(sites: Seq<Site>, more: Site, version: PhpVersion)
    ensures
        stack::dependents(Seq::<Site>::empty(), version) == Seq::<Seq<char>>::empty(),
        more.php_version == Some(version) ==> stack::dependents(sites.push(more), version)
            == stack::dependents(sites, version).push(more.domain@),
        more.php_version != Some(version) ==> stack::dependents(sites.push(more), version)
            == stack::dependents(sites, version),
{
    assert(sites.push(more).drop_last() =~= sites);
}

proof fn lemma_some_dependent(sites: Seq<Site>, version: PhpVersion)
    ensures
        stack::dependents(sites, version).len() > 0 <==> exists|i: int|
            0 <= i < sites.len() && (#[trigger] sites[i]).php_version == Some(version),
    decreases sites.len(),
{
    if sites.len() > 0 {
        let front = sites.drop_last();
        lemma_some_dependent(front, version);
        if stack::dependents(front, version).len() > 0 {
            let i = choose|i: int|
                0 <= i < front.len() && (#[trigger] front[i]).php_version == Some(version);
            assert(sites[i].php_version == Some(version));
        }
        if exists|i: int| 0 <= i < sites.len() && (#[trigger] sites[i]).php_version == Some(
            version,
        ) {
            let i = choose|i: int|
                0 <= i < sites.len() && (#[trigger] sites[i]).php_version == Some(version);
            if i < front.len() {
                assert(front[i].php_version == Some(version));
            }
        }
        if sites.last().php_version == Some(version) {
            assert(sites[sites.len() - 1].php_version == Some(version));
        }
    }
}

/// A component may be removed exactly if nothing depends on it: nginx while there is no
/// site, a version while no site is on it, a database at any time.
pub proof fn law_what_may_be_removed(c: StackComponent, sites: Seq<Site>)
    ensures
        ({
            let needed = match c {
                StackComponent::Nginx => sites.len() > 0,
                StackComponent::Php { version } => exists|i: int|
                    0 <= i < sites.len() && (#[trigger] sites[i]).php_version == Some(version),
                _ => false,
            };
            &&& !needed ==> stack::removal_refusal(c, sites) is None
            &&& needed ==> error::objects(
                stack::removal_refusal(c, sites),
                ErrorCode::DependentsExist,
                None,
            )
        }),
{
    if let StackComponent::Php { version } = c {
        lemma_some_dependent(sites, version);
    }
}

/// How much of a key server's answer is taken, and how long it is waited for.
pub proof fn law_what_bounds_a_key(url: Seq<char>)
    ensures
        stack::MAX_KEY_BYTES == 1024 * 1024,
        stack::KEY_TIMEOUT_SECS == 30,
        stack::busy(StackComponent::Nginx).code == ErrorCode::Conflict,
        stack::never_ready(StackComponent::Nginx, url).code == ErrorCode::ServiceActionFailed,
{
}

} // verus!
