use ferrum_ops::error::{ErrorCode, FerrumError};
use ferrum_ops::model::{
    AuthContext, LinuxUser, Permission, Plan, Role, Subscription, SubscriptionStatus, TenantScope,
};
use ferrum_ops::terminal::session::{
    helper_argv, AuditDetail, Ended, Limits, OutputChunk, Scrollback, TerminalRegistry,
};
use ferrum_ops::terminal::{Account, AccountSource, Facts, Holdings, SessionPlan, TerminalTarget};

/// An account database of one entry.
struct OneAccount {
    user: String,
    uid: u32,
    gid: u32,
}

impl AccountSource for OneAccount {
    fn lookup(&self, linux_user: &str) -> Option<Account> {
        if linux_user != self.user {
            return None;
        }
        Some(Account {
            uid: self.uid,
            gid: self.gid,
            home: format!("/home/{linux_user}"),
            shell: "/bin/bash".to_string(),
        })
    }
}

/// A second, in nanoseconds.
const SECOND: i128 = 1_000_000_000;

fn accounts(user: &str, uid: u32, gid: u32) -> OneAccount {
    OneAccount { user: user.to_string(), uid, gid }
}

fn auth_for(id: i64, role: Role) -> AuthContext {
    AuthContext {
        actor_user_id: id,
        acting_role: role,
        tenant_scope: match role {
            Role::Admin => TenantScope::Global,
            Role::Reseller => TenantScope::Reseller { reseller_id: id },
            Role::Customer => TenantScope::Customer { customer_id: id },
        },
        permissions: vec![Permission::TerminalAccess],
        impersonator_id: None,
        request_id: "req-test".to_string(),
    }
}

fn subscription(id: i64, user: &str, status: SubscriptionStatus) -> Subscription {
    Subscription {
        id,
        customer_id: 2,
        plan_id: None,
        linux_user: user.to_string(),
        home_dir: format!("/home/{user}"),
        status,
        suspended_reason: None,
    }
}

fn plan(can_ssh: bool) -> Plan {
    Plan {
        id: 1,
        owner_user_id: None,
        name: format!("plan-1-ssh-{can_ssh}"),
        max_sites: 10,
        max_dbs: 10,
        storage_mb: 1024,
        can_ssh,
        can_cron: true,
        can_node_apps: false,
    }
}

const USER: &str = "ft_tenant12";
const MINE: TerminalTarget = TerminalTarget::Tenant { subscription_id: None };

fn facts() -> Facts {
    Facts {
        installed_shells: vec!["/bin/bash".to_string()],
        held: Holdings {
            named: None,
            mine: vec![subscription(1, USER, SubscriptionStatus::Active)],
        },
        plan: Some(plan(true)),
    }
}

fn admin() -> AuthContext {
    auth_for(1, Role::Admin)
}

fn customer() -> AuthContext {
    auth_for(2, Role::Customer)
}

/// The shell a test watches, and the trail it leaves.
#[derive(Default)]
struct Machine {
    spawns: usize,
    written: Vec<u8>,
    killed: bool,
    audit: Vec<String>,
}

impl Machine {
    /// Opens a session as it is opened for real: the row, then the shell, then
    /// the table.
    fn open(
        &mut self,
        reg: &mut TerminalRegistry,
        id: u128,
        auth: &AuthContext,
        target: &TerminalTarget,
        starts: bool,
        now: i128,
    ) -> Result<u64, FerrumError> {
        let opening = reg.open(&accounts(USER, 5001, 5001), id, auth, target, &facts())?;
        self.audit.push(opening.entry().action.clone());
        let spawning = reg.audited(opening, Ok(()))?;
        self.spawns += 1;
        let spawned =
            if starts { Ok(()) } else { Err(FerrumError::internal("no shell for you")) };
        reg.started(spawning, spawned, now)
    }

    fn write(&mut self, reg: &mut TerminalRegistry, id: u128, data: &[u8], now: i128) {
        if reg.write(id, now) {
            self.written.extend_from_slice(data);
        }
    }

    fn end(&mut self, over: Ended) {
        self.killed = true;
        self.audit.push(over.entry.action);
    }

    fn closes(&self) -> usize {
        self.audit.iter().filter(|a| *a == "terminal.close").count()
    }
}

#[test]
fn the_audit_row_is_written_before_the_shell_starts() {
    let mut m = Machine::default();
    let mut reg = TerminalRegistry::new(Limits::default());
    let err = m.open(&mut reg, 1, &admin(), &TerminalTarget::Root, false, 0).unwrap_err();
    assert_eq!(err.code, ErrorCode::Internal);
    assert_eq!(m.spawns, 1);
    assert!(
        m.audit.contains(&"terminal.open".to_string()),
        "the attempt must be on the record even though no shell started: {:?}",
        m.audit
    );
    assert!(reg.is_empty(), "a failed spawn must leave no session");
    assert!(reg.check_slot(1, 1).is_ok(), "and no slot");
}

#[test]
fn a_session_that_cannot_be_audited_is_not_started() {
    let limits = Limits { max_sessions: 1, ..Limits::default() };
    let mut reg = TerminalRegistry::new(limits);
    let opening = reg
        .open(&accounts(USER, 5001, 5001), 1, &admin(), &TerminalTarget::Root, &facts())
        .ok()
        .unwrap();
    let err = reg.audited(opening, Err("disk full".to_string())).err().unwrap();
    assert_eq!(err.code, ErrorCode::Internal);
    assert_eq!(err.detail, "refusing to open a terminal that cannot be audited: disk full");
    assert!(reg.check_slot(1, 1).is_ok(), "its slot is free again");
}

#[test]
fn a_refused_session_never_reaches_the_spawner() {
    let mut m = Machine::default();
    let mut reg = TerminalRegistry::new(Limits::default());
    let err = m.open(&mut reg, 1, &customer(), &TerminalTarget::Root, true, 0).unwrap_err();
    assert_eq!(err.code, ErrorCode::PermissionDenied);
    assert_eq!(m.spawns, 0);
    assert!(m.audit.is_empty());
}

#[test]
fn a_root_session_start_and_end_are_both_audited() {
    let mut m = Machine::default();
    let mut reg = TerminalRegistry::new(Limits::default());
    m.open(&mut reg, 1, &admin(), &TerminalTarget::Root, true, 100 * SECOND).unwrap();
    let handle = reg.for_owner(1, &admin()).ok().unwrap();
    assert!(handle.info.is_root);
    assert_eq!(handle.info.account, "root");
    assert_eq!(handle.id(), 1);
    assert_eq!(handle.info.opened_at, 100 * SECOND);

    let over = reg.close(1, &admin(), "closed by the operator", 107 * SECOND + 1).ok().unwrap().unwrap();
    assert_eq!(over.entry.target.as_deref(), Some("root"));
    assert_eq!(over.entry.actor_username, "1");
    match &over.entry.detail {
        AuditDetail::Closed { session, root, reason, seconds } => {
            assert_eq!((*session, *root, *seconds), (1, true, 7));
            assert_eq!(reason, "closed by the operator");
        }
        other => panic!("expected a closing row, got {other:?}"),
    }
    m.end(over);
    assert!(m.audit.contains(&"terminal.open".to_string()));
    assert!(m.audit.contains(&"terminal.close".to_string()));
    assert!(reg.is_empty());
}

#[test]
fn a_customer_with_can_ssh_gets_a_shell_as_their_own_account() {
    let mut m = Machine::default();
    let mut reg = TerminalRegistry::new(Limits::default());
    m.open(&mut reg, 1, &customer(), &MINE, true, 0).unwrap();
    let handle = reg.for_owner(1, &customer()).ok().unwrap();
    assert!(!handle.info.is_root, "a customer must never get root");
    assert_eq!(handle.info.account, USER);
}

#[test]
fn concurrent_sessions_are_capped_per_server_and_per_account() {
    let limits = Limits { max_sessions: 2, max_per_user: 1, ..Limits::default() };
    let mut m = Machine::default();
    let mut reg = TerminalRegistry::new(limits);
    m.open(&mut reg, 1, &admin(), &TerminalTarget::Root, true, 0).unwrap();
    let err = m.open(&mut reg, 2, &admin(), &TerminalTarget::Root, true, 0).unwrap_err();
    assert_eq!(err.code, ErrorCode::RateLimited);

    // A second account fills the server-wide budget…
    m.open(&mut reg, 3, &customer(), &MINE, true, 0).unwrap();
    assert_eq!(reg.len(), 2);

    // …and now nobody gets another one.
    let third = auth_for(9, Role::Admin);
    let err = m.open(&mut reg, 4, &third, &TerminalTarget::Root, true, 0).unwrap_err();
    assert_eq!(err.code, ErrorCode::RateLimited);

    // An id that is taken is refused before any count.
    let err = reg.check_slot(1, 9).unwrap_err();
    assert_eq!(err.code, ErrorCode::Conflict);
}

#[test]
fn a_session_belongs_to_the_account_that_opened_it() {
    let mut m = Machine::default();
    let mut reg = TerminalRegistry::new(Limits::default());
    m.open(&mut reg, 1, &admin(), &TerminalTarget::Root, true, 0).unwrap();

    let err = reg.for_owner(1, &customer()).err().unwrap();
    assert_eq!(err.code, ErrorCode::NotFound);
    let err = reg.close(1, &customer(), "nope", 0).err().unwrap();
    assert_eq!(err.code, ErrorCode::NotFound);
    assert_eq!(reg.len(), 1, "the session must still be running");
}

#[test]
fn an_idle_session_is_closed_by_the_sweep() {
    let limits = Limits { idle: 0, ..Limits::default() };
    let mut m = Machine::default();
    let mut reg = TerminalRegistry::new(limits);
    m.open(&mut reg, 1, &admin(), &TerminalTarget::Root, true, 0).unwrap();

    let over = reg.sweep(0);
    assert_eq!(over.len(), 1);
    for e in over {
        m.end(e);
    }
    assert!(reg.is_empty());
    assert!(m.audit.contains(&"terminal.close".to_string()));
}

#[test]
fn a_busy_session_still_hits_the_lifetime_ceiling() {
    let limits = Limits { idle: 3600 * SECOND as u128, max_lifetime: 0, ..Limits::default() };
    let mut m = Machine::default();
    let mut reg = TerminalRegistry::new(limits);
    m.open(&mut reg, 1, &admin(), &TerminalTarget::Root, true, 0).unwrap();
    m.write(&mut reg, 1, b"still here\n", 0);
    assert_eq!(reg.sweep(0).len(), 1);
    assert!(reg.is_empty());
}

#[test]
fn a_sweep_ends_exactly_what_is_over() {
    let mut m = Machine::default();
    let mut reg = TerminalRegistry::new(Limits::default());
    m.open(&mut reg, 1, &admin(), &TerminalTarget::Root, true, 0).unwrap();
    m.open(&mut reg, 2, &admin(), &TerminalTarget::Root, true, 0).unwrap();
    let third = m.open(&mut reg, 3, &admin(), &TerminalTarget::Root, true, 0).unwrap();
    m.write(&mut reg, 2, b"x", 899 * SECOND);
    reg.exited(third);
    assert_eq!(reg.sweep(899 * SECOND).len(), 1, "only the one whose shell is gone");
    assert_eq!(reg.sweep(900 * SECOND).len(), 1, "the idle one");
    assert!(reg.for_owner(2, &admin()).is_ok());
    assert!(reg.for_owner(1, &admin()).is_err());
    assert_eq!(reg.len(), 1);
}

#[test]
fn output_is_replayed_to_a_client_that_reconnects() {
    let mut m = Machine::default();
    let mut reg = TerminalRegistry::new(Limits::default());
    let shell = m.open(&mut reg, 1, &admin(), &TerminalTarget::Root, true, 0).unwrap();
    reg.print(shell, b"first\n".to_vec()).unwrap();
    reg.print(shell, b"second\n".to_vec()).unwrap();

    let replay = reg.for_owner(1, &admin()).ok().unwrap().attach();
    let text: Vec<u8> = replay.iter().flat_map(|c| c.data.iter().copied()).collect();
    assert_eq!(String::from_utf8_lossy(&text), "first\nsecond\n");
    assert_eq!(replay.first().map(|c| c.seq), Some(1));

    let next = reg.print(shell, b"third\n".to_vec()).unwrap();
    assert_eq!(String::from_utf8_lossy(&next.data), "third\n");
    assert_eq!(next.seq, 3, "sequence numbers must continue across an attach");
    assert!(reg.print(reg.next_number(), b"nobody\n".to_vec()).is_none());
}

#[test]
fn the_scrollback_ring_drops_old_chunks_rather_than_growing() {
    let limits = Limits { scrollback_bytes: 16, ..Limits::default() };
    let mut m = Machine::default();
    let mut reg = TerminalRegistry::new(limits);
    let shell = m.open(&mut reg, 1, &admin(), &TerminalTarget::Root, true, 0).unwrap();
    for i in 0..10u8 {
        reg.print(shell, vec![b'a' + i; 8]).unwrap();
    }
    let replay = reg.for_owner(1, &admin()).ok().unwrap().attach();
    let total: usize = replay.iter().map(|c| c.data.len()).sum();
    assert!(total <= 16, "the ring kept {total} bytes");
    assert!(!replay.is_empty(), "the ring must keep the most recent output");
    assert_eq!(replay.last().map(|c| c.seq), Some(10));
}

#[test]
fn a_shell_speaks_for_its_own_session_though_its_id_comes_again() {
    let mut m = Machine::default();
    let mut reg = TerminalRegistry::new(Limits::default());
    let first = m.open(&mut reg, 1, &admin(), &TerminalTarget::Root, true, 0).unwrap();
    reg.print(first, b"one\n".to_vec()).unwrap();
    let mut over = reg.close(1, &admin(), "done", 1).ok().unwrap().unwrap();
    assert_eq!(over.session.number(), first);

    // The id is free again, and the new session is another.
    let second = m.open(&mut reg, 1, &admin(), &TerminalTarget::Root, true, 2).unwrap();
    assert_ne!(first, second);
    assert!(reg.print(first, b"late\n".to_vec()).is_none());
    reg.exited(first);
    let session = reg.for_owner(1, &admin()).ok().unwrap();
    assert_eq!(session.number(), second);
    assert!(!session.is_closed(), "the end of the first shell is not the end of the second");
    assert!(session.attach().is_empty());

    // What the first shell still prints goes on where it was, for who watches it.
    let late = over.session.print(b"late\n".to_vec());
    assert_eq!((late.seq, late.data.as_slice()), (2, &b"late\n"[..]));
    assert_eq!(reg.print(second, b"two\n".to_vec()).unwrap().seq, 1);
}

#[test]
fn numbers_are_given_in_order_and_to_entered_sessions_only() {
    let mut m = Machine::default();
    let mut reg = TerminalRegistry::new(Limits::default());
    assert_eq!(reg.next_number(), 0);
    assert_eq!(m.open(&mut reg, 7, &admin(), &TerminalTarget::Root, true, 0).unwrap(), 0);
    assert!(m.open(&mut reg, 8, &admin(), &TerminalTarget::Root, false, 0).is_err());
    assert_eq!(reg.next_number(), 1);
    assert_eq!(m.open(&mut reg, 8, &admin(), &TerminalTarget::Root, true, 0).unwrap(), 1);
    assert_eq!(reg.sweep(900 * SECOND).len(), 2);
    assert_eq!(m.open(&mut reg, 7, &admin(), &TerminalTarget::Root, true, 0).unwrap(), 2);
}

#[test]
fn keystrokes_reach_the_shell_and_stop_when_it_is_closed() {
    let mut m = Machine::default();
    let mut reg = TerminalRegistry::new(Limits::default());
    m.open(&mut reg, 1, &admin(), &TerminalTarget::Root, true, 0).unwrap();
    m.write(&mut reg, 1, b"whoami\n", 1);
    assert_eq!(m.written, b"whoami\n");

    let mut over = reg.close(1, &admin(), "done", 2).ok().unwrap().unwrap();
    assert!(over.session.is_closed());
    assert!(!over.session.resize());
    assert!(!over.session.write(3));
    m.end(over);
    assert!(m.killed);
    m.write(&mut reg, 1, b"rm -rf /\n", 3);
    assert_eq!(m.written, b"whoami\n", "a closed session must not forward another byte");
}

#[test]
fn closing_a_session_twice_is_not_an_error() {
    let mut m = Machine::default();
    let mut reg = TerminalRegistry::new(Limits::default());
    m.open(&mut reg, 1, &admin(), &TerminalTarget::Root, true, 0).unwrap();
    for reason in ["first", "second"] {
        if let Some(over) = reg.close(1, &admin(), reason, 1).ok().unwrap() {
            m.end(over);
        }
    }
    assert_eq!(m.closes(), 1, "an idempotent close must not double the trail");
}

#[test]
fn a_shell_that_exits_on_its_own_is_still_killed_and_still_audited() {
    let mut m = Machine::default();
    let mut reg = TerminalRegistry::new(Limits::default());
    let shell = m.open(&mut reg, 1, &admin(), &TerminalTarget::Root, true, 0).unwrap();
    reg.exited(shell);
    assert!(reg.for_owner(1, &admin()).ok().unwrap().is_closed());
    m.write(&mut reg, 1, b"too late", 1);
    assert!(m.written.is_empty());

    if let Some(over) = reg.close(1, &admin(), "reaped", 1).ok().unwrap() {
        m.end(over);
    }
    assert!(m.killed, "the pty must be torn down even though the shell went first");
    assert_eq!(m.closes(), 1, "exactly one closing row, and never zero");
}

#[test]
fn the_helper_argv_names_no_program_and_no_shell_flag_for_root() {
    let root = SessionPlan::Root { home: "/root".to_string(), shell: "/bin/bash".to_string() };
    let argv = helper_argv(&root);
    assert_eq!(argv[0], "--pty-helper");
    assert!(argv.contains(&"--root".to_string()));
    assert!(!argv.contains(&"--uid".to_string()));

    let tenant = SessionPlan::Tenant {
        uid: 5001,
        gid: 5001,
        linux_user: LinuxUser::parse("ft_demo").unwrap(),
        subscription_id: 1,
        home: "/home/ft_demo".to_string(),
        shell: "/bin/bash".to_string(),
    };
    let argv = helper_argv(&tenant);
    assert!(!argv.contains(&"--root".to_string()));
    assert_eq!(argv[argv.iter().position(|a| a == "--uid").unwrap() + 1], "5001");
}

#[test]
fn openings_under_way_count_against_the_limits() {
    let limits = Limits { max_sessions: 2, max_per_user: 1, ..Limits::default() };
    let mut reg = TerminalRegistry::new(limits);
    let accounts = accounts(USER, 5001, 5001);
    let root = TerminalTarget::Root;
    let first = reg.open(&accounts, 1, &admin(), &root, &facts()).ok().unwrap();
    assert!(reg.is_empty(), "nothing is live yet");

    // The same id, the same user, and then the whole server are full.
    let code = |r: Result<_, FerrumError>| r.map(|_: ()| ()).unwrap_err().code;
    let err = reg.open(&accounts, 1, &admin(), &root, &facts()).err().unwrap();
    assert_eq!(err.code, ErrorCode::Conflict);
    let err = reg.open(&accounts, 2, &admin(), &root, &facts()).err().unwrap();
    assert_eq!(err.code, ErrorCode::RateLimited);
    let second = reg.open(&accounts, 3, &customer(), &MINE, &facts()).ok().unwrap();
    let third = auth_for(9, Role::Admin);
    assert_eq!(code(reg.check_slot(4, third.actor_user_id)), ErrorCode::RateLimited);

    // Both are entered, in whichever order they come.
    let second = reg.audited(second, Ok(())).ok().unwrap();
    let first = reg.audited(first, Ok(())).ok().unwrap();
    assert!(reg.started(second, Ok(()), 0).is_ok());
    assert!(reg.started(first, Ok(()), 0).is_ok());
    assert_eq!(reg.len(), 2);
    assert_eq!(code(reg.check_slot(4, third.actor_user_id)), ErrorCode::RateLimited);

    // One that ends makes room.
    assert!(reg.close(3, &customer(), "done", 0).ok().unwrap().is_some());
    assert!(reg.check_slot(4, third.actor_user_id).is_ok());
}

#[test]
fn a_slot_that_was_given_back_is_not_entered() {
    let mut reg = TerminalRegistry::new(Limits::default());
    let accounts = accounts(USER, 5001, 5001);
    let opening =
        reg.open(&accounts, 1, &admin(), &TerminalTarget::Root, &facts()).ok().unwrap();
    let spawning = reg.audited(opening, Ok(())).ok().unwrap();
    reg.release(1);
    let err = reg.started(spawning, Ok(()), 0).unwrap_err();
    assert_eq!(err.code, ErrorCode::NotFound);
    assert!(reg.is_empty());
    reg.release(1);
}

#[test]
fn a_sessions_age_is_counted_from_its_instant_and_its_silence_by_the_clock() {
    // Opened at 10.9 s and looked at at 11.1 s: it is no second old, though the
    // clock has gone on by one.
    let (opened, asked) = (10_900_000_000, 11_100_000_000);
    let old = Limits { idle: 3600 * SECOND as u128, max_lifetime: 1, ..Limits::default() };
    let quiet = Limits { idle: SECOND as u128, ..Limits::default() };
    for (limits, over) in [(old, 0), (quiet, 1)] {
        let mut m = Machine::default();
        let mut reg = TerminalRegistry::new(limits);
        m.open(&mut reg, 1, &admin(), &TerminalTarget::Root, true, opened).unwrap();
        assert_eq!(reg.sweep(asked).len(), over);
    }
    // A limit is not rounded.
    let fine = Limits { idle: 1_500_000_000, ..Limits::default() };
    let mut m = Machine::default();
    let mut reg = TerminalRegistry::new(fine);
    m.open(&mut reg, 1, &admin(), &TerminalTarget::Root, true, -1).unwrap();
    assert_eq!(reg.sweep(0).len(), 0, "one second by the clock");
    assert_eq!(reg.sweep(SECOND).len(), 1, "two");
}

#[test]
fn a_ring_of_any_size_takes_what_it_is_given() {
    let mut ring = Scrollback::new(usize::MAX);
    let chunk = |seq, data: &[u8]| OutputChunk { seq, data: std::sync::Arc::new(data.to_vec()) };
    ring.push(chunk(1, b"a"));
    ring.push(chunk(2, b"b"));
    assert_eq!(ring.replay().len(), 2);
    let mut small = Scrollback::new(3);
    small.push(chunk(1, b"ab"));
    small.push(chunk(2, b"c"));
    small.push(chunk(3, b"d"));
    assert_eq!(small.replay().iter().map(|c| c.seq).collect::<Vec<_>>(), vec![2, 3]);
    small.push(chunk(4, b"long"));
    assert!(small.replay().is_empty(), "a chunk that is longer than the ring leaves nothing");
}

#[test]
fn the_account_that_is_looked_up_is_the_subscriptions() {
    // With an account of another name only, there is none for this tenant.
    let mut reg = TerminalRegistry::new(Limits::default());
    let err = reg
        .open(&accounts("nobody", 5001, 5001), 1, &customer(), &MINE, &facts())
        .err()
        .unwrap();
    assert_eq!(err.code, ErrorCode::NotFound);
    assert!(reg.check_slot(1, 2).is_ok(), "a refused opening holds no slot");
}
