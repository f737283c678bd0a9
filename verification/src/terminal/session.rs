//! Live terminal sessions: the table, the limits, and the order of things.
//!
//! A session is opened in three steps that follow from one another: an
//! [`Opening`] is authorised and holds a slot, a [`Spawning`] has also been
//! recorded in the audit trail, and only a [`Spawning`] becomes an entry of the
//! table. So no shell starts that is not on record, and the table with the slots
//! that are held never goes past its limits, however many openings are under way.
//!
//! Instants are nanoseconds since the Unix epoch, spans of time are nanoseconds.
use std::collections::VecDeque;
use std::sync::Arc;
use vstd::prelude::*;
use vstd::string::StringExecFns;
use crate::error;
use crate::error::{ErrorCode, FerrumError, Problem};
use crate::model::AuthContext;
use crate::terminal;
use crate::terminal::{Account, AccountSource, Facts, Grant, SessionPlan, TerminalTarget};
use crate::text;

pub mod laws;

verus! {

// ---------------------------------------------------------------------------
// Limits
// ---------------------------------------------------------------------------

/// The bounds every session lives inside. Times are in nanoseconds.
#[derive(Debug, Clone, Copy, PartialEq, Eq, Structural)]
pub struct Limits {
    pub max_sessions: usize,
    pub max_per_user: usize,
    pub idle: u128,
    pub max_lifetime: u128,
    pub scrollback_bytes: usize,
}

impl Default for Limits {
    fn default() -> (r: Self)
        ensures
            r == (Limits {
                max_sessions: 8,
                max_per_user: 3,
                idle: 900_000_000_000,
                max_lifetime: 28_800_000_000_000,
                scrollback_bytes: 131072,
            }),
    {
        Limits {
            max_sessions: 8,
            max_per_user: 3,
            idle: 900_000_000_000,
            max_lifetime: 28_800_000_000_000,
            scrollback_bytes: 131072,
        }
    }
}

// ---------------------------------------------------------------------------
// Scrollback
// ---------------------------------------------------------------------------

/// One piece of what a shell printed, numbered from one.
#[derive(Debug)]
pub struct OutputChunk {
    pub seq: u64,
    pub data: Arc<Vec<u8>>,
}

/// An [`OutputChunk`] as contracts see it.
#[verifier::ext_equal]
pub struct Chunk {
    pub seq: u64,
    pub data: Seq<u8>,
}

impl View for OutputChunk {
    type V = Chunk;

    open spec fn view(&self) -> Chunk {
        Chunk { seq: self.seq, data: self.data@ }
    }
}

impl Clone for OutputChunk {
    fn clone(&self) -> (r: Self)
        ensures
            r@ == self@,
    {
        OutputChunk { seq: self.seq, data: self.data.clone() }
    }
}

pub open spec fn chunks(v: Seq<OutputChunk>) -> Seq<Chunk> {
    v.map_values(|c: OutputChunk| c@)
}

/// How many bytes some chunks hold.
pub open spec fn total(s: Seq<Chunk>) -> nat
    decreases s.len(),
{
    if s.len() == 0 {
        0
    } else {
        s[0].data.len() + total(s.skip(1))
    }
}

/// The longest end of `s`, in whole chunks, that holds at most `cap` bytes.
pub open spec fn recent(s: Seq<Chunk>, cap: nat) -> Seq<Chunk>
    decreases s.len(),
{
    if s.len() > 0 && total(s) > cap {
        recent(s.skip(1), cap)
    } else {
        s
    }
}

proof fn lemma_total_push(s: Seq<Chunk>, c: Chunk)
    ensures
        total(s.push(c)) == total(s) + c.data.len(),
    decreases s.len(),
{
    if s.len() == 0 {
        assert(s.push(c).skip(1) =~= s);
        assert(total(s.push(c).skip(1)) == 0);
    } else {
        assert(s.push(c).skip(1) =~= s.skip(1).push(c));
        lemma_total_push(s.skip(1), c);
    }
}

/// A chunk that is longer than the ring leaves nothing in it.
proof fn lemma_recent_too_long(s: Seq<Chunk>, c: Chunk, cap: nat)
    requires
        c.data.len() > cap,
    ensures
        recent(s.push(c), cap) == Seq::<Chunk>::empty(),
    decreases s.len(),
{
    lemma_total_push(s, c);
    if s.len() == 0 {
        assert(s.push(c).skip(1) =~= Seq::<Chunk>::empty());
        assert(recent(Seq::<Chunk>::empty(), cap) == Seq::<Chunk>::empty());
    } else {
        assert(s.push(c).skip(1) =~= s.skip(1).push(c));
        lemma_recent_too_long(s.skip(1), c, cap);
    }
}

/// A ring of recent output of a fixed size, replayed to whoever attaches.
///
/// Chunks are dropped whole, so that what is replayed is the end of what was
/// printed.
pub struct Scrollback {
    chunks: VecDeque<OutputChunk>,
    bytes: usize,
    cap: usize,
}

impl View for Scrollback {
    type V = Seq<Chunk>;

    closed spec fn view(&self) -> Seq<Chunk> {
        chunks(self.chunks@)
    }
}

impl Scrollback {
    pub closed spec fn limit(&self) -> nat {
        self.cap as nat
    }

    pub closed spec fn wf(&self) -> bool {
        self.bytes == total(self@) && self.bytes <= self.cap
    }

    pub fn new(cap: usize) -> (r: Scrollback)
        ensures
            r.wf(),
            r@ == Seq::<Chunk>::empty(),
            r.limit() == cap,
    {
        let r = Scrollback { chunks: VecDeque::new(), bytes: 0, cap };
        assert(chunks(r.chunks@) =~= Seq::<Chunk>::empty());
        r
    }

    /// Adds a chunk and drops as many of the oldest as do not fit any more.
    pub fn push(&mut self, chunk: OutputChunk)
        requires
            old(self).wf(),
        ensures
            final(self).wf(),
            final(self).limit() == old(self).limit(),
            final(self)@ == recent(old(self)@.push(chunk@), old(self).limit()),
    {
        let ghost all = self@.push(chunk@);
        let ghost was = self.limit();
        let n: usize = chunk.data.len();
        if n > self.cap {
            self.chunks.clear();
            self.bytes = 0;
            proof {
                lemma_recent_too_long(all.drop_last(), chunk@, was);
                assert(all.drop_last().push(chunk@) =~= all);
                assert(self@ =~= Seq::<Chunk>::empty());
            }
            return;
        }
        while self.bytes > self.cap - n
            invariant
                n == chunk@.data.len(),
                n <= self.cap,
                self.bytes == total(chunks(self.chunks@)),
                self.cap == was,
                recent(chunks(self.chunks@).push(chunk@), was) == recent(all, was),
            decreases self.chunks@.len(),
        {
            let ghost here = self.chunks@;
            match self.chunks.pop_front() {
                Some(dropped) => {
                    proof {
                        lemma_total_push(chunks(here), chunk@);
                        assert(chunks(here)[0] == dropped@);
                        assert(chunks(self.chunks@) =~= chunks(here).skip(1));
                        assert(chunks(here).push(chunk@).skip(1) =~= chunks(here).skip(1).push(
                            chunk@,
                        ));
                    }
                    self.bytes = self.bytes - dropped.data.len();
                },
                None => {
                    assert(chunks(here).len() == 0);
                },
            }
        }
        let ghost kept = self.chunks@;
        proof {
            lemma_total_push(chunks(kept), chunk@);
        }
        self.bytes = self.bytes + n;
        self.chunks.push_back(chunk);
        assert(chunks(self.chunks@) =~= chunks(kept).push(chunk@));
    }

    /// Everything in the ring, oldest first.
    pub fn replay(&self) -> (r: Vec<OutputChunk>)
        ensures
            chunks(r@) == self@,
    {
        let mut out: Vec<OutputChunk> = Vec::new();
        let mut i: usize = 0;
        assert(chunks(out@) =~= chunks(self.chunks@).take(0));
        while i < self.chunks.len()
            invariant
                i <= self.chunks@.len(),
                chunks(out@) == chunks(self.chunks@).take(i as int),
            decreases self.chunks@.len() - i,
        {
            let ghost before = out@;
            let c = self.chunks[i].clone();
            out.push(c);
            assert(chunks(out@) =~= chunks(before).push(c@));
            assert(chunks(out@) =~= chunks(self.chunks@).take(i + 1));
            i = i + 1;
        }
        assert(chunks(out@) =~= self@);
        out
    }
}

/// What a ring of `cap` bytes holds after some chunks were pushed in order.
pub open spec fn ring_after(all: Seq<Chunk>, cap: nat) -> Seq<Chunk>
    decreases all.len(),
{
    if all.len() == 0 {
        all
    } else {
        recent(ring_after(all.drop_last(), cap).push(all.last()), cap)
    }
}

proof fn lemma_recent_push(s: Seq<Chunk>, c: Chunk, cap: nat)
    ensures
        recent(recent(s, cap).push(c), cap) == recent(s.push(c), cap),
    decreases s.len(),
{
    if s.len() > 0 && total(s) > cap {
        lemma_total_push(s, c);
        assert(s.push(c).skip(1) =~= s.skip(1).push(c));
        lemma_recent_push(s.skip(1), c, cap);
    }
}

/// A replay is an end of what was printed, fits in the ring, and leaves out
/// only what does not fit.
pub proof fn law_a_replay_is_the_recent_output(all: Seq<Chunk>, cap: nat)
    ensures
        ring_after(all, cap) == recent(all, cap),
        recent(all, cap).len() <= all.len(),
        recent(all, cap) == all.skip(all.len() - recent(all, cap).len()),
        total(recent(all, cap)) <= cap,
        recent(all, cap).len() < all.len() ==> total(
            all.skip(all.len() - recent(all, cap).len() - 1),
        ) > cap,
    decreases all.len(),
{
    if all.len() > 0 {
        law_a_replay_is_the_recent_output(all.drop_last(), cap);
        lemma_recent_push(all.drop_last(), all.last(), cap);
        assert(all.drop_last().push(all.last()) =~= all);
    }
    lemma_recent(all, cap);
}

proof fn lemma_recent(s: Seq<Chunk>, cap: nat)
    ensures
        recent(s, cap).len() <= s.len(),
        recent(s, cap) == s.skip(s.len() - recent(s, cap).len()),
        total(recent(s, cap)) <= cap,
        recent(s, cap).len() < s.len() ==> total(s.skip(s.len() - recent(s, cap).len() - 1)) > cap,
    decreases s.len(),
{
    if s.len() > 0 && total(s) > cap {
        lemma_recent(s.skip(1), cap);
        let n = recent(s, cap).len();
        assert(s.skip(1).skip(s.len() - 1 - n) =~= s.skip(s.len() - n));
        if n < s.len() - 1 {
            assert(s.skip(1).skip(s.len() - 1 - n - 1) =~= s.skip(s.len() - n - 1));
        } else {
            assert(s.skip(0) =~= s);
        }
    } else {
        assert(s.skip(0) =~= s);
        assert(s.len() == 0 ==> total(s) == 0);
    }
}

// ---------------------------------------------------------------------------
// The audit trail
// ---------------------------------------------------------------------------

/// What an audit row says beyond who and what.
#[derive(Debug)]
pub enum AuditDetail {
    Opened { session: u128, root: bool, shell: String, subscription_id: Option<i64> },
    Closed { session: u128, root: bool, reason: String, seconds: u128 },
}

/// One row of the audit trail.
#[derive(Debug)]
pub struct AuditEntry {
    pub actor_user_id: Option<i64>,
    pub actor_username: String,
    pub impersonator_id: Option<i64>,
    pub action: String,
    pub target: Option<String>,
    pub detail: AuditDetail,
    pub request_id: Option<String>,
    pub subscription_id: Option<i64>,
}

pub open spec fn account_of(g: Grant) -> Seq<char> {
    match g {
        Grant::Root { .. } => "root"@,
        Grant::Tenant { linux_user, .. } => linux_user,
    }
}

pub open spec fn shell_of(g: Grant) -> Seq<char> {
    match g {
        Grant::Root { shell, .. } => shell,
        Grant::Tenant { shell, .. } => shell,
    }
}

pub open spec fn home_of(g: Grant) -> Seq<char> {
    match g {
        Grant::Root { home, .. } => home,
        Grant::Tenant { home, .. } => home,
    }
}

pub open spec fn subscription_of(g: Grant) -> Option<i64> {
    match g {
        Grant::Root { .. } => None,
        Grant::Tenant { subscription_id, .. } => Some(subscription_id),
    }
}

/// The row that goes on record before a shell starts.
pub open spec fn records_open(e: AuditEntry, id: u128, auth: AuthContext, g: Grant) -> bool {
    &&& e.actor_user_id == Some(auth.actor_user_id)
    &&& e.actor_username@ == text::signed_decimal(auth.actor_user_id as int)
    &&& e.impersonator_id == auth.impersonator_id
    &&& e.action@ == "terminal.open"@
    &&& error::opt_text(e.target) == Some(account_of(g))
    &&& error::opt_text(e.request_id) == Some(auth.request_id@)
    &&& e.subscription_id == subscription_of(g)
    &&& e.detail matches AuditDetail::Opened { session, root, shell, subscription_id }
    &&& session == id
    &&& root == (g is Root)
    &&& shell@ == shell_of(g)
    &&& subscription_id == subscription_of(g)
}

/// The row that goes on record when a session has ended.
pub open spec fn records_close(e: AuditEntry, s: Live, why: Seq<char>, now: i128) -> bool {
    &&& e.actor_user_id == Some(s.owner)
    &&& e.actor_username@ == text::signed_decimal(s.owner as int)
    &&& e.impersonator_id is None
    &&& e.action@ == "terminal.close"@
    &&& error::opt_text(e.target) == Some(s.account)
    &&& e.request_id is None
    &&& e.subscription_id is None
    &&& e.detail matches AuditDetail::Closed { session, root, reason, seconds }
    &&& session == s.id
    &&& root == s.is_root
    &&& reason@ == why
    &&& seconds == elapsed(now, s.opened_at)
}

/// Whole seconds from `then` to `now`, none if `then` has not come yet.
pub open spec fn elapsed(now: i128, then: i128) -> int {
    if now <= then {
        0
    } else {
        (now - then) / 1_000_000_000
    }
}

/// The second of the Unix clock that an instant falls in.
pub open spec fn unix_second(now: i128) -> i128 {
    (now as int / 1_000_000_000) as i128
}

/// Seconds of the Unix clock since the one that a keystroke fell in.
pub open spec fn quiet(now: i128, last_input: i128) -> int {
    if unix_second(now) <= last_input {
        0
    } else {
        unix_second(now) - last_input
    }
}

/// Whether some seconds are as long as a limit in nanoseconds.
pub open spec fn reaches(seconds: int, limit: u128) -> bool {
    seconds * 1_000_000_000 >= limit
}

fn difference(a: i128, b: i128) -> (r: u128)
    requires
        a > b,
    ensures
        r == a - b,
{
    if a < 0 || b >= 0 {
        (a - b) as u128
    } else {
        a as u128 + (-(b + 1)) as u128 + 1
    }
}

fn seconds_between(now: i128, then: i128) -> (r: u128)
    ensures
        r == elapsed(now, then),
{
    if now <= then {
        0
    } else {
        difference(now, then) / 1_000_000_000
    }
}

fn unix_second_of(now: i128) -> (r: i128)
    ensures
        r == unix_second(now),
        r == now as int / 1_000_000_000,
{
    if now >= 0 {
        (now as u128 / 1_000_000_000) as i128
    } else {
        let n: u128 = (-(now + 1)) as u128;
        -((n / 1_000_000_000) as i128) - 1
    }
}

fn reaches_limit(seconds: u128, limit: u128) -> (r: bool)
    ensures
        r == reaches(seconds as int, limit),
{
    let whole: u128 = limit / 1_000_000_000;
    if limit % 1_000_000_000 == 0 {
        seconds >= whole
    } else {
        seconds > whole
    }
}

// ---------------------------------------------------------------------------
// Sessions
// ---------------------------------------------------------------------------

/// What is told of a session.
#[derive(Debug)]
pub struct SessionInfo {
    pub id: u128,
    pub owner: i64,
    /// `root`, or the tenant's Linux account.
    pub account: String,
    pub is_root: bool,
    pub opened_at: i128,
}

/// A live session.
pub struct SessionHandle {
    pub info: SessionInfo,
    number: u64,
    scrollback: Scrollback,
    printed: u64,
    /// The second of the Unix clock of the last keystroke.
    last_input: i128,
    closed: bool,
}

/// A [`SessionHandle`] as contracts see it.
#[verifier::ext_equal]
pub struct Live {
    pub id: u128,
    /// Which session it is of all that were entered, from nought. An id may come
    /// again once its session is over; a number does not.
    pub number: u64,
    pub owner: i64,
    pub account: Seq<char>,
    pub is_root: bool,
    pub opened_at: i128,
    /// The second of the Unix clock of the last keystroke.
    pub last_input: i128,
    pub closed: bool,
    /// What is replayed to whoever attaches.
    pub ring: Seq<Chunk>,
    pub cap: nat,
    /// How many chunks were printed.
    pub printed: u64,
}

impl View for SessionHandle {
    type V = Live;

    closed spec fn view(&self) -> Live {
        Live {
            id: self.info.id,
            number: self.number,
            owner: self.info.owner,
            account: self.info.account@,
            is_root: self.info.is_root,
            opened_at: self.info.opened_at,
            last_input: self.last_input,
            closed: self.closed,
            ring: self.scrollback@,
            cap: self.scrollback.limit(),
            printed: self.printed,
        }
    }
}

impl SessionHandle {
    pub closed spec fn wf(&self) -> bool {
        self.scrollback.wf()
    }

    pub fn id(&self) -> (r: u128)
        ensures
            r == self@.id,
    {
        self.info.id
    }

    pub fn number(&self) -> (r: u64)
        ensures
            r == self@.number,
    {
        self.number
    }

    pub fn is_closed(&self) -> (r: bool)
        ensures
            r == self@.closed,
    {
        self.closed
    }

    /// Whether keystrokes go to the shell; if so the idle clock starts anew.
    pub fn write(&mut self, now: i128) -> (r: bool)
        requires
            old(self).wf(),
        ensures
            final(self).wf(),
            r == !old(self)@.closed,
            final(self)@ == (if r {
                Live { last_input: unix_second(now), ..old(self)@ }
            } else {
                old(self)@
            }),
    {
        if self.closed {
            return false;
        }
        self.last_input = unix_second_of(now);
        true
    }

    /// Whether a resize goes to the shell.
    pub fn resize(&self) -> (r: bool)
        ensures
            r == !self@.closed,
    {
        !self.closed
    }

    /// What a new watcher is shown first.
    pub fn attach(&self) -> (r: Vec<OutputChunk>)
        ensures
            chunks(r@) == self@.ring,
    {
        self.scrollback.replay()
    }

    /// Takes in what the shell printed and numbers it.
    pub fn print(&mut self, data: Vec<u8>) -> (r: OutputChunk)
        requires
            old(self).wf(),
            old(self)@.printed < u64::MAX,
        ensures
            final(self).wf(),
            r@ == (Chunk { seq: (old(self)@.printed + 1) as u64, data: data@ }),
            final(self)@ == (Live {
                ring: recent(old(self)@.ring.push(r@), old(self)@.cap),
                printed: r@.seq,
                ..old(self)@
            }),
    {
        self.printed = self.printed + 1;
        let chunk = OutputChunk { seq: self.printed, data: Arc::new(data) };
        self.scrollback.push(chunk.clone());
        chunk
    }

    /// The shell is gone.
    pub fn exited(&mut self)
        requires
            old(self).wf(),
        ensures
            final(self).wf(),
            final(self)@ == (Live { closed: true, ..old(self)@ }),
    {
        self.closed = true;
    }

    fn idle_for(&self, now: i128) -> (r: u128)
        ensures
            r == quiet(now, self@.last_input),
    {
        let second: i128 = unix_second_of(now);
        if second <= self.last_input {
            0
        } else {
            difference(second, self.last_input)
        }
    }

    fn age(&self, now: i128) -> (r: u128)
        ensures
            r == elapsed(now, self@.opened_at),
    {
        seconds_between(now, self.info.opened_at)
    }
}

/// Why a session is over, if it is.
pub open spec fn overdue(limits: Limits, s: Live, now: i128) -> Option<Seq<char>> {
    if s.closed {
        Some("the shell exited"@)
    } else if reaches(quiet(now, s.last_input), limits.idle) {
        Some("idle timeout"@)
    } else if reaches(elapsed(now, s.opened_at), limits.max_lifetime) {
        Some("maximum session lifetime reached"@)
    } else {
        None
    }
}

// ---------------------------------------------------------------------------
// The table
// ---------------------------------------------------------------------------

/// A place in the table: the id of a session and whose it is.
#[derive(Debug, Clone, Copy, PartialEq, Eq, Structural)]
pub struct Slot {
    pub id: u128,
    pub owner: i64,
}

/// Every live session, and the slots held for those that are being opened.
pub struct TerminalRegistry {
    limits: Limits,
    sessions: Vec<SessionHandle>,
    reserved: Vec<Slot>,
    entered: u64,
}

pub open spec fn lives(v: Seq<SessionHandle>) -> Seq<Live> {
    v.map_values(|s: SessionHandle| s@)
}

pub open spec fn slot_of(s: Live) -> Slot {
    Slot { id: s.id, owner: s.owner }
}

/// The slots that are taken: by live sessions, and by those being opened.
pub open spec fn taken(t: Seq<Live>, held: Seq<Slot>) -> Seq<Slot> {
    t.map_values(|s: Live| slot_of(s)) + held
}

pub open spec fn has_id(t: Seq<Live>, id: u128) -> bool {
    exists|i: int| 0 <= i < t.len() && (#[trigger] t[i]).id == id
}

pub open spec fn has_number(t: Seq<Live>, number: u64) -> bool {
    exists|i: int| 0 <= i < t.len() && (#[trigger] t[i]).number == number
}

/// The sessions stand in the order in which they were entered, and none has a
/// number that was not given yet.
pub open spec fn numbered(t: Seq<Live>, entered: u64) -> bool {
    &&& forall|i: int| 0 <= i < t.len() ==> (#[trigger] t[i]).number < entered
    &&& forall|i: int, j: int|
        0 <= i < j < t.len() ==> (#[trigger] t[i]).number < (#[trigger] t[j]).number
}

proof fn lemma_numbered_remove(t: Seq<Live>, entered: u64, i: int)
    requires
        numbered(t, entered),
        0 <= i < t.len(),
    ensures
        numbered(t.remove(i), entered),
{
    let r = t.remove(i);
    assert forall|j: int| 0 <= j < r.len() implies (#[trigger] r[j]).number < entered by {
        assert(r[j] == t[if j < i { j } else { j + 1 }]);
    }
    assert forall|j: int, k: int| 0 <= j < k < r.len() implies (#[trigger] r[j]).number < (
    #[trigger] r[k]).number by {
        assert(r[j] == t[if j < i { j } else { j + 1 }]);
        assert(r[k] == t[if k < i { k } else { k + 1 }]);
    }
}

pub open spec fn has_slot(s: Seq<Slot>, id: u128) -> bool {
    exists|i: int| 0 <= i < s.len() && (#[trigger] s[i]).id == id
}

/// No two slots have the same id.
pub open spec fn distinct(s: Seq<Slot>) -> bool {
    forall|i: int, j: int|
        0 <= i < s.len() && 0 <= j < s.len() && (#[trigger] s[i]).id == (#[trigger] s[j]).id ==> i
            == j
}

/// How many slots a user has.
pub open spec fn owned(s: Seq<Slot>, owner: i64) -> nat
    decreases s.len(),
{
    if s.len() == 0 {
        0
    } else {
        owned(s.drop_last(), owner) + if s.last().owner == owner {
            1nat
        } else {
            0
        }
    }
}

/// No id is taken twice, there are no more slots than the server has, and no
/// user has more than a user may.
pub open spec fn within(limits: Limits, s: Seq<Slot>) -> bool {
    &&& distinct(s)
    &&& s.len() <= limits.max_sessions
    &&& forall|owner: i64| #[trigger] owned(s, owner) <= limits.max_per_user
}

/// Why there is no slot for another session, with the slots that are taken.
pub open spec fn slot_refusal(limits: Limits, s: Seq<Slot>, id: u128, owner: i64) -> Option<
    Problem,
> {
    if has_slot(s, id) {
        Some(
            error::problem(
                ErrorCode::Conflict,
                "that terminal session id is already in use"@,
            ),
        )
    } else if s.len() >= limits.max_sessions {
        Some(
            error::problem(
                ErrorCode::RateLimited,
                "too many terminal sessions are open on this server; close one and try again"@,
            ),
        )
    } else if owned(s, owner) >= limits.max_per_user {
        Some(
            error::problem(
                ErrorCode::RateLimited,
                "you already have the maximum number of terminal sessions open"@,
            ),
        )
    } else {
        None
    }
}

proof fn lemma_owned_add(a: Seq<Slot>, b: Seq<Slot>, owner: i64)
    ensures
        owned(a + b, owner) == owned(a, owner) + owned(b, owner),
    decreases b.len(),
{
    if b.len() == 0 {
        assert(a + b =~= a);
    } else {
        assert((a + b).drop_last() =~= a + b.drop_last());
        assert((a + b).last() == b.last());
        lemma_owned_add(a, b.drop_last(), owner);
    }
}

proof fn lemma_owned_insert(s: Seq<Slot>, i: int, x: Slot, owner: i64)
    requires
        0 <= i <= s.len(),
    ensures
        owned(s.insert(i, x), owner) == owned(s, owner) + if x.owner == owner {
            1nat
        } else {
            0
        },
{
    let a = s.take(i);
    let b = s.skip(i);
    assert(s =~= a + b);
    assert(s.insert(i, x) =~= a.push(x) + b);
    assert(a.push(x).drop_last() =~= a);
    lemma_owned_add(a, b, owner);
    lemma_owned_add(a.push(x), b, owner);
}

/// A slot less keeps the limits.
proof fn lemma_within_remove(limits: Limits, s: Seq<Slot>, i: int)
    requires
        within(limits, s),
        0 <= i < s.len(),
    ensures
        within(limits, s.remove(i)),
        !has_slot(s.remove(i), s[i].id),
        s.remove(i).len() < limits.max_sessions,
        owned(s.remove(i), s[i].owner) < limits.max_per_user,
{
    let r = s.remove(i);
    assert(r.insert(i, s[i]) =~= s);
    assert forall|owner: i64| #[trigger] owned(r, owner) <= limits.max_per_user by {
        lemma_owned_insert(r, i, s[i], owner);
        assert(owned(s, owner) <= limits.max_per_user);
    }
    lemma_owned_insert(r, i, s[i], s[i].owner);
    assert(owned(s, s[i].owner) <= limits.max_per_user);
    assert forall|j: int| 0 <= j < r.len() implies (#[trigger] r[j]).id != s[i].id by {
        let k = if j < i {
            j
        } else {
            j + 1
        };
        assert(r[j] == s[k]);
    }
    assert forall|j: int, k: int|
        0 <= j < r.len() && 0 <= k < r.len() && (#[trigger] r[j]).id == (#[trigger] r[k]).id
            implies j == k by {
        let a = if j < i {
            j
        } else {
            j + 1
        };
        let b = if k < i {
            k
        } else {
            k + 1
        };
        assert(s[a].id == s[b].id);
    }
}

/// A slot more keeps the limits, where none of them refuses it.
proof fn lemma_within_insert(limits: Limits, s: Seq<Slot>, i: int, x: Slot)
    requires
        within(limits, s),
        0 <= i <= s.len(),
        slot_refusal(limits, s, x.id, x.owner) is None,
    ensures
        within(limits, s.insert(i, x)),
{
    let r = s.insert(i, x);
    assert forall|owner: i64| #[trigger] owned(r, owner) <= limits.max_per_user by {
        lemma_owned_insert(s, i, x, owner);
        assert(owned(s, owner) <= limits.max_per_user);
    }
    assert forall|j: int, k: int|
        0 <= j < r.len() && 0 <= k < r.len() && (#[trigger] r[j]).id == (#[trigger] r[k]).id
            implies j == k by {
        let a = if j < i {
            j
        } else {
            j - 1
        };
        let b = if k < i {
            k
        } else {
            k - 1
        };
        if j != i {
            assert(r[j] == s[a]);
        }
        if k != i {
            assert(r[k] == s[b]);
        }
    }
}

/// A session that is authorised and holds a slot, and is to be put on record.
pub struct Opening {
    id: u128,
    owner: i64,
    plan: SessionPlan,
    entry: AuditEntry,
}

/// A session that is on record, and may be started.
pub struct Spawning {
    id: u128,
    owner: i64,
    plan: SessionPlan,
}

impl Opening {
    pub closed spec fn id(&self) -> u128 {
        self.id
    }

    pub closed spec fn owner(&self) -> i64 {
        self.owner
    }

    pub closed spec fn grant(&self) -> Grant {
        self.plan@
    }

    pub closed spec fn row(&self) -> AuditEntry {
        self.entry
    }

    /// What is to be put on record.
    pub fn entry(&self) -> (r: &AuditEntry)
        ensures
            *r == self.row(),
    {
        &self.entry
    }
}

impl Spawning {
    pub closed spec fn id(&self) -> u128 {
        self.id
    }

    pub closed spec fn owner(&self) -> i64 {
        self.owner
    }

    pub closed spec fn grant(&self) -> Grant {
        self.plan@
    }

    /// The slot that is held for it.
    pub open spec fn slot(&self) -> Slot {
        Slot { id: self.id(), owner: self.owner() }
    }

    pub fn plan(&self) -> (r: &SessionPlan)
        ensures
            r@ == self.grant(),
    {
        &self.plan
    }
}

/// A session that is over: its shell is to be killed and the row written.
pub struct Ended {
    pub session: SessionHandle,
    pub entry: AuditEntry,
}

/// The end of a session, for a reason.
pub open spec fn ends(e: Ended, s: Live, why: Seq<char>, now: i128) -> bool {
    &&& e.session@ == (Live { closed: true, ..s })
    &&& e.session.wf()
    &&& records_close(e.entry, s, why, now)
}

/// Puts the end of a session together.
fn finish(session: SessionHandle, reason: &str, now: i128) -> (r: Ended)
    requires
        session.wf(),
    ensures
        ends(r, session@, reason@, now),
{
    let mut session = session;
    let entry = AuditEntry {
        actor_user_id: Some(session.info.owner),
        actor_username: text::signed_decimal_of(session.info.owner),
        impersonator_id: None,
        action: "terminal.close".to_owned(),
        target: Some(session.info.account.as_str().to_owned()),
        detail: AuditDetail::Closed {
            session: session.info.id,
            root: session.info.is_root,
            reason: reason.to_owned(),
            seconds: seconds_between(now, session.info.opened_at),
        },
        request_id: None,
        subscription_id: None,
    };
    session.exited();
    Ended { session, entry }
}

/// The sessions that go on.
pub open spec fn survivors(limits: Limits, t: Seq<Live>, now: i128) -> Seq<Live>
    decreases t.len(),
{
    if t.len() == 0 {
        t
    } else if overdue(limits, t.last(), now) is Some {
        survivors(limits, t.drop_last(), now)
    } else {
        survivors(limits, t.drop_last(), now).push(t.last())
    }
}

/// The sessions that are over, in order.
pub open spec fn casualties(limits: Limits, t: Seq<Live>, now: i128) -> Seq<Live>
    decreases t.len(),
{
    if t.len() == 0 {
        t
    } else if overdue(limits, t.last(), now) is Some {
        casualties(limits, t.drop_last(), now).push(t.last())
    } else {
        casualties(limits, t.drop_last(), now)
    }
}

/// A sweep keeps the limits, at every step of it.
proof fn lemma_sweep(
    limits: Limits,
    t: Seq<Live>,
    held: Seq<Slot>,
    entered: u64,
    now: i128,
    n: int,
)
    requires
        within(limits, taken(t, held)),
        numbered(t, entered),
        0 <= n <= t.len(),
    ensures
        within(limits, taken(survivors(limits, t.take(n), now) + t.skip(n), held)),
        numbered(survivors(limits, t.take(n), now) + t.skip(n), entered),
    decreases n,
{
    if n == 0 {
        assert(survivors(limits, t.take(0), now) + t.skip(0) =~= t);
    } else {
        lemma_sweep(limits, t, held, entered, now, n - 1);
        let kept = survivors(limits, t.take(n - 1), now);
        let before = kept + t.skip(n - 1);
        assert(t.take(n).drop_last() =~= t.take(n - 1));
        assert(t.take(n).last() == t[n - 1]);
        if overdue(limits, t[n - 1], now) is Some {
            assert(survivors(limits, t.take(n), now) + t.skip(n) =~= before.remove(
                kept.len() as int,
            ));
            lemma_within_remove(limits, taken(before, held), kept.len() as int);
            lemma_numbered_remove(before, entered, kept.len() as int);
            assert(taken(before.remove(kept.len() as int), held) =~= taken(before, held).remove(
                kept.len() as int,
            ));
        } else {
            assert(survivors(limits, t.take(n), now) + t.skip(n) =~= before);
        }
    }
}

proof fn lemma_survivors(limits: Limits, t: Seq<Live>, now: i128)
    ensures
        forall|i: int|
            0 <= i < survivors(limits, t, now).len() ==> t.contains(
                #[trigger] survivors(limits, t, now)[i],
            ) && overdue(limits, survivors(limits, t, now)[i], now) is None,
    decreases t.len(),
{
    if t.len() > 0 {
        let before = t.drop_last();
        lemma_survivors(limits, before, now);
        let was = survivors(limits, before, now);
        let is = survivors(limits, t, now);
        assert forall|i: int| 0 <= i < is.len() implies t.contains(#[trigger] is[i]) && overdue(
            limits,
            is[i],
            now,
        ) is None by {
            if i < was.len() {
                assert(is[i] == was[i]);
                assert(before.contains(was[i]));
                let j = choose|j: int| 0 <= j < before.len() && before[j] == was[i];
                assert(t[j] == is[i]);
            } else {
                assert(t[t.len() - 1] == is[i]);
            }
        }
    }
}

/// The slots that are held, without the one of an id.
pub open spec fn given_back(held: Seq<Slot>, id: u128) -> Seq<Slot> {
    held.filter(|s: Slot| s.id != id)
}

proof fn lemma_given_back_absent(held: Seq<Slot>, id: u128)
    requires
        !has_slot(held, id),
    ensures
        given_back(held, id) == held,
    decreases held.len(),
{
    reveal(Seq::filter);
    if held.len() > 0 {
        assert(held[held.len() - 1].id != id);
        assert forall|i: int| 0 <= i < held.drop_last().len() implies (
        #[trigger] held.drop_last()[i]).id != id by {
            assert(held[i].id != id);
        }
        lemma_given_back_absent(held.drop_last(), id);
        assert(held.drop_last().push(held.last()) =~= held);
    }
}

proof fn lemma_given_back_at(held: Seq<Slot>, id: u128, i: int)
    requires
        distinct(held),
        0 <= i < held.len(),
        held[i].id == id,
    ensures
        given_back(held, id) == held.remove(i),
    decreases held.len(),
{
    reveal(Seq::filter);
    let before = held.drop_last();
    if i == held.len() - 1 {
        assert forall|j: int| 0 <= j < before.len() implies (#[trigger] before[j]).id != id by {
            assert(before[j] == held[j]);
        }
        lemma_given_back_absent(before, id);
        assert(held.remove(i) =~= before);
    } else {
        assert(held[held.len() - 1].id != id);
        assert forall|a: int, b: int|
            0 <= a < before.len() && 0 <= b < before.len() && (#[trigger] before[a]).id == (
            #[trigger] before[b]).id implies a == b by {
            assert(held[a].id == held[b].id);
        }
        lemma_given_back_at(before, id, i);
        assert(held.remove(i) =~= before.remove(i).push(held.last()));
    }
}

proof fn lemma_held_distinct(limits: Limits, t: Seq<Live>, held: Seq<Slot>)
    requires
        within(limits, taken(t, held)),
    ensures
        distinct(held),
{
    let all = taken(t, held);
    assert forall|i: int, j: int|
        0 <= i < held.len() && 0 <= j < held.len() && (#[trigger] held[i]).id == (
        #[trigger] held[j]).id implies i == j by {
        assert(all[t.len() + i].id == all[t.len() + j].id);
    }
}

proof fn lemma_has_slot(t: Seq<Live>, held: Seq<Slot>, id: u128)
    ensures
        has_slot(taken(t, held), id) <==> has_id(t, id) || has_slot(held, id),
{
    let all = taken(t, held);
    if has_id(t, id) {
        let i = choose|i: int| 0 <= i < t.len() && (#[trigger] t[i]).id == id;
        assert(all[i].id == id);
    }
    if has_slot(held, id) {
        let i = choose|i: int| 0 <= i < held.len() && (#[trigger] held[i]).id == id;
        assert(all[t.len() + i].id == id);
    }
    if has_slot(all, id) {
        let i = choose|i: int| 0 <= i < all.len() && (#[trigger] all[i]).id == id;
        if i < t.len() {
            assert(t[i].id == id);
        } else {
            assert(held[i - t.len()].id == id);
        }
    }
}

impl View for TerminalRegistry {
    type V = Seq<Live>;

    closed spec fn view(&self) -> Seq<Live> {
        lives(self.sessions@)
    }
}

impl TerminalRegistry {
    pub closed spec fn bounds(&self) -> Limits {
        self.limits
    }

    /// The slots of sessions that are being opened, oldest first.
    pub closed spec fn held(&self) -> Seq<Slot> {
        self.reserved@
    }

    /// How many sessions were entered so far: the number that the next one gets.
    pub closed spec fn entered(&self) -> u64 {
        self.entered
    }

    /// The slots that are taken keep the limits, no number was given twice, and
    /// every session is in order.
    pub closed spec fn wf(&self) -> bool {
        &&& within(self.limits, taken(self@, self.held()))
        &&& numbered(self@, self.entered)
        &&& forall|i: int| 0 <= i < self.sessions@.len() ==> (#[trigger] self.sessions@[i]).wf()
    }

    pub fn new(limits: Limits) -> (r: TerminalRegistry)
        ensures
            r.wf(),
            r@ == Seq::<Live>::empty(),
            r.held() == Seq::<Slot>::empty(),
            r.bounds() == limits,
            r.entered() == 0,
    {
        let r = TerminalRegistry {
            limits,
            sessions: Vec::new(),
            reserved: Vec::new(),
            entered: 0,
        };
        assert(r@ =~= Seq::<Live>::empty());
        assert(taken(r@, r.held()) =~= Seq::<Slot>::empty());
        r
    }

    pub fn limits(&self) -> (r: Limits)
        ensures
            r == self.bounds(),
    {
        self.limits
    }

    /// The number that the next session gets.
    pub fn next_number(&self) -> (r: u64)
        ensures
            r == self.entered(),
    {
        self.entered
    }

    pub fn len(&self) -> (r: usize)
        ensures
            r == self@.len(),
    {
        self.sessions.len()
    }

    pub fn is_empty(&self) -> (r: bool)
        ensures
            r == (self@.len() == 0),
    {
        self.sessions.len() == 0
    }

    fn find(&self, id: u128) -> (r: Option<usize>)
        ensures
            match r {
                Some(i) => i < self@.len() && self@[i as int].id == id,
                None => !has_id(self@, id),
            },
    {
        let mut i: usize = 0;
        while i < self.sessions.len()
            invariant
                i <= self.sessions@.len(),
                forall|j: int| 0 <= j < i ==> (#[trigger] self@[j]).id != id,
            decreases self.sessions@.len() - i,
        {
            assert(self@[i as int] == self.sessions@[i as int]@);
            if self.sessions[i].info.id == id {
                return Some(i);
            }
            i = i + 1;
        }
        None
    }

    fn find_number(&self, number: u64) -> (r: Option<usize>)
        ensures
            match r {
                Some(i) => i < self@.len() && self@[i as int].number == number,
                None => !has_number(self@, number),
            },
    {
        let mut i: usize = 0;
        while i < self.sessions.len()
            invariant
                i <= self.sessions@.len(),
                forall|j: int| 0 <= j < i ==> (#[trigger] self@[j]).number != number,
            decreases self.sessions@.len() - i,
        {
            assert(self@[i as int] == self.sessions@[i as int]@);
            if self.sessions[i].number == number {
                return Some(i);
            }
            i = i + 1;
        }
        None
    }

    fn find_reserved(&self, id: u128) -> (r: Option<usize>)
        ensures
            match r {
                Some(i) => i < self.held().len() && self.held()[i as int].id == id,
                None => !has_slot(self.held(), id),
            },
    {
        let mut i: usize = 0;
        while i < self.reserved.len()
            invariant
                i <= self.reserved@.len(),
                forall|j: int| 0 <= j < i ==> (#[trigger] self.held()[j]).id != id,
            decreases self.reserved@.len() - i,
        {
            if self.reserved[i].id == id {
                return Some(i);
            }
            i = i + 1;
        }
        None
    }

    /// How many slots are taken: one for each live session, and one for each
    /// that is being opened.
    fn count_taken(&self) -> (r: usize)
        requires
            self.wf(),
        ensures
            r == taken(self@, self.held()).len(),
    {
        self.sessions.len() + self.reserved.len()
    }

    fn count_owned(&self, owner: i64) -> (r: usize)
        requires
            self.wf(),
        ensures
            r == owned(taken(self@, self.held()), owner),
    {
        let ghost all = taken(self@, self.held());
        let mut n: usize = 0;
        let mut i: usize = 0;
        assert(all.take(0) =~= Seq::<Slot>::empty());
        while i < self.sessions.len()
            invariant
                i <= self.sessions@.len(),
                n <= i,
                all == taken(self@, self.held()),
                n == owned(all.take(i as int), owner),
            decreases self.sessions@.len() - i,
        {
            let ghost next = all.take(i + 1);
            assert(next.drop_last() =~= all.take(i as int));
            assert(next.last() == slot_of(self.sessions@[i as int]@));
            if self.sessions[i].info.owner == owner {
                n = n + 1;
            }
            i = i + 1;
        }
        let mut j: usize = 0;
        while j < self.reserved.len()
            invariant
                j <= self.reserved@.len(),
                i == self.sessions@.len(),
                n <= i + j,
                all == taken(self@, self.held()),
                all.len() == self.sessions@.len() + self.reserved@.len(),
                all.len() <= usize::MAX,
                n == owned(all.take(i + j), owner),
            decreases self.reserved@.len() - j,
        {
            let ghost next = all.take(i + j + 1);
            assert(next.drop_last() =~= all.take(i + j));
            assert(next.last() == self.reserved@[j as int]);
            if self.reserved[j].owner == owner {
                n = n + 1;
            }
            j = j + 1;
        }
        assert(all.take(i + j) =~= all);
        n
    }

    /// Whether there is a slot for another session.
    pub fn check_slot(&self, id: u128, owner: i64) -> (r: Result<(), FerrumError>)
        requires
            self.wf(),
        ensures
            match r {
                Ok(()) => slot_refusal(self.bounds(), taken(self@, self.held()), id, owner) is None,
                Err(e) => slot_refusal(self.bounds(), taken(self@, self.held()), id, owner) == Some(
                    e@,
                ),
            },
    {
        let live = self.find(id);
        let reserved = self.find_reserved(id);
        proof {
            lemma_has_slot(self@, self.held(), id);
            if let Some(i) = live {
                assert(has_id(self@, id));
            }
            if let Some(i) = reserved {
                assert(has_slot(self.held(), id));
            }
        }
        if live.is_some() || reserved.is_some() {
            return Err(
                FerrumError::new(
                    ErrorCode::Conflict,
                    "that terminal session id is already in use",
                ),
            );
        }
        if self.count_taken() >= self.limits.max_sessions {
            return Err(
                FerrumError::new(
                    ErrorCode::RateLimited,
                    "too many terminal sessions are open on this server; close one and try again",
                ),
            );
        }
        if self.count_owned(owner) >= self.limits.max_per_user {
            return Err(
                FerrumError::new(
                    ErrorCode::RateLimited,
                    "you already have the maximum number of terminal sessions open",
                ),
            );
        }
        Ok(())
    }

    /// Authorises a session and holds a slot for it. The row to put on record
    /// comes with it.
    pub fn open<A: AccountSource>(
        &mut self,
        accounts: &A,
        id: u128,
        auth: &AuthContext,
        target: &TerminalTarget,
        facts: &Facts,
    ) -> (r: Result<Opening, FerrumError>)
        requires
            old(self).wf(),
        ensures
            final(self).wf(),
            final(self).bounds() == old(self).bounds(),
            final(self).entered() == old(self).entered(),
            final(self)@ == old(self)@,
            final(self).held() == (if r is Ok {
                old(self).held().push(Slot { id, owner: auth.actor_user_id })
            } else {
                old(self).held()
            }),
            exists|account: Option<Account>|
                opens(
                    r,
                    #[trigger] terminal::authorized(*auth, *target, *facts, account),
                    slot_refusal(
                        old(self).bounds(),
                        taken(old(self)@, old(self).held()),
                        id,
                        auth.actor_user_id,
                    ),
                    id,
                    *auth,
                ) && (terminal::looks_up(*auth, *target, *facts) matches Some(user)
                    ==> terminal::answered(accounts, user, account)),
    {
        let granted = terminal::authorize(accounts, auth, target, facts);
        let ghost account = choose|account: Option<Account>|
            error::outcome(granted) == #[trigger] terminal::authorized(
                *auth,
                *target,
                *facts,
                account,
            ) && (terminal::looks_up(*auth, *target, *facts) matches Some(user)
                ==> terminal::answered(accounts, user, account));
        let ghost g = terminal::authorized(*auth, *target, *facts, account);
        let ghost slot = slot_refusal(
            self.bounds(),
            taken(self@, self.held()),
            id,
            auth.actor_user_id,
        );
        let plan = match granted {
            Ok(p) => p,
            Err(e) => {
                assert(opens(Err(e), g, slot, id, *auth));
                return Err(e);
            },
        };
        match self.check_slot(id, auth.actor_user_id) {
            Ok(()) => {},
            Err(e) => {
                assert(opens(Err(e), g, slot, id, *auth));
                return Err(e);
            },
        }
        let entry = AuditEntry {
            actor_user_id: Some(auth.actor_user_id),
            actor_username: text::signed_decimal_of(auth.actor_user_id),
            impersonator_id: auth.impersonator_id,
            action: "terminal.open".to_owned(),
            target: Some(plan.account()),
            detail: AuditDetail::Opened {
                session: id,
                root: plan.is_root(),
                shell: plan.shell().to_owned(),
                subscription_id: plan.subscription_id(),
            },
            request_id: Some(auth.request_id.as_str().to_owned()),
            subscription_id: plan.subscription_id(),
        };
        let held = Slot { id, owner: auth.actor_user_id };
        proof {
            let all = taken(self@, self.held());
            lemma_within_insert(self.limits, all, all.len() as int, held);
            assert(taken(self@, self.held().push(held)) =~= all.insert(all.len() as int, held));
        }
        self.reserved.push(held);
        let opening = Opening { id, owner: auth.actor_user_id, plan, entry };
        assert(opens(Ok(opening), g, slot, id, *auth));
        Ok(opening)
    }

    /// Gives the slot back that is held for a session which does not start.
    pub fn release(&mut self, id: u128)
        requires
            old(self).wf(),
        ensures
            final(self).wf(),
            final(self).bounds() == old(self).bounds(),
            final(self).entered() == old(self).entered(),
            final(self)@ == old(self)@,
            final(self).held() == given_back(old(self).held(), id),
    {
        if let Some(i) = self.find_reserved(id) {
            let ghost n = self@.len() as int;
            let ghost all = taken(self@, self.held());
            proof {
                lemma_within_remove(self.limits, all, n + i);
                assert(all[n + i] == self.held()[i as int]);
                lemma_held_distinct(self.limits, self@, self.held());
                lemma_given_back_at(self.held(), id, i as int);
                assert(taken(self@, self.held().remove(i as int)) =~= all.remove(n + i));
            }
            let _gone = self.reserved.remove(i);
        } else {
            proof {
                lemma_given_back_absent(self.held(), id);
            }
        }
    }

    /// Goes on once the row is written. If it was not, nothing starts and the
    /// slot is given back.
    pub fn audited(&mut self, opening: Opening, written: Result<(), String>) -> (r: Result<
        Spawning,
        FerrumError,
    >)
        requires
            old(self).wf(),
        ensures
            final(self).wf(),
            final(self).bounds() == old(self).bounds(),
            final(self).entered() == old(self).entered(),
            final(self)@ == old(self)@,
            match written {
                Ok(()) => r matches Ok(s) && s.id() == opening.id() && s.owner() == opening.owner()
                    && s.grant() == opening.grant() && final(self).held() == old(self).held(),
                Err(why) => r matches Err(e) && e@ == error::problem(
                    ErrorCode::Internal,
                    "refusing to open a terminal that cannot be audited: "@ + why@,
                ) && final(self).held() == given_back(old(self).held(), opening.id()),
            },
    {
        match written {
            Ok(()) => Ok(Spawning { id: opening.id, owner: opening.owner, plan: opening.plan }),
            Err(why) => {
                self.release(opening.id);
                let mut m = "refusing to open a terminal that cannot be audited: ".to_owned();
                m.append(why.as_str());
                Err(FerrumError::internal(m.as_str()))
            },
        }
    }

    /// Enters a session whose shell was started, in the slot that is held for
    /// it, and hands back its number. If the shell was not started the slot is
    /// given back; if the slot was given back before, the session is not entered
    /// and its shell is to go.
    pub fn started(&mut self, spawning: Spawning, spawned: Result<(), FerrumError>, now: i128) -> (r:
        Result<u64, FerrumError>)
        requires
            old(self).wf(),
            old(self).entered() < u64::MAX,
        ensures
            final(self).wf(),
            final(self).bounds() == old(self).bounds(),
            match spawned {
                Err(e) => r matches Err(f) && f@ == e@ && final(self)@ == old(self)@
                    && final(self).held() == given_back(old(self).held(), spawning.id())
                    && final(self).entered() == old(self).entered(),
                Ok(()) => if old(self).held().contains(spawning.slot()) {
                    &&& r matches Ok(number)
                    &&& number == old(self).entered()
                    &&& final(self).entered() == old(self).entered() + 1
                    &&& final(self).held() == given_back(old(self).held(), spawning.id())
                    &&& final(self)@ == old(self)@.push(
                        newborn(
                            spawning.id(),
                            number,
                            spawning.owner(),
                            spawning.grant(),
                            old(self).bounds(),
                            now,
                        ),
                    )
                } else {
                    &&& r matches Err(f)
                    &&& f@ == error::not_found_problem("terminal session"@)
                    &&& final(self)@ == old(self)@
                    &&& final(self).held() == old(self).held()
                    &&& final(self).entered() == old(self).entered()
                },
            },
    {
        match spawned {
            Ok(()) => {},
            Err(e) => {
                self.release(spawning.id);
                return Err(e);
            },
        }
        let ghost t = self@;
        let ghost held = self.held();
        let ghost slot = spawning.slot();
        proof {
            lemma_held_distinct(self.limits, t, held);
        }
        let i: usize = match self.find_reserved(spawning.id) {
            Some(i) => i,
            None => {
                proof {
                    if held.contains(slot) {
                        let k = choose|k: int| 0 <= k < held.len() && held[k] == slot;
                        assert(held[k].id == spawning.id);
                    }
                }
                return Err(FerrumError::not_found("terminal session"));
            },
        };
        if self.reserved[i].owner != spawning.owner {
            proof {
                if held.contains(slot) {
                    let k = choose|k: int| 0 <= k < held.len() && held[k] == slot;
                    assert(held[k].id == held[i as int].id);
                }
            }
            return Err(FerrumError::not_found("terminal session"));
        }
        let number: u64 = self.entered;
        let handle = SessionHandle {
            info: SessionInfo {
                id: spawning.id,
                owner: spawning.owner,
                account: spawning.plan.account(),
                is_root: spawning.plan.is_root(),
                opened_at: now,
            },
            number,
            scrollback: Scrollback::new(self.limits.scrollback_bytes),
            printed: 0,
            last_input: unix_second_of(now),
            closed: false,
        };
        proof {
            assert(held[i as int] == slot);
            lemma_given_back_at(held, spawning.id, i as int);
            let all = taken(t, held);
            let n = t.len() as int;
            assert(all[n + i] == slot);
            lemma_within_remove(self.limits, all, n + i);
            lemma_within_insert(self.limits, all.remove(n + i), n, slot);
            assert(taken(t.push(handle@), held.remove(i as int)) =~= all.remove(n + i).insert(
                n,
                slot,
            ));
        }
        let ghost kept = self.sessions@;
        let _gone = self.reserved.remove(i);
        self.sessions.push(handle);
        self.entered = number + 1;
        proof {
            assert(self@ =~= t.push(handle@));
            assert forall|j: int| 0 <= j < self.sessions@.len() implies (
            #[trigger] self.sessions@[j]).wf() by {
                if j < kept.len() {
                    assert(self.sessions@[j] == kept[j]);
                }
            }
        }
        Ok(number)
    }

    /// The session of an id, for its owner. Somebody else's is not found.
    pub fn for_owner(&self, id: u128, auth: &AuthContext) -> (r: Result<
        &SessionHandle,
        FerrumError,
    >)
        requires
            self.wf(),
        ensures
            match r {
                Ok(s) => s@.id == id && s@.owner == auth.actor_user_id && self@.contains(s@)
                    && s.wf(),
                Err(e) => e@ == error::not_found_problem("terminal session"@) && forall|i: int|
                    0 <= i < self@.len() ==> !((#[trigger] self@[i]).id == id && self@[i].owner
                        == auth.actor_user_id),
            },
    {
        match self.find(id) {
            Some(i) => {
                assert(self@[i as int] == self.sessions@[i as int]@);
                if self.sessions[i].info.owner == auth.actor_user_id {
                    return Ok(&self.sessions[i]);
                }
                assert forall|j: int| 0 <= j < self@.len() && (#[trigger] self@[j]).id
                    == id implies j == i by {
                    let all = taken(self@, self.held());
                    assert(all[j].id == all[i as int].id);
                }
            },
            None => {},
        }
        Err(FerrumError::not_found("terminal session"))
    }

    /// Keystrokes for a session: whether they go to its shell.
    pub fn write(&mut self, id: u128, now: i128) -> (r: bool)
        requires
            old(self).wf(),
        ensures
            final(self).wf(),
            final(self).bounds() == old(self).bounds(),
            final(self).entered() == old(self).entered(),
            final(self).held() == old(self).held(),
            final(self)@.len() == old(self)@.len(),
            r == (exists|i: int|
                0 <= i < old(self)@.len() && (#[trigger] old(self)@[i]).id == id
                    && !old(self)@[i].closed),
            forall|i: int|
                0 <= i < old(self)@.len() ==> #[trigger] final(self)@[i] == (if old(self)@[i].id
                    == id && r {
                    Live { last_input: unix_second(now), ..old(self)@[i] }
                } else {
                    old(self)@[i]
                }),
    {
        let ghost t = self@;
        match self.find(id) {
            Some(i) => {
                let ghost was = self.sessions@;
                assert(t[i as int] == was[i as int]@);
                let took = self.sessions[i].write(now);
                proof {
                    self.lemma_updated(t, was, i as int);
                }
                took
            },
            None => false,
        }
    }

    /// Output of the session of a number, for whoever watches it; `None` if that
    /// session is over. Its shell speaks for it alone, whoever has its id by now.
    pub fn print(&mut self, number: u64, data: Vec<u8>) -> (r: Option<OutputChunk>)
        requires
            old(self).wf(),
            forall|i: int|
                0 <= i < old(self)@.len() && (#[trigger] old(self)@[i]).number == number
                    ==> old(self)@[i].printed < u64::MAX,
        ensures
            final(self).wf(),
            final(self).bounds() == old(self).bounds(),
            final(self).entered() == old(self).entered(),
            final(self).held() == old(self).held(),
            final(self)@.len() == old(self)@.len(),
            r is Some <==> has_number(old(self)@, number),
            forall|i: int|
                0 <= i < old(self)@.len() ==> #[trigger] final(self)@[i] == (if old(self)@[i].number
                    == number {
                    let c = Chunk { seq: (old(self)@[i].printed + 1) as u64, data: data@ };
                    Live {
                        ring: recent(old(self)@[i].ring.push(c), old(self)@[i].cap),
                        printed: c.seq,
                        ..old(self)@[i]
                    }
                } else {
                    old(self)@[i]
                }),
            forall|i: int|
                0 <= i < old(self)@.len() && (#[trigger] old(self)@[i]).number == number ==> r->0@
                    == (Chunk { seq: (old(self)@[i].printed + 1) as u64, data: data@ }),
    {
        let ghost t = self@;
        match self.find_number(number) {
            Some(i) => {
                let ghost was = self.sessions@;
                assert(t[i as int] == was[i as int]@);
                let chunk = self.sessions[i].print(data);
                proof {
                    self.lemma_updated(t, was, i as int);
                }
                Some(chunk)
            },
            None => None,
        }
    }

    /// The shell of the session of a number is gone.
    pub fn exited(&mut self, number: u64)
        requires
            old(self).wf(),
        ensures
            final(self).wf(),
            final(self).bounds() == old(self).bounds(),
            final(self).entered() == old(self).entered(),
            final(self).held() == old(self).held(),
            final(self)@.len() == old(self)@.len(),
            forall|i: int|
                0 <= i < old(self)@.len() ==> #[trigger] final(self)@[i] == (if old(self)@[i].number
                    == number {
                    Live { closed: true, ..old(self)@[i] }
                } else {
                    old(self)@[i]
                }),
    {
        let ghost t = self@;
        match self.find_number(number) {
            Some(i) => {
                let ghost was = self.sessions@;
                assert(t[i as int] == was[i as int]@);
                self.sessions[i].exited();
                proof {
                    self.lemma_updated(t, was, i as int);
                }
            },
            None => {},
        }
    }

    /// One session was changed in place, and keeps its id and its number.
    proof fn lemma_updated(&self, t: Seq<Live>, was: Seq<SessionHandle>, i: int)
        requires
            t == lives(was),
            within(self.limits, taken(t, self.held())),
            numbered(t, self.entered),
            0 <= i < was.len(),
            self.sessions@ == was.update(i, self.sessions@[i]),
            slot_of(self.sessions@[i]@) == slot_of(was[i]@),
            self.sessions@[i]@.number == was[i]@.number,
            self.sessions@[i].wf(),
            forall|j: int| 0 <= j < was.len() ==> (#[trigger] was[j]).wf(),
        ensures
            self.wf(),
            self@ == t.update(i, self.sessions@[i]@),
            forall|j: int| 0 <= j < t.len() && j != i ==> (#[trigger] t[j]).id != t[i].id,
            forall|j: int| 0 <= j < t.len() && j != i ==> (#[trigger] t[j]).number != t[i].number,
    {
        assert(self@ =~= t.update(i, self.sessions@[i]@));
        assert(taken(self@, self.held()) =~= taken(t, self.held()));
        assert(forall|j: int| 0 <= j < t.len() ==> (#[trigger] self@[j]).number == t[j].number);
        assert forall|j: int| 0 <= j < t.len() && j != i implies (#[trigger] t[j]).id != t[i].id by {
            let all = taken(t, self.held());
            assert(all[j].id == t[j].id && all[i].id == t[i].id);
        }
        assert forall|j: int| 0 <= j < self.sessions@.len() implies (
        #[trigger] self.sessions@[j]).wf() by {
            if j != i {
                assert(self.sessions@[j] == was[j]);
            }
        }
    }

    fn take(&mut self, i: usize) -> (r: SessionHandle)
        requires
            old(self).wf(),
            i < old(self)@.len(),
        ensures
            final(self).wf(),
            final(self).bounds() == old(self).bounds(),
            final(self).entered() == old(self).entered(),
            final(self).held() == old(self).held(),
            final(self)@ == old(self)@.remove(i as int),
            r@ == old(self)@[i as int],
            r.wf(),
    {
        let ghost t = self@;
        let ghost was = self.sessions@;
        let s = self.sessions.remove(i);
        proof {
            lemma_within_remove(self.limits, taken(t, self.held()), i as int);
            lemma_numbered_remove(t, self.entered, i as int);
            assert(self@ =~= t.remove(i as int));
            assert(taken(self@, self.held()) =~= taken(t, self.held()).remove(i as int));
            assert forall|j: int| 0 <= j < self.sessions@.len() implies (
            #[trigger] self.sessions@[j]).wf() by {
                if j < i {
                    assert(self.sessions@[j] == was[j]);
                } else {
                    assert(self.sessions@[j] == was[j + 1]);
                }
            }
        }
        s
    }

    /// Ends a session for its owner. A session that is gone already is no error.
    pub fn close(&mut self, id: u128, auth: &AuthContext, reason: &str, now: i128) -> (r: Result<
        Option<Ended>,
        FerrumError,
    >)
        requires
            old(self).wf(),
        ensures
            final(self).wf(),
            final(self).bounds() == old(self).bounds(),
            final(self).entered() == old(self).entered(),
            final(self).held() == old(self).held(),
            match r {
                Ok(None) => !has_id(old(self)@, id) && final(self)@ == old(self)@,
                Ok(Some(e)) => exists|i: int|
                    0 <= i < old(self)@.len() && (#[trigger] old(self)@[i]).id == id
                        && old(self)@[i].owner == auth.actor_user_id && final(self)@
                        == old(self)@.remove(i) && ends(e, old(self)@[i], reason@, now),
                Err(e) => e@ == error::not_found_problem("terminal session"@) && final(self)@
                    == old(self)@ && exists|i: int|
                    0 <= i < old(self)@.len() && (#[trigger] old(self)@[i]).id == id
                        && old(self)@[i].owner != auth.actor_user_id,
            },
    {
        match self.find(id) {
            None => Ok(None),
            Some(i) => {
                assert(self@[i as int] == self.sessions@[i as int]@);
                if self.sessions[i].info.owner != auth.actor_user_id {
                    return Err(FerrumError::not_found("terminal session"));
                }
                let s = self.take(i);
                let e = finish(s, reason, now);
                assert(ends(e, old(self)@[i as int], reason@, now));
                Ok(Some(e))
            },
        }
    }

    /// Ends every session whose shell is gone or that is past a limit.
    pub fn sweep(&mut self, now: i128) -> (r: Vec<Ended>)
        requires
            old(self).wf(),
        ensures
            final(self).wf(),
            final(self).bounds() == old(self).bounds(),
            final(self).entered() == old(self).entered(),
            final(self).held() == old(self).held(),
            final(self)@ == survivors(old(self).bounds(), old(self)@, now),
            r@.len() == casualties(old(self).bounds(), old(self)@, now).len(),
            forall|i: int|
                0 <= i < r@.len() ==> ({
                    let s = casualties(old(self).bounds(), old(self)@, now)[i];
                    ends(#[trigger] r@[i], s, overdue(old(self).bounds(), s, now)->0, now)
                }),
    {
        let ghost t = self@;
        let ghost limits = self.limits;
        let ghost held = self.held();
        let ghost entered = self.entered;
        let mut all: Vec<SessionHandle> = Vec::new();
        std::mem::swap(&mut all, &mut self.sessions);
        let ghost was = all@;
        let mut stay: Vec<SessionHandle> = Vec::new();
        let mut over: Vec<Ended> = Vec::new();
        let ghost mut n: int = 0;
        assert(lives(stay@) =~= Seq::<Live>::empty());
        for s in it: all.into_iter()
            invariant
                it.seq() == was,
                t == lives(was),
                n == it.index(),
                limits == self.limits,
                self.held() == held,
                self.entered == entered,
                forall|j: int| 0 <= j < was.len() ==> (#[trigger] was[j]).wf(),
                forall|j: int| 0 <= j < stay@.len() ==> (#[trigger] stay@[j]).wf(),
                lives(stay@) == survivors(limits, t.take(n), now),
                over@.len() == casualties(limits, t.take(n), now).len(),
                forall|j: int|
                    0 <= j < over@.len() ==> ({
                        let c = casualties(limits, t.take(n), now)[j];
                        ends(#[trigger] over@[j], c, overdue(limits, c, now)->0, now)
                    }),
        {
            let ghost next = t.take(n + 1);
            assert(next.drop_last() =~= t.take(n));
            assert(next.last() == s@);
            assert(s.wf());
            let ghost before = over@;
            let ghost stayed = stay@;
            let reason: Option<&str> = if s.is_closed() {
                Some("the shell exited")
            } else if reaches_limit(s.idle_for(now), self.limits.idle) {
                Some("idle timeout")
            } else if reaches_limit(s.age(now), self.limits.max_lifetime) {
                Some("maximum session lifetime reached")
            } else {
                None
            };
            match reason {
                Some(why) => {
                    let e = finish(s, why, now);
                    over.push(e);
                },
                None => {
                    stay.push(s);
                    assert(lives(stay@) =~= lives(stayed).push(s@));
                },
            }
            proof {
                let c = casualties(limits, next, now);
                assert forall|j: int| 0 <= j < over@.len() implies ends(
                    #[trigger] over@[j],
                    c[j],
                    overdue(limits, c[j], now)->0,
                    now,
                ) by {
                    if j < before.len() {
                        assert(over@[j] == before[j]);
                    }
                }
            }
            proof {
                n = n + 1;
            }
        }
        assert(t.take(n) =~= t);
        self.sessions = stay;
        proof {
            lemma_sweep(limits, t, self.held(), entered, now, t.len() as int);
            assert(survivors(limits, t, now) + t.skip(t.len() as int) =~= survivors(
                limits,
                t,
                now,
            ));
        }
        over
    }
}

/// How an opening turns out: the authorisation is asked first, then the slot.
pub open spec fn opens(
    r: Result<Opening, FerrumError>,
    granted: Result<Grant, Problem>,
    slot: Option<Problem>,
    id: u128,
    auth: AuthContext,
) -> bool {
    match (granted, slot) {
        (Err(p), _) => r matches Err(e) && e@ == p,
        (Ok(_), Some(p)) => r matches Err(e) && e@ == p,
        (Ok(g), None) => r matches Ok(o) && o.id() == id && o.owner() == auth.actor_user_id
            && o.grant() == g && records_open(o.row(), id, auth, g),
    }
}

/// A session that was just started.
pub open spec fn newborn(
    id: u128,
    number: u64,
    owner: i64,
    g: Grant,
    limits: Limits,
    now: i128,
) -> Live {
    Live {
        id,
        number,
        owner,
        account: account_of(g),
        is_root: g is Root,
        opened_at: now,
        last_input: unix_second(now),
        closed: false,
        ring: Seq::empty(),
        cap: limits.scrollback_bytes as nat,
        printed: 0,
    }
}

// ---------------------------------------------------------------------------
// The helper
// ---------------------------------------------------------------------------

/// The arguments of the helper that becomes a shell.
pub open spec fn helper_args(g: Grant) -> Seq<Seq<char>> {
    let who = match g {
        Grant::Root { .. } => seq!["--root"@],
        Grant::Tenant { uid, gid, .. } => seq![
            "--uid"@,
            text::decimal(uid as nat),
            "--gid"@,
            text::decimal(gid as nat),
        ],
    };
    seq!["--pty-helper"@] + who + seq!["--home"@, home_of(g), "--shell"@, shell_of(g)]
}

pub fn helper_argv(plan: &SessionPlan) -> (r: Vec<String>)
    ensures
        text::texts(r@) == helper_args(plan@),
{
    let r = match plan {
        SessionPlan::Root { .. } => {
            let v = vec![
                "--pty-helper".to_owned(),
                "--root".to_owned(),
                "--home".to_owned(),
                plan.home().to_owned(),
                "--shell".to_owned(),
                plan.shell().to_owned(),
            ];
            assert(text::texts(v@) =~= helper_args(plan@));
            v
        },
        SessionPlan::Tenant { uid, gid, .. } => {
            let v = vec![
                "--pty-helper".to_owned(),
                "--uid".to_owned(),
                text::decimal_of(*uid as u64),
                "--gid".to_owned(),
                text::decimal_of(*gid as u64),
                "--home".to_owned(),
                plan.home().to_owned(),
                "--shell".to_owned(),
                plan.shell().to_owned(),
            ];
            assert(text::texts(v@) =~= helper_args(plan@));
            v
        },
    };
    r
}

// ---------------------------------------------------------------------------
// Laws
// ---------------------------------------------------------------------------

/// The limits hold at all times, however many sessions are being opened at once:
/// the live sessions and those on their way together are no more than the server
/// has room for, no user has more than a user may, and no id is taken twice.
pub proof fn law_limits_hold(r: TerminalRegistry)
    requires
        r.wf(),
    ensures
        r@.len() + r.held().len() <= r.bounds().max_sessions,
        forall|owner: i64| #[trigger]
            owned(taken(r@, r.held()), owner) <= r.bounds().max_per_user,
        distinct(taken(r@, r.held())),
{
}

/// A number stands for one session: no two live sessions have the same, and one
/// that is entered next gets a number that none of them has. So what a shell
/// prints, and its end, never come to a session of another shell.
pub proof fn law_a_number_is_given_once(r: TerminalRegistry)
    requires
        r.wf(),
    ensures
        !has_number(r@, r.entered()),
        forall|i: int| 0 <= i < r@.len() ==> (#[trigger] r@[i]).number < r.entered(),
        forall|i: int, j: int|
            0 <= i < r@.len() && 0 <= j < r@.len() && (#[trigger] r@[i]).number == (
            #[trigger] r@[j]).number ==> i == j,
{
}

/// A session that holds a slot is never refused for want of one: once its row is
/// written and its shell started it is entered, whatever was opened, ended or
/// given back of other ids in between.
pub proof fn law_a_slot_is_kept(held: Seq<Slot>, slot: Slot, other: Slot)
    requires
        held.contains(slot),
        other.id != slot.id,
    ensures
        held.push(other).contains(slot),
        given_back(held, other.id).contains(slot),
{
    let i = choose|i: int| 0 <= i < held.len() && held[i] == slot;
    assert(held.push(other)[i] == slot);
    held.lemma_filter_contains_rev(|s: Slot| s.id != other.id, slot);
}

/// A sweep leaves nothing overdue, and ends nothing that is not.
pub proof fn law_a_sweep_is_thorough(limits: Limits, t: Seq<Live>, now: i128)
    ensures
        forall|i: int|
            0 <= i < survivors(limits, t, now).len() ==> overdue(
                limits,
                #[trigger] survivors(limits, t, now)[i],
                now,
            ) is None,
        forall|i: int|
            0 <= i < casualties(limits, t, now).len() ==> overdue(
                limits,
                #[trigger] casualties(limits, t, now)[i],
                now,
            ) is Some,
        survivors(limits, t, now).len() + casualties(limits, t, now).len() == t.len(),
        casualties(limits, survivors(limits, t, now), now).len() == 0,
{
    lemma_survivors(limits, t, now);
    lemma_casualties(limits, t, now);
    lemma_no_casualties(limits, survivors(limits, t, now), now);
}

proof fn lemma_casualties(limits: Limits, t: Seq<Live>, now: i128)
    ensures
        forall|i: int|
            0 <= i < casualties(limits, t, now).len() ==> overdue(
                limits,
                #[trigger] casualties(limits, t, now)[i],
                now,
            ) is Some,
        survivors(limits, t, now).len() + casualties(limits, t, now).len() == t.len(),
    decreases t.len(),
{
    if t.len() > 0 {
        lemma_casualties(limits, t.drop_last(), now);
    }
}

proof fn lemma_no_casualties(limits: Limits, t: Seq<Live>, now: i128)
    requires
        forall|i: int| 0 <= i < t.len() ==> overdue(limits, #[trigger] t[i], now) is None,
    ensures
        casualties(limits, t, now).len() == 0,
    decreases t.len(),
{
    if t.len() > 0 {
        assert(overdue(limits, t[t.len() - 1], now) is None);
        assert forall|i: int| 0 <= i < t.drop_last().len() implies overdue(
            limits,
            #[trigger] t.drop_last()[i],
            now,
        ) is None by {
            assert(overdue(limits, t[i], now) is None);
        }
        lemma_no_casualties(limits, t.drop_last(), now);
    }
}

/// An abandoned shell does not outlive its limits: with no keystroke for the
/// idle limit, or after the longest lifetime, a session is over whatever its
/// shell prints.
pub proof fn law_no_session_outlives_its_limits(limits: Limits, s: Live, now: i128)
    requires
        reaches(quiet(now, s.last_input), limits.idle) || reaches(
            elapsed(now, s.opened_at),
            limits.max_lifetime,
        ),
    ensures
        overdue(limits, s, now) is Some,
{
}

} // verus!
