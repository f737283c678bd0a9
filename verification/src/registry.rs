//! The operations there are, and who may run them.
//!
//! An operation that is not registered does not exist. A caller's rights are
//! derived anew from the account, so that what a caller claims can only ever
//! lose rights here.
pub mod catalogue;
pub mod laws;

use vstd::prelude::*;
use vstd::string::StringExecFns;
use crate::error;
use crate::error::{ErrorCode, FerrumError, Problem};
use crate::model;
use crate::model::{AuthContext, Permission, Role};
use crate::registry::catalogue::{Op, SystemOp};
use crate::text;

verus! {

/// How an operation is run.
#[derive(Debug, Clone, Copy, PartialEq, Eq, Structural)]
pub enum Execution {
    /// Fast enough to be answered at once.
    Immediate,
    /// Becomes a task, whose log is streamed.
    Task { cancellable: bool, idempotent: bool },
}

impl Execution {
    pub fn is_task(self) -> (r: bool)
        ensures
            r == (self is Task),
    {
        match self {
            Execution::Immediate => false,
            Execution::Task { .. } => true,
        }
    }
}

/// An operation as it is registered.
#[derive(Debug)]
pub struct OpEntry {
    pub name: String,
    pub permission: Permission,
    pub execution: Execution,
}

/// An [`OpEntry`] as contracts see it.
#[verifier::ext_equal]
pub struct Entry {
    pub name: Seq<char>,
    pub permission: Permission,
    pub execution: Execution,
}

impl View for OpEntry {
    type V = Entry;

    open spec fn view(&self) -> Entry {
        Entry { name: self.name@, permission: self.permission, execution: self.execution }
    }
}

pub open spec fn entries(v: Seq<OpEntry>) -> Seq<Entry> {
    v.map_values(|e: OpEntry| e@)
}

/// In the order of their names, no two of which are the same.
pub open spec fn in_order(t: Seq<Entry>) -> bool {
    forall|i: int, j: int|
        0 <= i < j < t.len() ==> text::text_le((#[trigger] t[i]).name, (#[trigger] t[j]).name)
            && t[i].name != t[j].name
}

pub open spec fn registered(t: Seq<Entry>, name: Seq<char>) -> bool {
    exists|i: int| 0 <= i < t.len() && (#[trigger] t[i]).name == name
}

/// What the account behind a request is.
#[derive(Debug)]
pub struct ActorFacts {
    pub can_log_in: bool,
    pub role: Role,
    pub permissions: Vec<Permission>,
}

/// Why an account may not act.
pub open spec fn actor_refusal(claimed: AuthContext, actor: Option<ActorFacts>) -> Option<Problem> {
    match actor {
        None => Some(
            error::problem(
                ErrorCode::PermissionDenied,
                "the acting account no longer exists"@,
            ),
        ),
        Some(a) => if !a.can_log_in {
            Some(
                error::problem(
                    ErrorCode::AccountSuspended,
                    "the acting account is not active"@,
                ),
            )
        } else if a.role != claimed.acting_role {
            Some(
                error::problem(
                    ErrorCode::PermissionDenied,
                    "the acting role does not match the account"@,
                ),
            )
        } else {
            None
        },
    }
}

/// The rights that are left: those that are claimed and held.
pub open spec fn verified_rights(claimed: AuthContext, actor: ActorFacts) -> Set<Permission> {
    model::granted(claimed.permissions@).intersect(model::granted(actor.permissions@))
}

/// A context that says what was claimed, but for the rights.
pub open spec fn restricts(r: AuthContext, claimed: AuthContext, actor: ActorFacts) -> bool {
    &&& r.actor_user_id == claimed.actor_user_id
    &&& r.acting_role == claimed.acting_role
    &&& r.tenant_scope == claimed.tenant_scope
    &&& r.impersonator_id == claimed.impersonator_id
    &&& r.request_id@ == claimed.request_id@
    &&& model::granted(r.permissions@) == verified_rights(claimed, actor)
}

fn common(a: &Vec<Permission>, b: &Vec<Permission>) -> (r: Vec<Permission>)
    ensures
        model::granted(r@) == model::granted(a@).intersect(model::granted(b@)),
{
    let mut out: Vec<Permission> = Vec::new();
    let mut i: usize = 0;
    while i < a.len()
        invariant
            i <= a@.len(),
            forall|p: Permission|
                #[trigger] out@.contains(p) <==> a@.take(i as int).contains(p) && b@.contains(p),
        decreases a@.len() - i,
    {
        let ghost before = out@;
        let ghost seen = a@.take(i as int);
        let ghost now = a@.take(i + 1);
        let keep = model::holds(b, a[i]);
        if keep {
            out.push(a[i]);
        }
        proof {
            assert(now =~= seen.push(a@[i as int]));
            assert forall|p: Permission|
                #[trigger] out@.contains(p) <==> now.contains(p) && b@.contains(p) by {
                assert(now.contains(p) <==> seen.contains(p) || p == a@[i as int]) by {
                    if seen.contains(p) {
                        let k = choose|k: int| 0 <= k < seen.len() && seen[k] == p;
                        assert(now[k] == p);
                    }
                    assert(now[i as int] == a@[i as int]);
                    if now.contains(p) && p != a@[i as int] {
                        let k = choose|k: int| 0 <= k < now.len() && now[k] == p;
                        assert(seen[k] == p);
                    }
                }
                if keep {
                    assert(out@.contains(p) <==> before.contains(p) || p == a@[i as int]) by {
                        if before.contains(p) {
                            let k = choose|k: int| 0 <= k < before.len() && before[k] == p;
                            assert(out@[k] == p);
                        }
                        assert(out@[before.len() as int] == a@[i as int]);
                        if out@.contains(p) && p != a@[i as int] {
                            let k = choose|k: int| 0 <= k < out@.len() && out@[k] == p;
                            assert(before[k] == p);
                        }
                    }
                }
            }
        }
        i = i + 1;
    }
    assert(a@.take(i as int) =~= a@);
    assert(model::granted(out@) =~= model::granted(a@).intersect(model::granted(b@)));
    out
}

/// Derives a caller's rights from the account behind the request.
pub fn verify_auth(claimed: &AuthContext, actor: &Option<ActorFacts>) -> (r: Result<
    AuthContext,
    FerrumError,
>)
    ensures
        match r {
            Ok(auth) => actor_refusal(*claimed, *actor) is None && restricts(
                auth,
                *claimed,
                actor->0,
            ),
            Err(e) => actor_refusal(*claimed, *actor) == Some(e@),
        },
{
    let a = match actor {
        None => return Err(
            FerrumError::new(ErrorCode::PermissionDenied, "the acting account no longer exists"),
        ),
        Some(a) => a,
    };
    if !a.can_log_in {
        return Err(
            FerrumError::new(ErrorCode::AccountSuspended, "the acting account is not active"),
        );
    }
    if a.role != claimed.acting_role {
        return Err(
            FerrumError::new(
                ErrorCode::PermissionDenied,
                "the acting role does not match the account",
            ),
        );
    }
    Ok(
        AuthContext {
            actor_user_id: claimed.actor_user_id,
            acting_role: claimed.acting_role,
            tenant_scope: claimed.tenant_scope,
            permissions: common(&claimed.permissions, &a.permissions),
            impersonator_id: claimed.impersonator_id,
            request_id: claimed.request_id.as_str().to_owned(),
        },
    )
}

/// Why a request is refused before its input is looked at: the name first, then
/// who asks, then what they may do.
pub open spec fn dispatch_refusal(
    t: Seq<Entry>,
    name: Seq<char>,
    claimed: AuthContext,
    actor: Option<ActorFacts>,
) -> Option<Problem> {
    if !registered(t, name) {
        Some(
            error::problem(
                ErrorCode::UnknownOperation,
                "`"@ + name + "` is not a registered operation"@,
            ),
        )
    } else if actor_refusal(claimed, actor) is Some {
        actor_refusal(claimed, actor)
    } else if exists|i: int|
        0 <= i < t.len() && (#[trigger] t[i]).name == name && !verified_rights(
            claimed,
            actor->0,
        ).contains(t[i].permission) {
        Some(model::denied_problem())
    } else {
        None
    }
}

/// What an operation answers to input it cannot read.
pub fn invalid_input(name: &str, why: &str) -> (r: FerrumError)
    ensures
        r@ == error::field_problem(
            ErrorCode::InvalidInput,
            "invalid input for `"@ + name@ + "`: "@ + why@,
            "input"@,
        ),
{
    let mut m = "invalid input for `".to_owned();
    m.append(name);
    m.append("`: ");
    m.append(why);
    FerrumError::new(ErrorCode::InvalidInput, m.as_str()).with_field("input")
}

/// What becomes of an answer that cannot be written down.
pub fn unwritable_output(name: &str, why: &str) -> (r: FerrumError)
    ensures
        r@ == error::problem(
            ErrorCode::Internal,
            "`"@ + name@ + "` produced output that will not serialise: "@ + why@,
        ),
{
    let mut m = "`".to_owned();
    m.append(name);
    m.append("` produced output that will not serialise: ");
    m.append(why);
    FerrumError::internal(m.as_str())
}

/// Every operation there is.
pub struct OpRegistry {
    ops: Vec<OpEntry>,
}

impl View for OpRegistry {
    type V = Seq<Entry>;

    closed spec fn view(&self) -> Seq<Entry> {
        entries(self.ops@)
    }
}

impl OpRegistry {
    #[verifier::type_invariant]
    spec fn valid(self) -> bool {
        in_order(entries(self.ops@))
    }

    /// Every operation of this library, and `sys.ping` and `metrics.snapshot` as
    /// they are declared elsewhere. Others are registered by whoever brings them.
    pub fn new(ping: SystemOp, snapshot: SystemOp) -> (r: OpRegistry)
        ensures
            r@ == catalogue::catalogue(ping, snapshot),
    {
        let all = Op::all();
        let mut ops: Vec<OpEntry> = Vec::new();
        let ghost own = Op::ops().map_values(|op: Op| op.entry_view());
        let mut i: usize = 0;
        assert(entries(ops@) =~= own.take(0));
        while i < 5
            invariant
                i <= 5 <= all@.len(),
                all@ == Op::ops(),
                own == Op::ops().map_values(|op: Op| op.entry_view()),
                entries(ops@) == own.take(i as int),
            decreases 5 - i,
        {
            let ghost before = ops@;
            ops.push(all[i].entry());
            assert(entries(ops@) =~= entries(before).push(own[i as int]));
            assert(entries(ops@) =~= own.take(i + 1));
            i = i + 1;
        }
        let ghost before = ops@;
        ops.push(
            OpEntry {
                name: "metrics.snapshot".to_owned(),
                permission: snapshot.permission,
                execution: snapshot.execution,
            },
        );
        let ghost front = entries(ops@);
        assert(front =~= entries(before).push(
            catalogue::system_entry("metrics.snapshot"@, snapshot),
        ));
        assert(front =~= front + own.subrange(5, 5));
        while i < all.len()
            invariant
                5 <= i <= all@.len(),
                all@ == Op::ops(),
                own == Op::ops().map_values(|op: Op| op.entry_view()),
                entries(ops@) == front + own.subrange(5, i as int),
            decreases all@.len() - i,
        {
            let ghost before = ops@;
            ops.push(all[i].entry());
            assert(entries(ops@) =~= entries(before).push(own[i as int]));
            assert(entries(ops@) =~= front + own.subrange(5, i + 1));
            i = i + 1;
        }
        let ghost before = ops@;
        ops.push(
            OpEntry {
                name: "sys.ping".to_owned(),
                permission: ping.permission,
                execution: ping.execution,
            },
        );
        proof {
            assert(entries(ops@) =~= entries(before).push(
                catalogue::system_entry("sys.ping"@, ping),
            ));
            assert(entries(ops@) =~= catalogue::catalogue(ping, snapshot));
            catalogue::law_every_name_is_taken_once(ping, snapshot);
        }
        OpRegistry { ops }
    }

    fn find(&self, name: &str) -> (r: Option<usize>)
        ensures
            match r {
                Some(i) => i < self@.len() && self@[i as int].name == name@,
                None => !registered(self@, name@),
            },
    {
        let mut i: usize = 0;
        while i < self.ops.len()
            invariant
                i <= self.ops@.len(),
                forall|j: int| 0 <= j < i ==> (#[trigger] self@[j]).name != name@,
            decreases self.ops@.len() - i,
        {
            assert(self@[i as int] == self.ops@[i as int]@);
            if text::same(self.ops[i].name.as_str(), name) {
                return Some(i);
            }
            i = i + 1;
        }
        None
    }

    /// Registers an operation under a name that no other one has.
    pub fn register(&mut self, op: OpEntry)
        requires
            !registered(old(self)@, op@.name),
        ensures
            exists|i: int|
                0 <= i <= old(self)@.len() && final(self)@ == #[trigger] old(self)@.insert(i, op@),
            in_order(final(self)@),
    {
        proof {
            use_type_invariant(&*self);
        }
        let ghost t = self@;
        let ghost was = self.ops@;
        let mut at: usize = 0;
        let n: usize = self.ops.len();
        while at < n && text::text_le_of(self.ops[at].name.as_str(), op.name.as_str())
            invariant
                at <= n,
                n == self.ops@.len(),
                self.ops@ == was,
                t == entries(was),
                forall|j: int| 0 <= j < at ==> text::text_le((#[trigger] t[j]).name, op@.name),
            decreases n - at,
        {
            assert(t[at as int] == self.ops@[at as int]@);
            at = at + 1;
        }
        let ghost new = t.insert(at as int, op@);
        proof {
            assert forall|i: int, j: int| 0 <= i < j < new.len() implies text::text_le(
                (#[trigger] new[i]).name,
                (#[trigger] new[j]).name,
            ) && new[i].name != new[j].name by {
                if j == at {
                    assert(new[i] == t[i]);
                    assert(t[i].name != op@.name);
                } else if i == at {
                    assert(new[j] == t[j - 1]);
                    assert(t[j - 1].name != op@.name);
                    assert(t[at as int] == was[at as int]@);
                    text::lemma_text_le_total(t[at as int].name, op@.name);
                    if j - 1 > at {
                        text::lemma_text_le_transitive(
                            op@.name,
                            t[at as int].name,
                            t[j - 1].name,
                        );
                    }
                } else {
                    let i0 = if i < at {
                        i
                    } else {
                        i - 1
                    };
                    let j0 = if j < at {
                        j
                    } else {
                        j - 1
                    };
                    assert(new[i] == t[i0] && new[j] == t[j0]);
                }
            }
        }
        let mut ops: Vec<OpEntry> = Vec::new();
        std::mem::swap(&mut ops, &mut self.ops);
        ops.insert(at, op);
        assert(entries(ops@) =~= new);
        self.ops = ops;
    }

    pub fn get(&self, name: &str) -> (r: Option<&OpEntry>)
        ensures
            match r {
                Some(e) => e@.name == name@ && self@.contains(e@),
                None => !registered(self@, name@),
            },
    {
        match self.find(name) {
            Some(i) => {
                assert(self@[i as int] == self.ops@[i as int]@);
                Some(&self.ops[i])
            },
            None => None,
        }
    }

    /// Every registered name, in order.
    pub fn names(&self) -> (r: Vec<String>)
        ensures
            r@.len() == self@.len(),
            forall|i: int| 0 <= i < r@.len() ==> (#[trigger] r@[i])@ == self@[i].name,
            in_order(self@),
    {
        proof {
            use_type_invariant(self);
        }
        let mut out: Vec<String> = Vec::new();
        let mut i: usize = 0;
        while i < self.ops.len()
            invariant
                i <= self.ops@.len(),
                out@.len() == i,
                forall|j: int| 0 <= j < i ==> (#[trigger] out@[j])@ == self@[j].name,
            decreases self.ops@.len() - i,
        {
            assert(self@[i as int] == self.ops@[i as int]@);
            out.push(self.ops[i].name.as_str().to_owned());
            i = i + 1;
        }
        out
    }

    pub fn len(&self) -> (r: usize)
        ensures
            r == self@.len(),
    {
        self.ops.len()
    }

    pub fn is_empty(&self) -> (r: bool)
        ensures
            r == (self@.len() == 0),
    {
        self.ops.len() == 0
    }

    /// Checks everything that is checked before an operation's input is read.
    /// What comes out is the context the operation runs in.
    pub fn dispatch(&self, name: &str, claimed: &AuthContext, actor: &Option<ActorFacts>) -> (r:
        Result<AuthContext, FerrumError>)
        ensures
            match r {
                Ok(auth) => dispatch_refusal(self@, name@, *claimed, *actor) is None && restricts(
                    auth,
                    *claimed,
                    actor->0,
                ),
                Err(e) => dispatch_refusal(self@, name@, *claimed, *actor) == Some(e@),
            },
    {
        proof {
            use_type_invariant(self);
        }
        let at: usize = match self.find(name) {
            Some(i) => i,
            None => {
                let mut m = "`".to_owned();
                m.append(name);
                m.append("` is not a registered operation");
                return Err(FerrumError::new(ErrorCode::UnknownOperation, m.as_str()));
            },
        };
        assert(registered(self@, name@));
        let auth = match verify_auth(claimed, actor) {
            Ok(a) => a,
            Err(e) => return Err(e),
        };
        assert(self@[at as int] == self.ops@[at as int]@);
        match auth.require(self.ops[at].permission) {
            Ok(()) => {
                assert forall|i: int| 0 <= i < self@.len() && (#[trigger] self@[i]).name == name@ implies i
                    == at by {
                    if i < at {
                        assert(self@[i].name != self@[at as int].name);
                    } else if at < i {
                        assert(self@[at as int].name != self@[i].name);
                    }
                }
                Ok(auth)
            },
            Err(e) => Err(e),
        }
    }
}

// ---------------------------------------------------------------------------
// Laws
// ---------------------------------------------------------------------------

/// Nobody gains rights: whatever a request claims, the rights an operation runs
/// with are rights the account has.
pub proof fn law_rights_are_never_gained(
    r: AuthContext,
    claimed: AuthContext,
    actor: ActorFacts,
    p: Permission,
)
    requires
        restricts(r, claimed, actor),
        model::granted(r.permissions@).contains(p),
    ensures
        model::granted(actor.permissions@).contains(p),
        model::granted(claimed.permissions@).contains(p),
{
}

/// An operation runs only for an account that exists, may log in, has the role
/// that was claimed, and holds the permission the operation asks for.
pub proof fn law_dispatch_is_earned(
    t: Seq<Entry>,
    name: Seq<char>,
    claimed: AuthContext,
    actor: Option<ActorFacts>,
    i: int,
)
    requires
        dispatch_refusal(t, name, claimed, actor) is None,
        0 <= i < t.len(),
        t[i].name == name,
    ensures
        actor is Some,
        actor->0.can_log_in,
        actor->0.role == claimed.acting_role,
        model::granted(actor->0.permissions@).contains(t[i].permission),
{
    assert(verified_rights(claimed, actor->0).contains(t[i].permission));
}

} // verus!
