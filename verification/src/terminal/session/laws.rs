//! When sessions begin and end.
use vstd::prelude::*;
use crate::error;
use crate::error::{ErrorCode, FerrumError, Problem};
use crate::model::AuthContext;
use crate::terminal::session;
use crate::terminal::session::{AuditEntry, Ended, Limits, Live, Opening, Slot};
use crate::terminal::Grant;
use crate::text;

verus! {

/// A session is over exactly if its shell has exited, or no key was pressed for as many
/// seconds of the clock as it may idle, or it is open for as many whole seconds as it may
/// be; and the reason says which.
pub proof fn law_when_a_session_is_over(limits: Limits, s: Live, now: i128, idle: u64, life: u64)
    requires
        limits.idle == idle * 1_000_000_000,
        limits.max_lifetime == life * 1_000_000_000,
        idle > 0,
        life > 0,
    ensures
        ({
            let r = session::overdue(limits, s, now);
            let second = now as int / 1_000_000_000;
            let idles = second - s.last_input >= idle;
            let old = now - s.opened_at >= life * 1_000_000_000;
            &&& r is Some <==> s.closed || idles || old
            &&& s.closed ==> r == Some("the shell exited"@)
            &&& !s.closed && idles ==> r == Some("idle timeout"@)
            &&& !s.closed && !idles && old ==> r == Some("maximum session lifetime reached"@)
        }),
{
    let second = now as int / 1_000_000_000;
    assert(i128::MIN <= second <= i128::MAX);
    assert(session::unix_second(now) == second);
    let q = session::quiet(now, s.last_input);
    assert(session::reaches(q, limits.idle) <==> q >= idle) by (nonlinear_arith)
        requires
            limits.idle == idle * 1_000_000_000,
            session::reaches(q, limits.idle) <==> q * 1_000_000_000 >= limits.idle,
    ;
    let e = session::elapsed(now, s.opened_at);
    assert(session::reaches(e, limits.max_lifetime) <==> e >= life) by (nonlinear_arith)
        requires
            limits.max_lifetime == life * 1_000_000_000,
            session::reaches(e, limits.max_lifetime) <==> e * 1_000_000_000 >= limits.max_lifetime,
    ;
}

/// How long a session was open: whole seconds, none where the clock went back.
pub proof fn law_how_long_a_session_was_open(now: i128, then: i128)
    ensures
        now <= then ==> session::elapsed(now, then) == 0,
        now > then ==> {
            let n = session::elapsed(now, then);
            n * 1_000_000_000 <= now - then < (n + 1) * 1_000_000_000
        },
{
}

/// A user's slots are counted one by one.
pub proof fn law_slots_are_counted(s: Seq<Slot>, x: Slot, owner: i64)
    ensures
        session::owned(Seq::<Slot>::empty(), owner) == 0,
        x.owner == owner ==> session::owned(s.push(x), owner) == session::owned(s, owner) + 1,
        x.owner != owner ==> session::owned(s.push(x), owner) == session::owned(s, owner),
{
    assert(s.push(x).drop_last() =~= s);
}

/// There is a slot exactly if its id is free, the server has one left and the user may have
/// one more; the want of one is answered accordingly.
pub proof fn law_when_there_is_a_slot(limits: Limits, s: Seq<Slot>, id: u128, owner: i64)
    ensures
        ({
            let r = session::slot_refusal(limits, s, id, owner);
            let free = forall|i: int| 0 <= i < s.len() ==> (#[trigger] s[i]).id != id;
            let room = s.len() < limits.max_sessions && session::owned(s, owner)
                < limits.max_per_user;
            &&& r is None <==> free && room
            &&& !free ==> error::objects(r, ErrorCode::Conflict, None)
            &&& free && !room ==> error::objects(r, ErrorCode::RateLimited, None)
        }),
{
}

/// A sweep looks at every session on its own, and keeps their order.
pub proof fn law_every_session_is_swept(limits: Limits, t: Seq<Live>, s: Live, now: i128)
    ensures
        session::overdue(limits, s, now) is Some ==> {
            &&& session::survivors(limits, t.push(s), now) == session::survivors(limits, t, now)
            &&& session::casualties(limits, t.push(s), now) == session::casualties(
                limits,
                t,
                now,
            ).push(s)
        },
        session::overdue(limits, s, now) is None ==> {
            &&& session::survivors(limits, t.push(s), now) == session::survivors(
                limits,
                t,
                now,
            ).push(s)
            &&& session::casualties(limits, t.push(s), now) == session::casualties(limits, t, now)
        },
{
    assert(t.push(s).drop_last() =~= t);
}

/// A slot that is given back is gone, and every other one stays in its place.
pub proof fn law_what_giving_back_leaves(held: Seq<Slot>, x: Slot, id: u128)
    ensures
        session::given_back(Seq::<Slot>::empty(), id) == Seq::<Slot>::empty(),
        x.id == id ==> session::given_back(held.push(x), id) == session::given_back(held, id),
        x.id != id ==> session::given_back(held.push(x), id) == session::given_back(
            held,
            id,
        ).push(x),
{
    reveal(Seq::filter);
    assert(held.push(x).drop_last() =~= held);
}

/// A session starts with nothing printed and its idle clock at the present second; it is
/// its owner's, under the account and with the rights that were granted.
pub proof fn law_what_a_session_starts_as(
    id: u128,
    number: u64,
    owner: i64,
    g: Grant,
    limits: Limits,
    now: i128,
)
    ensures
        ({
            let s = session::newborn(id, number, owner, g, limits, now);
            &&& s.id == id && s.number == number && s.owner == owner
            &&& s.is_root <==> g is Root
            &&& g is Root ==> s.account == "root"@
            &&& g is Tenant ==> s.account == g->linux_user
            &&& s.opened_at == now
            &&& s.last_input == now as int / 1_000_000_000
            &&& !s.closed
            &&& s.ring.len() == 0
            &&& s.cap == limits.scrollback_bytes
            &&& s.printed == 0
        }),
{
}

/// What the helper is told: whose shell it is, where it starts and which it is.
pub proof fn law_what_the_helper_is_told(g: Grant)
    ensures
        ({
            let v = session::helper_args(g);
            let n = v.len() as int;
            &&& v[0] == "--pty-helper"@
            &&& g is Root ==> n == 6 && v[1] == "--root"@ && v[3] == g->Root_home && v[5]
                == g->Root_shell
            &&& g is Tenant ==> {
                &&& n == 9
                &&& v[1] == "--uid"@ && v[2] == text::decimal(g->uid as nat)
                &&& v[3] == "--gid"@ && v[4] == text::decimal(g->gid as nat)
                &&& v[6] == g->Tenant_home && v[8] == g->Tenant_shell
            }
            &&& v[n - 4] == "--home"@
            &&& v[n - 2] == "--shell"@
        }),
        session::subscription_of(g) == if g is Tenant {
            Some(g->subscription_id)
        } else {
            None
        },
{
}

/// What goes on record when a session is opened: who acted and for whom, under which
/// request, whose shell it is and which.
pub proof fn law_what_is_recorded_of_an_opening(e: AuditEntry, id: u128, auth: AuthContext, g: Grant)
    requires
        session::records_open(e, id, auth, g),
    ensures
        e.actor_user_id == Some(auth.actor_user_id),
        e.actor_username@ == text::signed_decimal(auth.actor_user_id as int),
        e.impersonator_id == auth.impersonator_id,
        e.action@ == "terminal.open"@,
        e.request_id is Some && e.request_id->0@ == auth.request_id@,
        e.target is Some,
        g is Root ==> e.target->0@ == "root"@ && e.subscription_id is None,
        g is Tenant ==> e.target->0@ == g->linux_user && e.subscription_id == Some(
            g->subscription_id,
        ),
        e.detail is Opened,
        e.detail->Opened_session == id,
        e.detail->Opened_root <==> g is Root,
        g is Root ==> e.detail->shell@ == g->Root_shell,
        g is Tenant ==> e.detail->shell@ == g->Tenant_shell,
        e.detail->subscription_id == e.subscription_id,
{
}

/// What goes on record when it has ended: whose it was, why it ended and how long it was
/// open. The session itself is the one that it was, but closed.
pub proof fn law_what_is_recorded_of_an_end(e: Ended, s: Live, why: Seq<char>, now: i128)
    requires
        session::ends(e, s, why, now),
    ensures
        e.session@.id == s.id,
        e.session@.owner == s.owner,
        e.session@.closed,
        e.session@.ring == s.ring,
        e.entry.actor_user_id == Some(s.owner),
        e.entry.actor_username@ == text::signed_decimal(s.owner as int),
        e.entry.impersonator_id is None,
        e.entry.action@ == "terminal.close"@,
        e.entry.target is Some && e.entry.target->0@ == s.account,
        e.entry.detail is Closed,
        e.entry.detail->Closed_session == s.id,
        e.entry.detail->Closed_root == s.is_root,
        e.entry.detail->reason@ == why,
        now >= s.opened_at ==> e.entry.detail->seconds * 1_000_000_000 <= now - s.opened_at < (
        e.entry.detail->seconds + 1) * 1_000_000_000,
        now < s.opened_at ==> e.entry.detail->seconds == 0,
{
}

/// What asking for a session comes to: what refused the grant, else what refused the slot,
/// else the session of the id that was asked for, the caller's, with what was granted.
pub proof fn law_what_asking_comes_to(
    r: Result<Opening, FerrumError>,
    granted: Result<Grant, Problem>,
    slot: Option<Problem>,
    id: u128,
    auth: AuthContext,
)
    requires
        session::opens(r, granted, slot, id, auth),
    ensures
        r is Ok <==> granted is Ok && slot is None,
        granted is Err ==> r->Err_0@ == granted->Err_0,
        granted is Ok && slot is Some ==> r->Err_0@ == slot->0,
        r is Ok ==> {
            &&& r->Ok_0.id() == id
            &&& r->Ok_0.owner() == auth.actor_user_id
            &&& r->Ok_0.grant() == granted->Ok_0
            &&& session::records_open(r->Ok_0.row(), id, auth, granted->Ok_0)
        },
{
}

/// A place in the table is taken by its session's id and owner, by the live ones and by
/// those that are being opened.
pub proof fn law_which_slots_are_taken(t: Seq<Live>, held: Seq<Slot>, i: int)
    ensures
        session::taken(t, held).len() == t.len() + held.len(),
        0 <= i < t.len() ==> session::taken(t, held)[i].id == t[i].id && session::taken(
            t,
            held,
        )[i].owner == t[i].owner,
        t.len() <= i < t.len() + held.len() ==> session::taken(t, held)[i] == held[i - t.len()],
{
}


} // verus!
