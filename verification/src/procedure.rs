//! Running a list of steps, one at a time, and undoing what a failure leaves.
//!
//! A [`Procedure`] decides what to do next; performing it (a command, a query, a
//! file write) is the caller's part. The caller asks [`Procedure::next`], performs
//! what it says, and tells [`Procedure::report`] how it went. A [`Run`] also keeps
//! the error that stopped it, and hands it back at the end.
use vstd::prelude::*;
use crate::error;
use crate::error::{FerrumError, Problem};

verus! {

/// What to do now.
#[derive(Debug, Clone, Copy)]
pub enum Next<S> {
    /// Perform this step and report how it went.
    Perform(S),
    /// Every step has been performed.
    Done,
    /// A step failed, and everything there was to undo has been tried.
    Failed,
}

/// Steps in order, each with whether its failure is tolerated; what to do, in
/// order, once a failure is not; and how far things are.
pub struct Procedure<S> {
    steps: Vec<(S, bool)>,
    undo: Vec<S>,
    at: usize,
    failed: bool,
}

/// A [`Procedure`] as contracts see it.
#[verifier::ext_equal]
pub struct Course<S> {
    pub steps: Seq<(S, bool)>,
    pub undo: Seq<S>,
    pub at: int,
    pub failed: bool,
}

impl<S> Course<S> {
    /// A course that nothing has been done of.
    pub open spec fn fresh(steps: Seq<(S, bool)>, undo: Seq<S>) -> Course<S> {
        Course { steps, undo, at: 0, failed: false }
    }

    pub open spec fn wf(self) -> bool {
        0 <= self.at <= if self.failed {
            self.undo.len()
        } else {
            self.steps.len()
        }
    }

    pub open spec fn next(self) -> Next<S> {
        if !self.failed {
            if self.at < self.steps.len() {
                Next::Perform(self.steps[self.at].0)
            } else {
                Next::Done
            }
        } else if self.at < self.undo.len() {
            Next::Perform(self.undo[self.at])
        } else {
            Next::Failed
        }
    }

    /// The course once the step that `next` named went well or not.
    pub open spec fn after(self, ok: bool) -> Course<S> {
        if !(self.next() is Perform) {
            self
        } else if self.failed || ok || self.steps[self.at].1 {
            Course { at: self.at + 1, ..self }
        } else {
            Course { at: 0, failed: true, ..self }
        }
    }

    /// The course once several steps have been reported.
    pub open spec fn after_all(self, reports: Seq<bool>) -> Course<S>
        decreases reports.len(),
    {
        if reports.len() == 0 {
            self
        } else {
            self.after_all(reports.drop_last()).after(reports.last())
        }
    }

    /// What has been performed by then, in order.
    pub open spec fn performed(self, reports: Seq<bool>) -> Seq<S>
        decreases reports.len(),
    {
        if reports.len() == 0 {
            Seq::empty()
        } else {
            let before = self.performed(reports.drop_last());
            match self.after_all(reports.drop_last()).next() {
                Next::Perform(s) => before.push(s),
                _ => before,
            }
        }
    }

    /// The steps themselves.
    pub open spec fn named(self) -> Seq<S> {
        self.steps.map_values(|p: (S, bool)| p.0)
    }
}

impl<S> View for Procedure<S> {
    type V = Course<S>;

    closed spec fn view(&self) -> Course<S> {
        Course {
            steps: self.steps@,
            undo: self.undo@,
            at: self.at as int,
            failed: self.failed,
        }
    }
}

impl<S> Procedure<S> {
    #[verifier::type_invariant]
    spec fn valid(self) -> bool {
        self@.wf()
    }
}

impl<S: Copy> Procedure<S> {
    pub fn new(steps: Vec<(S, bool)>, undo: Vec<S>) -> (r: Procedure<S>)
        ensures
            r@ == Course::fresh(steps@, undo@),
    {
        Procedure { steps, undo, at: 0, failed: false }
    }

    pub fn next(&self) -> (r: Next<S>)
        ensures
            r == self@.next(),
    {
        proof {
            use_type_invariant(self);
        }
        if !self.failed {
            if self.at < self.steps.len() {
                Next::Perform(self.steps[self.at].0)
            } else {
                Next::Done
            }
        } else if self.at < self.undo.len() {
            Next::Perform(self.undo[self.at])
        } else {
            Next::Failed
        }
    }

    /// Whether a failure is being undone, or was.
    pub fn failing(&self) -> (r: bool)
        ensures
            r == self@.failed,
    {
        self.failed
    }

    pub fn report(&mut self, ok: bool)
        ensures
            final(self)@ == old(self)@.after(ok),
    {
        proof {
            use_type_invariant(&*self);
        }
        if !self.failed {
            if self.at < self.steps.len() {
                let i: usize = self.at;
                if ok || self.steps[i].1 {
                    self.at = i + 1;
                } else {
                    self.at = 0;
                    self.failed = true;
                }
            }
        } else if self.at < self.undo.len() {
            self.at = self.at + 1;
        }
    }
}

/// A procedure that is being run, and the error that stopped it.
pub struct Run<S> {
    procedure: Procedure<S>,
    cause: Option<FerrumError>,
}

/// A [`Run`] as contracts see it.
#[verifier::ext_equal]
pub struct Attempt<S> {
    pub course: Course<S>,
    pub cause: Option<Problem>,
}

impl<S> Attempt<S> {
    pub open spec fn fresh(course: Course<S>) -> Attempt<S> {
        Attempt { course, cause: None }
    }

    /// The attempt once a step came to something. The error that stops it is the
    /// first that is not tolerated; those while things are undone stop nothing.
    pub open spec fn after(self, outcome: Result<(), Problem>) -> Attempt<S> {
        let course = self.course.after(outcome is Ok);
        Attempt {
            course,
            cause: if !self.course.failed && course.failed {
                Some(outcome->Err_0)
            } else {
                self.cause
            },
        }
    }

    pub open spec fn after_all(self, outcomes: Seq<Result<(), Problem>>) -> Attempt<S>
        decreases outcomes.len(),
    {
        if outcomes.len() == 0 {
            self
        } else {
            self.after_all(outcomes.drop_last()).after(outcomes.last())
        }
    }

    /// What the whole came to.
    pub open spec fn result(self) -> Result<(), Problem> {
        match self.cause {
            Some(p) => Err(p),
            None => Ok(()),
        }
    }
}

impl<S> View for Run<S> {
    type V = Attempt<S>;

    closed spec fn view(&self) -> Attempt<S> {
        Attempt {
            course: self.procedure@,
            cause: match self.cause {
                Some(e) => Some(e@),
                None => None,
            },
        }
    }
}

impl<S: Copy> Run<S> {
    pub fn new(procedure: Procedure<S>) -> (r: Run<S>)
        ensures
            r@ == Attempt::fresh(procedure@),
    {
        Run { procedure, cause: None }
    }

    pub fn next(&self) -> (r: Next<S>)
        ensures
            r == self@.course.next(),
    {
        self.procedure.next()
    }

    /// Takes in what the step that `next` named came to.
    pub fn note(&mut self, outcome: Result<(), FerrumError>)
        ensures
            final(self)@ == old(self)@.after(error::outcome(outcome)),
    {
        let before = self.procedure.failing();
        self.procedure.report(outcome.is_ok());
        if let Err(e) = outcome {
            if !before && self.procedure.failing() {
                self.cause = Some(e);
            }
        }
    }

    /// The error that stopped it, if one did.
    pub fn cause(&self) -> (r: Option<&FerrumError>)
        ensures
            match r {
                Some(e) => self@.cause == Some(e@),
                None => self@.cause is None,
            },
    {
        self.cause.as_ref()
    }

    /// What the whole came to: the very error that stopped it, if one did.
    pub fn end(self) -> (r: Result<(), FerrumError>)
        ensures
            error::outcome(r) == self@.result(),
    {
        match self.cause {
            Some(e) => Err(e),
            None => Ok(()),
        }
    }
}

/// Which of some outcomes were good.
pub open spec fn reports_of(outcomes: Seq<Result<(), Problem>>) -> Seq<bool> {
    outcomes.map_values(|o: Result<(), Problem>| o is Ok)
}

/// A run that fails hands back the error of the first step whose failure is not
/// tolerated, and that very error; whatever goes wrong while things are undone
/// does not take its place. A run that does not fail hands back none.
pub proof fn law_a_failed_run_hands_back_what_failed<S>(
    steps: Seq<(S, bool)>,
    undo: Seq<S>,
    outcomes: Seq<Result<(), Problem>>,
) -> (n: int)
    ensures
        ({
            let c = Course::fresh(steps, undo);
            let a = Attempt::fresh(c).after_all(outcomes);
            &&& a.course == c.after_all(reports_of(outcomes))
            &&& 0 <= n <= steps.len()
            &&& n <= outcomes.len()
            &&& !a.course.failed ==> {
                &&& a.result() == Ok::<(), Problem>(())
                &&& n == a.course.at
                &&& n < steps.len() ==> n == outcomes.len()
                &&& forall|j: int| 0 <= j < n ==> #[trigger] outcomes[j] is Ok || steps[j].1
            }
            &&& a.course.failed ==> {
                &&& n > 0
                &&& forall|j: int| 0 <= j < n - 1 ==> #[trigger] outcomes[j] is Ok || steps[j].1
                &&& !steps[n - 1].1
                &&& outcomes[n - 1] is Err
                &&& a.result() == outcomes[n - 1]
            }
        }),
    decreases outcomes.len(),
{
    let c = Course::fresh(steps, undo);
    if outcomes.len() == 0 {
        0
    } else {
        let front = outcomes.drop_last();
        let m = law_a_failed_run_hands_back_what_failed(steps, undo, front);
        let mid = Attempt::fresh(c).after_all(front);
        let end = Attempt::fresh(c).after_all(outcomes);
        lemma_course(c, reports_of(front));
        assert(reports_of(outcomes).drop_last() =~= reports_of(front));
        assert(reports_of(outcomes).last() == (outcomes.last() is Ok));
        assert forall|j: int| 0 <= j < front.len() implies #[trigger] outcomes[j] == front[j] by {}
        if !mid.course.failed && mid.course.at < steps.len() {
            assert(outcomes[m] == outcomes.last());
            m + 1
        } else {
            m
        }
    }
}

proof fn lemma_course<S>(c: Course<S>, reports: Seq<bool>)
    requires
        c == Course::fresh(c.steps, c.undo),
    ensures
        c.after_all(reports).wf(),
        c.after_all(reports).steps == c.steps,
        c.after_all(reports).undo == c.undo,
        !c.after_all(reports).failed ==> c.performed(reports) == c.named().take(
            c.after_all(reports).at,
        ),
        c.after_all(reports).failed ==> exists|k: int|
            0 <= k < c.steps.len() && !c.steps[k].1 && #[trigger] (c.named().take(k + 1)
                + c.undo.take(c.after_all(reports).at)) == c.performed(reports),
    decreases reports.len(),
{
    if reports.len() == 0 {
        assert(c.named().take(0) =~= Seq::empty());
    } else {
        let front = reports.drop_last();
        lemma_course(c, front);
        let mid = c.after_all(front);
        let end = c.after_all(reports);
        if mid.next() is Perform {
            if !mid.failed {
                assert(c.performed(reports) =~= c.named().take(mid.at + 1));
                if end.failed {
                    assert(c.named().take(mid.at + 1) + c.undo.take(0) =~= c.performed(reports));
                }
            } else {
                let k = choose|k: int|
                    0 <= k < c.steps.len() && !c.steps[k].1 && #[trigger] (c.named().take(k + 1)
                        + c.undo.take(mid.at)) == c.performed(front);
                assert(c.named().take(k + 1) + c.undo.take(end.at) =~= c.performed(reports));
            }
        }
    }
}

/// Until a failure counts, exactly the first steps have been performed, in order.
pub proof fn law_steps_run_in_order<S>(steps: Seq<(S, bool)>, undo: Seq<S>, reports: Seq<bool>)
    ensures
        ({
            let c = Course::fresh(steps, undo);
            let end = c.after_all(reports);
            !end.failed ==> 0 <= end.at <= steps.len() && c.performed(reports) == c.named().take(
                end.at,
            )
        }),
{
    lemma_course(Course::fresh(steps, undo), reports);
}

/// Once a failure counts, no further step is performed: what follows the failed
/// one is the undo list, from its start.
pub proof fn law_a_failure_is_followed_by_the_undo_list<S>(
    steps: Seq<(S, bool)>,
    undo: Seq<S>,
    reports: Seq<bool>,
)
    ensures
        ({
            let c = Course::fresh(steps, undo);
            let end = c.after_all(reports);
            end.failed ==> exists|k: int|
                0 <= k < steps.len() && !steps[k].1 && #[trigger] (c.named().take(k + 1)
                    + undo.take(end.at)) == c.performed(reports)
        }),
{
    lemma_course(Course::fresh(steps, undo), reports);
}

/// What has been performed is the first `n` steps, each of which but the last
/// went well or was tolerated, and then, only if the last of them failed, the
/// start of the undo list.
pub proof fn law_what_was_performed<S>(
    steps: Seq<(S, bool)>,
    undo: Seq<S>,
    reports: Seq<bool>,
) -> (n: int)
    ensures
        ({
            let c = Course::fresh(steps, undo);
            let done = c.performed(reports);
            let end = c.after_all(reports);
            &&& 0 <= n <= steps.len()
            &&& n <= done.len() <= n + undo.len()
            &&& n <= reports.len()
            &&& forall|i: int| 0 <= i < n ==> #[trigger] done[i] == steps[i].0
            &&& forall|i: int| n <= i < done.len() ==> #[trigger] done[i] == undo[i - n]
            &&& forall|j: int| 0 <= j < n - 1 ==> #[trigger] reports[j] || steps[j].1
            &&& end.failed ==> n > 0 && !reports[n - 1] && !steps[n - 1].1 && end.at == done.len()
                - n
            &&& !end.failed ==> n == end.at && n == done.len() && (n > 0 ==> reports[n - 1]
                || steps[n - 1].1) && (n < steps.len() ==> n == reports.len())
            &&& end.steps == steps
            &&& end.undo == undo
        }),
    decreases reports.len(),
{
    let c = Course::fresh(steps, undo);
    let done = c.performed(reports);
    if reports.len() == 0 {
        0
    } else {
        let front = reports.drop_last();
        let m = law_what_was_performed(steps, undo, front);
        let mid = c.after_all(front);
        let before = c.performed(front);
        assert forall|j: int| 0 <= j < m implies #[trigger] reports[j] == front[j] by {}
        if !mid.failed && mid.at < steps.len() {
            assert(done == before.push(steps[mid.at].0));
            m + 1
        } else {
            if mid.failed && mid.at < undo.len() {
                assert(done == before.push(undo[mid.at]));
            } else {
                assert(done == before);
            }
            m
        }
    }
}

/// However far a course is, it stays inside its two lists.
pub proof fn lemma_within_undo<S>(c: Course<S>, reports: Seq<bool>)
    requires
        c == Course::fresh(c.steps, c.undo),
    ensures
        c.after_all(reports).wf(),
        c.after_all(reports).steps == c.steps,
        c.after_all(reports).undo == c.undo,
{
    lemma_course(c, reports);
}

/// Undoing always reaches its end, whatever fails on the way.
pub proof fn law_undo_is_carried_through<S>(c: Course<S>, reports: Seq<bool>)
    requires
        c.wf(),
        c.failed,
        reports.len() >= c.undo.len() - c.at,
    ensures
        c.after_all(reports).next() is Failed,
        c.after_all(reports).failed,
{
    lemma_undo_progress(c, reports);
}

proof fn lemma_undo_progress<S>(c: Course<S>, reports: Seq<bool>)
    requires
        c.wf(),
        c.failed,
    ensures
        ({
            let end = c.after_all(reports);
            &&& end.failed
            &&& end.undo == c.undo
            &&& end.at == if c.at + reports.len() < c.undo.len() {
                c.at + reports.len()
            } else {
                c.undo.len() as int
            }
        }),
    decreases reports.len(),
{
    if reports.len() > 0 {
        lemma_undo_progress(c, reports.drop_last());
    }
}

/// Where every step goes well, all of them are performed and nothing is undone.
pub proof fn law_success_performs_every_step<S>(
    steps: Seq<(S, bool)>,
    undo: Seq<S>,
    reports: Seq<bool>,
)
    requires
        reports.len() == steps.len(),
        forall|i: int| 0 <= i < reports.len() ==> #[trigger] reports[i],
    ensures
        ({
            let c = Course::fresh(steps, undo);
            c.after_all(reports).next() is Done && c.performed(reports) == c.named()
        }),
{
    let c = Course::fresh(steps, undo);
    lemma_success(c, reports, reports.len() as int);
    assert(reports.take(reports.len() as int) =~= reports);
    lemma_course(c, reports);
    assert(c.named().take(steps.len() as int) =~= c.named());
}

proof fn lemma_success<S>(c: Course<S>, reports: Seq<bool>, k: int)
    requires
        c == Course::fresh(c.steps, c.undo),
        reports.len() == c.steps.len(),
        forall|i: int| 0 <= i < reports.len() ==> #[trigger] reports[i],
        0 <= k <= reports.len(),
    ensures
        c.after_all(reports.take(k)) == (Course { at: k, ..c }),
    decreases k,
{
    if k > 0 {
        lemma_success(c, reports, k - 1);
        assert(reports.take(k).drop_last() =~= reports.take(k - 1));
        assert(reports.take(k).last() == reports[k - 1]);
    }
}

} // verus!
