//! Running several flows in a row, where some may fail without ending the
//! whole.
//!
//! A plan is a row of phases. Each phase is the run of one flow. A phase that
//! is required ends the plan when its flow fails; any other phase is followed
//! by the next one whatever becomes of it. After each phase the plan can ask
//! for a pause, a longer or a shorter one according to how the phase ended.

use crate::workflow::{Outcome, OutcomeView};
use vstd::prelude::*;

verus! {

/// How a plan deals with one of its phases.
#[derive(Clone, Copy, Debug, PartialEq, Eq, Structural)]
pub struct Phase {
    /// Whether the plan ends where the flow of this phase fails.
    pub required: bool,
    /// The pause after the phase where its flow succeeded, in milliseconds.
    pub wait_after_success_ms: u64,
    /// The pause after the phase where its flow failed and the plan goes on.
    pub wait_after_failure_ms: u64,
}

/// What a plan asks its driver to do next.
#[derive(Debug, PartialEq, Eq)]
pub enum PlanAction {
    /// Run the flow of the phase at `phase` and tell how it ended.
    Run { phase: usize },
    /// Wait for so many milliseconds and come back.
    Wait { ms: u64 },
    /// Nothing more: every phase has been run.
    Completed,
    /// Nothing more: the required phase at `phase` has ended as `outcome`
    /// says.
    Failed { phase: usize, outcome: Outcome },
}

/// What a plan asks for, as mathematical values.
pub ghost enum PlanActionView {
    Run { phase: usize },
    Wait { ms: u64 },
    Completed,
    Failed { phase: usize, outcome: OutcomeView },
}

impl View for PlanAction {
    type V = PlanActionView;

    open spec fn view(&self) -> PlanActionView {
        match self {
            PlanAction::Run { phase } => PlanActionView::Run { phase: *phase },
            PlanAction::Wait { ms } => PlanActionView::Wait { ms: *ms },
            PlanAction::Completed => PlanActionView::Completed,
            PlanAction::Failed { phase, outcome } => PlanActionView::Failed {
                phase: *phase,
                outcome: outcome@,
            },
        }
    }
}

/// The state of a plan, as mathematical values.
pub ghost struct PlanView {
    /// The phases.
    pub phases: Seq<Phase>,
    /// The position of the phase that is run next, or that is running.
    pub at: int,
    /// Whether the plan has ended.
    pub over: bool,
}

/// What a plan asks for when it turns to the phase at `at`.
pub open spec fn turn_to(p: PlanView, at: int) -> (PlanView, PlanActionView) {
    if 0 <= at < p.phases.len() {
        (PlanView { at, ..p }, PlanActionView::Run { phase: at as usize })
    } else {
        (PlanView { at: p.phases.len() as int, over: true, ..p }, PlanActionView::Completed)
    }
}

/// What a plan does once the flow of its current phase has ended as `outcome`
/// says.
pub open spec fn after_phase(p: PlanView, outcome: OutcomeView) -> (PlanView, PlanActionView) {
    if p.over || !(0 <= p.at < p.phases.len()) {
        (PlanView { over: true, ..p }, PlanActionView::Completed)
    } else {
        let phase = p.phases[p.at];
        let succeeded = outcome == OutcomeView::Completed;
        if !succeeded && phase.required {
            (
                PlanView { over: true, ..p },
                PlanActionView::Failed { phase: p.at as usize, outcome },
            )
        } else {
            let ms = if succeeded {
                phase.wait_after_success_ms
            } else {
                phase.wait_after_failure_ms
            };
            if ms > 0 {
                (PlanView { at: p.at + 1, ..p }, PlanActionView::Wait { ms })
            } else {
                turn_to(p, p.at + 1)
            }
        }
    }
}

/// Several flows in a row, and how far the row has been run.
pub struct Plan {
    phases: Vec<Phase>,
    at: usize,
    over: bool,
}

impl View for Plan {
    type V = PlanView;

    closed spec fn view(&self) -> PlanView {
        PlanView { phases: self.phases@, at: self.at as int, over: self.over }
    }
}

impl Plan {
    #[verifier::type_invariant]
    spec fn inv(self) -> bool {
        self.at <= self.phases.len()
    }

    /// A plan that has not started.
    pub fn new(phases: Vec<Phase>) -> (plan: Plan)
        ensures
            plan@ == (PlanView { phases: phases@, at: 0, over: false }),
    {
        Plan { phases, at: 0, over: false }
    }

    /// Whether the plan has ended.
    pub fn is_over(&self) -> (r: bool)
        ensures
            r == self@.over,
    {
        self.over
    }

    /// What the plan asks for as it starts, or as it comes back from a
    /// pause: to run the phase it stands at, or nothing more where there is
    /// none.
    pub fn resume(&mut self) -> (action: PlanAction)
        ensures
            (final(self)@, action@) == turn_to(old(self)@, old(self)@.at),
    {
        proof {
            use_type_invariant(&*self);
        }
        if self.at < self.phases.len() {
            PlanAction::Run { phase: self.at }
        } else {
            self.over = true;
            PlanAction::Completed
        }
    }

    /// Tells the plan how the flow of its current phase has ended, and asks
    /// it what to do next.
    pub fn record(&mut self, outcome: Outcome) -> (action: PlanAction)
        ensures
            (final(self)@, action@) == after_phase(old(self)@, outcome@),
    {
        proof {
            use_type_invariant(&*self);
        }
        if self.over || self.at >= self.phases.len() {
            self.over = true;
            return PlanAction::Completed;
        }
        let phase = self.phases[self.at];
        let succeeded = outcome.is_success();
        if !succeeded && phase.required {
            self.over = true;
            return PlanAction::Failed { phase: self.at, outcome };
        }
        let ms = if succeeded {
            phase.wait_after_success_ms
        } else {
            phase.wait_after_failure_ms
        };
        self.at = self.at + 1;
        if ms > 0 {
            PlanAction::Wait { ms }
        } else {
            self.resume()
        }
    }
}

/// A phase that is not required never ends the plan: whatever becomes of its
/// flow, the plan goes on to a pause or to the next phase.
pub proof fn lemma_tolerated_failure_goes_on(p: PlanView, outcome: OutcomeView)
    requires
        !p.over,
        0 <= p.at < p.phases.len(),
        !p.phases[p.at].required,
    ensures
        !(after_phase(p, outcome).1 is Failed),
        after_phase(p, outcome).0.at == p.at + 1,
{
}

/// A plan ends as failed only at a required phase whose flow did not
/// succeed, and it says which phase and how the flow ended.
pub proof fn lemma_failure_names_the_phase(p: PlanView, outcome: OutcomeView)
    requires
        after_phase(p, outcome).1 is Failed,
    ensures
        0 <= p.at < p.phases.len(),
        p.phases[p.at].required,
        outcome != OutcomeView::Completed,
        after_phase(p, outcome).1 == (PlanActionView::Failed { phase: p.at as usize, outcome }),
{
}

} // verus!
