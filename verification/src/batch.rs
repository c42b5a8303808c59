//! Running a batch: one item after the other, whatever becomes of each.
//!
//! A batch never stops at an item that fails. It counts the failure, goes on
//! with the next item and, at the end, reports how many items succeeded and
//! how many failed.

use crate::number::{digits_of, push_digits};
use crate::text::{append_str, string_of};
use vstd::prelude::*;

verus! {

/// What a batch has come to: how many of its items succeeded and how many
/// failed.
#[derive(Clone, Copy, Debug, PartialEq, Eq, Structural)]
pub struct Report {
    pub success: usize,
    pub failed: usize,
    pub total: usize,
}

/// How a batch as a whole is judged.
#[derive(Clone, Copy, Debug, PartialEq, Eq, Structural)]
pub enum Verdict {
    /// Enough items succeeded to call the batch a success.
    Full,
    /// Fewer succeeded, but enough to call it a partial success.
    Partial,
    /// Too few succeeded, or there was no item at all.
    Failed,
}

/// The shares of successful items, in percent, from which a batch counts as a
/// success and as a partial success.
#[derive(Clone, Copy, Debug, PartialEq, Eq, Structural)]
pub struct Thresholds {
    pub full_percent: u8,
    pub partial_percent: u8,
}

/// How many of the results are successes.
pub open spec fn successes(results: Seq<bool>) -> nat
    decreases results.len(),
{
    if results.len() == 0 {
        0
    } else {
        successes(results.drop_last()) + if results.last() {
            1nat
        } else {
            0nat
        }
    }
}

/// There are no more successes than results.
pub proof fn lemma_successes_bound(results: Seq<bool>)
    ensures
        successes(results) <= results.len(),
    decreases results.len(),
{
    if results.len() > 0 {
        lemma_successes_bound(results.drop_last());
    }
}

/// The judgement on `success` successful items out of `total`.
pub open spec fn judge(success: int, total: int, t: Thresholds) -> Verdict {
    if total > 0 && success * 100 >= t.full_percent * total {
        Verdict::Full
    } else if total > 0 && success * 100 >= t.partial_percent * total {
        Verdict::Partial
    } else {
        Verdict::Failed
    }
}

impl Thresholds {
    /// A success from 80 percent, a partial success from 50 percent.
    pub fn standard() -> (t: Thresholds)
        ensures
            t == (Thresholds { full_percent: 80, partial_percent: 50 }),
    {
        Thresholds { full_percent: 80, partial_percent: 50 }
    }
}

/// The judgement on `success` successful items out of `total`.
pub fn classify(success: usize, total: usize, t: Thresholds) -> (v: Verdict)
    ensures
        v == judge(success as int, total as int, t),
{
    let got: u128 = success as u128 * 100;
    let all: u128 = total as u128;
    assert(success as int * 100 == got as int);
    assert(t.full_percent as int * (total as int) <= 255 * 0xffff_ffff_ffff_ffff) by (nonlinear_arith)
        requires
            0 <= t.full_percent <= 255,
            0 <= total <= 0xffff_ffff_ffff_ffff,
    ;
    assert(t.partial_percent as int * (total as int) <= 255 * 0xffff_ffff_ffff_ffff)
        by (nonlinear_arith)
        requires
            0 <= t.partial_percent <= 255,
            0 <= total <= 0xffff_ffff_ffff_ffff,
    ;
    if total > 0 && got >= t.full_percent as u128 * all {
        Verdict::Full
    } else if total > 0 && got >= t.partial_percent as u128 * all {
        Verdict::Partial
    } else {
        Verdict::Failed
    }
}

impl Report {
    /// The judgement on the batch.
    pub fn verdict(&self, t: Thresholds) -> (v: Verdict)
        ensures
            v == judge(self.success as int, self.total as int, t),
    {
        classify(self.success, self.total, t)
    }

    /// Whether at least one item succeeded.
    pub fn any_success(&self) -> (r: bool)
        ensures
            r == (self.success > 0),
    {
        self.success > 0
    }
}

/// What a batch asks its driver to do next.
#[derive(Clone, Copy, Debug, PartialEq, Eq, Structural)]
pub enum BatchAction {
    /// Work on the item at `index` and tell how it went.
    Process { index: usize },
    /// Wait for so many milliseconds and come back.
    Pause { ms: u64 },
    /// Nothing more: this is what the batch has come to.
    Done(Report),
}

/// The state of a batch, as mathematical values.
pub ghost struct BatchView {
    /// How many items there are.
    pub total: nat,
    /// How the items worked on so far have gone, in order.
    pub results: Seq<bool>,
    /// The pause between two items.
    pub pause_ms: u64,
    /// Whether the batch is pausing between two items.
    pub resting: bool,
}

/// The report on a batch.
pub open spec fn report_of(b: BatchView) -> Report {
    Report {
        success: successes(b.results) as usize,
        failed: (b.results.len() - successes(b.results)) as usize,
        total: b.total as usize,
    }
}

/// What a batch asks for when it turns to its next item.
pub open spec fn turn(b: BatchView) -> BatchAction {
    if b.results.len() < b.total {
        BatchAction::Process { index: b.results.len() as usize }
    } else {
        BatchAction::Done(report_of(b))
    }
}

/// The batch once the item it was working on has gone as `succeeded` says,
/// and what it asks for then: a pause where there is another item and pauses
/// are wanted, else the next item, or nothing more after the last. A batch that
/// has no item left to hear of stays as it is.
pub open spec fn recorded(b: BatchView, succeeded: bool) -> (BatchView, BatchAction) {
    let after = BatchView { results: b.results.push(succeeded), resting: false, ..b };
    if b.results.len() >= b.total {
        (b, BatchAction::Done(report_of(b)))
    } else if after.results.len() < b.total && b.pause_ms > 0 {
        (BatchView { resting: true, ..after }, BatchAction::Pause { ms: b.pause_ms })
    } else {
        (after, turn(after))
    }
}

/// A batch of items and how far it has come.
pub struct Batch {
    total: usize,
    done: usize,
    success: usize,
    pause_ms: u64,
    resting: bool,
    results: Ghost<Seq<bool>>,
}

impl View for Batch {
    type V = BatchView;

    closed spec fn view(&self) -> BatchView {
        BatchView {
            total: self.total as nat,
            results: self.results@,
            pause_ms: self.pause_ms,
            resting: self.resting,
        }
    }
}

impl Batch {
    #[verifier::type_invariant]
    spec fn inv(self) -> bool {
        &&& self.done == self.results@.len()
        &&& self.success == successes(self.results@)
        &&& self.done <= self.total
    }

    /// A batch of `total` items with a pause of `pause_ms` milliseconds
    /// between two items.
    pub fn new(total: usize, pause_ms: u64) -> (b: Batch)
        ensures
            b@ == (BatchView {
                total: total as nat,
                results: Seq::empty(),
                pause_ms,
                resting: false,
            }),
    {
        Batch { total, done: 0, success: 0, pause_ms, resting: false, results: Ghost(Seq::empty()) }
    }

    /// The report on the batch so far.
    pub fn report(&self) -> (r: Report)
        ensures
            r == report_of(self@),
            r.success + r.failed == self@.results.len(),
            self@.results.len() <= self@.total,
    {
        proof {
            use_type_invariant(self);
            lemma_successes_bound(self.results@);
        }
        Report { success: self.success, failed: self.done - self.success, total: self.total }
    }

    /// What the batch asks for as it starts, or as it comes back from a
    /// pause: the next item, or nothing more where there is none.
    pub fn resume(&mut self) -> (action: BatchAction)
        ensures
            final(self)@ == (BatchView { resting: false, ..old(self)@ }),
            action == turn(old(self)@),
    {
        proof {
            use_type_invariant(&*self);
        }
        self.resting = false;
        if self.done < self.total {
            BatchAction::Process { index: self.done }
        } else {
            BatchAction::Done(self.report())
        }
    }

    /// Tells the batch how the item it was working on has gone, and asks it
    /// what to do next.
    pub fn record(&mut self, succeeded: bool) -> (action: BatchAction)
        ensures
            (final(self)@, action) == recorded(old(self)@, succeeded),
    {
        proof {
            use_type_invariant(&*self);
            lemma_successes_bound(self.results@);
            assert(self.results@.push(succeeded).drop_last() =~= self.results@);
        }
        if self.done >= self.total {
            return BatchAction::Done(self.report());
        }
        let done = self.done + 1;
        let resting = done < self.total && self.pause_ms > 0;
        *self = Batch {
            total: self.total,
            done,
            success: if succeeded {
                self.success + 1
            } else {
                self.success
            },
            pause_ms: self.pause_ms,
            resting,
            results: Ghost(self.results@.push(succeeded)),
        };
        if resting {
            BatchAction::Pause { ms: self.pause_ms }
        } else if self.done < self.total {
            BatchAction::Process { index: self.done }
        } else {
            BatchAction::Done(self.report())
        }
    }
}

/// A failed item does not stop a batch: whether the item succeeded or not,
/// the batch goes on in the same way, to a pause, to the next item, or to its
/// report.
pub proof fn lemma_failure_does_not_stop(b: BatchView)
    requires
        b.results.len() < b.total,
    ensures
        recorded(b, false).1 is Pause <==> recorded(b, true).1 is Pause,
        recorded(b, false).1 is Process <==> recorded(b, true).1 is Process,
        recorded(b, false).1 is Done <==> recorded(b, true).1 is Done,
        recorded(b, false).1 is Done <==> b.results.len() + 1 == b.total,
        recorded(b, false).0.results.len() == b.results.len() + 1,
{
}

/// The report counts every item once: the successes as successes, the others
/// as failures.
pub proof fn lemma_report_counts(b: BatchView)
    requires
        b.results.len() <= b.total,
        b.total <= usize::MAX,
    ensures
        report_of(b).success == successes(b.results),
        report_of(b).success + report_of(b).failed == b.results.len(),
        report_of(b).total == b.total,
{
    lemma_successes_bound(b.results);
}

/// The report on a batch as it is written to a file, under the time `time`.
pub open spec fn report_lines(report: Report, time: Seq<char>) -> Seq<char> {
    "Contact Import Report\nTime: "@ + time + "\nSuccess: "@ + digits_of(report.success as nat)
        + "\nFailed: "@ + digits_of(report.failed as nat) + "\nTotal: "@ + digits_of(
        report.total as nat,
    )
}

impl Report {
    /// The report as it is written to a file, under the time `time`.
    pub fn text(&self, time: &str) -> (r: String)
        ensures
            r@ == report_lines(*self, time@),
    {
        let mut out: Vec<char> = Vec::new();
        append_str(&mut out, "Contact Import Report\nTime: ");
        append_str(&mut out, time);
        append_str(&mut out, "\nSuccess: ");
        push_digits(&mut out, self.success as u64);
        append_str(&mut out, "\nFailed: ");
        push_digits(&mut out, self.failed as u64);
        append_str(&mut out, "\nTotal: ");
        push_digits(&mut out, self.total as u64);
        assert(out@ =~= report_lines(*self, time@));
        string_of(&out)
    }
}

} // verus!
