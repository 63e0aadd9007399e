//! Running a list of install or upgrade steps one after another: which step
//! runs next, and when the run ends, given how the steps went.
use vstd::prelude::*;

verus! {

/// What a failed step does to the rest of the run: an install stops at the
/// first failure, an upgrade goes on with the remaining tools.
#[derive(PartialEq, Eq, Structural, Clone, Copy)]
pub enum BatchMode {
    StopOnFailure,
    ContinueOnFailure,
}

/// A run of `total` steps: the next step to run and how many have failed.
pub struct Batch {
    pub total: usize,
    pub next: usize,
    pub failures: usize,
    pub mode: BatchMode,
}

/// What to do next: run the step at this index, or end the run with this
/// many failed steps.
pub enum BatchAction {
    Run(usize),
    Done { failures: usize },
}

/// A run is well formed when it has not gone past its last step and no
/// more steps failed than ran.
pub open spec fn batch_well_formed(b: Batch) -> bool {
    b.next <= b.total && b.failures <= b.next
}

/// Whether the run goes on: steps are left, and no failure has stopped it.
pub open spec fn batch_goes_on(b: Batch) -> bool {
    b.next < b.total && !(b.mode == BatchMode::StopOnFailure && b.failures > 0)
}

impl Batch {
    /// A run of `total` steps in the given mode, before any step.
    pub fn new(total: usize, mode: BatchMode) -> (r: Batch)
        ensures
            r == (Batch { total, next: 0, failures: 0, mode }),
            batch_well_formed(r),
    {
        Batch { total, next: 0, failures: 0, mode }
    }

    /// The next step to run, or the end of the run with its failures.
    pub fn action(&self) -> (r: BatchAction)
        ensures
            if batch_goes_on(*self) {
                r == BatchAction::Run(self.next)
            } else {
                r == (BatchAction::Done { failures: self.failures })
            },
    {
        let stopped = match self.mode {
            BatchMode::StopOnFailure => self.failures > 0,
            BatchMode::ContinueOnFailure => false,
        };
        if self.next < self.total && !stopped {
            BatchAction::Run(self.next)
        } else {
            BatchAction::Done { failures: self.failures }
        }
    }

    /// Records how the step that was run went: the run moves to the next
    /// step, counting a failure when it failed.
    pub fn record(&mut self, ok: bool)
        requires
            batch_well_formed(*old(self)),
            batch_goes_on(*old(self)),
        ensures
            batch_well_formed(*final(self)),
            final(self).total == old(self).total,
            final(self).mode == old(self).mode,
            final(self).next == old(self).next + 1,
            final(self).failures == old(self).failures + if ok { 0int } else { 1int },
    {
        self.next = self.next + 1;
        if !ok {
            self.failures = self.failures + 1;
        }
    }
}

} // verus!
