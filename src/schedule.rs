use vstd::prelude::*;

verus! {

/// True when a task repeated every `every` steps falls due once `done` steps
/// have been taken. An interval of zero never falls due.
pub open spec fn falls_due(every: int, done: int) -> bool {
    every > 0 && done % every == 0
}

/// The periodic tasks that fall due after a step.
#[derive(Clone, Copy, Debug, PartialEq, Eq, Structural)]
pub struct Due {
    /// Take a convergence sample.
    pub sample: bool,
    /// Report progress.
    pub report: bool,
}

/// The schedule of a run: a budget of steps, and the intervals at which the
/// convergence observable is sampled and progress is reported.
pub struct RunSchedule {
    max_steps: u64,
    sample_every: u64,
    report_every: u64,
    done: u64,
}

impl RunSchedule {
    /// The step budget.
    pub closed spec fn budget(&self) -> nat {
        self.max_steps as nat
    }

    /// Steps between two samples.
    pub closed spec fn sample_interval(&self) -> nat {
        self.sample_every as nat
    }

    /// Steps between two reports.
    pub closed spec fn report_interval(&self) -> nat {
        self.report_every as nat
    }

    /// Steps taken so far.
    pub closed spec fn taken(&self) -> nat {
        self.done as nat
    }

    /// Never more steps taken than the budget allows.
    pub open spec fn wf(&self) -> bool {
        self.taken() <= self.budget()
    }

    /// A run with no step taken yet.
    pub fn new(max_steps: u64, sample_every: u64, report_every: u64) -> (r: Self)
        ensures
            r.wf(),
            r.budget() == max_steps,
            r.sample_interval() == sample_every,
            r.report_interval() == report_every,
            r.taken() == 0,
    {
        RunSchedule { max_steps, sample_every, report_every, done: 0 }
    }

    /// Steps taken so far.
    pub fn steps_taken(&self) -> (r: u64)
        ensures
            r == self.taken(),
    {
        self.done
    }

    /// Accounts for one more step. Returns `None`, and takes no step, once the
    /// budget is spent; otherwise the tasks that fall due after that step.
    pub fn advance(&mut self) -> (r: Option<Due>)
        requires
            old(self).wf(),
        ensures
            final(self).wf(),
            final(self).budget() == old(self).budget(),
            final(self).sample_interval() == old(self).sample_interval(),
            final(self).report_interval() == old(self).report_interval(),
            old(self).taken() == old(self).budget() <==> r is None,
            r is None ==> final(self).taken() == old(self).taken(),
            r matches Some(d) ==> {
                &&& final(self).taken() == old(self).taken() + 1
                &&& d.sample == falls_due(
                    old(self).sample_interval() as int,
                    final(self).taken() as int,
                )
                &&& d.report == falls_due(
                    old(self).report_interval() as int,
                    final(self).taken() as int,
                )
            },
    {
        if self.done == self.max_steps {
            None
        } else {
            self.done = self.done + 1;
            let sample = self.sample_every > 0 && self.done % self.sample_every == 0;
            let report = self.report_every > 0 && self.done % self.report_every == 0;
            Some(Due { sample, report })
        }
    }
}

} // verus!
