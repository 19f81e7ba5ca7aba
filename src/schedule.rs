use vstd::prelude::*;

use crate::config::Backup;
use crate::pipeline::{Cycle, CycleResult, Stage};

verus! {

/// The endless loop of one job: a cycle, then a sleep of the job's interval,
/// whatever the cycle's outcome. Failures are counted, never propagated.
pub struct JobSchedule {
    pub interval_secs: u64,
    pub keep: usize,
    pub cycles: u64,
    pub failures: u64,
}

pub open spec fn saturating_inc(n: u64) -> u64 {
    if n < u64::MAX {
        (n + 1) as u64
    } else {
        n
    }
}

impl JobSchedule {
    pub fn for_job(job: &Backup) -> (r: JobSchedule)
        ensures
            r.interval_secs == job.interval as u64,
            r.keep == job.keep,
            r.cycles == 0,
            r.failures == 0,
    {
        JobSchedule { interval_secs: job.interval as u64, keep: job.keep, cycles: 0, failures: 0 }
    }

    /// A fresh cycle of `job`.
    pub fn start_cycle(&self, job: &str) -> (r: Cycle)
        requires
            self.keep >= 1,
        ensures
            r.wf(),
            r.job@ == job@,
            r.keep == self.keep,
            r.stage == Stage::Listing,
            r.entries@.len() == 0,
            r.file_name@.len() == 0,
    {
        Cycle::new(job, self.keep)
    }

    /// Records a finished cycle and returns the seconds to wait before the next
    /// one: the job's interval, after a success and after a failure alike.
    pub fn record(&mut self, outcome: &CycleResult) -> (delay: u64)
        ensures
            delay == old(self).interval_secs,
            final(self).interval_secs == old(self).interval_secs,
            final(self).keep == old(self).keep,
            final(self).cycles == saturating_inc(old(self).cycles),
            final(self).failures == if outcome.success {
                old(self).failures
            } else {
                saturating_inc(old(self).failures)
            },
    {
        if self.cycles < u64::MAX {
            self.cycles = self.cycles + 1;
        }
        if !outcome.success && self.failures < u64::MAX {
            self.failures = self.failures + 1;
        }
        self.interval_secs
    }
}

} // verus!
