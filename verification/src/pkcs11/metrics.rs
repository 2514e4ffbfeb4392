//! The pool's counters.
//!
//! A counter holds 64 bits and wraps around, as an atomic one does.

use vstd::prelude::*;

verus! {

/// What the pool has counted since it started.
#[derive(Clone, Copy, Debug, PartialEq, Eq, Structural)]
pub struct PoolMetrics {
    pub jobs_submitted: u64,
    pub jobs_completed: u64,
    pub jobs_failed: u64,
    pub jobs_rejected_queue_full: u64,
    pub jobs_timed_out: u64,
    pub queue_wait_nanos_total: u64,
    pub service_nanos_total: u64,
    pub session_resets: u64,
    pub handle_cache_hits: u64,
    pub handle_cache_misses: u64,
}

/// A counter that stood at `counter`, after `value` more.
pub open spec fn counted(counter: u64, value: int) -> u64 {
    ((counter + value) % 0x1_0000_0000_0000_0000) as u64
}

/// The mean of a total of nanoseconds over a number of jobs, in whole microseconds, or 0 where
/// there were none.
pub open spec fn mean_micros(total_nanos: u64, jobs: u64) -> u64 {
    if jobs == 0 {
        0
    } else {
        (total_nanos / jobs) / 1_000
    }
}

impl PoolMetrics {
    /// Counters that have counted nothing.
    pub open spec fn zero() -> PoolMetrics {
        PoolMetrics {
            jobs_submitted: 0,
            jobs_completed: 0,
            jobs_failed: 0,
            jobs_rejected_queue_full: 0,
            jobs_timed_out: 0,
            queue_wait_nanos_total: 0,
            service_nanos_total: 0,
            session_resets: 0,
            handle_cache_hits: 0,
            handle_cache_misses: 0,
        }
    }

    /// Count one more.
    pub fn incr(counter: &mut u64)
        ensures
            *final(counter) == counted(*old(counter), 1),
    {
        *counter = counter.wrapping_add(1);
    }

    /// Count `value` more.
    pub fn add(counter: &mut u64, value: u64)
        ensures
            *final(counter) == counted(*old(counter), value as int),
    {
        *counter = counter.wrapping_add(value);
    }

    /// What the counter stands at.
    pub fn get(counter: &u64) -> (value: u64)
        ensures
            value == *counter,
    {
        *counter
    }

    /// The mean queue wait in microseconds, or 0 before any job completes.
    pub fn mean_queue_wait_micros(&self) -> (mean: u64)
        ensures
            mean == mean_micros(self.queue_wait_nanos_total, self.jobs_completed),
    {
        if self.jobs_completed == 0 {
            return 0;
        }
        self.queue_wait_nanos_total / self.jobs_completed / 1_000
    }

    /// The mean time that the token took in microseconds, or 0 before any job completes.
    pub fn mean_service_micros(&self) -> (mean: u64)
        ensures
            mean == mean_micros(self.service_nanos_total, self.jobs_completed),
    {
        if self.jobs_completed == 0 {
            return 0;
        }
        self.service_nanos_total / self.jobs_completed / 1_000
    }

    /// Account for a finished job: how long it waited, how long the token took, and whether it
    /// failed.
    pub fn finish_job(&mut self, queue_wait_nanos: u64, service_nanos: u64, failed: bool)
        ensures
            *final(self) == old(self).after_job(
                FinishedJob { queue_wait_nanos, service_nanos, failed },
            ),
    {
        PoolMetrics::add(&mut self.queue_wait_nanos_total, queue_wait_nanos);
        PoolMetrics::add(&mut self.service_nanos_total, service_nanos);
        PoolMetrics::incr(&mut self.jobs_completed);
        if failed {
            PoolMetrics::incr(&mut self.jobs_failed);
        }
    }
}

/// What is counted of a finished job.
pub struct FinishedJob {
    pub queue_wait_nanos: u64,
    pub service_nanos: u64,
    pub failed: bool,
}

impl PoolMetrics {
    /// The counters after a job finished. One that failed counts as completed too.
    pub open spec fn after_job(self, job: FinishedJob) -> PoolMetrics {
        PoolMetrics {
            jobs_completed: counted(self.jobs_completed, 1),
            jobs_failed: counted(
                self.jobs_failed,
                if job.failed {
                    1
                } else {
                    0
                },
            ),
            queue_wait_nanos_total: counted(
                self.queue_wait_nanos_total,
                job.queue_wait_nanos as int,
            ),
            service_nanos_total: counted(self.service_nanos_total, job.service_nanos as int),
            ..self
        }
    }

    /// The counters after a run of jobs.
    pub open spec fn after_jobs(self, jobs: Seq<FinishedJob>) -> PoolMetrics
        decreases jobs.len(),
    {
        if jobs.len() == 0 {
            self
        } else {
            self.after_jobs(jobs.drop_last()).after_job(jobs.last())
        }
    }
}

/// How many of the jobs failed.
pub open spec fn failures(jobs: Seq<FinishedJob>) -> int
    decreases jobs.len(),
{
    if jobs.len() == 0 {
        0
    } else {
        failures(jobs.drop_last()) + if jobs.last().failed {
            1int
        } else {
            0int
        }
    }
}

proof fn lemma_counts_add_up(counter: u64, first: int, second: int)
    requires
        first >= 0,
        second >= 0,
    ensures
        counted(counted(counter, first), second) == counted(counter, first + second),
{
    vstd::arithmetic::div_mod::lemma_add_mod_noop(
        counter + first,
        second,
        0x1_0000_0000_0000_0000,
    );
    vstd::arithmetic::div_mod::lemma_add_mod_noop(
        (counter + first) % 0x1_0000_0000_0000_0000,
        second,
        0x1_0000_0000_0000_0000,
    );
    vstd::arithmetic::div_mod::lemma_mod_twice(counter + first, 0x1_0000_0000_0000_0000);
}

/// Every job that a worker takes is counted once as completed, and every one that failed once as
/// failed, however many there are; the counters of submissions and sessions stay as they were.
pub proof fn law_every_finished_job_is_counted(metrics: PoolMetrics, jobs: Seq<FinishedJob>)
    ensures
        ({
            let after = metrics.after_jobs(jobs);
            &&& after.jobs_completed == counted(metrics.jobs_completed, jobs.len() as int)
            &&& after.jobs_failed == counted(metrics.jobs_failed, failures(jobs))
            &&& after.jobs_submitted == metrics.jobs_submitted
            &&& after.jobs_rejected_queue_full == metrics.jobs_rejected_queue_full
            &&& after.jobs_timed_out == metrics.jobs_timed_out
            &&& after.session_resets == metrics.session_resets
            &&& after.handle_cache_hits == metrics.handle_cache_hits
            &&& after.handle_cache_misses == metrics.handle_cache_misses
        }),
        0 <= failures(jobs) <= jobs.len(),
    decreases jobs.len(),
{
    if jobs.len() > 0 {
        let before = jobs.drop_last();
        law_every_finished_job_is_counted(metrics, before);
        lemma_counts_add_up(metrics.jobs_completed, before.len() as int, 1);
        lemma_counts_add_up(metrics.jobs_failed, failures(before), failures(jobs) - failures(before));
    }
}

impl Default for PoolMetrics {
    fn default() -> (metrics: PoolMetrics)
        ensures
            metrics == PoolMetrics::zero(),
    {
        PoolMetrics {
            jobs_submitted: 0,
            jobs_completed: 0,
            jobs_failed: 0,
            jobs_rejected_queue_full: 0,
            jobs_timed_out: 0,
            queue_wait_nanos_total: 0,
            service_nanos_total: 0,
            session_resets: 0,
            handle_cache_hits: 0,
            handle_cache_misses: 0,
        }
    }
}

/// A counter counts on until it is full, and then begins anew.
pub proof fn law_a_counter_counts_on(counter: u64, value: u64)
    ensures
        counter + value <= u64::MAX ==> counted(counter, value as int) == counter + value,
        counter + value > u64::MAX ==> counted(counter, value as int) + u64::MAX + 1 == counter
            + value,
        counted(counter, 0) == counter,
{
}

/// The mean is the whole microseconds that each job took: as many jobs of that length fit into the
/// total, and jobs a microsecond longer do not.
pub proof fn law_the_mean_is_of_the_total(total_nanos: u64, jobs: u64)
    requires
        jobs > 0,
    ensures
        mean_micros(total_nanos, jobs) * 1_000 * jobs <= total_nanos,
        total_nanos < (mean_micros(total_nanos, jobs) + 1) * 1_000 * jobs,
        mean_micros(total_nanos, 0) == 0,
{
    let t = total_nanos as int;
    let j = jobs as int;
    let nanos = t / j;
    let mean = nanos / 1_000;
    vstd::arithmetic::div_mod::lemma_fundamental_div_mod(t, j);
    assert(mean * 1_000 <= nanos < (mean + 1) * 1_000);
    assert(mean * 1_000 * j <= nanos * j) by (nonlinear_arith)
        requires
            mean * 1_000 <= nanos,
            j > 0,
    ;
    assert((nanos + 1) * j <= (mean + 1) * 1_000 * j) by (nonlinear_arith)
        requires
            nanos + 1 <= (mean + 1) * 1_000,
            j > 0,
    ;
    assert(nanos * j == j * nanos) by (nonlinear_arith);
    assert((nanos + 1) * j == nanos * j + j) by (nonlinear_arith);
}

/// How long the jobs waited, and how long the token took for them, all together.
pub open spec fn times(jobs: Seq<FinishedJob>) -> (int, int)
    decreases jobs.len(),
{
    if jobs.len() == 0 {
        (0, 0)
    } else {
        let (waited, took) = times(jobs.drop_last());
        (waited + jobs.last().queue_wait_nanos, took + jobs.last().service_nanos)
    }
}

/// No time is lost: the totals gain what the jobs waited, and what the token took for them.
pub proof fn law_every_finished_jobs_time_is_counted(metrics: PoolMetrics, jobs: Seq<FinishedJob>)
    ensures
        metrics.after_jobs(jobs).queue_wait_nanos_total == counted(
            metrics.queue_wait_nanos_total,
            times(jobs).0,
        ),
        metrics.after_jobs(jobs).service_nanos_total == counted(
            metrics.service_nanos_total,
            times(jobs).1,
        ),
        times(jobs).0 >= 0,
        times(jobs).1 >= 0,
    decreases jobs.len(),
{
    if jobs.len() > 0 {
        let before = jobs.drop_last();
        let last = jobs.last();
        law_every_finished_jobs_time_is_counted(metrics, before);
        lemma_counts_add_up(
            metrics.queue_wait_nanos_total,
            times(before).0,
            last.queue_wait_nanos as int,
        );
        lemma_counts_add_up(metrics.service_nanos_total, times(before).1, last.service_nanos as int);
    }
}

} // verus!
