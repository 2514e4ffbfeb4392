//! The worker pool: how many workers, how deep a queue, and what becomes of a job.
//!
//! The queue is bounded, and its bound is the signal to back off: where it is full a request is
//! rejected at once rather than queued.

use vstd::prelude::*;

use crate::pkcs11::errors::{PoolError, PoolErrorView};
use crate::pkcs11::job::{JobResponse, JobResponseView};
use crate::pkcs11::metrics::{counted, PoolMetrics};
use crate::pkcs11::worker::{is_workers_own, result_view};
use crate::text;

verus! {

/// The size of the pool.
#[derive(Clone, Copy, Debug, PartialEq, Eq, Structural)]
pub struct PoolConfig {
    /// How many workers there are, each with one session and one thread.
    pub workers: usize,
    /// How many jobs may wait, for all workers together.
    pub queue_depth: usize,
    /// How long a job may take before its caller gives up, in milliseconds.
    pub job_timeout_ms: u64,
}

/// How many jobs may wait where nothing else is configured: two for each worker, as far as a
/// machine word can say it.
pub open spec fn default_depth(workers: usize) -> usize {
    if 2 * workers <= usize::MAX {
        (2 * workers) as usize
    } else {
        usize::MAX
    }
}

fn twice(workers: usize) -> (depth: usize)
    ensures
        depth == default_depth(workers),
{
    workers.saturating_add(workers)
}

impl PoolConfig {
    /// The settings where nothing else is configured, on a machine with this much parallelism, if
    /// that is known.
    pub open spec fn spec_default(parallelism: Option<usize>) -> PoolConfig {
        let workers = match parallelism {
            Some(n) => n,
            None => 4,
        };
        PoolConfig { workers, queue_depth: default_depth(workers), job_timeout_ms: 5_000 }
    }

    /// The settings where nothing else is configured.
    pub fn with_parallelism(parallelism: Option<usize>) -> (config: PoolConfig)
        ensures
            config == PoolConfig::spec_default(parallelism),
    {
        let workers: usize = match parallelism {
            Some(n) => n,
            None => 4,
        };
        PoolConfig { workers, queue_depth: twice(workers), job_timeout_ms: 5_000 }
    }

    /// The settings from the values of `HSM_WORKERS`, `HSM_QUEUE_DEPTH` and `HSM_JOB_TIMEOUT_MS`.
    /// A value that is missing or is no number leaves the default, which for the depth of the
    /// queue follows the number of workers.
    pub fn from_env(
        parallelism: Option<usize>,
        workers: Option<String>,
        queue_depth: Option<String>,
        job_timeout_ms: Option<String>,
    ) -> (config: PoolConfig)
        ensures
            config.workers == text::setting_or(
                workers,
                usize::MAX as u64,
                PoolConfig::spec_default(parallelism).workers as u64,
            ),
            config.queue_depth == text::setting_or(
                queue_depth,
                usize::MAX as u64,
                default_depth(config.workers) as u64,
            ),
            config.job_timeout_ms == text::setting_or(job_timeout_ms, usize::MAX as u64, 5_000),
    {
        let defaults = PoolConfig::with_parallelism(parallelism);
        let max: u64 = usize::MAX as u64;
        let workers: usize = text::read_setting_or(&workers, max, defaults.workers as u64) as usize;
        PoolConfig {
            workers,
            queue_depth: text::read_setting_or(&queue_depth, max, twice(workers) as u64) as usize,
            job_timeout_ms: text::read_setting_or(&job_timeout_ms, max, defaults.job_timeout_ms),
        }
    }
}

/// What became of handing a job to the queue.
#[derive(Clone, Copy, Debug, PartialEq, Eq, Structural)]
pub enum Enqueued {
    /// The job waits for a worker.
    Queued,
    /// The queue was full.
    Full,
    /// There is no worker left to take it.
    Disconnected,
}

/// What became of waiting for a job's result.
pub enum Awaited {
    /// A worker answered.
    Answered(Result<JobResponse, PoolError>),
    /// The worker gave up without an answer.
    Dropped,
    /// No answer came in time.
    TimedOut,
}

/// What happens in a submission, one after the other: it is counted, its job is handed to the
/// queue, and its result is waited for.
pub enum PoolEvent {
    Submitting,
    Enqueued(Enqueued),
    Awaited(Awaited),
}

/// The answer with which an event ends its submission, if it does. A submission that finds the
/// queue full ends there: it is not waited for.
pub open spec fn answer_at(event: PoolEvent) -> Option<Result<JobResponseView, PoolErrorView>> {
    match event {
        PoolEvent::Submitting => None,
        PoolEvent::Enqueued(Enqueued::Queued) => None,
        PoolEvent::Enqueued(Enqueued::Full) => Some(Err(PoolErrorView::Overloaded)),
        PoolEvent::Enqueued(Enqueued::Disconnected) => Some(Err(PoolErrorView::ShuttingDown)),
        PoolEvent::Awaited(Awaited::Answered(answer)) => Some(result_view(answer)),
        PoolEvent::Awaited(Awaited::Dropped) => Some(Err(PoolErrorView::ShuttingDown)),
        PoolEvent::Awaited(Awaited::TimedOut) => Some(Err(PoolErrorView::Timeout)),
    }
}

/// The counters after an event.
pub open spec fn after_event(metrics: PoolMetrics, event: PoolEvent) -> PoolMetrics {
    match event {
        PoolEvent::Submitting => PoolMetrics {
            jobs_submitted: counted(metrics.jobs_submitted, 1),
            ..metrics
        },
        PoolEvent::Enqueued(Enqueued::Full) => PoolMetrics {
            jobs_rejected_queue_full: counted(metrics.jobs_rejected_queue_full, 1),
            ..metrics
        },
        PoolEvent::Awaited(Awaited::TimedOut) => PoolMetrics {
            jobs_timed_out: counted(metrics.jobs_timed_out, 1),
            ..metrics
        },
        _ => metrics,
    }
}

/// Count a job that is about to be submitted.
pub fn submitting(metrics: &mut PoolMetrics)
    ensures
        *final(metrics) == after_event(*old(metrics), PoolEvent::Submitting),
{
    PoolMetrics::incr(&mut metrics.jobs_submitted);
}

/// Decide what a submission comes to: a job that was queued is waited for, and any other is
/// rejected at once. Shedding keeps the tail latency of what was accepted; queueing would spend
/// it.
pub fn enqueued(metrics: &mut PoolMetrics, outcome: Enqueued) -> (result: Result<(), PoolError>)
    ensures
        match result {
            Ok(()) => answer_at(PoolEvent::Enqueued(outcome)) is None,
            Err(error) => answer_at(PoolEvent::Enqueued(outcome)) == Some(
                Err::<JobResponseView, _>(error@),
            ),
        },
        *final(metrics) == after_event(*old(metrics), PoolEvent::Enqueued(outcome)),
{
    match outcome {
        Enqueued::Queued => Ok(()),
        Enqueued::Full => {
            PoolMetrics::incr(&mut metrics.jobs_rejected_queue_full);
            Err(PoolError::Overloaded)
        },
        Enqueued::Disconnected => Err(PoolError::ShuttingDown),
    }
}

/// Decide what a job that was waited for comes to.
pub fn awaited(metrics: &mut PoolMetrics, outcome: Awaited) -> (result: Result<
    JobResponse,
    PoolError,
>)
    ensures
        outcome matches Awaited::Answered(answer) ==> result == answer,
        answer_at(PoolEvent::Awaited(outcome)) == Some(result_view(result)),
        *final(metrics) == after_event(*old(metrics), PoolEvent::Awaited(outcome)),
{
    match outcome {
        Awaited::Answered(answer) => answer,
        Awaited::Dropped => Err(PoolError::ShuttingDown),
        Awaited::TimedOut => {
            PoolMetrics::incr(&mut metrics.jobs_timed_out);
            Err(PoolError::Timeout)
        },
    }
}

/// The counters after a series of events.
pub open spec fn after_events(metrics: PoolMetrics, events: Seq<PoolEvent>) -> PoolMetrics
    decreases events.len(),
{
    if events.len() == 0 {
        metrics
    } else {
        after_event(after_events(metrics, events.drop_last()), events.last())
    }
}

/// How many submissions the events begin.
pub open spec fn submissions(events: Seq<PoolEvent>) -> int
    decreases events.len(),
{
    if events.len() == 0 {
        0
    } else {
        submissions(events.drop_last()) + if events.last() is Submitting {
            1int
        } else {
            0int
        }
    }
}

/// How many submissions end with this error.
pub open spec fn ended_with(events: Seq<PoolEvent>, error: PoolErrorView) -> int
    decreases events.len(),
{
    if events.len() == 0 {
        0
    } else {
        ended_with(events.drop_last(), error) + if answer_at(events.last()) == Some(
            Err::<JobResponseView, _>(error),
        ) {
            1int
        } else {
            0int
        }
    }
}

/// Every submission is counted once, one that is shed is counted once as shed, and one that is
/// given up on is counted once as timed out: whatever the order in which the events of any number
/// of submissions come, the counters gain as many as there were submissions, as ended with the
/// queue full, and as ended too late. The answers that are waited for are those of workers, of
/// whom every answer is a worker's own.
pub proof fn law_every_submission_is_counted(metrics: PoolMetrics, events: Seq<PoolEvent>)
    requires
        forall|i: int|
            0 <= i < events.len() ==> (#[trigger] events[i] matches PoolEvent::Awaited(
                Awaited::Answered(answer),
            ) ==> is_workers_own(result_view(answer))),
    ensures
        ({
            let after = after_events(metrics, events);
            &&& after.jobs_submitted == counted(metrics.jobs_submitted, submissions(events))
            &&& after.jobs_rejected_queue_full == counted(
                metrics.jobs_rejected_queue_full,
                ended_with(events, PoolErrorView::Overloaded),
            )
            &&& after.jobs_timed_out == counted(
                metrics.jobs_timed_out,
                ended_with(events, PoolErrorView::Timeout),
            )
        }),
        submissions(events) >= 0,
        ended_with(events, PoolErrorView::Overloaded) >= 0,
        ended_with(events, PoolErrorView::Timeout) >= 0,
    decreases events.len(),
{
    if events.len() > 0 {
        law_every_submission_is_counted(metrics, events.drop_last());
        let last = events.last();
        assert(last == events[events.len() - 1]);
    }
}

/// Did the worker start?
pub open spec fn started(report: Option<Result<(), PoolError>>) -> bool {
    report matches Some(Ok(()))
}

/// What a worker that did not start has failed with.
pub open spec fn start_failure(report: Option<Result<(), PoolError>>) -> PoolErrorView {
    match report {
        Some(Err(error)) => error@,
        _ => PoolErrorView::Internal("a worker thread died during startup"@),
    }
}

/// Judge one worker's report of its start.
pub fn judge_report(report: Option<Result<(), PoolError>>) -> (result: Result<(), PoolError>)
    ensures
        match result {
            Ok(()) => started(report),
            Err(error) => !started(report) && error@ == start_failure(report),
        },
{
    match report {
        Some(Ok(())) => Ok(()),
        Some(Err(error)) => Err(error),
        None => Err(PoolError::Internal("a worker thread died during startup".to_owned())),
    }
}

/// What starting this many workers comes to, given the reports that came, in their order: the
/// first failure, or the lack of a report, or nothing where every worker started.
pub open spec fn start_of(workers: usize, reports: Seq<Option<Result<(), PoolError>>>) -> Option<
    PoolErrorView,
>
    decreases reports.len(),
{
    if reports.len() == 0 {
        if workers == 0 {
            None
        } else {
            Some(start_failure(None))
        }
    } else if workers == 0 {
        Some(start_failure(None))
    } else if !started(reports[0]) {
        Some(start_failure(reports[0]))
    } else {
        start_of((workers - 1) as usize, reports.skip(1))
    }
}

/// Judge the reports of this many workers, in the order in which they came: the pool starts where
/// every worker reported that it did, and fails with the first failure otherwise. A half-built
/// pool serves no one.
pub fn judge_start(workers: usize, reports: Vec<Option<Result<(), PoolError>>>) -> (result: Result<
    (),
    PoolError,
>)
    ensures
        match result {
            Ok(()) => start_of(workers, reports@) is None,
            Err(error) => start_of(workers, reports@) == Some(error@),
        },
        result is Ok <==> reports@.len() == workers && forall|i: int|
            0 <= i < reports@.len() ==> started(#[trigger] reports@[i]),
{
    let ghost all = reports@;
    let mut left = reports;
    let mut expected: usize = workers;
    let ghost mut done: int = 0;
    assert(all.skip(0) =~= all);
    while left.len() > 0 && expected > 0
        invariant
            all == reports@,
            0 <= done <= all.len(),
            expected == workers - done,
            left@ == all.skip(done),
            start_of(workers, all) == start_of(expected, left@),
            forall|j: int| 0 <= j < done ==> started(#[trigger] all[j]),
        decreases left@.len(),
    {
        let report = left.remove(0);
        assert(report == all[done]);
        judge_report(report)?;
        expected -= 1;
        proof {
            assert(left@ =~= all.skip(done).skip(1));
            assert(left@ =~= all.skip(done + 1));
            done = done + 1;
        }
    }
    if left.len() > 0 || expected > 0 {
        return judge_report(None);
    }
    Ok(())
}

/// What a worker answers is what the submission is answered, and a submission that no worker
/// answers is told why: there was no room, there was no one to take it, or it took too long.
pub proof fn law_a_submission_gets_the_workers_answer(answer: Result<JobResponse, PoolError>)
    ensures
        answer_at(PoolEvent::Awaited(Awaited::Answered(answer))) == Some(
            match answer {
                Ok(response) => Ok::<_, PoolErrorView>(response@),
                Err(error) => Err(error@),
            },
        ),
        answer_at(PoolEvent::Enqueued(Enqueued::Full)) == Some(
            Err::<JobResponseView, _>(PoolErrorView::Overloaded),
        ),
        answer_at(PoolEvent::Enqueued(Enqueued::Disconnected)) == Some(
            Err::<JobResponseView, _>(PoolErrorView::ShuttingDown),
        ),
        answer_at(PoolEvent::Awaited(Awaited::Dropped)) == Some(
            Err::<JobResponseView, _>(PoolErrorView::ShuttingDown),
        ),
        answer_at(PoolEvent::Awaited(Awaited::TimedOut)) == Some(
            Err::<JobResponseView, _>(PoolErrorView::Timeout),
        ),
        answer_at(PoolEvent::Enqueued(Enqueued::Queued)) is None,
        answer_at(PoolEvent::Submitting) is None,
{
}

/// The first worker that does not start decides what the start fails with, at whatever place it is.
pub proof fn law_the_first_failure_is_the_starts(
    workers: usize,
    reports: Seq<Option<Result<(), PoolError>>>,
    at: int,
    error: PoolError,
)
    requires
        0 <= at < reports.len(),
        at < workers,
        reports[at] == Some(Err::<(), _>(error)),
        forall|i: int| 0 <= i < at ==> (#[trigger] reports[i]) == Some(Ok::<(), PoolError>(())),
    ensures
        start_of(workers, reports) == Some(error@),
    decreases at,
{
    if at > 0 {
        assert(reports[0] == Some(Ok::<(), PoolError>(())));
        assert(reports.skip(1)[at - 1] == reports[at]);
        assert forall|i: int| 0 <= i < at - 1 implies (#[trigger] reports.skip(1)[i]) == Some(
            Ok::<(), PoolError>(()),
        ) by {
            assert(reports.skip(1)[i] == reports[i + 1]);
        }
        law_the_first_failure_is_the_starts((workers - 1) as usize, reports.skip(1), at - 1, error);
    }
}

/// The pool starts exactly where as many workers as were asked for report that they did.
pub proof fn law_the_pool_starts_where_every_worker_does(
    workers: usize,
    reports: Seq<Option<Result<(), PoolError>>>,
)
    ensures
        start_of(workers, reports) is None <==> reports.len() == workers && forall|i: int|
            0 <= i < reports.len() ==> (#[trigger] reports[i]) is Some && reports[i]->0 is Ok,
    decreases reports.len(),
{
    if reports.len() > 0 && workers > 0 && started(reports[0]) {
        let rest = reports.skip(1);
        law_the_pool_starts_where_every_worker_does((workers - 1) as usize, rest);
        if forall|i: int|
            0 <= i < reports.len() ==> (#[trigger] reports[i]) is Some && reports[i]->0 is Ok {
            assert forall|i: int| 0 <= i < rest.len() implies (#[trigger] rest[i]) is Some
                && rest[i]->0 is Ok by {
                assert(rest[i] == reports[i + 1]);
            }
        }
        if forall|i: int|
            0 <= i < rest.len() ==> (#[trigger] rest[i]) is Some && rest[i]->0 is Ok {
            assert forall|i: int| 0 <= i < reports.len() implies (#[trigger] reports[i]) is Some
                && reports[i]->0 is Ok by {
                if i > 0 {
                    assert(reports[i] == rest[i - 1]);
                }
            }
        }
    } else if reports.len() > 0 {
        assert(started(reports[0]) <==> reports[0] is Some && reports[0]->0 is Ok);
    }
}

/// The queue takes two jobs for each worker where nothing else is configured, and there is one
/// worker for each processor, or a few where their number is not known.
pub proof fn law_the_queue_follows_the_workers(processors: usize)
    ensures
        2 * processors <= usize::MAX ==> default_depth(processors) == 2 * processors,
        2 * processors > usize::MAX ==> default_depth(processors) == usize::MAX,
        PoolConfig::spec_default(Some(processors)).workers == processors,
        PoolConfig::spec_default(Some(processors)).queue_depth == default_depth(processors),
        PoolConfig::spec_default(None).workers == 4,
        PoolConfig::spec_default(None).queue_depth == 8,
        PoolConfig::spec_default(None).job_timeout_ms == PoolConfig::spec_default(
            Some(processors),
        ).job_timeout_ms,
        PoolConfig::spec_default(None).job_timeout_ms == 5 * 1_000,
{
}

} // verus!
