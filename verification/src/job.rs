//! The lifecycle of a job as the workers drive it: a compile task moves a
//! queued job to processing and then to failed, completed or running its
//! test cases; a test case is run or skipped, a failing one raises the
//! batch's kill flag, and the result whose store brings the batch's
//! counter to zero gathers the results and completes the job.
use vstd::prelude::*;

verus! {

/// Where a job stands.
#[derive(Clone, Copy, Debug, PartialEq, Eq, Structural)]
pub enum JobPhase {
    /// Submitted; no worker has taken its compile task yet.
    Queued,
    /// A worker is compiling it.
    Processing,
    /// Its test cases are out; `killed` once one of them has failed.
    Running { killed: bool },
    /// Its results are recorded.
    Completed,
    /// Its language has no configuration.
    Failed,
}

/// What a worker observed.
#[derive(Clone, Copy, Debug, PartialEq, Eq, Structural)]
pub enum JobEvent {
    /// The job's compile task was taken.
    CompileTaken,
    /// The batch holds no request.
    NoRequests,
    /// The batch's language has no configuration.
    UnsupportedLanguage,
    /// Compilation failed.
    CompileFailed,
    /// Compilation gave an artifact for `cases` test cases.
    Compiled { cases: u64 },
    /// A test case's task was taken.
    CaseTaken,
    /// A test case ran; `failed` when its result fails the batch.
    CaseRan { failed: bool },
    /// A test case's result was stored and the batch's counter decremented
    /// to `remaining_after`.
    CaseStored { remaining_after: i64 },
}

/// What the worker does next.
#[derive(Clone, Copy, Debug, PartialEq, Eq, Structural)]
pub enum JobAction {
    /// Nothing.
    Nothing,
    /// Record the job as processing and announce it.
    MarkProcessing,
    /// Record the unsupported-language error as the job's results, mark it
    /// failed and announce it.
    RecordFailure,
    /// Record the compilation error as the job's result, mark it completed
    /// and announce it.
    RecordCompileError,
    /// Store the artifact and the batch state, with the counter at `cases`,
    /// and send one task per test case.
    FanOut { cases: u64 },
    /// Run the test case.
    RunCase,
    /// Record the test case as skipped without running it.
    SkipCase,
    /// Raise the batch's kill flag.
    RaiseKill,
    /// Gather the results in test-case order, record them, mark the job
    /// completed, announce it and delete the batch state.
    AssembleResults,
}

/// The next phase and action after `event` in `phase`. An event that does
/// not belong to the phase changes nothing.
pub open spec fn job_step_spec(phase: JobPhase, event: JobEvent) -> (JobPhase, JobAction) {
    match (phase, event) {
        (JobPhase::Queued, JobEvent::CompileTaken) => (JobPhase::Processing, JobAction::MarkProcessing),
        (JobPhase::Processing, JobEvent::NoRequests) => (JobPhase::Processing, JobAction::Nothing),
        (JobPhase::Processing, JobEvent::UnsupportedLanguage) => (
            JobPhase::Failed,
            JobAction::RecordFailure,
        ),
        (JobPhase::Processing, JobEvent::CompileFailed) => (
            JobPhase::Completed,
            JobAction::RecordCompileError,
        ),
        (JobPhase::Processing, JobEvent::Compiled { cases }) => (
            JobPhase::Running { killed: false },
            JobAction::FanOut { cases },
        ),
        (JobPhase::Running { killed }, JobEvent::CaseTaken) => (
            phase,
            if killed {
                JobAction::SkipCase
            } else {
                JobAction::RunCase
            },
        ),
        (JobPhase::Running { killed }, JobEvent::CaseRan { failed }) => (
            JobPhase::Running { killed: killed || failed },
            if failed {
                JobAction::RaiseKill
            } else {
                JobAction::Nothing
            },
        ),
        (JobPhase::Running { killed }, JobEvent::CaseStored { remaining_after }) => {
            if remaining_after == 0 {
                (JobPhase::Completed, JobAction::AssembleResults)
            } else {
                (phase, JobAction::Nothing)
            }
        },
        _ => (phase, JobAction::Nothing),
    }
}

/// Decides the next phase and action of a job.
pub fn job_step(phase: JobPhase, event: JobEvent) -> (r: (JobPhase, JobAction))
    ensures
        r == job_step_spec(phase, event),
{
    match (phase, event) {
        (JobPhase::Queued, JobEvent::CompileTaken) => (JobPhase::Processing, JobAction::MarkProcessing),
        (JobPhase::Processing, JobEvent::NoRequests) => (JobPhase::Processing, JobAction::Nothing),
        (JobPhase::Processing, JobEvent::UnsupportedLanguage) => (
            JobPhase::Failed,
            JobAction::RecordFailure,
        ),
        (JobPhase::Processing, JobEvent::CompileFailed) => (
            JobPhase::Completed,
            JobAction::RecordCompileError,
        ),
        (JobPhase::Processing, JobEvent::Compiled { cases }) => (
            JobPhase::Running { killed: false },
            JobAction::FanOut { cases },
        ),
        (JobPhase::Running { killed }, JobEvent::CaseTaken) => (
            phase,
            if killed {
                JobAction::SkipCase
            } else {
                JobAction::RunCase
            },
        ),
        (JobPhase::Running { killed }, JobEvent::CaseRan { failed }) => (
            JobPhase::Running { killed: killed || failed },
            if failed {
                JobAction::RaiseKill
            } else {
                JobAction::Nothing
            },
        ),
        (JobPhase::Running { killed: _ }, JobEvent::CaseStored { remaining_after }) => {
            if remaining_after == 0 {
                (JobPhase::Completed, JobAction::AssembleResults)
            } else {
                (phase, JobAction::Nothing)
            }
        },
        _ => (phase, JobAction::Nothing),
    }
}

/// The phase and the actions after a sequence of events, in order.
pub open spec fn run_events(phase: JobPhase, events: Seq<JobEvent>) -> (JobPhase, Seq<JobAction>)
    decreases events.len(),
{
    if events.len() == 0 {
        (phase, Seq::empty())
    } else {
        let (p, acts) = run_events(phase, events.drop_last());
        let (q, a) = job_step_spec(p, events.last());
        (q, acts.push(a))
    }
}

/// The stores of a batch of `n` test cases: the counter, started at `n`,
/// reads `n - 1`, then `n - 2`, down to zero.
pub open spec fn case_stores(n: nat) -> Seq<JobEvent> {
    Seq::new(n, |k: int| (JobEvent::CaseStored { remaining_after: (n - 1 - k) as i64 }))
}

/// A completed or failed job stays so, whatever happens.
pub proof fn lemma_finished_jobs_stay(phase: JobPhase, event: JobEvent)
    requires
        phase == JobPhase::Completed || phase == JobPhase::Failed,
    ensures
        job_step_spec(phase, event) == (phase, JobAction::Nothing),
{
}

/// Once a test case has failed, the batch stays killed and every test case
/// taken afterwards is skipped.
pub proof fn lemma_killed_batches_skip(events: Seq<JobEvent>)
    ensures
        run_events((JobPhase::Running { killed: true }), events).0 == (JobPhase::Running { killed: true })
            || run_events((JobPhase::Running { killed: true }), events).0 == JobPhase::Completed,
        run_events((JobPhase::Running { killed: true }), events).0 == (JobPhase::Running { killed: true })
            ==> job_step_spec(
            run_events((JobPhase::Running { killed: true }), events).0,
            JobEvent::CaseTaken,
        ).1 == JobAction::SkipCase,
    decreases events.len(),
{
    if events.len() > 0 {
        lemma_killed_batches_skip(events.drop_last());
    }
}

proof fn lemma_stores_before_last(killed: bool, n: nat, m: nat)
    requires
        m < n,
        n <= i64::MAX,
    ensures
        run_events((JobPhase::Running { killed }), case_stores(n).take(m as int)) == (
            (JobPhase::Running { killed }),
            Seq::new(m, |k: int| JobAction::Nothing),
        ),
    decreases m,
{
    if m > 0 {
        lemma_stores_before_last(killed, n, (m - 1) as nat);
        let evs = case_stores(n).take(m as int);
        assert(evs.drop_last() =~= case_stores(n).take(m - 1));
        assert(evs.last() == (JobEvent::CaseStored { remaining_after: (n - 1 - (m - 1)) as i64 }));
        assert(Seq::new((m - 1) as nat, |k: int| JobAction::Nothing).push(JobAction::Nothing) =~= Seq::new(
            m,
            |k: int| JobAction::Nothing,
        ));
    } else {
        assert(case_stores(n).take(0) =~= Seq::<JobEvent>::empty());
    }
}

/// A batch of `n` test cases whose results are all stored completes
/// exactly once: the results are gathered on the last store and on no
/// earlier one, and the job is then completed.
pub proof fn lemma_fan_in_completes_once(killed: bool, n: nat)
    requires
        1 <= n <= i64::MAX,
    ensures
        run_events((JobPhase::Running { killed }), case_stores(n)).0 == JobPhase::Completed,
        run_events((JobPhase::Running { killed }), case_stores(n)).1.len() == n,
        run_events((JobPhase::Running { killed }), case_stores(n)).1[n - 1] == JobAction::AssembleResults,
        forall|k: int| 0 <= k < n - 1 ==> #[trigger] run_events(
            (JobPhase::Running { killed }),
            case_stores(n),
        ).1[k] == JobAction::Nothing,
{
    let m = (n - 1) as nat;
    lemma_stores_before_last(killed, n, m);
    let evs = case_stores(n);
    assert(evs.drop_last() =~= evs.take(m as int));
    assert(evs.last() == (JobEvent::CaseStored { remaining_after: 0 }));
}

/// A test case that ran raises the kill flag exactly when it failed: the
/// batch is killed afterwards exactly when it was killed before or this
/// case failed, and a case that did not fail asks for nothing.
pub proof fn lemma_case_ran_kills_only_on_failure(killed: bool, failed: bool)
    ensures
        job_step_spec((JobPhase::Running { killed }), (JobEvent::CaseRan { failed })).0 == (
        JobPhase::Running { killed: killed || failed }),
        job_step_spec((JobPhase::Running { killed }), (JobEvent::CaseRan { failed })).1
            == JobAction::RaiseKill <==> failed,
        !failed ==> job_step_spec((JobPhase::Running { killed }), (JobEvent::CaseRan { failed })).1
            == JobAction::Nothing,
        !killed ==> (job_step_spec((JobPhase::Running { killed }), (JobEvent::CaseTaken)).1
            == JobAction::RunCase),
        killed ==> (job_step_spec((JobPhase::Running { killed }), (JobEvent::CaseTaken)).1
            == JobAction::SkipCase),
{
}

} // verus!
