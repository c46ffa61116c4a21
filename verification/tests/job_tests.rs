use evalx::job::{job_step, JobAction, JobEvent, JobPhase};

#[test]
fn compile_side_of_a_job() {
    assert_eq!(job_step(JobPhase::Queued, JobEvent::CompileTaken), (JobPhase::Processing, JobAction::MarkProcessing));
    assert_eq!(job_step(JobPhase::Processing, JobEvent::NoRequests), (JobPhase::Processing, JobAction::Nothing));
    assert_eq!(
        job_step(JobPhase::Processing, JobEvent::UnsupportedLanguage),
        (JobPhase::Failed, JobAction::RecordFailure)
    );
    assert_eq!(
        job_step(JobPhase::Processing, JobEvent::CompileFailed),
        (JobPhase::Completed, JobAction::RecordCompileError)
    );
    assert_eq!(
        job_step(JobPhase::Processing, JobEvent::Compiled { cases: 3 }),
        (JobPhase::Running { killed: false }, JobAction::FanOut { cases: 3 })
    );
}

#[test]
fn a_failed_case_kills_the_batch() {
    let p = JobPhase::Running { killed: false };
    assert_eq!(job_step(p, JobEvent::CaseTaken), (p, JobAction::RunCase));
    let (p, a) = job_step(p, JobEvent::CaseRan { failed: true });
    assert_eq!((p, a), (JobPhase::Running { killed: true }, JobAction::RaiseKill));
    assert_eq!(job_step(p, JobEvent::CaseTaken), (p, JobAction::SkipCase));
    assert_eq!(job_step(p, JobEvent::CaseRan { failed: false }), (p, JobAction::Nothing));
}

#[test]
fn the_last_store_assembles_once() {
    let mut p = JobPhase::Running { killed: false };
    let mut assembled = 0;
    for remaining in (0..4i64).rev() {
        let (q, a) = job_step(p, JobEvent::CaseStored { remaining_after: remaining });
        if a == JobAction::AssembleResults {
            assembled += 1;
            assert_eq!(remaining, 0);
        }
        p = q;
    }
    assert_eq!(assembled, 1);
    assert_eq!(p, JobPhase::Completed);
}

#[test]
fn finished_jobs_ignore_events() {
    for p in [JobPhase::Completed, JobPhase::Failed] {
        assert_eq!(job_step(p, JobEvent::CaseStored { remaining_after: 0 }), (p, JobAction::Nothing));
        assert_eq!(job_step(p, JobEvent::CompileTaken), (p, JobAction::Nothing));
    }
}
