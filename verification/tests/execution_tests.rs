use evalx::api::{
    bearer_token, cached_response, effective_timeout, execution_cache_key, new_submission,
    queued_response, submission_status, submission_task, SubmitError,
};
use evalx::cache::{
    artifact_ttl, oldest_keys, pack_artifact, parse_memory_info, unpack_artifact, ArtifactError,
    MemoryInfo,
};
use evalx::concurrency::ConcurrencyState::{Nominal, Strained};
use evalx::concurrency::{
    base_limit, calculate_optimal_concurrency, next_state, queue_depth_from_report,
    software_worker_count, ConcurrencyState,
};
use evalx::digest::sha256_hex;
use evalx::executor::{
    artifact_cache_key, artifact_plan, cached_artifact, compile_outcome, compiler_error_result,
    evaluation_from_run, execution_error_result, ArtifactPlan,
};
use evalx::languages::{CommandConfig, LanguageConfig, ResourceLimits};
use evalx::models::{Artifact, Elapsed, EvaluationResult, ExecutionRequest, SubmissionStatus};
use evalx::queue::ExecutionTask;
use evalx::sandbox::{CompilationResult, RunResult};

const SHA_EMPTY: &str = "e3b0c44298fc1c149afbf4c8996fb92427ae41e4649b934ca495991b7852b855";
const SHA_ABC: &str = "ba7816bf8f01cfea414140de5dae2223b00361a396177a9cb410ff61f20015ad";

fn config(compiled: bool) -> LanguageConfig {
    LanguageConfig {
        name: "c".to_string(),
        version: "11".to_string(),
        is_compiled: compiled,
        source_filename: "main.c".to_string(),
        executable_filename: "main".to_string(),
        chroot_path: None,
        env_vars: vec![],
        mount_paths: vec![],
        compile: CommandConfig { command: vec!["/usr/bin/gcc".to_string()], limits: None },
        run: CommandConfig { command: vec!["./main".to_string()], limits: None },
        limits: ResourceLimits { time_s: 5, memory_kb: 1024, processes: 1 },
    }
}

fn request(code: Option<&str>, stdin: &str, timeout: Option<u64>) -> ExecutionRequest {
    ExecutionRequest {
        language: Some("python".to_string()),
        version: Some("3.9".to_string()),
        code: code.map(|c| c.to_string()),
        stdin: stdin.to_string(),
        timeout,
        memory_limit: None,
    }
}

#[test]
fn digests_and_hex() {
    assert_eq!(sha256_hex(""), SHA_EMPTY);
    assert_eq!(sha256_hex("abc"), SHA_ABC);
    assert_eq!(sha256_hex("abc").len(), 64);
    assert_ne!(sha256_hex("abc"), "abc");
}

#[test]
fn artifact_keys_and_plans() {
    assert_eq!(artifact_cache_key("c", "abc"), format!("evalx:artifact:isolate:c:{}", SHA_ABC));
    match artifact_plan(&config(true), "abc") {
        ArtifactPlan::Compile { cache_key } => {
            assert_eq!(cache_key, format!("evalx:artifact:isolate:c:{}", SHA_ABC))
        }
        _ => panic!("a compiled language compiles"),
    }
    match artifact_plan(&config(false), "print(1)") {
        ArtifactPlan::Source { bytes } => assert_eq!(bytes, b"print(1)".to_vec()),
        _ => panic!("an interpreted language runs its source"),
    }
    let (bin, t) = cached_artifact(Artifact { code: "x".into(), binary: vec![9, 8], compressed: false });
    assert_eq!(bin, vec![9, 8]);
    assert_eq!(t, Elapsed { secs: 0, nanos: 0 });
}

#[test]
fn compile_outcomes() {
    let t = Elapsed { secs: 2, nanos: 500 };
    let ok = compile_outcome(CompilationResult { success: true, compile_time: t, binary: Some(vec![1]), stderr: "w".into() });
    assert_eq!(ok.unwrap(), (vec![1], t));
    let ok = compile_outcome(CompilationResult { success: true, compile_time: t, binary: None, stderr: "".into() });
    assert_eq!(ok.unwrap(), (vec![], t));
    let err = compile_outcome(CompilationResult { success: false, compile_time: t, binary: None, stderr: "syntax".into() })
        .unwrap_err();
    assert_eq!(err.compile_time, t);
    assert_eq!(err.stdout, "");
    assert_eq!(err.stderr.as_deref(), Some("syntax"));
    assert_eq!(err.exit_code, 1);
    assert_eq!(err.space_consumed, "0 KB");
    let e = compiler_error_result("no box");
    assert_eq!(e.stdout, "Compiler failed: no box");
    let e = execution_error_result("no box");
    assert_eq!(e.stderr.as_deref(), Some("Execution failed: no box"));
}

#[test]
fn run_outcome_becomes_result() {
    let run = RunResult {
        stdout: "Hello, Alice!\n".into(),
        stderr: "".into(),
        exit_code: 0,
        run_time: Elapsed { secs: 0, nanos: 45_000_000 },
        wall_time: Elapsed { secs: 0, nanos: 52_000_000 },
        memory_used_kb: 6452,
        status: "OK".into(),
    };
    let r = evaluation_from_run(run);
    assert_eq!(r.stdout, "Hello, Alice!\n");
    assert_eq!(r.stderr, None);
    assert_eq!(r.exit_code, 0);
    assert_eq!(r.run_time, Elapsed { secs: 0, nanos: 45_000_000 });
    assert_eq!(r.space_consumed, "6452 KB");
    let run = RunResult {
        stdout: "".into(),
        stderr: "boom".into(),
        exit_code: 1,
        run_time: Elapsed { secs: 0, nanos: 0 },
        wall_time: Elapsed { secs: 0, nanos: 0 },
        memory_used_kb: 0,
        status: "RE".into(),
    };
    assert_eq!(evaluation_from_run(run).stderr.as_deref(), Some("boom"));
}

#[test]
fn error_and_success_results() {
    let e = EvaluationResult::error_result("bad".into());
    assert_eq!((e.stdout.as_str(), e.stderr.as_deref(), e.exit_code), ("bad", Some("bad"), 1));
    assert_eq!(e.space_consumed, "0 MB");
    let s = EvaluationResult::success_result("fine".into());
    assert_eq!((s.stdout.as_str(), s.stderr.as_deref(), s.exit_code), ("fine", None, 0));
    assert_eq!(s.run_time, Elapsed { secs: 0, nanos: 0 });
}

#[test]
fn artifacts_round_trip_through_the_cache() {
    let small = vec![7u8; 1024];
    let packed = pack_artifact("code", &small).unwrap();
    assert!(!packed.compressed);
    assert_eq!(packed.binary, small);
    let large: Vec<u8> = (0..5000u32).map(|i| (i % 7) as u8).collect();
    let packed = pack_artifact("code", &large).unwrap();
    assert!(packed.compressed);
    assert_ne!(packed.binary, large);
    assert!(packed.binary.len() < large.len());
    let unpacked = unpack_artifact(packed).unwrap();
    assert!(!unpacked.compressed);
    assert_eq!(unpacked.binary, large);
    assert_eq!(unpacked.code, "code");
    let broken = Artifact { code: "c".into(), binary: vec![1, 2, 3], compressed: true };
    assert_eq!(unpack_artifact(broken).unwrap_err(), ArtifactError::Decompression);
}

#[test]
fn artifact_ttls() {
    assert_eq!(artifact_ttl("java", 300, 200), 300);
    assert_eq!(artifact_ttl("java21", 300, 200), 300);
    assert_eq!(artifact_ttl("python", 300, 200), 200);
}

#[test]
fn memory_report() {
    let info = "# Memory\r\nused_memory:1048576\r\nused_memory_human:1.00M\r\nmaxmemory:4194304\r\n";
    assert_eq!(parse_memory_info(info), MemoryInfo { used_memory: Some(1048576), max_memory: Some(4194304) });
    assert_eq!(parse_memory_info("maxmemory:0"), MemoryInfo { used_memory: None, max_memory: Some(0) });
    assert_eq!(parse_memory_info("used_memory:12:34\nused_memory:x"), MemoryInfo { used_memory: None, max_memory: None });
    assert_eq!(parse_memory_info("used_memory:12:34"), MemoryInfo { used_memory: Some(12), max_memory: None });
}

#[test]
fn eviction_takes_least_recently_used() {
    let entries = vec![(30, "c".to_string()), (10, "a".to_string()), (20, "b".to_string()), (10, "a2".to_string())];
    assert_eq!(oldest_keys(entries.clone(), 2), vec!["a", "a2"]);
    assert_eq!(oldest_keys(entries.clone(), 10), vec!["a", "a2", "b", "c"]);
    assert!(oldest_keys(entries, 0).is_empty());
}

#[test]
fn concurrency_states() {
    assert_eq!(next_state(Nominal, 0, 100, 100, 30), (Strained, true));
    assert_eq!(next_state(Strained, 0, 500, 100, 30), (Strained, false));
    assert_eq!(next_state(Strained, 10, 5, 100, 30), (Strained, false));
    assert_eq!(next_state(Strained, 30, 5, 100, 30), (Nominal, true));
    assert_eq!(next_state(Nominal, 0, 5, 100, 30), (Nominal, false));
}

#[test]
fn concurrency_limits() {
    assert_eq!(base_limit(Nominal, "java"), 20);
    assert_eq!(base_limit(Strained, "java11"), 8);
    assert_eq!(base_limit(Strained, "cpp"), 12);
    assert_eq!(base_limit(Strained, "javascript"), 10);
    assert_eq!(base_limit(Strained, "go"), 8);
    let p = calculate_optimal_concurrency(Nominal, 0, 0, 100, 30, "python", 50, false);
    assert_eq!((p.state, p.switched, p.limit), (Nominal, false, 20));
    let p = calculate_optimal_concurrency(Nominal, 0, 150, 100, 30, "c", 50, true);
    assert_eq!((p.state, p.switched, p.limit), (Strained, true, 6));
    let p = calculate_optimal_concurrency(Nominal, 0, 0, 100, 30, "c", 3, false);
    assert_eq!(p.limit, 3);
    let p = calculate_optimal_concurrency(Nominal, 0, 0, 100, 30, "c", 1, true);
    assert_eq!(p.limit, 1);
    let p = calculate_optimal_concurrency(Nominal, 0, 0, 100, 30, "c", 0, true);
    assert_eq!(p.limit, 1);
}

#[test]
fn queue_depth_reports() {
    assert_eq!(queue_depth_from_report(Some("42")), 42);
    assert_eq!(queue_depth_from_report(Some("-3")), -3);
    assert_eq!(queue_depth_from_report(Some("+7")), 7);
    assert_eq!(queue_depth_from_report(Some("9223372036854775807")), i64::MAX);
    assert_eq!(queue_depth_from_report(Some("-9223372036854775808")), i64::MIN);
    assert_eq!(queue_depth_from_report(Some("9223372036854775808")), 0);
    assert_eq!(queue_depth_from_report(Some("many")), 0);
    assert_eq!(queue_depth_from_report(Some("")), 0);
    assert_eq!(queue_depth_from_report(Some("-")), 0);
    assert_eq!(queue_depth_from_report(None), 0);
}

#[test]
fn worker_counts() {
    assert_eq!(software_worker_count(12), 36);
    assert_eq!(software_worker_count(0), 1);
}

#[test]
fn bearer_tokens() {
    assert_eq!(bearer_token(Some("Bearer abc.def")), "abc.def");
    assert_eq!(bearer_token(Some("Basic abc")), "");
    assert_eq!(bearer_token(Some("Bearer")), "");
    assert_eq!(bearer_token(None), "");
}

#[test]
fn execution_cache_keys() {
    let r = request(Some("abc"), "", None);
    assert_eq!(effective_timeout(&r, 10), 10);
    assert_eq!(execution_cache_key(&r, 10), format!("evalx:exec:python:3.9:10:{}:{}", SHA_ABC, SHA_EMPTY));
    let r = request(None, "abc", Some(2));
    assert_eq!(execution_cache_key(&r, 10), format!("evalx:exec:python:3.9:2:{}:{}", SHA_EMPTY, SHA_ABC));
    let mut r = request(None, "", None);
    r.language = None;
    r.version = None;
    assert!(execution_cache_key(&r, 7).starts_with("evalx:exec:::7:"));
}

#[test]
fn submissions() {
    let c = cached_response(EvaluationResult::success_result("x".into()));
    assert_eq!(c.token, "cached");
    assert!(matches!(c.status, SubmissionStatus::Completed));
    assert_eq!(c.results.unwrap().len(), 1);
    let q = queued_response("t".into());
    assert_eq!(q.token, "t");
    assert!(matches!(q.status, SubmissionStatus::Queued));
    assert!(q.results.is_none());
    assert_eq!(submission_task("t".into(), vec![]).unwrap_err(), SubmitError::EmptyBatch);
    match submission_task("t".into(), vec![request(Some("a"), "1", None), request(None, "2", None)]).unwrap() {
        ExecutionTask::CompileBatch(task) => {
            assert_eq!(task.parent_token, "t");
            assert_eq!(task.requests.len(), 2);
            assert_eq!(task.requests[1].stdin, "2");
        }
        _ => panic!("a submission is a compile task"),
    }
    assert_eq!(new_submission(vec![]).unwrap_err(), SubmitError::EmptyBatch);
    let (t1, task) = new_submission(vec![request(Some("a"), "1", None)]).unwrap();
    let (t2, _) = new_submission(vec![request(Some("a"), "1", None)]).unwrap();
    assert_eq!(t1.len(), 36);
    assert_ne!(t1, t2);
    let c: Vec<char> = t1.chars().collect();
    for (i, ch) in c.iter().enumerate() {
        if i == 8 || i == 13 || i == 18 || i == 23 {
            assert_eq!(*ch, '-');
        } else {
            assert!(ch.is_ascii_hexdigit() && !ch.is_ascii_uppercase());
        }
    }
    assert_eq!(c[14], '4');
    assert!(matches!(c[19], '8' | '9' | 'a' | 'b'));
    match task {
        ExecutionTask::CompileBatch(task) => assert_eq!(task.parent_token, t1),
        _ => panic!("a submission is a compile task"),
    }
}

#[test]
fn submission_status_answers() {
    let done = submission_status("t".into(), Some(vec![EvaluationResult::success_result("x".into())]), None);
    assert!(matches!(done.status, SubmissionStatus::Completed));
    assert_eq!(done.results.unwrap()[0].stdout, "x");
    let busy = submission_status("t".into(), None, Some("processing".into()));
    assert!(matches!(busy.status, SubmissionStatus::Processing));
    let waiting = submission_status("t".into(), None, Some("queued".into()));
    assert!(matches!(waiting.status, SubmissionStatus::Queued));
    let unknown = submission_status("t".into(), None, None);
    assert!(matches!(unknown.status, SubmissionStatus::Queued));
    assert_eq!(unknown.token, "t");
}
