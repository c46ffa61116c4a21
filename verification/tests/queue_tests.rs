use evalx::models::{Elapsed, EvaluationResult, ExecutionRequest, SubmissionStatus};
use evalx::queue::{
    artifact_key, assemble_results, billing_token_or_default, compile_job, compile_time_key,
    counter_key, fails_batch, fan_out, kill_key, language_key, notify_completion, parent_token,
    result_key, results_key, skipped_result, status_key, status_text, timeout_key,
    unsupported_language_results, with_compile_time, CompileJob, CompileTask, ExecutionTask,
    RunTask,
};

fn request(stdin: &str) -> ExecutionRequest {
    ExecutionRequest {
        language: Some(" python ".to_string()),
        version: Some("3.9\n".to_string()),
        code: Some("\tprint(input())  \n".to_string()),
        stdin: stdin.to_string(),
        timeout: None,
        memory_limit: None,
    }
}

fn result_with_stdout(s: &str) -> EvaluationResult {
    EvaluationResult::success_result(s.to_string())
}

#[test]
fn keys_carry_their_prefix() {
    assert_eq!(status_key("t1"), "status:t1");
    assert_eq!(result_key("t1"), "result:t1");
    assert_eq!(artifact_key("t1"), "artifact:t1");
    assert_eq!(counter_key("t1"), "counter:t1");
    assert_eq!(language_key("t1"), "lang:t1");
    assert_eq!(timeout_key("t1"), "timeout:t1");
    assert_eq!(compile_time_key("t1"), "compile_time:t1");
    assert_eq!(kill_key("t1"), "kill:t1");
    assert_eq!(results_key("t1"), "results:t1");
}

#[test]
fn parent_token_of_both_task_kinds() {
    let c = ExecutionTask::CompileBatch(CompileTask { parent_token: "p".to_string(), requests: vec![] });
    let r = ExecutionTask::RunTestcase(RunTask {
        parent_token: "q".to_string(),
        index: 3,
        artifact_key: "artifact:q".to_string(),
        stdin: String::new(),
    });
    assert_eq!(parent_token(&c), "p");
    assert_eq!(parent_token(&r), "q");
}

#[test]
fn blank_billing_token_gets_placeholder() {
    assert_eq!(billing_token_or_default("".to_string()), "dummy-token-123");
    assert_eq!(billing_token_or_default(" \t\n\u{3000}".to_string()), "dummy-token-123");
    assert_eq!(billing_token_or_default(" abc ".to_string()), " abc ");
}

#[test]
fn status_texts() {
    assert_eq!(status_text(SubmissionStatus::Queued), "queued");
    assert_eq!(status_text(SubmissionStatus::Processing), "processing");
    assert_eq!(status_text(SubmissionStatus::Completed), "completed");
    assert_eq!(status_text(SubmissionStatus::Failed), "failed");
}

#[test]
fn notification_carries_results_only_when_there_are_some() {
    let n = notify_completion("job", &vec![], SubmissionStatus::Queued);
    assert_eq!(n.id, "job");
    assert_eq!(n.status, "queued");
    assert!(n.results.is_none());
    let n = notify_completion("job", &vec![result_with_stdout("x")], SubmissionStatus::Completed);
    assert_eq!(n.status, "completed");
    assert_eq!(n.results.unwrap()[0].stdout, "x");
}

#[test]
fn compile_job_reads_first_request() {
    let task = CompileTask { parent_token: "p".to_string(), requests: vec![request("a"), request("b")] };
    match compile_job(&task) {
        CompileJob::Ready { language_key, code, default_timeout } => {
            assert_eq!(language_key, "python:3.9");
            assert_eq!(code, "print(input())");
            assert_eq!(default_timeout, 10);
        }
        other => panic!("unexpected {:?}", other),
    }
    let mut r = request("a");
    r.timeout = Some(3);
    let task = CompileTask { parent_token: "p".to_string(), requests: vec![r] };
    assert!(matches!(compile_job(&task), CompileJob::Ready { default_timeout: 3, .. }));
    let mut r = request("a");
    r.code = None;
    let task = CompileTask { parent_token: "p".to_string(), requests: vec![r] };
    assert!(matches!(compile_job(&task), CompileJob::MissingField));
    let task = CompileTask { parent_token: "p".to_string(), requests: vec![] };
    assert!(matches!(compile_job(&task), CompileJob::NoRequests));
}

#[test]
fn unsupported_and_skipped_results() {
    let r = unsupported_language_results("cobol:85");
    assert_eq!(r.len(), 1);
    assert_eq!(r[0].stdout, "Unsupported language: cobol:85");
    assert_eq!(r[0].stderr.as_deref(), Some("Unsupported language: cobol:85"));
    assert_eq!(r[0].exit_code, 1);
    assert_eq!(r[0].space_consumed, "0 MB");
    let s = skipped_result();
    assert_eq!(s.stdout, "Skipped (previous test case failed)");
    assert_eq!(s.exit_code, 1);
    assert!(fails_batch(&s));
    assert!(!fails_batch(&result_with_stdout("ok")));
    let t = with_compile_time(result_with_stdout("ok"), Elapsed { secs: 1, nanos: 5 });
    assert_eq!(t.compile_time, Elapsed { secs: 1, nanos: 5 });
    assert_eq!(t.stdout, "ok");
}

#[test]
fn fan_out_makes_one_task_per_request() {
    let reqs = vec![request("a"), request("b"), request("c")];
    let tasks = fan_out("tok", "artifact:tok", &reqs);
    assert_eq!(tasks.len(), 3);
    for (i, t) in tasks.iter().enumerate() {
        match t {
            ExecutionTask::RunTestcase(r) => {
                assert_eq!(r.parent_token, "tok");
                assert_eq!(r.index, i);
                assert_eq!(r.artifact_key, "artifact:tok");
                assert_eq!(r.stdin, reqs[i].stdin);
            }
            _ => panic!("expected a test-case task"),
        }
    }
}

#[test]
fn assemble_results_orders_by_index_and_drops_unreadable() {
    let entries = vec![
        ("2".to_string(), Some(result_with_stdout("two"))),
        ("0".to_string(), Some(result_with_stdout("zero"))),
        ("x".to_string(), Some(result_with_stdout("bad key"))),
        ("1".to_string(), None),
        ("10".to_string(), Some(result_with_stdout("ten"))),
        ("+1".to_string(), Some(result_with_stdout("one"))),
    ];
    let out: Vec<String> = assemble_results(entries).into_iter().map(|r| r.stdout).collect();
    assert_eq!(out, vec!["zero", "one", "two", "ten"]);
}

#[test]
fn assemble_results_keeps_order_of_equal_indices() {
    let entries = vec![
        ("1".to_string(), Some(result_with_stdout("first"))),
        ("01".to_string(), Some(result_with_stdout("second"))),
        ("0".to_string(), Some(result_with_stdout("zero"))),
    ];
    let out: Vec<String> = assemble_results(entries).into_iter().map(|r| r.stdout).collect();
    assert_eq!(out, vec!["zero", "first", "second"]);
}

#[test]
fn fan_in_restores_test_case_order() {
    let results: Vec<String> = (0..12).map(|i| format!("case {}", i)).collect();
    let order = [7usize, 3, 11, 0, 5, 9, 1, 10, 2, 8, 4, 6];
    let entries: Vec<(String, Option<EvaluationResult>)> = order
        .iter()
        .map(|&i| (i.to_string(), Some(result_with_stdout(&results[i]))))
        .collect();
    let out: Vec<String> = assemble_results(entries).into_iter().map(|r| r.stdout).collect();
    assert_eq!(out, results);
}
