//! Job bookkeeping: the tasks that travel through the job queue, the keys
//! under which a job's state is kept, how a compiled batch fans out into
//! one task per test case and how the results are gathered back.
use vstd::prelude::*;
use crate::models::{
    copy_results, is_error_result, Elapsed, EvaluationResult, ExecutionNotification,
    ExecutionRequest, SubmissionStatus,
};
use crate::ordering::{keys_sorted, lemma_stable_sort_permutes, sort_by_key, stable_sort};
use crate::text::{
    chars_of, decimal, lemma_decimal_parses, parse_usize, parse_usize_spec, trim_chars, trim_spec,
    string_from_chars,
};

verus! {

/// Compile the first request of a batch once, then run every test case.
#[derive(Clone, Debug)]
pub struct CompileTask {
    pub parent_token: String,
    pub requests: Vec<ExecutionRequest>,
}

/// Run one test case of a compiled batch.
#[derive(Clone, Debug)]
pub struct RunTask {
    pub parent_token: String,
    pub index: usize,
    pub artifact_key: String,
    pub stdin: String,
}

/// A unit of work in the job queue.
#[derive(Clone, Debug)]
pub enum ExecutionTask {
    CompileBatch(CompileTask),
    RunTestcase(RunTask),
}

/// `prefix` followed by `token`.
fn prefixed(prefix: &str, token: &str) -> (r: String)
    ensures
        r@ == prefix@ + token@,
{
    let mut r = prefix.to_owned();
    r.append(token);
    r
}

/// Where a job's status is kept.
pub fn status_key(token: &str) -> (k: String)
    ensures
        k@ == "status:"@ + token@,
{
    prefixed("status:", token)
}

/// Where a job's final results are kept.
pub fn result_key(token: &str) -> (k: String)
    ensures
        k@ == "result:"@ + token@,
{
    prefixed("result:", token)
}

/// Where a job's compiled artifact is kept while its test cases run.
pub fn artifact_key(token: &str) -> (k: String)
    ensures
        k@ == "artifact:"@ + token@,
{
    prefixed("artifact:", token)
}

/// Where the number of a job's unfinished test cases is kept.
pub fn counter_key(token: &str) -> (k: String)
    ensures
        k@ == "counter:"@ + token@,
{
    prefixed("counter:", token)
}

/// Where a job's language key is kept.
pub fn language_key(token: &str) -> (k: String)
    ensures
        k@ == "lang:"@ + token@,
{
    prefixed("lang:", token)
}

/// Where a job's time limit is kept.
pub fn timeout_key(token: &str) -> (k: String)
    ensures
        k@ == "timeout:"@ + token@,
{
    prefixed("timeout:", token)
}

/// Where a job's compilation time is kept.
pub fn compile_time_key(token: &str) -> (k: String)
    ensures
        k@ == "compile_time:"@ + token@,
{
    prefixed("compile_time:", token)
}

/// Where the mark that a job's test case failed is kept.
pub fn kill_key(token: &str) -> (k: String)
    ensures
        k@ == "kill:"@ + token@,
{
    prefixed("kill:", token)
}

/// Where the results of a job's finished test cases are gathered.
pub fn results_key(token: &str) -> (k: String)
    ensures
        k@ == "results:"@ + token@,
{
    prefixed("results:", token)
}

/// The job that a task belongs to.
pub fn parent_token(task: &ExecutionTask) -> (r: String)
    ensures
        r == match task {
            ExecutionTask::CompileBatch(t) => t.parent_token,
            ExecutionTask::RunTestcase(t) => t.parent_token,
        },
{
    match task {
        ExecutionTask::CompileBatch(t) => t.parent_token.clone(),
        ExecutionTask::RunTestcase(t) => t.parent_token.clone(),
    }
}

/// The billing token to record: the one given, unless it is blank, in
/// which case a fixed placeholder.
pub fn billing_token_or_default(billing_token: String) -> (r: String)
    ensures
        r@ == (if trim_spec(billing_token@).len() == 0 {
            "dummy-token-123"@
        } else {
            billing_token@
        }),
{
    let c = chars_of(billing_token.as_str());
    let t = trim_chars(&c);
    if t.len() == 0 {
        "dummy-token-123".to_owned()
    } else {
        billing_token
    }
}

/// The text that records a status.
pub open spec fn status_text_spec(status: SubmissionStatus) -> Seq<char> {
    match status {
        SubmissionStatus::Queued => "queued"@,
        SubmissionStatus::Processing => "processing"@,
        SubmissionStatus::Completed => "completed"@,
        SubmissionStatus::Failed => "failed"@,
    }
}

/// The text that records a status.
pub fn status_text(status: SubmissionStatus) -> (r: String)
    ensures
        r@ == status_text_spec(status),
{
    match status {
        SubmissionStatus::Queued => "queued".to_owned(),
        SubmissionStatus::Processing => "processing".to_owned(),
        SubmissionStatus::Completed => "completed".to_owned(),
        SubmissionStatus::Failed => "failed".to_owned(),
    }
}

/// The notification announcing that a job reached `status`, carrying its
/// results when there are any.
pub fn notify_completion(task_id: &str, results: &Vec<EvaluationResult>, status: SubmissionStatus) -> (n: ExecutionNotification)
    ensures
        n.id@ == task_id@,
        n.status@ == status_text_spec(status),
        results@.len() == 0 ==> n.results is None,
        results@.len() > 0 ==> (n.results matches Some(v) && v@ == results@),
{
    ExecutionNotification {
        id: task_id.to_owned(),
        status: status_text(status),
        results: if results.len() == 0 { None } else { Some(copy_results(results)) },
    }
}

/// What a worker can do with a compile task.
#[derive(Clone, Debug)]
pub enum CompileJob {
    /// The batch holds no request: nothing to do.
    NoRequests,
    /// The first request lacks its language, version or code.
    MissingField,
    /// Compile `code` for the language registered under `language_key`; the
    /// test cases run with `default_timeout` seconds.
    Ready { language_key: String, code: String, default_timeout: u64 },
}

/// The time limit of test cases whose request gives none.
pub open spec fn default_case_timeout() -> u64 {
    10
}

/// Reads the first request of a batch: its trimmed language and version
/// joined by `:`, its trimmed code and its time limit, ten seconds when it
/// gives none.
pub fn compile_job(task: &CompileTask) -> (j: CompileJob)
    ensures
        task.requests@.len() == 0 ==> j is NoRequests,
        task.requests@.len() > 0 ==> {
            let f = task.requests@[0];
            if f.language is None || f.version is None || f.code is None {
                j is MissingField
            } else {
                j matches CompileJob::Ready { language_key, code, default_timeout }
                    && language_key@ == trim_spec(f.language->Some_0@) + seq![':'] + trim_spec(
                    f.version->Some_0@,
                ) && code@ == trim_spec(f.code->Some_0@) && default_timeout == (match f.timeout {
                    Some(t) => t,
                    None => default_case_timeout(),
                })
            }
        },
{
    if task.requests.len() == 0 {
        return CompileJob::NoRequests;
    }
    let f = &task.requests[0];
    match (&f.language, &f.version, &f.code) {
        (Some(lang), Some(version), Some(code)) => {
            let mut key = trim_chars(&chars_of(lang.as_str()));
            key.push(':');
            let mut v = trim_chars(&chars_of(version.as_str()));
            key.append(&mut v);
            let c = trim_chars(&chars_of(code.as_str()));
            let default_timeout = match f.timeout {
                Some(t) => t,
                None => 10,
            };
            CompileJob::Ready {
                language_key: string_from_chars(&key),
                code: string_from_chars(&c),
                default_timeout,
            }
        },
        _ => CompileJob::MissingField,
    }
}

/// The results recorded for a batch whose language has no configuration.
pub fn unsupported_language_results(language_key: &str) -> (r: Vec<EvaluationResult>)
    ensures
        r@.len() == 1,
        is_error_result(r@[0], "Unsupported language: "@ + language_key@),
{
    let mut msg = "Unsupported language: ".to_owned();
    msg.append(language_key);
    let mut r = Vec::new();
    r.push(EvaluationResult::error_result(msg));
    r
}

/// The result recorded for a test case skipped because an earlier one of
/// the same batch failed.
pub fn skipped_result() -> (r: EvaluationResult)
    ensures
        is_error_result(r, "Skipped (previous test case failed)"@),
{
    EvaluationResult::error_result("Skipped (previous test case failed)".to_owned())
}

/// Whether a test case's result stops the rest of its batch.
pub fn fails_batch(result: &EvaluationResult) -> (r: bool)
    ensures
        r == (result.exit_code != 0),
{
    result.exit_code != 0
}

/// A result with the batch's compilation time recorded in it.
pub fn with_compile_time(result: EvaluationResult, compile_time: Elapsed) -> (r: EvaluationResult)
    ensures
        r == (EvaluationResult { compile_time, ..result }),
{
    EvaluationResult { compile_time, ..result }
}

/// One test-case task per request of a compiled batch, in order: the
/// `i`-th runs the `i`-th request's input against the batch's artifact.
pub fn fan_out(token: &str, artifact_key: &str, requests: &Vec<ExecutionRequest>) -> (r: Vec<ExecutionTask>)
    ensures
        r@.len() == requests@.len(),
        forall|i: int| #![trigger r@[i]] 0 <= i < r@.len() ==> (r@[i] matches ExecutionTask::RunTestcase(t)
            && t.parent_token@ == token@ && t.index == i && t.artifact_key@ == artifact_key@
            && t.stdin == requests@[i].stdin),
{
    let mut r: Vec<ExecutionTask> = Vec::new();
    let mut i: usize = 0;
    while i < requests.len()
        invariant
            i <= requests.len(),
            r@.len() == i,
            forall|j: int| #![trigger r@[j]] 0 <= j < i ==> (r@[j] matches ExecutionTask::RunTestcase(t)
                && t.parent_token@ == token@ && t.index == j && t.artifact_key@ == artifact_key@
                && t.stdin == requests@[j].stdin),
        decreases requests.len() - i,
    {
        let task = RunTask {
            parent_token: token.to_owned(),
            index: i,
            artifact_key: artifact_key.to_owned(),
            stdin: requests[i].stdin.clone(),
        };
        r.push(ExecutionTask::RunTestcase(task));
        i = i + 1;
    }
    r
}

/// The gathered results that carry a test-case index and a readable
/// result, with the index as a key, in the order they were gathered.
pub open spec fn indexed_results(entries: Seq<(String, Option<EvaluationResult>)>) -> Seq<(u64, EvaluationResult)>
    decreases entries.len(),
{
    if entries.len() == 0 {
        Seq::empty()
    } else {
        let rest = indexed_results(entries.drop_last());
        match (parse_usize_spec(entries.last().0@), entries.last().1) {
            (Some(i), Some(r)) => rest.push((i as u64, r)),
            _ => rest,
        }
    }
}

/// The results of a batch, from the gathered pairs of test-case index and
/// result: pairs whose index is not a number or whose result could not be
/// read are dropped, and the rest are ordered by index.
pub open spec fn assemble_spec(entries: Seq<(String, Option<EvaluationResult>)>) -> Seq<EvaluationResult> {
    stable_sort(indexed_results(entries)).map_values(|p: (u64, EvaluationResult)| p.1)
}

/// Gathers the results of a batch into test-case order.
pub fn assemble_results(entries: Vec<(String, Option<EvaluationResult>)>) -> (r: Vec<EvaluationResult>)
    ensures
        r@ == assemble_spec(entries@),
{
    let ghost all = entries@;
    let n = entries.len();
    let mut rest = entries;
    let mut keyed: Vec<(u64, EvaluationResult)> = Vec::new();
    let mut k: usize = 0;
    assert(all.subrange(0, 0) =~= Seq::<(String, Option<EvaluationResult>)>::empty());
    assert(all.subrange(0, all.len() as int) =~= all);
    while rest.len() > 0
        invariant
            n == all.len(),
            k <= all.len(),
            rest@ == all.subrange(k as int, all.len() as int),
            keyed@ == indexed_results(all.subrange(0, k as int)),
        decreases rest.len(),
    {
        let (key, value) = rest.remove(0);
        proof {
            assert(all.subrange(0, k + 1).drop_last() =~= all.subrange(0, k as int));
            assert(all.subrange(0, k + 1).last() == (key, value));
        }
        match (parse_usize(key.as_str()), value) {
            (Some(i), Some(v)) => {
                keyed.push((i as u64, v));
            },
            _ => {},
        }
        k = k + 1;
        assert(rest@ =~= all.subrange(k as int, all.len() as int));
    }
    assert(all.subrange(0, k as int) =~= all);
    let sorted = sort_by_key(keyed);
    let ghost sorted_view = sorted@;
    let mut out: Vec<EvaluationResult> = Vec::new();
    let mut src = sorted;
    let mut j: usize = 0;
    let m = src.len();
    assert(sorted_view.subrange(0, sorted_view.len() as int) =~= sorted_view);
    while src.len() > 0
        invariant
            m == sorted_view.len(),
            j <= sorted_view.len(),
            src@ == sorted_view.subrange(j as int, sorted_view.len() as int),
            out@ == sorted_view.subrange(0, j as int).map_values(|p: (u64, EvaluationResult)| p.1),
        decreases src.len(),
    {
        let (_, v) = src.remove(0);
        out.push(v);
        j = j + 1;
        assert(out@ =~= sorted_view.subrange(0, j as int).map_values(
            |p: (u64, EvaluationResult)| p.1,
        ));
        assert(src@ =~= sorted_view.subrange(j as int, sorted_view.len() as int));
    }
    assert(sorted_view.subrange(0, j as int) =~= sorted_view);
    out
}

/// Gathered results come out ordered by test-case index, and each readable
/// indexed result comes out exactly once.
pub proof fn lemma_assembled_in_order(entries: Seq<(String, Option<EvaluationResult>)>)
    ensures
        keys_sorted(stable_sort(indexed_results(entries))),
        stable_sort(indexed_results(entries)).to_multiset() == indexed_results(entries).to_multiset(),
{
    lemma_stable_sort_permutes(indexed_results(entries));
}

/// Whether a gathered entry holds the result of test case `i` under the
/// decimal form of its index.
pub open spec fn stores_case(
    entry: (String, Option<EvaluationResult>),
    results: Seq<EvaluationResult>,
    i: int,
) -> bool {
    &&& 0 <= i < results.len()
    &&& entry.0@ == decimal(i as nat)
    &&& entry.1 == Some(results[i])
}

proof fn lemma_indexed_cases(
    entries: Seq<(String, Option<EvaluationResult>)>,
    results: Seq<EvaluationResult>,
    case_of: spec_fn(int) -> int,
)
    requires
        results.len() <= usize::MAX,
        forall|k: int| 0 <= k < entries.len() ==> stores_case(#[trigger] entries[k], results, case_of(k)),
    ensures
        indexed_results(entries).len() == entries.len(),
        forall|k: int| #![trigger indexed_results(entries)[k]]
            0 <= k < entries.len() ==> {
                &&& indexed_results(entries)[k].0 < results.len()
                &&& indexed_results(entries)[k].1 == results[indexed_results(entries)[k].0 as int]
                &&& entries[k].0@ == decimal(indexed_results(entries)[k].0 as nat)
            },
    decreases entries.len(),
{
    if entries.len() > 0 {
        let init = entries.drop_last();
        assert forall|k: int| 0 <= k < init.len() implies stores_case(
            #[trigger] init[k],
            results,
            case_of(k),
        ) by {
            assert(init[k] == entries[k]);
        }
        lemma_indexed_cases(init, results, case_of);
        let last = entries.last();
        assert(entries[entries.len() - 1] == last);
        let i = case_of(entries.len() - 1);
        lemma_decimal_parses(i as nat);
        let s = indexed_results(entries);
        assert(s == indexed_results(init).push((i as u64, results[i])));
        assert forall|k: int| #![trigger s[k]] 0 <= k < entries.len() implies {
            &&& s[k].0 < results.len()
            &&& s[k].1 == results[s[k].0 as int]
            &&& entries[k].0@ == decimal(s[k].0 as nat)
        } by {
            if k < init.len() {
                assert(entries[k] == init[k]);
                assert(s[k] == indexed_results(init)[k]);
            }
        }
    }
}

proof fn lemma_key_at_least<T>(t: Seq<(u64, T)>, k: int)
    requires
        0 <= k < t.len(),
        forall|a: int, b: int| 0 <= a < b < t.len() ==> (#[trigger] t[a]).0 < (#[trigger] t[b]).0,
    ensures
        t[k].0 >= k,
    decreases k,
{
    if k > 0 {
        lemma_key_at_least(t, k - 1);
        assert(t[k - 1].0 < t[k].0);
    }
}

proof fn lemma_key_at_most<T>(t: Seq<(u64, T)>, k: int)
    requires
        0 <= k < t.len(),
        forall|j: int| 0 <= j < t.len() ==> (#[trigger] t[j]).0 < t.len(),
        forall|a: int, b: int| 0 <= a < b < t.len() ==> (#[trigger] t[a]).0 < (#[trigger] t[b]).0,
    ensures
        t[k].0 <= k,
    decreases t.len() - k,
{
    if k < t.len() - 1 {
        lemma_key_at_most(t, k + 1);
        assert(t[k].0 < t[k + 1].0);
    }
}

/// The results of a batch's test cases, each stored under the decimal form
/// of its index and gathered back in any order (entry `k` holding the
/// result of test case `case_of(k)`, under distinct keys), are assembled
/// in test-case order.
pub proof fn lemma_fan_in_restores_order(
    entries: Seq<(String, Option<EvaluationResult>)>,
    results: Seq<EvaluationResult>,
    case_of: spec_fn(int) -> int,
)
    requires
        results.len() <= usize::MAX,
        entries.len() == results.len(),
        forall|k: int| 0 <= k < entries.len() ==> stores_case(#[trigger] entries[k], results, case_of(k)),
        forall|a: int, b: int| 0 <= a < b < entries.len() ==> (#[trigger] entries[a]).0@ != (
        #[trigger] entries[b]).0@,
    ensures
        assemble_spec(entries) == results,
{
    broadcast use vstd::seq_lib::group_to_multiset_ensures;

    let s = indexed_results(entries);
    lemma_indexed_cases(entries, results, case_of);
    assert forall|a: int, b: int| 0 <= a < s.len() && 0 <= b < s.len() && a != b implies s[a] != s[b] by {
        if s[a] == s[b] {
            assert(entries[a].0@ == entries[b].0@);
            if a < b {
                assert(entries[a].0@ != entries[b].0@);
            } else {
                assert(entries[b].0@ != entries[a].0@);
            }
        }
    }
    assert(s.no_duplicates());
    let t = stable_sort(s);
    lemma_stable_sort_permutes(s);
    s.lemma_multiset_has_no_duplicates();
    t.lemma_multiset_has_no_duplicates_conv();
    assert(t.len() == s.len()) by {
        assert(t.to_multiset().len() == s.to_multiset().len());
    }
    assert forall|k: int| 0 <= k < t.len() implies (#[trigger] t[k]).0 < results.len() && t[k].1
        == results[t[k].0 as int] by {
        assert(t.to_multiset().count(t[k]) > 0);
        assert(s.to_multiset().count(t[k]) > 0);
        assert(s.contains(t[k]));
        let j = choose|j: int| 0 <= j < s.len() && s[j] == t[k];
        assert(s[j] == t[k]);
    }
    assert forall|a: int, b: int| 0 <= a < b < t.len() implies (#[trigger] t[a]).0 < (
    #[trigger] t[b]).0 by {
        assert(t[a].0 <= t[b].0);
        if t[a].0 == t[b].0 {
            assert(t[a] == t[b]);
        }
    }
    assert forall|k: int| 0 <= k < t.len() implies (#[trigger] t[k]).0 == k by {
        lemma_key_at_least(t, k);
        lemma_key_at_most(t, k);
    }
    assert(assemble_spec(entries) =~= results);
}

} // verus!
