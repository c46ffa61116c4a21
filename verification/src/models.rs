//! Requests, results and the status values that the service reports.
use vstd::prelude::*;

verus! {

/// A span of time: whole seconds and the nanoseconds beyond them.
#[derive(Clone, Copy, Debug, PartialEq, Eq, Structural)]
pub struct Elapsed {
    pub secs: u64,
    pub nanos: u32,
}

impl Elapsed {
    /// Nanoseconds stay below one second.
    pub open spec fn wf(self) -> bool {
        self.nanos < 1_000_000_000
    }

    /// The span of no time.
    pub open spec fn spec_zero() -> Elapsed {
        Elapsed { secs: 0, nanos: 0 }
    }

    /// The span of no time.
    pub fn zero() -> (e: Elapsed)
        ensures
            e == Elapsed::spec_zero(),
            e.wf(),
    {
        Elapsed { secs: 0, nanos: 0 }
    }

    /// A span of whole seconds.
    pub fn from_secs(secs: u64) -> (e: Elapsed)
        ensures
            e == (Elapsed { secs, nanos: 0 }),
            e.wf(),
    {
        Elapsed { secs, nanos: 0 }
    }
}

/// One code execution request: the program, its language and one input.
#[derive(Clone, Debug)]
pub struct ExecutionRequest {
    pub language: Option<String>,
    pub version: Option<String>,
    pub code: Option<String>,
    pub stdin: String,
    pub timeout: Option<u64>,
    pub memory_limit: Option<String>,
}

/// A cached compilation artifact: the source it came from and the binary,
/// which may be stored gzip-compressed.
#[derive(Clone, Debug)]
pub struct Artifact {
    pub code: String,
    pub binary: Vec<u8>,
    pub compressed: bool,
}

/// The outcome of running one test case.
#[derive(Clone, Debug)]
pub struct EvaluationResult {
    pub compile_time: Elapsed,
    pub stdout: String,
    pub stderr: Option<String>,
    pub exit_code: i64,
    pub run_time: Elapsed,
    pub space_consumed: String,
}

/// Where a submission stands.
#[derive(Clone, Copy, Debug, PartialEq, Eq, Structural)]
pub enum SubmissionStatus {
    Queued,
    Processing,
    Completed,
    Failed,
}

/// What a client is told about a submission.
#[derive(Clone, Debug)]
pub struct SubmissionResponse {
    pub token: String,
    pub status: SubmissionStatus,
    pub results: Option<Vec<EvaluationResult>>,
}

/// A message broadcast to listeners when a submission changes state.
#[derive(Clone, Debug)]
pub struct ExecutionNotification {
    pub id: String,
    pub status: String,
    pub results: Option<Vec<EvaluationResult>>,
}

/// Whether `r` is the failed result that reports `message`: no time, the
/// message as output and error output, exit code one, no space.
pub open spec fn is_error_result(r: EvaluationResult, message: Seq<char>) -> bool {
    &&& r.compile_time == Elapsed::spec_zero()
    &&& r.stdout@ == message
    &&& r.stderr matches Some(e) && e@ == message
    &&& r.exit_code == 1
    &&& r.run_time == Elapsed::spec_zero()
    &&& r.space_consumed@ == zero_megabytes()
}

/// The space reported for results that used none.
pub open spec fn zero_megabytes() -> Seq<char> {
    seq!['0', ' ', 'M', 'B']
}

/// The space reported for a failed compilation.
pub open spec fn zero_kilobytes() -> Seq<char> {
    seq!['0', ' ', 'K', 'B']
}

fn zero_megabytes_string() -> (s: String)
    ensures
        s@ == zero_megabytes(),
{
    let s = "0 MB".to_owned();
    proof {
        reveal_strlit("0 MB");
    }
    s
}

/// The literal `"0 KB"` as a `String`.
pub fn zero_kilobytes_string() -> (s: String)
    ensures
        s@ == zero_kilobytes(),
{
    let s = "0 KB".to_owned();
    proof {
        reveal_strlit("0 KB");
    }
    s
}

impl EvaluationResult {
    /// A failed result whose output and error output both carry `error`.
    pub fn error_result(error: String) -> (r: EvaluationResult)
        ensures
            r.compile_time == Elapsed::spec_zero(),
            r.stdout == error,
            r.stderr == Some(error),
            r.exit_code == 1,
            r.run_time == Elapsed::spec_zero(),
            r.space_consumed@ == zero_megabytes(),
            is_error_result(r, error@),
    {
        EvaluationResult {
            compile_time: Elapsed::zero(),
            stdout: error.clone(),
            stderr: Some(error),
            exit_code: 1,
            run_time: Elapsed::zero(),
            space_consumed: zero_megabytes_string(),
        }
    }

    /// A successful result with the given output.
    pub fn success_result(stdout: String) -> (r: EvaluationResult)
        ensures
            r.compile_time == Elapsed::spec_zero(),
            r.stdout == stdout,
            r.stderr is None,
            r.exit_code == 0,
            r.run_time == Elapsed::spec_zero(),
            r.space_consumed@ == zero_megabytes(),
    {
        EvaluationResult {
            compile_time: Elapsed::zero(),
            stdout,
            stderr: None,
            exit_code: 0,
            run_time: Elapsed::zero(),
            space_consumed: zero_megabytes_string(),
        }
    }
}

impl EvaluationResult {
    /// A copy equal to this result.
    pub fn copy(&self) -> (r: EvaluationResult)
        ensures
            r == *self,
    {
        EvaluationResult {
            compile_time: self.compile_time,
            stdout: self.stdout.clone(),
            stderr: match &self.stderr {
                Some(e) => Some(e.clone()),
                None => None,
            },
            exit_code: self.exit_code,
            run_time: self.run_time,
            space_consumed: self.space_consumed.clone(),
        }
    }
}

/// Copies a list of results.
pub fn copy_results(v: &Vec<EvaluationResult>) -> (r: Vec<EvaluationResult>)
    ensures
        r@ == v@,
{
    let mut r: Vec<EvaluationResult> = Vec::new();
    let mut i: usize = 0;
    while i < v.len()
        invariant
            i <= v.len(),
            r@ == v@.subrange(0, i as int),
        decreases v.len() - i,
    {
        r.push(v[i].copy());
        i = i + 1;
        assert(r@ =~= v@.subrange(0, i as int));
    }
    assert(v@.subrange(0, i as int) =~= v@);
    r
}

} // verus!
