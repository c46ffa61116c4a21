//! What the HTTP handlers decide: the billing token of a request, the
//! cache key of a single execution, the task a submission becomes, and
//! what a client is told about a submission.
use vstd::prelude::*;
use crate::digest::{hex_lower, new_uuid_v4, sha256_hex, sha256_of, uuid_v4_text};
use crate::models::{EvaluationResult, ExecutionRequest, SubmissionResponse, SubmissionStatus};
use crate::queue::{CompileTask, ExecutionTask};
use crate::text::{
    chars_of, decimal, decimal_chars, has_prefix, push_str, push_string, slice_chars,
    starts_with, str_eq, string_from_chars,
};

verus! {

/// The token of an `Authorization: Bearer <token>` header, or nothing.
pub open spec fn bearer_token_spec(header: Option<Seq<char>>) -> Seq<char> {
    match header {
        Some(h) => if has_prefix(h, "Bearer "@) {
            h.subrange(7, h.len() as int)
        } else {
            Seq::empty()
        },
        None => Seq::empty(),
    }
}

/// The billing token that an `Authorization` header carries: what follows
/// `Bearer `, or the empty string when the header is missing or is not a
/// bearer token.
pub fn bearer_token(header: Option<&str>) -> (r: String)
    ensures
        r@ == bearer_token_spec(match header {
            Some(h) => Some(h@),
            None => None,
        }),
{
    match header {
        Some(h) => {
            let c = chars_of(h);
            let prefix = chars_of("Bearer ");
            proof {
                reveal_strlit("Bearer ");
            }
            if starts_with(&c, &prefix) {
                let t = slice_chars(&c, 7, c.len());
                string_from_chars(&t)
            } else {
                String::new()
            }
        },
        None => String::new(),
    }
}

/// A request's time limit, or the default when it gives none.
pub fn effective_timeout(request: &ExecutionRequest, default_timeout: u64) -> (r: u64)
    ensures
        r == (match request.timeout {
            Some(t) => t,
            None => default_timeout,
        }),
{
    match request.timeout {
        Some(t) => t,
        None => default_timeout,
    }
}

/// An optional field's text, or the empty string.
pub open spec fn text_or_empty(o: Option<String>) -> Seq<char> {
    match o {
        Some(s) => s@,
        None => Seq::empty(),
    }
}

/// The key under which the result of a single execution is cached: the
/// language, the version, the time limit, and the SHA-256 of the code and
/// of the input.
pub open spec fn execution_cache_key_spec(request: ExecutionRequest, timeout: u64) -> Seq<char> {
    "evalx:exec:"@ + text_or_empty(request.language) + ":"@ + text_or_empty(request.version)
        + ":"@ + decimal(timeout as nat) + ":"@ + hex_lower(
        sha256_of(vstd::utf8::encode_utf8(text_or_empty(request.code))),
    ) + ":"@ + hex_lower(sha256_of(vstd::utf8::encode_utf8(request.stdin@)))
}

fn field_or_empty(o: &Option<String>) -> (r: String)
    ensures
        r@ == text_or_empty(*o),
{
    match o {
        Some(s) => s.clone(),
        None => String::new(),
    }
}

/// The key under which the result of a single execution is cached, with
/// the request's time limit or `default_timeout`.
pub fn execution_cache_key(request: &ExecutionRequest, default_timeout: u64) -> (r: String)
    ensures
        r@ == execution_cache_key_spec(*request, effective_timeout_spec(*request, default_timeout)),
{
    let timeout = effective_timeout(request, default_timeout);
    let language = field_or_empty(&request.language);
    let version = field_or_empty(&request.version);
    let code = field_or_empty(&request.code);
    let code_hash = sha256_hex(code.as_str());
    let stdin_hash = sha256_hex(request.stdin.as_str());
    let mut k = chars_of("evalx:exec:");
    push_string(&mut k, &language);
    push_str(&mut k, ":");
    push_string(&mut k, &version);
    push_str(&mut k, ":");
    let mut t = decimal_chars(timeout);
    k.append(&mut t);
    push_str(&mut k, ":");
    push_string(&mut k, &code_hash);
    push_str(&mut k, ":");
    push_string(&mut k, &stdin_hash);
    string_from_chars(&k)
}

/// A request's time limit, or the default when it gives none.
pub open spec fn effective_timeout_spec(request: ExecutionRequest, default_timeout: u64) -> u64 {
    match request.timeout {
        Some(t) => t,
        None => default_timeout,
    }
}

/// The answer for an execution whose result was cached: completed, with
/// that one result.
pub fn cached_response(result: EvaluationResult) -> (r: SubmissionResponse)
    ensures
        r.token@ == "cached"@,
        r.status == SubmissionStatus::Completed,
        r.results matches Some(v) && v@ == seq![result],
{
    let mut v = Vec::new();
    v.push(result);
    SubmissionResponse { token: "cached".to_owned(), status: SubmissionStatus::Completed, results: Some(v) }
}

/// The answer for a submission just queued under `token`.
pub fn queued_response(token: String) -> (r: SubmissionResponse)
    ensures
        r.token == token,
        r.status == SubmissionStatus::Queued,
        r.results is None,
{
    SubmissionResponse { token, status: SubmissionStatus::Queued, results: None }
}

/// Why a submission was refused.
#[derive(Clone, Copy, Debug, PartialEq, Eq, Structural)]
pub enum SubmitError {
    /// A batch must hold at least one request.
    EmptyBatch,
}

/// The task that a submission of `requests` under `token` becomes: one
/// compile task for the whole batch. An empty batch is refused.
pub fn submission_task(token: String, requests: Vec<ExecutionRequest>) -> (r: Result<ExecutionTask, SubmitError>)
    ensures
        requests@.len() == 0 ==> r == Err::<ExecutionTask, SubmitError>(SubmitError::EmptyBatch),
        requests@.len() > 0 ==> (r matches Ok(ExecutionTask::CompileBatch(t)) && t.parent_token
            == token && t.requests@ == requests@),
{
    if requests.len() == 0 {
        return Err(SubmitError::EmptyBatch);
    }
    Ok(ExecutionTask::CompileBatch(CompileTask { parent_token: token, requests }))
}

/// Submits `requests` under a fresh random version-4 UUID token: the token
/// and the task, or the refusal of an empty batch.
pub fn new_submission(requests: Vec<ExecutionRequest>) -> (r: Result<(String, ExecutionTask), SubmitError>)
    ensures
        requests@.len() == 0 ==> r == Err::<(String, ExecutionTask), SubmitError>(
            SubmitError::EmptyBatch,
        ),
        requests@.len() > 0 ==> (r matches Ok((token, ExecutionTask::CompileBatch(t)))
            && t.parent_token == token && t.requests@ == requests@ && uuid_v4_text(token@)),
{
    if requests.len() == 0 {
        return Err(SubmitError::EmptyBatch);
    }
    let token = new_uuid_v4();
    let task = ExecutionTask::CompileBatch(
        CompileTask { parent_token: token.clone(), requests },
    );
    Ok((token, task))
}

/// What a client polling `token` is told: completed with the stored
/// results when there are any; processing when the recorded status says
/// so; queued otherwise, which also covers unknown or expired tokens.
pub fn submission_status(
    token: String,
    results: Option<Vec<EvaluationResult>>,
    status: Option<String>,
) -> (r: SubmissionResponse)
    ensures
        r.token == token,
        results is Some ==> r.status == SubmissionStatus::Completed && r.results == results,
        results is None ==> r.results is None && r.status == (if status matches Some(s) && s@
            == "processing"@ {
            SubmissionStatus::Processing
        } else {
            SubmissionStatus::Queued
        }),
{
    match results {
        Some(v) => SubmissionResponse { token, status: SubmissionStatus::Completed, results: Some(v) },
        None => {
            let processing = match &status {
                Some(s) => str_eq(s.as_str(), "processing"),
                None => false,
            };
            if processing {
                SubmissionResponse { token, status: SubmissionStatus::Processing, results: None }
            } else {
                SubmissionResponse { token, status: SubmissionStatus::Queued, results: None }
            }
        },
    }
}

} // verus!
