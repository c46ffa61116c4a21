//! How many test cases of a batch run at once: a two-state controller
//! driven by the depth of the global job queue, with hysteresis, and an
//! emergency brake under memory pressure.
use vstd::prelude::*;
use crate::text::{parse_i64, parse_i64_spec, str_eq};

verus! {

/// The two operating states of concurrency control.
#[derive(Clone, Copy, Debug, PartialEq, Eq, Structural)]
pub enum ConcurrencyState {
    Nominal,
    Strained,
}

/// The state to operate in, and whether it differs from the last one (in
/// which case the time of the change is recorded anew): a queue at or over
/// its threshold means strained; below it, a strained controller stays
/// strained until the hysteresis period since the last change has passed.
pub open spec fn next_state_spec(
    last: ConcurrencyState,
    seconds_since_change: u64,
    queue_depth: i64,
    threshold: i64,
    hysteresis_seconds: u64,
) -> (ConcurrencyState, bool) {
    if queue_depth >= threshold {
        (ConcurrencyState::Strained, last != ConcurrencyState::Strained)
    } else if last == ConcurrencyState::Strained && seconds_since_change < hysteresis_seconds {
        (ConcurrencyState::Strained, false)
    } else {
        (ConcurrencyState::Nominal, last != ConcurrencyState::Nominal)
    }
}

/// The most test cases that run at once in a state, by language.
pub open spec fn base_limit_spec(state: ConcurrencyState, language: Seq<char>) -> usize {
    match state {
        ConcurrencyState::Nominal => 20,
        ConcurrencyState::Strained => if language == "java"@ || language == "java11"@ || language
            == "java21"@ {
            8
        } else if language == "c"@ || language == "cpp"@ {
            12
        } else if language == "python"@ || language == "javascript"@ {
            10
        } else {
            8
        },
    }
}

/// The limit for a batch: the base limit, no more than the batch holds,
/// and halved (but at least one) when memory is short.
pub open spec fn limit_spec(base: usize, batch_size: usize, memory_strained: bool) -> usize {
    let l = if base <= batch_size { base } else { batch_size };
    if memory_strained {
        if l / 2 >= 1 { l / 2 } else { 1 }
    } else {
        l
    }
}

/// What concurrency control decided for a batch.
#[derive(Clone, Copy, Debug, PartialEq, Eq, Structural)]
pub struct ConcurrencyPlan {
    /// The state now in force.
    pub state: ConcurrencyState,
    /// Whether the state changed, so that the time of change is to be reset.
    pub switched: bool,
    /// How many test cases of the batch may run at once.
    pub limit: usize,
}

/// The state to operate in, and whether it changed.
pub fn next_state(
    last: ConcurrencyState,
    seconds_since_change: u64,
    queue_depth: i64,
    threshold: i64,
    hysteresis_seconds: u64,
) -> (r: (ConcurrencyState, bool))
    ensures
        r == next_state_spec(last, seconds_since_change, queue_depth, threshold, hysteresis_seconds),
{
    if queue_depth >= threshold {
        (ConcurrencyState::Strained, last != ConcurrencyState::Strained)
    } else if last == ConcurrencyState::Strained && seconds_since_change < hysteresis_seconds {
        (ConcurrencyState::Strained, false)
    } else {
        (ConcurrencyState::Nominal, last != ConcurrencyState::Nominal)
    }
}

/// The most test cases that run at once in a state, by language.
pub fn base_limit(state: ConcurrencyState, language: &str) -> (r: usize)
    ensures
        r == base_limit_spec(state, language@),
{
    match state {
        ConcurrencyState::Nominal => 20,
        ConcurrencyState::Strained => {
            if str_eq(language, "java") || str_eq(language, "java11") || str_eq(language, "java21") {
                8
            } else if str_eq(language, "c") || str_eq(language, "cpp") {
                12
            } else if str_eq(language, "python") || str_eq(language, "javascript") {
                10
            } else {
                8
            }
        },
    }
}

/// Decides the state and the concurrency limit for a batch of
/// `batch_size` test cases in `language`, given the last state, the
/// seconds since it was entered, the queue depth and its threshold, the
/// hysteresis period, and whether memory is short.
pub fn calculate_optimal_concurrency(
    last: ConcurrencyState,
    seconds_since_change: u64,
    queue_depth: i64,
    threshold: i64,
    hysteresis_seconds: u64,
    language: &str,
    batch_size: usize,
    memory_strained: bool,
) -> (r: ConcurrencyPlan)
    ensures
        (r.state, r.switched) == next_state_spec(
            last,
            seconds_since_change,
            queue_depth,
            threshold,
            hysteresis_seconds,
        ),
        r.limit == limit_spec(base_limit_spec(r.state, language@), batch_size, memory_strained),
{
    let (state, switched) = next_state(
        last,
        seconds_since_change,
        queue_depth,
        threshold,
        hysteresis_seconds,
    );
    let base = base_limit(state, language);
    let mut limit = if base <= batch_size { base } else { batch_size };
    if memory_strained {
        limit = if limit / 2 >= 1 { limit / 2 } else { 1 };
    }
    ConcurrencyPlan { state, switched, limit }
}

/// The queue depth that the queue service reports: its number when it
/// gives one, zero otherwise.
pub fn queue_depth_from_report(reported: Option<&str>) -> (r: i64)
    ensures
        r == (match reported {
            Some(s) => match parse_i64_spec(s@) {
                Some(v) => v,
                None => 0,
            },
            None => 0,
        }),
{
    match reported {
        Some(s) => match parse_i64(s) {
            Some(v) => v,
            None => 0,
        },
        None => 0,
    }
}

/// A queue at or over its threshold always puts the controller in the
/// strained state; the controller is nominal only when the queue is below
/// its threshold; and it leaves the strained state only once the
/// hysteresis period has passed.
pub proof fn lemma_state_rules(
    last: ConcurrencyState,
    seconds_since_change: u64,
    queue_depth: i64,
    threshold: i64,
    hysteresis_seconds: u64,
)
    ensures
        queue_depth >= threshold ==> next_state_spec(
            last,
            seconds_since_change,
            queue_depth,
            threshold,
            hysteresis_seconds,
        ).0 == ConcurrencyState::Strained,
        next_state_spec(last, seconds_since_change, queue_depth, threshold, hysteresis_seconds).0
            == ConcurrencyState::Nominal ==> queue_depth < threshold,
        last == ConcurrencyState::Strained && seconds_since_change < hysteresis_seconds
            ==> next_state_spec(
            last,
            seconds_since_change,
            queue_depth,
            threshold,
            hysteresis_seconds,
        ).0 == ConcurrencyState::Strained,
        next_state_spec(last, seconds_since_change, queue_depth, threshold, hysteresis_seconds).1
            == (next_state_spec(
            last,
            seconds_since_change,
            queue_depth,
            threshold,
            hysteresis_seconds,
        ).0 != last),
{
}

/// The concurrency limit never exceeds twenty, nor the batch size when
/// the batch is not empty, and a non-empty batch always runs at least
/// one test case at a time.
pub proof fn lemma_limit_bounds(state: ConcurrencyState, language: Seq<char>, batch_size: usize, memory_strained: bool)
    ensures
        limit_spec(base_limit_spec(state, language), batch_size, memory_strained) <= 20,
        batch_size >= 1 ==> 1 <= limit_spec(
            base_limit_spec(state, language),
            batch_size,
            memory_strained,
        ) <= batch_size,
{
}

/// How many worker tasks a worker process runs: three per core, and at
/// least one.
pub fn software_worker_count(total_cores: usize) -> (r: usize)
    requires
        total_cores <= usize::MAX / 3,
    ensures
        r == (if total_cores * 3 >= 1 {
            total_cores * 3
        } else {
            1
        }),
{
    let n = total_cores * 3;
    if n >= 1 { n } else { 1 }
}

} // verus!
