//! What the executor decides around compiling and running: where a
//! compiled artifact is cached, what stands in for an artifact of an
//! interpreted language, and how sandbox outcomes become results.
use vstd::prelude::*;
use crate::digest::{hex_digit, hex_lower, sha256_hex, sha256_of};
use crate::languages::LanguageConfig;
use crate::models::{
    is_error_result, zero_kilobytes, zero_kilobytes_string, Artifact, Elapsed, EvaluationResult,
};
use crate::sandbox::{CompilationResult, RunResult};
use crate::text::{decimal, decimal_chars, push_str, string_from_chars};

verus! {

/// The cache key of a compiled artifact: the language and the SHA-256 of
/// the source code.
pub open spec fn artifact_cache_key_spec(language: Seq<char>, code: Seq<char>) -> Seq<char> {
    "evalx:artifact:isolate:"@ + language + ":"@ + hex_lower(sha256_of(vstd::utf8::encode_utf8(code)))
}

proof fn lemma_hex_digit_value(d: int)
    requires
        0 <= d < 16,
    ensures
        hex_digit(d) as int == (if d < 10 { d + 48 } else { d + 87 }),
{
}

proof fn lemma_hex_lower_injective(a: Seq<u8>, b: Seq<u8>)
    requires
        hex_lower(a) == hex_lower(b),
    ensures
        a == b,
    decreases a.len() + b.len(),
{
    lemma_hex_lower_len(a);
    lemma_hex_lower_len(b);
    if a.len() > 0 && b.len() > 0 {
        let ha = hex_lower(a.drop_last());
        let hb = hex_lower(b.drop_last());
        let x = a.last() as int;
        let y = b.last() as int;
        lemma_hex_lower_len(a.drop_last());
        lemma_hex_lower_len(b.drop_last());
        assert(hex_lower(a) == ha.push(hex_digit(x / 16)).push(hex_digit(x % 16)));
        assert(hex_lower(b) == hb.push(hex_digit(y / 16)).push(hex_digit(y % 16)));
        assert(ha.len() == hb.len());
        assert(hex_lower(a)[ha.len() as int] == hex_digit(x / 16));
        assert(hex_lower(b)[hb.len() as int] == hex_digit(y / 16));
        assert(hex_lower(a)[ha.len() + 1int] == hex_digit(x % 16));
        assert(hex_lower(b)[hb.len() + 1int] == hex_digit(y % 16));
        lemma_hex_digit_value(x / 16);
        lemma_hex_digit_value(y / 16);
        lemma_hex_digit_value(x % 16);
        lemma_hex_digit_value(y % 16);
        assert(x / 16 == y / 16);
        assert(x % 16 == y % 16);
        assert(x == y);
        assert(ha =~= hex_lower(a).subrange(0, ha.len() as int));
        assert(hb =~= hex_lower(b).subrange(0, hb.len() as int));
        lemma_hex_lower_injective(a.drop_last(), b.drop_last());
        assert(a =~= a.drop_last().push(a.last()));
        assert(b =~= b.drop_last().push(b.last()));
    }
}

proof fn lemma_hex_lower_len(a: Seq<u8>)
    ensures
        hex_lower(a).len() == 2 * a.len(),
    decreases a.len(),
{
    if a.len() > 0 {
        lemma_hex_lower_len(a.drop_last());
    }
}

/// The artifact key of a program is the prefix, the language and the
/// lower-case hexadecimal SHA-256 digest of the program's whole UTF-8
/// source; so two programs in one language share a key only when their
/// sources have the same digest.
pub proof fn lemma_artifact_key_hashes_whole_source(language: Seq<char>, code1: Seq<char>, code2: Seq<char>)
    ensures
        artifact_cache_key_spec(language, code1) == "evalx:artifact:isolate:"@ + language + ":"@
            + hex_lower(sha256_of(vstd::utf8::encode_utf8(code1))),
        artifact_cache_key_spec(language, code1) == artifact_cache_key_spec(language, code2)
            ==> sha256_of(vstd::utf8::encode_utf8(code1)) == sha256_of(vstd::utf8::encode_utf8(code2)),
{
    let p = "evalx:artifact:isolate:"@ + language + ":"@;
    let h1 = hex_lower(sha256_of(vstd::utf8::encode_utf8(code1)));
    let h2 = hex_lower(sha256_of(vstd::utf8::encode_utf8(code2)));
    if artifact_cache_key_spec(language, code1) == artifact_cache_key_spec(language, code2) {
        assert(artifact_cache_key_spec(language, code1) == p + h1);
        assert(artifact_cache_key_spec(language, code2) == p + h2);
        assert(h1 =~= (p + h1).subrange(p.len() as int, (p + h1).len() as int));
        assert(h2 =~= (p + h2).subrange(p.len() as int, (p + h2).len() as int));
        lemma_hex_lower_injective(
            sha256_of(vstd::utf8::encode_utf8(code1)),
            sha256_of(vstd::utf8::encode_utf8(code2)),
        );
    }
}

/// The cache key of a compiled artifact.
pub fn artifact_cache_key(language: &str, code: &str) -> (r: String)
    ensures
        r@ == artifact_cache_key_spec(language@, code@),
{
    let hash = sha256_hex(code);
    let mut k = "evalx:artifact:isolate:".to_owned();
    k.append(language);
    k.append(":");
    k.append(hash.as_str());
    k
}

/// How the artifact of a program is obtained.
#[derive(Clone, Debug)]
pub enum ArtifactPlan {
    /// An interpreted language runs its source: these bytes, with no
    /// compilation time.
    Source { bytes: Vec<u8> },
    /// A compiled language: look the artifact up under this key, and
    /// compile when it is not there.
    Compile { cache_key: String },
}

/// How the artifact of `code` in the configured language is obtained.
pub fn artifact_plan(config: &LanguageConfig, code: &str) -> (r: ArtifactPlan)
    ensures
        config.is_compiled ==> (r matches ArtifactPlan::Compile { cache_key } && cache_key@
            == artifact_cache_key_spec(config.name@, code@)),
        !config.is_compiled ==> (r matches ArtifactPlan::Source { bytes } && bytes@
            == vstd::utf8::encode_utf8(code@)),
{
    if config.is_compiled {
        ArtifactPlan::Compile { cache_key: artifact_cache_key(config.name.as_str(), code) }
    } else {
        ArtifactPlan::Source { bytes: vstd::slice::slice_to_vec(code.as_bytes()) }
    }
}

/// A cached artifact's binary, with no compilation time.
pub fn cached_artifact(artifact: Artifact) -> (r: (Vec<u8>, Elapsed))
    ensures
        r.0 == artifact.binary,
        r.1 == Elapsed::spec_zero(),
{
    (artifact.binary, Elapsed::zero())
}

/// The result reported when the sandbox could not compile at all.
pub fn compiler_error_result(detail: &str) -> (r: EvaluationResult)
    ensures
        is_error_result(r, "Compiler failed: "@ + detail@),
{
    let mut m = "Compiler failed: ".to_owned();
    m.append(detail);
    EvaluationResult::error_result(m)
}

/// The result reported when the sandbox could not run a test case.
pub fn execution_error_result(detail: &str) -> (r: EvaluationResult)
    ensures
        is_error_result(r, "Execution failed: "@ + detail@),
{
    let mut m = "Execution failed: ".to_owned();
    m.append(detail);
    EvaluationResult::error_result(m)
}

/// What a finished compilation gives: the binary (empty when none was
/// read) and the compilation time, or, when it failed, the result to
/// report: the compiler's error output, exit code one, no run time and no
/// space.
pub fn compile_outcome(result: CompilationResult) -> (r: Result<(Vec<u8>, Elapsed), EvaluationResult>)
    ensures
        result.success ==> (r matches Ok((binary, t)) && t == result.compile_time && binary@ == (
        match result.binary {
            Some(b) => b@,
            None => Seq::<u8>::empty(),
        })),
        !result.success ==> (r matches Err(e) && e.compile_time == result.compile_time
            && e.stdout@ == Seq::<char>::empty() && e.stderr == Some(result.stderr) && e.exit_code
            == 1 && e.run_time == Elapsed::spec_zero() && e.space_consumed@ == zero_kilobytes()),
{
    if !result.success {
        return Err(
            EvaluationResult {
                compile_time: result.compile_time,
                stdout: String::new(),
                stderr: Some(result.stderr),
                exit_code: 1,
                run_time: Elapsed::zero(),
                space_consumed: zero_kilobytes_string(),
            },
        );
    }
    let binary = match result.binary {
        Some(b) => b,
        None => Vec::new(),
    };
    Ok((binary, result.compile_time))
}

/// The space a run used, as reported: the kilobytes and ` KB`.
pub open spec fn space_text(kb: u64) -> Seq<char> {
    decimal(kb as nat) + " KB"@
}

/// The result of a test case that the sandbox ran: its output, its error
/// output when there is any, its exit code, run time and memory.
pub fn evaluation_from_run(run: RunResult) -> (r: EvaluationResult)
    ensures
        r.compile_time == Elapsed::spec_zero(),
        r.stdout == run.stdout,
        run.stderr@.len() == 0 ==> r.stderr is None,
        run.stderr@.len() > 0 ==> r.stderr == Some(run.stderr),
        r.exit_code == run.exit_code,
        r.run_time == run.run_time,
        r.space_consumed@ == space_text(run.memory_used_kb),
{
    let mut space = decimal_chars(run.memory_used_kb);
    push_str(&mut space, " KB");
    let stderr = if run.stderr.as_str().unicode_len() == 0 { None } else { Some(run.stderr) };
    EvaluationResult {
        compile_time: Elapsed::zero(),
        stdout: run.stdout,
        stderr,
        exit_code: run.exit_code,
        run_time: run.run_time,
        space_consumed: string_from_chars(&space),
    }
}

} // verus!
