//! The artifact cache's rules: which binaries are stored compressed, how
//! long artifacts live, how the cache server's memory report is read, and
//! which artifacts are evicted first.
use vstd::prelude::*;
use crate::digest::{
    compress_binary, decompress_binary, gzip_compressed, gzip_decompressed, gzip_succeeds,
};
use crate::models::Artifact;
use crate::ordering::{sort_by_key, stable_sort};
use crate::text::{
    chars_of, has_prefix, lines_of, lines_spec, parse_u64, parse_u64_spec,
    split_once_of, split_once_spec, starts_with, str_eq, string_from_chars, char_views,
};

verus! {

/// Binaries longer than this many bytes are stored compressed.
pub const COMPRESSION_THRESHOLD: usize = 1024;

/// Why an artifact could not be packed or unpacked.
#[derive(Clone, Copy, Debug, PartialEq, Eq, Structural)]
pub enum ArtifactError {
    Compression,
    Decompression,
}

/// How a binary is kept in the cache: compressed when longer than the
/// threshold, as it is otherwise.
pub open spec fn stored_form(binary: Seq<u8>, compressed: bool, stored: Seq<u8>) -> bool {
    if binary.len() > COMPRESSION_THRESHOLD {
        compressed && stored == gzip_compressed(binary)
    } else {
        !compressed && stored == binary
    }
}

/// The artifact to cache for `code` and its compiled `binary`.
pub fn pack_artifact(code: &str, binary: &[u8]) -> (r: Result<Artifact, ArtifactError>)
    ensures
        match r {
            Ok(a) => a.code@ == code@ && stored_form(binary@, a.compressed, a.binary@),
            Err(e) => e == ArtifactError::Compression && binary@.len() > COMPRESSION_THRESHOLD,
        },
        binary@.len() > COMPRESSION_THRESHOLD ==> (r is Ok <==> gzip_succeeds(binary@)),
        binary@.len() <= COMPRESSION_THRESHOLD ==> r is Ok,
{
    if binary.len() > COMPRESSION_THRESHOLD {
        match compress_binary(binary) {
            Ok(packed) => Ok(Artifact { code: code.to_owned(), binary: packed, compressed: true }),
            Err(_) => Err(ArtifactError::Compression),
        }
    } else {
        Ok(
            Artifact {
                code: code.to_owned(),
                binary: vstd::slice::slice_to_vec(binary),
                compressed: false,
            },
        )
    }
}

/// A cached artifact with its binary as compiled: decompressed when it was
/// stored compressed, and refused when those bytes do not decompress.
/// Unpacking what [`pack_artifact`] stored gives back
/// the code and the binary it was given.
pub fn unpack_artifact(artifact: Artifact) -> (r: Result<Artifact, ArtifactError>)
    ensures
        !artifact.compressed ==> r == Ok::<Artifact, ArtifactError>(artifact),
        r matches Ok(a) ==> a.code == artifact.code && !a.compressed,
        r matches Err(e) ==> e == ArtifactError::Decompression && artifact.compressed,
        artifact.compressed ==> match gzip_decompressed(artifact.binary@) {
            Some(v) => r matches Ok(a) && a.binary@ == v,
            None => r is Err,
        },
        forall|b: Seq<u8>| #[trigger] stored_form(b, artifact.compressed, artifact.binary@) ==> (r
            matches Ok(a) && a.binary@ == b),
{
    if !artifact.compressed {
        return Ok(artifact);
    }
    match decompress_binary(artifact.binary.as_slice()) {
        Ok(binary) => {
            let r = Artifact { code: artifact.code, binary, compressed: false };
            proof {
                assert forall|b: Seq<u8>| #[trigger] stored_form(
                    b,
                    artifact.compressed,
                    artifact.binary@,
                ) implies r.binary@ == b by {
                    if b.len() > COMPRESSION_THRESHOLD {
                        assert(gzip_compressed(b) == artifact.binary@);
                    }
                }
            }
            Ok(r)
        },
        Err(_) => {
            proof {
                assert forall|b: Seq<u8>| !#[trigger] stored_form(
                    b,
                    artifact.compressed,
                    artifact.binary@,
                ) by {
                    if b.len() > COMPRESSION_THRESHOLD && gzip_compressed(b) == artifact.binary@ {
                        assert(false);
                    }
                }
            }
            Err(ArtifactError::Decompression)
        },
    }
}

/// How long an artifact stays cached, in seconds: Java artifacts and
/// others each have their own period.
pub fn artifact_ttl(language: &str, java_ttl: usize, default_ttl: usize) -> (r: usize)
    ensures
        r == (if language@ == "java"@ || language@ == "java11"@ || language@ == "java21"@ {
            java_ttl
        } else {
            default_ttl
        }),
{
    if str_eq(language, "java") || str_eq(language, "java11") || str_eq(language, "java21") {
        java_ttl
    } else {
        default_ttl
    }
}

/// The memory figures of the cache server's report.
#[derive(Clone, Copy, Debug, PartialEq, Eq, Structural)]
pub struct MemoryInfo {
    pub used_memory: Option<u64>,
    pub max_memory: Option<u64>,
}

/// The second `:`-separated field of a line, as `split(':').nth(1)` gives it.
pub open spec fn second_field(line: Seq<char>) -> Option<Seq<char>> {
    match split_once_spec(line, ':') {
        Some((_, rest)) => match split_once_spec(rest, ':') {
            Some((field, _)) => Some(field),
            None => Some(rest),
        },
        None => None,
    }
}

/// The number in the second field of a line, if there is one.
pub open spec fn field_number(line: Seq<char>) -> Option<u64> {
    match second_field(line) {
        Some(f) => parse_u64_spec(f),
        None => None,
    }
}

/// The figures after reading one line: a line starting `used_memory:` or
/// `maxmemory:` sets the figure to its number, or clears it when there is
/// none.
pub open spec fn memory_step(m: MemoryInfo, line: Seq<char>) -> MemoryInfo {
    let m1 = if has_prefix(line, "used_memory:"@) {
        MemoryInfo { used_memory: field_number(line), ..m }
    } else {
        m
    };
    if has_prefix(line, "maxmemory:"@) {
        MemoryInfo { max_memory: field_number(line), ..m1 }
    } else {
        m1
    }
}

/// The figures after reading the given lines in order.
pub open spec fn memory_fold(lines: Seq<Seq<char>>) -> MemoryInfo
    decreases lines.len(),
{
    if lines.len() == 0 {
        MemoryInfo { used_memory: None, max_memory: None }
    } else {
        memory_step(memory_fold(lines.drop_last()), lines.last())
    }
}

/// The number in the second field of a line, if there is one.
fn field_number_of(line: &Vec<char>) -> (r: Option<u64>)
    ensures
        r == field_number(line@),
{
    match split_once_of(line, ':') {
        Some((_, rest)) => {
            let field = match split_once_of(&rest, ':') {
                Some((f, _)) => f,
                None => rest,
            };
            let s = string_from_chars(&field);
            parse_u64(s.as_str())
        },
        None => None,
    }
}

/// Reads the used and maximum memory from the cache server's memory
/// report.
pub fn parse_memory_info(info: &str) -> (r: MemoryInfo)
    ensures
        r == memory_fold(lines_spec(info@)),
{
    let c = chars_of(info);
    let lines = lines_of(&c);
    let used_prefix = chars_of("used_memory:");
    let max_prefix = chars_of("maxmemory:");
    let mut m = MemoryInfo { used_memory: None, max_memory: None };
    let mut i: usize = 0;
    assert(char_views(lines@).subrange(0, 0) =~= Seq::<Seq<char>>::empty());
    while i < lines.len()
        invariant
            i <= lines.len(),
            used_prefix@ == "used_memory:"@,
            max_prefix@ == "maxmemory:"@,
            m == memory_fold(char_views(lines@).subrange(0, i as int)),
        decreases lines.len() - i,
    {
        proof {
            assert(char_views(lines@).subrange(0, i + 1).drop_last() =~= char_views(lines@).subrange(
                0,
                i as int,
            ));
            assert(char_views(lines@).subrange(0, i + 1).last() == lines@[i as int]@);
        }
        if starts_with(&lines[i], &used_prefix) {
            m.used_memory = field_number_of(&lines[i]);
        }
        if starts_with(&lines[i], &max_prefix) {
            m.max_memory = field_number_of(&lines[i]);
        }
        i = i + 1;
    }
    assert(char_views(lines@).subrange(0, i as int) =~= char_views(lines@));
    m
}

/// The keys to evict: the `count` least recently used, given each key with
/// the time of its last use, ties kept in the order given.
pub open spec fn oldest_keys_spec(entries: Seq<(u64, String)>, count: nat) -> Seq<Seq<char>> {
    let sorted = stable_sort(entries);
    let n = if count <= sorted.len() { count } else { sorted.len() };
    sorted.subrange(0, n as int).map_values(|e: (u64, String)| e.1@)
}

/// The keys to evict: the `count` least recently used.
pub fn oldest_keys(entries: Vec<(u64, String)>, count: usize) -> (r: Vec<String>)
    ensures
        r@.map_values(|s: String| s@) == oldest_keys_spec(entries@, count as nat),
{
    let sorted = sort_by_key(entries);
    let ghost sv = sorted@;
    let n = if count <= sorted.len() { count } else { sorted.len() };
    let mut out: Vec<String> = Vec::new();
    let mut src = sorted;
    let mut j: usize = 0;
    while j < n
        invariant
            n <= sv.len(),
            j <= n,
            src@ == sv.subrange(j as int, sv.len() as int),
            out@.map_values(|s: String| s@) == sv.subrange(0, j as int).map_values(
                |e: (u64, String)| e.1@,
            ),
        decreases n - j,
    {
        let ghost before_out = out@.map_values(|s: String| s@);
        let e = src.remove(0);
        assert(e == sv[j as int]);
        out.push(e.1);
        assert(out@.map_values(|s: String| s@) =~= before_out.push(sv[j as int].1@));
        j = j + 1;
        assert(out@.map_values(|s: String| s@) =~= sv.subrange(0, j as int).map_values(
            |e: (u64, String)| e.1@,
        ));
        assert(src@ =~= sv.subrange(j as int, sv.len() as int));
    }
    out
}

} // verus!
