//! Verified core of a sandboxed code-execution service: language
//! registry, job queue bookkeeping, sandbox command construction and
//! result assembly, artifact caching rules and concurrency control.

pub mod text;
pub mod models;
pub mod languages;
pub mod digest;
pub mod ordering;
pub mod queue;
pub mod job;
pub mod concurrency;
pub mod sandbox;
pub mod executor;
pub mod cache;
pub mod api;
pub mod pool;
pub mod containers;
pub mod compilers;
