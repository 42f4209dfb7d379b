//! Update orchestration for a declarative package repository: upstream version
//! selection, safe recipe rewriting, the build-verification protocol and the
//! scheduling rules around them.
pub mod text;
pub mod version;
pub mod sources;
pub mod rewrite;
pub mod pipeline;
pub mod verification;
pub mod scheduler;
pub mod orchestrator;
pub mod groups;
pub mod package;
pub mod check;
