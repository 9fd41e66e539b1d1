//! Rewrites error-construction expressions in a syntax tree so that every
//! constructed error carries a stable, content-derived diagnostic code, while
//! the original human-readable message text can be persisted out-of-band for
//! later lookup.
//!
//! The crate is organised around three components:
//! - a message extractor: a total, best-effort static evaluator that
//!   reconstructs the string an expression would produce at runtime;
//! - a code registry: derives a deterministic `E<digits>` code from a message
//!   and plans its durable, at-most-once recording;
//! - a tree rewriter: wraps each matched error construction in a
//!   shallow-merge call that attaches the code under a reserved key without
//!   changing what the original expression evaluates to.
pub mod ast;
pub mod extract;
pub mod persist;
pub mod registry;
pub mod rewrite;
