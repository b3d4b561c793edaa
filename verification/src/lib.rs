//! Route segment grammar and containers for a directory-based router.
//!
//! A route is described by the tokens between `/` separators: static names,
//! dynamic placeholders such as `[id]`, catch-all forms such as `[...slug]`
//! and `[[...slug]]`, route groups `(name)` and parallel-route markers
//! `@name`. This crate parses single tokens into typed segments, builds an
//! ordered page descriptor out of them, derives the URL-facing path from a
//! page descriptor, and renders both back to their canonical string form.

pub mod page;
pub mod path;
pub mod segment;
