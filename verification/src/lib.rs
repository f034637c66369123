//! Core engine for synchronizing a tool-agnostic directory of markdown
//! documents with several vendor-specific configuration formats.
//!
//! The library is pure: directory listings enter as in-memory [`doc::Doc`]
//! values (a relative, slash-separated path plus file text), and every
//! transformation — aggregation, extension rewriting, vendor push and pull
//! planning, relevance filtering, status reporting — is a verified function
//! from those values to the files that should be written or the error that
//! must be raised. A thin unverified binary performs the actual filesystem
//! and network work around these functions.

pub mod text;

pub mod paths;

pub mod doc;

pub mod title;

pub mod errors;

pub mod utils;

pub mod cli;

pub mod vendor;

pub mod push_plan;

pub mod pull_plan;

pub mod knowledge;

pub mod status;

pub mod laws;
