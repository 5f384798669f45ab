//! Catalog probing: the rules of a run that fetches a catalog of extensions,
//! keeps those of one language and reports whether their sources answer.
//!
//! The library holds what is decided and computed; the requests and the file
//! are the caller's. A [`run::Run`] is taken on step by step: each step is
//! told what happened and tells what to print and what to do next.
//!
//! - [`catalog`]: extensions and their sources.
//! - [`json`]: JSON documents, read from text by `serde_json`.
//! - [`wire`]: the catalog as JSON, read and written.
//! - [`filter`]: the extensions of one language and the addresses to probe.
//! - [`report`]: the lines that are printed.
//! - [`error`]: the ways a run fails.
//! - [`run`]: the run itself.

pub mod catalog;
pub mod error;
pub mod filter;
pub mod json;
pub mod report;
pub mod run;
pub mod wire;
