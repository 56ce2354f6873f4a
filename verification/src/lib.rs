//! Trust-verification pipeline for a push-event webhook runner.
//!
//! The crate decides whether an operator-configured command may run for a
//! pushed commit: it authenticates the webhook request with a keyed hash,
//! enforces that a fetched checkout resolved to exactly the requested commit,
//! reconstructs the canonical signed payload of a commit and verifies its
//! detached signature against a set of trusted certificates, and routes a
//! push event to the policy configured for its ref type.

use vstd::prelude::*;

pub mod cert_builder;
pub mod decfmt;
pub mod error;
pub mod hex;
pub mod repository;
pub mod signature;
pub mod webhook;

verus! {

/// The keyrings loaded at startup, one optional set per ref type.
pub struct KeyringFiles {
    pub tag: Option<cert_builder::KeyringFile>,
    pub commit: Option<cert_builder::KeyringFile>,
}

} // verus!
