//! Bulk object-storage operations: a bounded-concurrency batch-transfer
//! engine together with the line parser, progress tracker and pagination
//! walker that drive it. The remote storage service, credential resolution
//! and all input/output are collaborators supplied by the caller; this crate
//! holds the logic that decides what to transfer and accounts for what
//! happened.

use vstd::prelude::*;

pub mod executor;
pub mod jobs;
pub mod kms;
pub mod pagination;
pub mod progress;
pub mod s3;
pub mod text;

verus! {

/// Global options shared by every subcommand: the region and credential
/// profile handed to the credential resolver, and a verbosity switch.
#[derive(Clone, Debug)]
pub struct Global {
    pub region: Option<String>,
    pub profile: Option<String>,
    pub verbose: bool,
}

/// The tool's subcommand families.
#[derive(Clone, Debug)]
pub enum SubCommands {
    KMS(crate::kms::App),
    S3(crate::s3::App),
}

/// Returns whether the given count of failed jobs makes the whole batch a
/// failure: a batch fails exactly when at least one job failed.
pub fn batch_failed(failed: usize) -> (r: bool)
    ensures
        r == (failed > 0),
{
    failed > 0
}

} // verus!
