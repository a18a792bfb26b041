//! The object-storage subcommand: its command model and the key
//! computation behind a single copy. The bulk operations' logic lives in
//! `jobs` (parsing and planning), `executor` (fan-out and tally),
//! `progress` (counters and reporting) and `pagination` (counting through
//! a listing API).

use vstd::prelude::*;

use crate::jobs::bucket_and_prefix;
use crate::jobs::bucket_prefix_spec;

verus! {

/// The object-storage subcommand and its arguments.
#[derive(Clone, Debug)]
pub struct App {
    pub command: Commands,
}

/// What the object-storage subcommand can do.
#[derive(Clone, Debug)]
pub enum Commands {
    /// Get the list of buckets under the account.
    ListBuckets,
    /// Copy one object between buckets.
    Copy(CopyOptions),
    /// Copy a list of objects between buckets.
    CopyList(CopyListOptions),
    /// Count the objects in a bucket under a prefix.
    CountFiles(CountFilesOptions),
    /// Upload a list of local files to a bucket.
    UploadList(UploadListOptions),
}

/// Arguments of the single-object copy.
#[derive(Clone, Debug)]
pub struct CopyOptions {
    pub source_bucket: String,
    pub destination_bucket: String,
    pub src: String,
    pub dst: String,
}

/// Arguments of the bulk copy. The list of lines itself comes from the
/// job source (a file or standard input) and is handed to the planner
/// separately.
#[derive(Clone, Debug)]
pub struct CopyListOptions {
    pub source_bucket: String,
    pub destination_bucket: String,
    pub source_prefix: Option<String>,
    pub destination_prefix: Option<String>,
    pub max_concurrent: usize,
    pub metadata: Option<Vec<(String, String)>>,
}

/// Arguments of the bulk upload. The list of lines itself comes from the
/// job source and is handed to the planner separately.
#[derive(Clone, Debug)]
pub struct UploadListOptions {
    pub destination_bucket: String,
    pub destination_prefix: Option<String>,
    pub max_concurrent: usize,
}

/// Arguments of the object count.
#[derive(Clone, Debug)]
pub struct CountFilesOptions {
    pub bucket: String,
    pub prefix: Option<String>,
}

/// The source of a single-object copy, as the remote API wants it:
/// `bucket/key`.
pub fn copy_source_key(options: &CopyOptions) -> (r: String)
    ensures
        r@ == bucket_prefix_spec(options.source_bucket@, options.src@),
{
    bucket_and_prefix(options.source_bucket.as_str(), options.src.as_str())
}

} // verus!
