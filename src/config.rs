use vstd::prelude::*;
use crate::schedule::GatherArgs;

verus! {

/// The configuration of a run: credentials for the remote store, if given, and the
/// backup targets.
pub struct Config {
    /// Without credentials, the store's default resolution is used.
    pub aws: Option<AwsConfig>,
    pub directories: DirectoriesConfig,
}

/// Explicit credentials for the remote store.
pub struct AwsConfig {
    pub aws_access_key_id: String,
    pub aws_default_region: String,
    pub aws_secret_access_key: String,
}

/// The backup targets of a configuration.
pub struct DirectoriesConfig {
    pub backups: Vec<SandmanDirectory>,
}

/// One backup target as configured.
pub struct SandmanDirectory {
    /// Designator for this backup.
    pub name: String,
    /// Path to the directory.
    pub directory: String,
    /// Seconds between scans.
    pub interval: u64,
    /// Seconds since the epoch before which no scan runs.
    pub start_time: u64,
    /// Prefix of the remote keys.
    pub prefix: String,
    /// Bucket of the remote store.
    pub bucket: String,
    /// Whether uploaded files are deleted locally.
    pub cleanable: bool,
}

/// `t` is the target that the configured directory `d` describes.
pub open spec fn target_of(t: GatherArgs, d: SandmanDirectory) -> bool {
    &&& t.name == d.name
    &&& t.local_directory == d.directory
    &&& t.bucket == d.bucket
    &&& t.bucket_prefix == d.prefix
    &&& t.interval == d.interval
    &&& t.start_time == d.start_time
    &&& t.cleanable == d.cleanable
}

impl SandmanDirectory {
    /// The backup target that this entry describes.
    pub fn target(&self) -> (r: GatherArgs)
        ensures
            target_of(r, *self),
    {
        GatherArgs::new(
            self.name.clone(),
            self.directory.clone(),
            self.bucket.clone(),
            self.prefix.clone(),
            self.interval,
            self.start_time,
            self.cleanable,
        )
    }
}

impl Config {
    /// The backup targets, one per configured directory, in order.
    pub fn targets(&self) -> (r: Vec<GatherArgs>)
        ensures
            r@.len() == self.directories.backups@.len(),
            forall|i: int| 0 <= i < r@.len() ==> target_of(#[trigger] r@[i], self.directories.backups@[i]),
    {
        let mut out: Vec<GatherArgs> = Vec::new();
        let mut i: usize = 0;
        while i < self.directories.backups.len()
            invariant
                i <= self.directories.backups@.len(),
                out@.len() == i,
                forall|j: int| 0 <= j < i ==> target_of(#[trigger] out@[j], self.directories.backups@[j]),
            decreases self.directories.backups@.len() - i,
        {
            out.push(self.directories.backups[i].target());
            i += 1;
        }
        out
    }
}

} // verus!
