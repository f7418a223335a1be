//! The configuration of a benchmark: global settings, tasks, and the
//! experiments that a task expands to.

use vstd::prelude::*;
use vstd::string::*;

verus! {

/// A span of time: whole seconds and the nanoseconds beyond them.
#[derive(Clone, Copy, Debug, PartialEq, Eq, Structural)]
pub struct Interval {
    pub secs: u64,
    pub nanos: u32,
}

impl Interval {
    /// The nanoseconds are less than one second.
    pub open spec fn wf(self) -> bool {
        self.nanos < 1_000_000_000
    }

    /// The whole span in nanoseconds.
    pub open spec fn as_nanos(self) -> nat {
        self.secs as nat * 1_000_000_000 + self.nanos as nat
    }

    /// The span of `millis` milliseconds.
    pub fn from_millis(millis: u64) -> (r: Self)
        ensures
            r.wf(),
            r.as_nanos() == millis as nat * 1_000_000,
    {
        let rest: u32 = (millis % 1000) as u32;
        Interval { secs: millis / 1000, nanos: rest * 1_000_000 }
    }
}

/// The settings that hold for every task.
pub struct GlobalParams {
    /// How often each experiment is repeated.
    pub sample_size: u32,
    /// The directory that receives the results.
    pub output_directory: String,
    /// Hardware counters to collect besides the default ones.
    pub extra_perf_events: Option<Vec<String>>,
    /// Whether the enclave loader logs at debug level.
    pub debug: bool,
    /// Whether one more run with event tracing follows the samples.
    pub deep_trace: bool,
    /// The time between two readings of the energy counters.
    pub energy_sample_interval: Interval,
}

/// Where an enclave keeps the files that it works on.
#[derive(Clone, Copy, Debug, PartialEq, Eq, Structural)]
pub enum StorageType {
    Encrypted,
    Tmpfs,
    Untrusted,
}

impl StorageType {
    /// The name under which the storage type appears in configurations and
    /// in the names of result directories.
    pub open spec fn label(self) -> Seq<char> {
        match self {
            StorageType::Encrypted => "encrypted"@,
            StorageType::Tmpfs => "tmpfs"@,
            StorageType::Untrusted => "untrusted"@,
        }
    }

    /// The directory at which an enclave finds storage of this type.
    pub open spec fn mount_label(self) -> Seq<char> {
        match self {
            StorageType::Encrypted => "/encrypted/"@,
            StorageType::Tmpfs => "/tmp/"@,
            StorageType::Untrusted => "/untrusted/"@,
        }
    }

    /// The storage type's name.
    pub fn name(&self) -> (s: &'static str)
        ensures
            s@ == self.label(),
    {
        match self {
            StorageType::Encrypted => "encrypted",
            StorageType::Tmpfs => "tmpfs",
            StorageType::Untrusted => "untrusted",
        }
    }

    /// The storage type's name as an owned string.
    pub fn to_string(&self) -> (s: String)
        ensures
            s@ == self.label(),
    {
        String::from_str(self.name())
    }

    /// The directory at which an enclave finds storage of this type.
    pub fn mount_point(&self) -> (s: &'static str)
        ensures
            s@ == self.mount_label(),
    {
        match self {
            StorageType::Encrypted => "/encrypted/",
            StorageType::Tmpfs => "/tmp/",
            StorageType::Untrusted => "/untrusted/",
        }
    }
}

/// A program to benchmark, with the configurations to run it in.
pub struct Task {
    /// The path of the program.
    pub executable: String,
    /// The program's arguments; each is a template.
    pub args: Vec<String>,
    /// The thread counts to run with.
    pub num_threads: Vec<usize>,
    /// The enclave sizes to run with.
    pub enclave_size: Vec<String>,
    /// A manifest template to use in place of the built-in one.
    pub custom_manifest_path: Option<String>,
    /// The storage types to run with.
    pub storage_type: Vec<StorageType>,
    /// A program to run before each sample.
    pub pre_run_executable: Option<String>,
    /// Its arguments; each is a template.
    pub pre_run_args: Vec<String>,
    /// A program to run after each sample.
    pub post_run_executable: Option<String>,
    /// Its arguments; each is a template.
    pub post_run_args: Vec<String>,
    /// Variables to set in the program's environment; each value is a
    /// template.
    pub env: Option<Vec<(String, String)>>,
}

/// The time between two readings of the energy counters where none is
/// configured: half a second.
pub fn default_energy_sample_interval() -> (r: Interval)
    ensures
        r.wf(),
        r.as_nanos() == 500_000_000,
{
    Interval::from_millis(500)
}

/// The storage types of a task that names none: untrusted storage alone.
pub fn default_storage_type() -> (r: Vec<StorageType>)
    ensures
        r@ == seq![StorageType::Untrusted],
{
    let mut r: Vec<StorageType> = Vec::new();
    r.push(StorageType::Untrusted);
    assert(r@ =~= seq![StorageType::Untrusted]);
    r
}

/// The storage types of a task: those that it names, or the default where it
/// names none or gives an empty list.
pub open spec fn chosen_storage_types(named: Option<Seq<StorageType>>) -> Seq<StorageType> {
    match named {
        Some(list) => if list.len() == 0 {
            seq![StorageType::Untrusted]
        } else {
            list
        },
        None => seq![StorageType::Untrusted],
    }
}

/// Settles the storage types of a task from what its configuration names.
pub fn storage_types_or_default(named: Option<Vec<StorageType>>) -> (r: Vec<StorageType>)
    ensures
        r@ == chosen_storage_types(
            match named {
                Some(list) => Some(list@),
                None => None,
            },
        ),
        r@.len() > 0,
{
    match named {
        Some(list) => {
            if list.len() == 0 {
                default_storage_type()
            } else {
                list
            }
        },
        None => default_storage_type(),
    }
}

} // verus!
