//! The profiler: which experiments a task expands to, and where each keeps
//! its results.

use vstd::prelude::*;
use vstd::string::*;
use crate::common::{StorageType, Task};
use crate::number::{decimal, to_decimal};
use crate::signal::StopSignal;

verus! {

/// The path of the entry `name` of the directory `dir`.
pub open spec fn child_path(dir: Seq<char>, name: Seq<char>) -> Seq<char> {
    if dir.len() == 0 {
        name
    } else if dir.last() == '/' {
        dir + name
    } else {
        dir + "/"@ + name
    }
}

/// Names the entry `name` of the directory `dir`.
pub fn join_path(dir: &str, name: &str) -> (path: String)
    ensures
        path@ == child_path(dir@, name@),
{
    let n = dir.unicode_len();
    let mut path = String::from_str(dir);
    if n > 0 && dir.get_char(n - 1) != '/' {
        path.append("/");
    }
    path.append(name);
    assert(path@ =~= child_path(dir@, name@));
    path
}

/// One configuration in which a task is run.
pub struct PlannedExperiment {
    /// The number of threads.
    pub threads: usize,
    /// The enclave's size and storage type, for a run inside an enclave.
    pub enclave: Option<(String, StorageType)>,
    /// The directory of the experiment, relative to that of its task.
    pub directory: String,
}

/// What a `PlannedExperiment` stands for.
pub struct PlannedView {
    pub threads: usize,
    pub enclave: Option<(Seq<char>, StorageType)>,
    pub directory: Seq<char>,
}

impl View for PlannedExperiment {
    type V = PlannedView;

    open spec fn view(&self) -> PlannedView {
        PlannedView {
            threads: self.threads,
            enclave: match self.enclave {
                Some(e) => Some((e.0@, e.1)),
                None => None,
            },
            directory: self.directory@,
        }
    }
}

/// The views of a sequence of planned experiments.
pub open spec fn planned_views(plan: Seq<PlannedExperiment>) -> Seq<PlannedView> {
    plan.map_values(|p: PlannedExperiment| p@)
}

/// The experiment of `program` inside an enclave of size `size` with
/// storage of type `storage`, on `threads` threads.
pub open spec fn sgx_experiment(
    program: Seq<char>,
    threads: usize,
    size: Seq<char>,
    storage: StorageType,
) -> PlannedView {
    PlannedView {
        threads: threads,
        enclave: Some((size, storage)),
        directory: "gramine-sgx/"@ + program + "-"@ + decimal(threads as nat) + "-"@ + size + "-"@
            + storage.label(),
    }
}

/// The experiment of `program` outside an enclave, on `threads` threads.
pub open spec fn native_experiment(program: Seq<char>, threads: usize) -> PlannedView {
    PlannedView {
        threads: threads,
        enclave: None,
        directory: "no-gramine-sgx/"@ + program + "-"@ + decimal(threads as nat),
    }
}

/// The enclave experiments with one thread count and one enclave size: one
/// for each storage type, in order.
pub open spec fn for_storages(
    program: Seq<char>,
    threads: usize,
    size: Seq<char>,
    storages: Seq<StorageType>,
) -> Seq<PlannedView>
    decreases storages.len(),
{
    if storages.len() == 0 {
        Seq::empty()
    } else {
        for_storages(program, threads, size, storages.drop_last()).push(
            sgx_experiment(program, threads, size, storages.last()),
        )
    }
}

/// The enclave experiments with one thread count: those of each enclave
/// size, in order.
pub open spec fn for_sizes(
    program: Seq<char>,
    threads: usize,
    sizes: Seq<String>,
    storages: Seq<StorageType>,
) -> Seq<PlannedView>
    decreases sizes.len(),
{
    if sizes.len() == 0 {
        Seq::empty()
    } else {
        for_sizes(program, threads, sizes.drop_last(), storages) + for_storages(
            program,
            threads,
            sizes.last()@,
            storages,
        )
    }
}

/// The enclave experiments of a task: those of each thread count, in order.
pub open spec fn sgx_plan(
    program: Seq<char>,
    threads: Seq<usize>,
    sizes: Seq<String>,
    storages: Seq<StorageType>,
) -> Seq<PlannedView>
    decreases threads.len(),
{
    if threads.len() == 0 {
        Seq::empty()
    } else {
        sgx_plan(program, threads.drop_last(), sizes, storages) + for_sizes(
            program,
            threads.last(),
            sizes,
            storages,
        )
    }
}

/// The experiments of a task outside an enclave: one for each thread count,
/// in order.
pub open spec fn native_plan(program: Seq<char>, threads: Seq<usize>) -> Seq<PlannedView>
    decreases threads.len(),
{
    if threads.len() == 0 {
        Seq::empty()
    } else {
        native_plan(program, threads.drop_last()).push(native_experiment(program, threads.last()))
    }
}

/// The experiments of a task, in the order in which they are run: first
/// every experiment inside an enclave, then those outside.
pub open spec fn plan_of(program: Seq<char>, task: Task) -> Seq<PlannedView> {
    sgx_plan(program, task.num_threads@, task.enclave_size@, task.storage_type@) + native_plan(
        program,
        task.num_threads@,
    )
}

/// Names the directory of an experiment inside an enclave.
fn sgx_directory(program: &str, threads: usize, size: &str, storage: StorageType) -> (s: String)
    ensures
        s@ == sgx_experiment(program@, threads, size@, storage).directory,
{
    let mut s = String::from_str("gramine-sgx/");
    s.append(program);
    s.append("-");
    s.append(to_decimal(threads as u128).as_str());
    s.append("-");
    s.append(size);
    s.append("-");
    s.append(storage.name());
    s
}

/// Names the directory of an experiment outside an enclave.
fn native_directory(program: &str, threads: usize) -> (s: String)
    ensures
        s@ == native_experiment(program@, threads).directory,
{
    let mut s = String::from_str("no-gramine-sgx/");
    s.append(program);
    s.append("-");
    s.append(to_decimal(threads as u128).as_str());
    s
}

/// What a `Profiler` stands for.
pub struct ProfilerView {
    pub private_key_path: Seq<char>,
    pub output_directory: Seq<char>,
    pub debug: bool,
}

/// Runs the experiments of tasks and keeps their results below one
/// directory.
pub struct Profiler {
    private_key_path: String,
    output_directory: String,
    debug: bool,
    stop: StopSignal,
}

impl View for Profiler {
    type V = ProfilerView;

    closed spec fn view(&self) -> ProfilerView {
        ProfilerView {
            private_key_path: self.private_key_path@,
            output_directory: self.output_directory@,
            debug: self.debug,
        }
    }
}

impl Profiler {
    /// A profiler that keeps its results below `output_directory`. The key
    /// with which it signs enclaves lies there as `private_key.pem`.
    pub fn new(output_directory: String, debug: bool) -> (p: Self)
        ensures
            p@.output_directory == output_directory@,
            p@.debug == debug,
            p@.private_key_path == child_path(output_directory@, "private_key.pem"@),
    {
        let private_key_path = join_path(output_directory.as_str(), "private_key.pem");
        Profiler { private_key_path, output_directory, debug, stop: StopSignal::new() }
    }

    /// The path of the key with which enclaves are signed.
    pub fn private_key_path(&self) -> (path: &String)
        ensures
            path@ == self@.private_key_path,
    {
        &self.private_key_path
    }

    /// The directory below which the results are kept.
    pub fn output_directory(&self) -> (path: &String)
        ensures
            path@ == self@.output_directory,
    {
        &self.output_directory
    }

    /// Whether the enclave loader logs at debug level.
    pub fn debug(&self) -> (b: bool)
        ensures
            b == self@.debug,
    {
        self.debug
    }

    /// Asks the profiler to stop: no further experiment is begun. May be
    /// called from any thread.
    pub fn stop(&self) {
        self.stop.set();
    }

    /// Whether the profiler has been seen asked to stop.
    pub fn is_stopped(&self) -> (seen: bool) {
        self.stop.is_set()
    }

    /// The directory of an experiment of the program named `program`.
    pub fn experiment_path(&self, program: &str, planned: &PlannedExperiment) -> (path: String)
        ensures
            path@ == child_path(
                child_path(self@.output_directory, program@),
                planned@.directory,
            ),
    {
        let task_path = join_path(self.output_directory.as_str(), program);
        join_path(task_path.as_str(), planned.directory.as_str())
    }

    /// Lists the experiments of a task in the order in which they are run.
    /// `program` is the name of the task's program, without its directory.
    pub fn plan(task: &Task, program: &str) -> (plan: Vec<PlannedExperiment>)
        ensures
            planned_views(plan@) == plan_of(program@, *task),
    {
        let mut plan: Vec<PlannedExperiment> = Vec::new();
        let threads = &task.num_threads;
        let sizes = &task.enclave_size;
        let storages = &task.storage_type;
        let mut t: usize = 0;
        assert(threads@.take(0) == Seq::<usize>::empty());
        assert(planned_views(plan@) == Seq::<PlannedView>::empty());
        while t < threads.len()
            invariant
                t <= threads@.len(),
                planned_views(plan@) == sgx_plan(
                    program@,
                    threads@.take(t as int),
                    sizes@,
                    storages@,
                ),
            decreases threads@.len() - t,
        {
            let count: usize = threads[t];
            let ghost head = planned_views(plan@);
            let mut e: usize = 0;
            proof {
                let read = threads@.take(t as int + 1);
                assert(read.drop_last() == threads@.take(t as int));
                assert(read.last() == count);
                assert(sizes@.take(0) == Seq::<String>::empty());
                assert(head + Seq::<PlannedView>::empty() == head);
            }
            while e < sizes.len()
                invariant
                    e <= sizes@.len(),
                    planned_views(plan@) == head + for_sizes(
                        program@,
                        count,
                        sizes@.take(e as int),
                        storages@,
                    ),
                decreases sizes@.len() - e,
            {
                let ghost middle = planned_views(plan@);
                let ghost size = sizes@[e as int]@;
                let mut s: usize = 0;
                proof {
                    let read = sizes@.take(e as int + 1);
                    assert(read.drop_last() == sizes@.take(e as int));
                    assert(read.last() == sizes@[e as int]);
                    assert(storages@.take(0) == Seq::<StorageType>::empty());
                    assert(middle + Seq::<PlannedView>::empty() == middle);
                }
                while s < storages.len()
                    invariant
                        e < sizes@.len(),
                        size == sizes@[e as int]@,
                        s <= storages@.len(),
                        planned_views(plan@) == middle + for_storages(
                            program@,
                            count,
                            size,
                            storages@.take(s as int),
                        ),
                    decreases storages@.len() - s,
                {
                    let storage: StorageType = storages[s];
                    let ghost before = planned_views(plan@);
                    proof {
                        let read = storages@.take(s as int + 1);
                        assert(read.drop_last() == storages@.take(s as int));
                        assert(read.last() == storage);
                    }
                    let planned = PlannedExperiment {
                        threads: count,
                        enclave: Some((sizes[e].clone(), storage)),
                        directory: sgx_directory(program, count, sizes[e].as_str(), storage),
                    };
                    assert(planned@ == sgx_experiment(program@, count, size, storage));
                    plan.push(planned);
                    assert(planned_views(plan@) == before.push(planned@));
                    s = s + 1;
                }
                proof {
                    assert(storages@.take(s as int) == storages@);
                    let done = for_sizes(program@, count, sizes@.take(e as int), storages@);
                    let more = for_storages(program@, count, size, storages@);
                    assert(planned_views(plan@) == head + (done + more));
                }
                e = e + 1;
            }
            proof {
                assert(sizes@.take(e as int) == sizes@);
            }
            t = t + 1;
        }
        assert(threads@.take(t as int) == threads@);
        let ghost sgx = planned_views(plan@);
        let mut n: usize = 0;
        proof {
            assert(sgx + Seq::<PlannedView>::empty() == sgx);
        }
        while n < threads.len()
            invariant
                n <= threads@.len(),
                planned_views(plan@) == sgx + native_plan(program@, threads@.take(n as int)),
            decreases threads@.len() - n,
        {
            let count: usize = threads[n];
            let ghost before = planned_views(plan@);
            proof {
                let read = threads@.take(n as int + 1);
                assert(read.drop_last() == threads@.take(n as int));
                assert(read.last() == count);
            }
            let planned = PlannedExperiment {
                threads: count,
                enclave: None,
                directory: native_directory(program, count),
            };
            plan.push(planned);
            assert(planned_views(plan@) == before.push(planned@));
            n = n + 1;
        }
        assert(threads@.take(n as int) == threads@);
        plan
    }
}

} // verus!
