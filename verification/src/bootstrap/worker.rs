//! Worker threads.

use vstd::prelude::*;

verus! {

/// Configuration of the workers.
#[derive(Debug)]
pub struct WorkerConfig {
    /// Number of workers; zero stands for one per processor.
    pub workers: usize,
    /// Stack size of a worker, in bytes.
    pub stack_size: usize,
    /// What the names of the threads begin with.
    pub name_prefix: String,
}

impl Default for WorkerConfig {
    fn default() -> (c: Self)
        ensures
            c.workers == 0,
            c.stack_size == 2_097_152,
            c.name_prefix@ == "smppd-worker"@,
    {
        WorkerConfig {
            workers: 0,
            stack_size: 2_097_152,
            name_prefix: "smppd-worker".to_owned(),
        }
    }
}

impl WorkerConfig {
    /// How many workers to start on a machine with some processors.
    pub fn worker_count(&self, processors: usize) -> (n: usize)
        ensures
            n == if self.workers == 0 {
                processors
            } else {
                self.workers
            },
    {
        if self.workers == 0 {
            processors
        } else {
            self.workers
        }
    }

    /// The name of a worker: the prefix, a hyphen and its number.
    pub fn worker_name(&self, id: u64) -> (name: String)
        ensures
            name@ == self.name_prefix@ + "-"@ + crate::text::decimal(id as nat),
    {
        let mut name = self.name_prefix.clone();
        let number = crate::text::number(id);
        name.append("-");
        name.append(number.as_str());
        name
    }
}

} // verus!
