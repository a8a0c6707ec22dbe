use vstd::prelude::*;

verus! {

/// One kind of worker: the command it runs, how many run it, and the
/// memory each may use.
#[derive(Debug)]
pub struct Worker {
    pub cmd: String,
    pub replicas: u32,
    pub mem_limit: String,
}

impl Default for Worker {
    fn default() -> (r: Self)
        ensures
            r.cmd@ == Seq::<char>::empty(),
            r.replicas == 0,
            r.mem_limit@ == Seq::<char>::empty(),
    {
        Worker { cmd: String::new(), replicas: 0, mem_limit: String::new() }
    }
}

impl Clone for Worker {
    fn clone(&self) -> (r: Self)
        ensures
            r == *self,
    {
        Worker {
            cmd: self.cmd.clone(),
            replicas: self.replicas,
            mem_limit: self.mem_limit.clone(),
        }
    }
}

/// The manifest that workers start from. It holds nothing yet.
#[derive(Clone, Copy, Debug, PartialEq, Eq, Structural)]
pub struct WorkerManifest {}

impl Default for WorkerManifest {
    fn default() -> (r: Self)
        ensures
            r == (WorkerManifest {  }),
    {
        WorkerManifest {  }
    }
}

/// The source of the workers: the list of them, and their manifest.
#[derive(Clone, Debug)]
pub struct WorkersSource {
    pub list: Vec<Worker>,
    pub base: WorkerManifest,
}

impl Default for WorkersSource {
    fn default() -> (r: Self)
        ensures
            r.list@ == Seq::<Worker>::empty(),
            r.base == (WorkerManifest {  }),
    {
        WorkersSource { list: Vec::new(), base: WorkerManifest {  } }
    }
}

/// What the workers are built into.
#[derive(Clone, Debug)]
pub struct WorkersTarget {
    pub manifests: Vec<WorkerManifest>,
}

impl Default for WorkersTarget {
    fn default() -> (r: Self)
        ensures
            r.manifests@ == Seq::<WorkerManifest>::empty(),
    {
        WorkersTarget { manifests: Vec::new() }
    }
}

} // verus!
