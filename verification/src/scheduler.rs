use vstd::prelude::*;

verus! {

/// How the resources of a build are worked through.
#[derive(Clone, Copy, Debug, PartialEq, Eq, Structural)]
pub enum SchedulerType {
    Parallel,
    Sequential,
}

impl Default for SchedulerType {
    fn default() -> (r: Self)
        ensures
            r == SchedulerType::Sequential,
    {
        SchedulerType::Sequential
    }
}

/// The scheduler of a build. It holds nothing yet.
#[derive(Clone, Copy, Debug, PartialEq, Eq, Structural)]
pub struct Scheduler {}

impl Default for Scheduler {
    fn default() -> (r: Self)
        ensures
            r == (Scheduler {  }),
    {
        Scheduler {  }
    }
}

} // verus!
