use vstd::prelude::*;

verus! {

/// The position of an update in the engine: the index of the update and the
/// time at which it happens (ordered by index, then time).
#[derive(Clone, Copy, Debug, PartialEq, Eq, PartialOrd, Ord, Hash, Structural)]
pub struct EngineTime {
    index: usize,
    time: u64,
}

/// The time at which a scheduled event was requested, together with the
/// update that scheduled it and the order in which that update emitted it.
#[derive(Clone, Copy, Debug, PartialEq, Eq, PartialOrd, Ord, Hash, Structural)]
pub struct EngineTimeSchedule {
    pub time: u64,
    pub parent_index: usize,
    pub emission_index: usize,
}

impl EngineTime {
    pub closed spec fn spec_index(self) -> usize {
        self.index
    }

    pub closed spec fn spec_time(self) -> u64 {
        self.time
    }

    pub fn index(&self) -> (r: usize)
        ensures
            r == self.spec_index(),
    {
        self.index
    }

    /// The time of the initial update: index zero at the default time.
    pub fn new_init() -> (r: Self)
        ensures
            r.spec_index() == 0,
            r.spec_time() == 0,
    {
        EngineTime { index: 0, time: 0 }
    }

    pub fn new_input(index: usize, time: u64) -> (r: Self)
        ensures
            r.spec_index() == index,
            r.spec_time() == time,
    {
        EngineTime { index, time }
    }

    pub fn new_scheduled(index: usize, time: EngineTimeSchedule) -> (r: Self)
        ensures
            r.spec_index() == index,
            r.spec_time() == time.time,
    {
        EngineTime { index, time: time.time }
    }

    /// The schedule entry for an event that this update emits.
    pub fn spawn_scheduled(&self, time: u64, emission_index: usize) -> (r: EngineTimeSchedule)
        ensures
            r.time == time,
            r.parent_index == self.spec_index(),
            r.emission_index == emission_index,
    {
        EngineTimeSchedule { time, parent_index: self.index(), emission_index }
    }

    pub fn raw_time(&self) -> (r: u64)
        ensures
            r == self.spec_time(),
    {
        self.time
    }
}

} // verus!
