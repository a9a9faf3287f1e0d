use vstd::prelude::*;

verus! {

/// This is the handle that you use to expire scheduled events.
#[derive(Clone, Copy, Debug, PartialEq, Eq, Hash, Structural)]
pub struct ExpireHandle(u64);

impl ExpireHandle {
    pub closed spec fn value(self) -> u64 {
        self.0
    }

    pub(crate) fn value_exec(&self) -> (r: u64)
        ensures
            r == self.value(),
    {
        self.0
    }

    pub(crate) fn new(value: u64) -> (r: Self)
        ensures
            r.value() == value,
    {
        ExpireHandle(value)
    }
}

/// Hands out expire handles with increasing values.
#[derive(Clone, Copy, Debug)]
pub struct ExpireHandleFactory(u64);

impl ExpireHandleFactory {
    /// The value of the next handle to hand out.
    pub closed spec fn next_value(self) -> u64 {
        self.0
    }

    pub fn new() -> (r: Self)
        ensures
            r.next_value() == 0,
    {
        ExpireHandleFactory(0)
    }

    /// A handle with the current value; the value then moves on by one.
    pub fn next(&mut self) -> (r: ExpireHandle)
        requires
            old(self).next_value() < u64::MAX,
        ensures
            r.value() == old(self).next_value(),
            final(self).next_value() == old(self).next_value() + 1,
    {
        let handle = ExpireHandle::new(self.0);
        self.0 = self.0 + 1;
        handle
    }
}

} // verus!

verus! {

/// Handles come out in increasing order, so no two are alike: after a handle
/// with value `v` is handed out, every later one has a larger value.
pub proof fn handles_increase(first: ExpireHandle, factory_after: ExpireHandleFactory, later: ExpireHandle)
    requires
        factory_after.next_value() == first.value() + 1,
        later.value() >= factory_after.next_value(),
    ensures
        later.value() > first.value(),
        later != first,
{
}

} // verus!
