use vstd::prelude::*;
use std::task::Waker;

verus! {

/// The channel a poll is made on, with the wakers to use for it.
pub struct SourceContext {
    pub channel: usize,
    pub one_channel_waker: Waker,
    pub all_channel_waker: Waker,
}

impl SourceContext {
    pub fn change_channel(&mut self, new_channel: usize)
        ensures
            final(self).channel == new_channel,
            final(self).one_channel_waker == old(self).one_channel_waker,
            final(self).all_channel_waker == old(self).all_channel_waker,
    {
        self.channel = new_channel;
    }
}

} // verus!
