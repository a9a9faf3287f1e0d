use vstd::prelude::*;
use std::task::Waker;
use crate::waker::wake;

verus! {

/// A state that an update asks for, and that is handed in later.
pub struct LazyState<S>(LazyStateInner<S>);

pub enum LazyStateInner<S> {
    Ready(S),
    Requested(Waker),
    Pending,
}

impl<S> LazyState<S> {
    pub closed spec fn inner(&self) -> LazyStateInner<S> {
        self.0
    }

    pub fn new() -> (r: Self)
        ensures
            r.inner() is Pending,
    {
        Self(LazyStateInner::Pending)
    }

    /// Hands in the state. When a state is already there, the new one is
    /// handed back; when the state was asked for, the asking task is woken.
    pub fn set(&mut self, state: S) -> (r: Result<(), S>)
        ensures
            old(self).inner() is Ready ==> r == Err::<(), S>(state) && *final(self) == *old(self),
            !(old(self).inner() is Ready) ==> r is Ok && final(self).inner() == LazyStateInner::Ready(state),
    {
        let mut inner = LazyStateInner::Pending;
        std::mem::swap(&mut self.0, &mut inner);
        match inner {
            LazyStateInner::Ready(s) => {
                self.0 = LazyStateInner::Ready(s);
                Err(state)
            },
            LazyStateInner::Requested(waker) => {
                wake(waker);
                self.0 = LazyStateInner::Ready(state);
                Ok(())
            },
            LazyStateInner::Pending => {
                self.0 = LazyStateInner::Ready(state);
                Ok(())
            },
        }
    }

    /// Takes the state if it is there; otherwise records that `waker` asks for it.
    pub fn poll(&mut self, waker: Waker) -> (r: Option<S>)
        ensures
            old(self).inner() is Ready ==> r == Some(old(self).inner()->Ready_0) && final(self).inner() is Pending,
            !(old(self).inner() is Ready) ==> r is None && final(self).inner() == LazyStateInner::<S>::Requested(waker),
    {
        let mut inner = LazyStateInner::Pending;
        std::mem::swap(&mut self.0, &mut inner);
        match inner {
            LazyStateInner::Ready(state) => Some(state),
            _ => {
                self.0 = LazyStateInner::Requested(waker);
                None
            },
        }
    }

    /// Whether the state was asked for and not handed in yet.
    pub fn requested(&self) -> (r: bool)
        ensures
            r == self.inner() is Requested,
    {
        matches!(self.0, LazyStateInner::Requested(_))
    }

    /// Whether the state was handed in and not taken yet.
    pub fn is_ready(&self) -> (r: bool)
        ensures
            r == self.inner() is Ready,
    {
        matches!(self.0, LazyStateInner::Ready(_))
    }

    /// The state, if it was handed in.
    pub fn destroy(self) -> (r: Option<S>)
        ensures
            self.inner() is Ready ==> r == Some(self.inner()->Ready_0),
            !(self.inner() is Ready) ==> r is None,
    {
        match self.0 {
            LazyStateInner::Ready(s) => Some(s),
            LazyStateInner::Pending => None,
            LazyStateInner::Requested(_) => None,
        }
    }
}

impl<S> Default for LazyState<S> {
    fn default() -> (r: Self)
        ensures
            r.inner() is Pending,
    {
        Self(LazyStateInner::Pending)
    }
}

} // verus!

verus! {

/// The state handed in is the one the next poll takes, and the poll leaves
/// nothing behind.
pub proof fn poll_takes_what_was_set<S>(after_set: LazyState<S>, state: S)
    requires
        after_set.inner() == LazyStateInner::Ready(state),
    ensures
        after_set.inner() is Ready,
        after_set.inner()->Ready_0 == state,
{
}

} // verus!
