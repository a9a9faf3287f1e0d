use vstd::prelude::*;

verus! {

/// What a poll of a source reports when it succeeds.
pub enum SourcePollOk<T, E, S> {
    /// Indicates all events at or after time T, and all states returned on any
    /// channel at or after time T from poll (not poll_forget) should be discarded.
    Rollback(T),
    /// Indicates an unprocessed event is available at or before poll_time.
    Event(E, T),
    /// Indicates no rollback will ever be returned before or at time T.
    Finalize(T),
    /// Indicates all event information up to poll_time is up to date, and
    /// returns state; the caller may be woken again until polled at or after T.
    Scheduled(S, T),
    /// Indicates all event information up to poll_time is up to date, and
    /// returns state.
    Ready(S),
}

impl<T, E, S> SourcePollOk<T, E, S> {
    /// The same answer with the state left out.
    pub fn supress_state(self) -> (r: SourcePollOk<T, E, ()>)
        ensures
            match self {
                SourcePollOk::Rollback(t) => r == SourcePollOk::<T, E, ()>::Rollback(t),
                SourcePollOk::Event(e, t) => r == SourcePollOk::<T, E, ()>::Event(e, t),
                SourcePollOk::Finalize(t) => r == SourcePollOk::<T, E, ()>::Finalize(t),
                SourcePollOk::Scheduled(_, t) => r == SourcePollOk::<T, E, ()>::Scheduled((), t),
                SourcePollOk::Ready(_) => r == SourcePollOk::<T, E, ()>::Ready(()),
            },
    {
        match self {
            SourcePollOk::Rollback(t) => SourcePollOk::Rollback(t),
            SourcePollOk::Event(e, t) => SourcePollOk::Event(e, t),
            SourcePollOk::Finalize(t) => SourcePollOk::Finalize(t),
            SourcePollOk::Scheduled(_, t) => SourcePollOk::Scheduled((), t),
            SourcePollOk::Ready(_) => SourcePollOk::Ready(()),
        }
    }
}

/// Why a poll of a source failed.
#[non_exhaustive]
pub enum SourcePollErr<T, Error> {
    OutOfBoundsChannel,
    PollAfterAdvance { advanced: T },
    PollBeforeDefault,
    SpecificError(Error),
}

} // verus!
