use vstd::prelude::*;

verus! {

/// The types that a transposer works with. A transposer is a user's state
/// machine: it takes inputs, schedules events for itself, and emits outputs;
/// the engine replays it from saved frames when earlier inputs arrive.
pub trait Transposer {
    /// The inputs the transposer handles.
    type Input;
    /// The state of the input source that the transposer may ask for.
    type InputState;
    /// The payload of the events the transposer schedules for itself.
    type Scheduled;
    /// The events the transposer emits.
    type Output;
    /// The state the transposer reports when interpolated.
    type OutputState;

    /// Whether the transposer takes `event` at `time`, as a spec function:
    /// what `can_handle` answers. Every input is taken unless the transposer
    /// says otherwise.
    open spec fn handles_input(time: u64, event: Self::Input) -> bool {
        true
    }

    /// Whether the transposer takes `event` at `time`; an input it does not
    /// take is dropped before it reaches the input buffer. The transposer's
    /// author implements it, and what it answers is `handles_input`.
    fn can_handle(time: u64, event: &Self::Input) -> (r: bool)
        ensures
            r == Self::handles_input(time, *event),
    ;
}

} // verus!
