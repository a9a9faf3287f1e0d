use vstd::prelude::*;
use std::task::Waker;
use crate::engine_time::{EngineTime, EngineTimeSchedule};
use crate::expire_handle::ExpireHandle;
use crate::frame::{key_tuple, put_key, Frame};
use crate::lazy_state::{LazyState, LazyStateInner};
use crate::transposer::Transposer;

verus! {

/// What an update hands back when it completes: the frame it worked on, the
/// outputs it emitted, and its argument.
pub struct UpdateResult<T: Transposer, A> {
    pub frame: Box<Frame<T>>,
    pub outputs: Vec<T::Output>,
    pub arg: A,
}

/// An update of a frame by the transposer (its init, an input, or a scheduled
/// event). The transposer's handler itself runs outside this library; the
/// update holds what the handler works on and what it produces.
pub struct FrameUpdate<T: Transposer, A> {
    inner: FrameUpdateInner<T, A>,
}

/// The phases of an update.
pub enum FrameUpdatePhase {
    /// Built, not polled yet.
    Unpollable,
    /// Running.
    Pollable,
    /// Completed or reclaimed.
    Terminated,
}

enum FrameUpdateInner<T: Transposer, A> {
    Unpollable {
        frame: Box<Frame<T>>,
        args: A,
        time: EngineTime,
    },
    Pollable {
        frame: Box<Frame<T>>,
        args: A,
        time: EngineTime,
        input_state: LazyState<T::InputState>,
        outputs: Vec<T::Output>,
        emission_index: usize,
    },
    Terminated,
}

/// Why the handler could not schedule an event.
#[derive(Clone, Copy, Debug, PartialEq, Eq, Structural)]
pub enum ScheduleEventError {
    /// The event would come before the update that schedules it.
    NewEventBeforeCurrent,
}

impl<T: Transposer, A> FrameUpdate<T, A> {
    pub closed spec fn phase(&self) -> FrameUpdatePhase {
        match self.inner {
            FrameUpdateInner::Unpollable { .. } => FrameUpdatePhase::Unpollable,
            FrameUpdateInner::Pollable { .. } => FrameUpdatePhase::Pollable,
            FrameUpdateInner::Terminated => FrameUpdatePhase::Terminated,
        }
    }

    /// The argument the update was built with (meaningless once terminated).
    pub closed spec fn args(&self) -> A {
        match self.inner {
            FrameUpdateInner::Unpollable { args, .. } => args,
            FrameUpdateInner::Pollable { args, .. } => args,
            FrameUpdateInner::Terminated => arbitrary(),
        }
    }

    /// The frame the update works on (meaningless once terminated).
    pub closed spec fn frame(&self) -> Box<Frame<T>> {
        match self.inner {
            FrameUpdateInner::Unpollable { frame, .. } => frame,
            FrameUpdateInner::Pollable { frame, .. } => frame,
            FrameUpdateInner::Terminated => arbitrary(),
        }
    }

    /// The outputs emitted so far.
    pub closed spec fn outputs(&self) -> Seq<T::Output> {
        match self.inner {
            FrameUpdateInner::Pollable { outputs, .. } => outputs@,
            _ => Seq::empty(),
        }
    }

    /// The time of the update (meaningless once terminated).
    pub closed spec fn time(&self) -> EngineTime {
        match self.inner {
            FrameUpdateInner::Unpollable { time, .. } => time,
            FrameUpdateInner::Pollable { time, .. } => time,
            FrameUpdateInner::Terminated => arbitrary(),
        }
    }

    /// How many events the handler scheduled so far: the emission index of
    /// the next one.
    pub closed spec fn emission_index(&self) -> usize {
        match self.inner {
            FrameUpdateInner::Pollable { emission_index, .. } => emission_index,
            _ => 0,
        }
    }

    /// The input state slot of a running update: handed in, asked for, or
    /// neither (always neither before the update runs).
    pub closed spec fn input_state(&self) -> LazyStateInner<T::InputState> {
        match self.inner {
            FrameUpdateInner::Pollable { input_state, .. } => input_state.inner(),
            _ => LazyStateInner::Pending,
        }
    }

    /// The handler asked for the input state and was not handed it yet.
    pub open spec fn state_requested(&self) -> bool {
        self.input_state() is Requested
    }

    pub fn new(frame: Box<Frame<T>>, arg: A, time: EngineTime) -> (r: Self)
        ensures
            r.phase() is Unpollable,
            r.frame() == frame,
            r.args() == arg,
            r.time() == time,
            r.outputs().len() == 0,
            r.input_state() is Pending,
            r.emission_index() == 0,
    {
        Self { inner: FrameUpdateInner::Unpollable { frame, args: arg, time } }
    }

    /// The argument, for the handler to read while the update is not
    /// terminated.
    pub fn arg(&self) -> (r: Option<&A>)
        ensures
            self.phase() is Terminated ==> r is None,
            !(self.phase() is Terminated) ==> r == Some(&self.args()),
    {
        match &self.inner {
            FrameUpdateInner::Unpollable { args, .. } => Some(args),
            FrameUpdateInner::Pollable { args, .. } => Some(args),
            FrameUpdateInner::Terminated => None,
        }
    }

    /// Takes the argument back, ending the update.
    pub fn reclaim(&mut self) -> (r: A)
        requires
            !(old(self).phase() is Terminated),
        ensures
            r == old(self).args(),
            final(self).phase() is Terminated,
    {
        let mut inner = FrameUpdateInner::Terminated;
        std::mem::swap(&mut self.inner, &mut inner);
        match inner {
            FrameUpdateInner::Unpollable { args, .. } => args,
            FrameUpdateInner::Pollable { args, .. } => args,
            FrameUpdateInner::Terminated => vstd::pervasive::unreached(),
        }
    }

    /// Whether the handler waits for the input state.
    pub fn needs_input_state(&self) -> (r: Result<bool, ()>)
        ensures
            self.phase() is Terminated ==> r is Err,
            !(self.phase() is Terminated) ==> r == Ok::<bool, ()>(self.state_requested()),
    {
        match &self.inner {
            FrameUpdateInner::Unpollable { .. } => Ok(false),
            FrameUpdateInner::Pollable { input_state, .. } => Ok(input_state.requested()),
            FrameUpdateInner::Terminated => Err(()),
        }
    }

    /// Hands the input state to the running handler.
    pub fn set_input_state(&mut self, state: T::InputState) -> (r: Result<(), T::InputState>)
        ensures
            final(self).phase() == old(self).phase(),
            final(self).args() == old(self).args(),
            final(self).frame() == old(self).frame(),
            final(self).time() == old(self).time(),
            final(self).emission_index() == old(self).emission_index(),
            final(self).outputs() == old(self).outputs(),
            !(old(self).phase() is Pollable) ==> r == Err::<(), T::InputState>(state) && *final(self) == *old(self),
            old(self).phase() is Pollable && old(self).input_state() is Ready ==> r == Err::<(), T::InputState>(state)
                && final(self).input_state() == old(self).input_state(),
            old(self).phase() is Pollable && !(old(self).input_state() is Ready) ==> r is Ok
                && final(self).input_state() == LazyStateInner::Ready(state),
            r is Ok ==> !final(self).state_requested(),
    {
        match &mut self.inner {
            FrameUpdateInner::Pollable { input_state, .. } => input_state.set(state),
            _ => Err(state),
        }
    }

    /// Starts the update: the handler may now run.
    pub fn start(&mut self)
        ensures
            old(self).phase() is Unpollable ==> final(self).phase() is Pollable && final(self).outputs().len() == 0
                && !final(self).state_requested() && final(self).input_state() is Pending,
            !(old(self).phase() is Unpollable) ==> *final(self) == *old(self),
            final(self).args() == old(self).args(),
            final(self).frame() == old(self).frame(),
            final(self).time() == old(self).time(),
            final(self).emission_index() == old(self).emission_index(),
            final(self).input_state() == old(self).input_state(),
    {
        let mut inner = FrameUpdateInner::Terminated;
        std::mem::swap(&mut self.inner, &mut inner);
        self.inner = match inner {
            FrameUpdateInner::Unpollable { frame, args, time } => FrameUpdateInner::Pollable {
                frame,
                args,
                time,
                input_state: LazyState::new(),
                outputs: Vec::new(),
                emission_index: 0,
            },
            other => other,
        };
    }

    /// The running handler asks for the input state; it gets it if it was
    /// handed in, and `waker` is kept to be woken when it is.
    pub fn request_input_state(&mut self, waker: Waker) -> (r: Option<T::InputState>)
        ensures
            final(self).phase() == old(self).phase(),
            final(self).args() == old(self).args(),
            final(self).frame() == old(self).frame(),
            final(self).time() == old(self).time(),
            final(self).emission_index() == old(self).emission_index(),
            final(self).outputs() == old(self).outputs(),
            !(old(self).phase() is Pollable) ==> r is None && *final(self) == *old(self),
            old(self).phase() is Pollable && old(self).input_state() is Ready ==> r == Some(
                old(self).input_state()->Ready_0,
            ) && final(self).input_state() is Pending,
            old(self).phase() is Pollable && !(old(self).input_state() is Ready) ==> r is None
                && final(self).input_state() == LazyStateInner::<T::InputState>::Requested(waker),
            r is None && old(self).phase() is Pollable ==> final(self).state_requested(),
    {
        match &mut self.inner {
            FrameUpdateInner::Pollable { input_state, .. } => input_state.poll(waker),
            _ => None,
        }
    }

    /// The running handler emits an output.
    pub fn emit(&mut self, output: T::Output)
        ensures
            final(self).phase() == old(self).phase(),
            final(self).args() == old(self).args(),
            final(self).frame() == old(self).frame(),
            final(self).time() == old(self).time(),
            final(self).emission_index() == old(self).emission_index(),
            final(self).state_requested() == old(self).state_requested(),
            final(self).input_state() == old(self).input_state(),
            old(self).phase() is Pollable ==> final(self).outputs() == old(self).outputs().push(output),
    {
        match &mut self.inner {
            FrameUpdateInner::Pollable { outputs, .. } => outputs.push(output),
            _ => {},
        }
    }

    /// The running handler schedules `payload` at `time`, which may not come
    /// before the update's own time. The event is keyed by the update's index
    /// and by the order in which the handler scheduled it. The update is
    /// started if it was not yet.
    pub fn schedule_event(&mut self, time: u64, payload: T::Scheduled) -> (r: Result<(), ScheduleEventError>)
        requires
            !(old(self).phase() is Terminated),
            old(self).frame().wf(),
            old(self).emission_index() < usize::MAX,
        ensures
            final(self).phase() is Pollable,
            final(self).args() == old(self).args(),
            final(self).time() == old(self).time(),
            final(self).outputs() == old(self).outputs(),
            old(self).phase() is Pollable ==> final(self).state_requested() == old(self).state_requested()
                && final(self).input_state() == old(self).input_state(),
            !(old(self).phase() is Pollable) ==> final(self).input_state() is Pending,
            final(self).frame().wf(),
            final(self).frame().transposer == old(self).frame().transposer,
            time < old(self).time().spec_time() ==> r == Err::<(), ScheduleEventError>(
                ScheduleEventError::NewEventBeforeCurrent,
            ) && final(self).frame() == old(self).frame() && final(self).emission_index() == old(self).emission_index(),
            time >= old(self).time().spec_time() ==> {
                let key = EngineTimeSchedule {
                    time,
                    parent_index: old(self).time().spec_index(),
                    emission_index: old(self).emission_index(),
                };
                let before = old(self).frame().metadata;
                let after = final(self).frame().metadata;
                &&& r is Ok
                &&& after.schedule() == put_key(before.schedule(), key, payload)
                &&& after.handles() == before.handles()
                &&& after.handles_by_event() == before.handles_by_event()
                &&& after.next_handle() == before.next_handle()
                &&& final(self).emission_index() == old(self).emission_index() + 1
            },
    {
        self.start();
        match &mut self.inner {
            FrameUpdateInner::Pollable { frame, time: now, emission_index, .. } => {
                if time < now.raw_time() {
                    return Err(ScheduleEventError::NewEventBeforeCurrent);
                }
                let key = now.spawn_scheduled(time, *emission_index);
                frame.metadata.schedule_event(key, payload);
                *emission_index = *emission_index + 1;
                Ok(())
            },
            _ => vstd::pervasive::unreached(),
        }
    }

    /// Whether the input state was handed in and not taken yet.
    pub fn has_input_state(&self) -> (r: bool)
        ensures
            r == self.input_state() is Ready,
    {
        match &self.inner {
            FrameUpdateInner::Pollable { input_state, .. } => input_state.is_ready(),
            _ => false,
        }
    }

    /// Whether an expireable event at `time` can be scheduled now: no live
    /// handle names the key the next scheduled event gets.
    pub fn can_schedule_expireable(&self, time: u64) -> (r: bool)
        requires
            !(self.phase() is Terminated),
        ensures
            r == !self.frame().metadata.handles_by_event().contains_key(
                (time, self.time().spec_index(), self.emission_index()),
            ),
    {
        match &self.inner {
            FrameUpdateInner::Unpollable { frame, time: now, .. } => {
                let key = now.spawn_scheduled(time, 0);
                !frame.metadata.has_handle_for(&key)
            },
            FrameUpdateInner::Pollable { frame, time: now, emission_index, .. } => {
                let key = now.spawn_scheduled(time, *emission_index);
                !frame.metadata.has_handle_for(&key)
            },
            FrameUpdateInner::Terminated => vstd::pervasive::unreached(),
        }
    }

    /// Like `schedule_event`, and hands out a handle that can expire the
    /// event.
    pub fn schedule_event_expireable(&mut self, time: u64, payload: T::Scheduled) -> (r: Result<
        ExpireHandle,
        ScheduleEventError,
    >)
        requires
            !(old(self).phase() is Terminated),
            old(self).frame().wf(),
            old(self).emission_index() < usize::MAX,
            old(self).frame().metadata.next_handle() < u64::MAX,
            !old(self).frame().metadata.handles_by_event().contains_key(
                (time, old(self).time().spec_index(), old(self).emission_index()),
            ),
        ensures
            final(self).phase() is Pollable,
            final(self).args() == old(self).args(),
            final(self).time() == old(self).time(),
            final(self).outputs() == old(self).outputs(),
            old(self).phase() is Pollable ==> final(self).state_requested() == old(self).state_requested()
                && final(self).input_state() == old(self).input_state(),
            !(old(self).phase() is Pollable) ==> final(self).input_state() is Pending,
            final(self).frame().wf(),
            final(self).frame().transposer == old(self).frame().transposer,
            time < old(self).time().spec_time() ==> r == Err::<ExpireHandle, ScheduleEventError>(
                ScheduleEventError::NewEventBeforeCurrent,
            ) && final(self).frame() == old(self).frame() && final(self).emission_index() == old(self).emission_index(),
            time >= old(self).time().spec_time() ==> {
                let key = EngineTimeSchedule {
                    time,
                    parent_index: old(self).time().spec_index(),
                    emission_index: old(self).emission_index(),
                };
                let before = old(self).frame().metadata;
                let after = final(self).frame().metadata;
                &&& r is Ok
                &&& r->Ok_0.value() == before.next_handle()
                &&& after.schedule() == put_key(before.schedule(), key, payload)
                &&& after.handles() == before.handles().insert(r->Ok_0.value(), key_tuple(key))
                &&& after.handles_by_event() == before.handles_by_event().insert(key_tuple(key), r->Ok_0.value())
                &&& after.next_handle() == before.next_handle() + 1
                &&& final(self).emission_index() == old(self).emission_index() + 1
            },
    {
        self.start();
        match &mut self.inner {
            FrameUpdateInner::Pollable { frame, time: now, emission_index, .. } => {
                if time < now.raw_time() {
                    return Err(ScheduleEventError::NewEventBeforeCurrent);
                }
                let key = now.spawn_scheduled(time, *emission_index);
                let handle = frame.metadata.schedule_event_expireable(key, payload);
                *emission_index = *emission_index + 1;
                Ok(handle)
            },
            _ => vstd::pervasive::unreached(),
        }
    }

    /// The frame, for the handler to work on while the update runs.
    pub fn frame_mut(&mut self) -> (r: Option<&mut Box<Frame<T>>>)
        ensures
            old(self).phase() is Pollable ==> r is Some && *r->0 == old(self).frame()
                && final(self).frame() == *final(r->0),
            !(old(self).phase() is Pollable) ==> r is None && *final(self) == *old(self),
            final(self).phase() == old(self).phase(),
            final(self).args() == old(self).args(),
            final(self).time() == old(self).time(),
            final(self).emission_index() == old(self).emission_index(),
            final(self).outputs() == old(self).outputs(),
            final(self).state_requested() == old(self).state_requested(),
            final(self).input_state() == old(self).input_state(),
    {
        match &mut self.inner {
            FrameUpdateInner::Pollable { frame, .. } => Some(frame),
            _ => None,
        }
    }

    /// The handler completed: the update ends and hands back its frame,
    /// outputs and argument.
    pub fn complete(&mut self) -> (r: Option<UpdateResult<T, A>>)
        ensures
            old(self).phase() is Pollable ==> final(self).phase() is Terminated && r is Some
                && r->0.frame == old(self).frame() && r->0.outputs@ == old(self).outputs()
                && r->0.arg == old(self).args(),
            !(old(self).phase() is Pollable) ==> r is None && *final(self) == *old(self),
    {
        let mut inner = FrameUpdateInner::Terminated;
        std::mem::swap(&mut self.inner, &mut inner);
        match inner {
            FrameUpdateInner::Pollable { frame, args, outputs, .. } => Some(UpdateResult { frame, outputs, arg: args }),
            other => {
                self.inner = other;
                None
            },
        }
    }
}

} // verus!
