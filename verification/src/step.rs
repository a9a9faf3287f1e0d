use vstd::prelude::*;
use crate::engine_time::EngineTime;
use crate::engine_time::EngineTimeSchedule;
use crate::expire_handle::ExpireHandle;
use crate::frame::{chacha12_seeded, frame_cloned, key_tuple, put_key, Frame};
use crate::frame_update::{FrameUpdate, ScheduleEventError, UpdateResult};
use crate::input_buffer::InputBuffer;
use crate::lazy_state::LazyStateInner;
use std::task::Waker;
use crate::transposer::Transposer;

verus! {

/// What polling a saturating step reports.
pub enum SequenceFramePoll<O> {
    Pending,
    NeedsState,
    ReadyNoOutputs,
    ReadyOutputs(Vec<O>),
}

/// Whether the step emitted outputs when it last saturated.
#[derive(Clone, Copy, Debug, PartialEq, Eq, Structural)]
pub enum OutputsEmitted {
    Pending,
    NoOutputs,
    SomeOutputs,
}

impl OutputsEmitted {
    pub fn is_some(&self) -> (r: bool)
        ensures
            r == (*self == OutputsEmitted::SomeOutputs),
    {
        matches!(self, OutputsEmitted::SomeOutputs)
    }
}

/// The state of a step, without its payload. An original step runs for the
/// first time and may emit outputs; a repeat step reruns an update whose
/// outputs were already emitted.
#[derive(Clone, Copy, Debug, PartialEq, Eq, Structural)]
pub enum StepState {
    UnsaturatedInit,
    OriginalUnsaturatedInput,
    OriginalUnsaturatedScheduled,
    RepeatUnsaturatedInput,
    RepeatUnsaturatedScheduled,
    SaturatingInit,
    OriginalSaturatingInput,
    OriginalSaturatingScheduled,
    RepeatSaturatingInput,
    RepeatSaturatingScheduled,
    SaturatedInit,
    SaturatedInput,
    SaturatedScheduled,
}

impl StepState {
    pub open spec fn is_unsaturated(self) -> bool {
        ||| self == StepState::OriginalUnsaturatedInput
        ||| self == StepState::OriginalUnsaturatedScheduled
        ||| self == StepState::RepeatUnsaturatedInput
        ||| self == StepState::RepeatUnsaturatedScheduled
    }

    pub open spec fn is_saturating(self) -> bool {
        ||| self == StepState::SaturatingInit
        ||| self == StepState::OriginalSaturatingInput
        ||| self == StepState::OriginalSaturatingScheduled
        ||| self == StepState::RepeatSaturatingInput
        ||| self == StepState::RepeatSaturatingScheduled
    }

    pub open spec fn is_saturated(self) -> bool {
        ||| self == StepState::SaturatedInit
        ||| self == StepState::SaturatedInput
        ||| self == StepState::SaturatedScheduled
    }

    /// A saturated step whose frame another step may take.
    pub open spec fn can_be_taken(self) -> bool {
        self == StepState::SaturatedInput || self == StepState::SaturatedScheduled
    }

    /// The state a step saturates into from this unsaturated one.
    pub open spec fn saturating(self) -> StepState {
        match self {
            StepState::OriginalUnsaturatedInput => StepState::OriginalSaturatingInput,
            StepState::OriginalUnsaturatedScheduled => StepState::OriginalSaturatingScheduled,
            StepState::RepeatUnsaturatedInput => StepState::RepeatSaturatingInput,
            _ => StepState::RepeatSaturatingScheduled,
        }
    }

    /// The state a saturating step reaches when its update completes.
    pub open spec fn saturated(self) -> StepState {
        match self {
            StepState::SaturatingInit => StepState::SaturatedInit,
            StepState::OriginalSaturatingInput => StepState::SaturatedInput,
            StepState::RepeatSaturatingInput => StepState::SaturatedInput,
            _ => StepState::SaturatedScheduled,
        }
    }

    /// The state a step goes back to when it is desaturated (a running init
    /// update cannot be).
    pub open spec fn desaturated(self) -> StepState {
        match self {
            StepState::OriginalSaturatingInput => StepState::OriginalUnsaturatedInput,
            StepState::RepeatSaturatingInput => StepState::RepeatUnsaturatedInput,
            StepState::OriginalSaturatingScheduled => StepState::OriginalUnsaturatedScheduled,
            StepState::RepeatSaturatingScheduled => StepState::RepeatUnsaturatedScheduled,
            StepState::SaturatedInit => StepState::UnsaturatedInit,
            StepState::SaturatedInput => StepState::RepeatUnsaturatedInput,
            StepState::SaturatedScheduled => StepState::RepeatUnsaturatedScheduled,
            other => other,
        }
    }

    /// The original states of a step: it has not emitted its outputs yet.
    pub open spec fn is_original(self) -> bool {
        ||| self == StepState::OriginalUnsaturatedInput
        ||| self == StepState::OriginalUnsaturatedScheduled
        ||| self == StepState::SaturatingInit
        ||| self == StepState::OriginalSaturatingInput
        ||| self == StepState::OriginalSaturatingScheduled
    }
}

/// The states of a step that handles a scheduled event.
pub open spec fn handles_scheduled(st: StepState) -> bool {
    ||| st == StepState::OriginalUnsaturatedScheduled
    ||| st == StepState::RepeatUnsaturatedScheduled
    ||| st == StepState::OriginalSaturatingScheduled
    ||| st == StepState::RepeatSaturatingScheduled
    ||| st == StepState::SaturatedScheduled
}

/// `after` is `before` with its first scheduled event taken off (or
/// `before` itself when nothing is scheduled).
pub open spec fn event_taken<T: Transposer>(before: Frame<T>, after: Frame<T>) -> bool {
    &&& after.transposer == before.transposer
    &&& before.metadata.schedule().len() > 0 ==> after.metadata.schedule() == before.metadata.schedule().drop_first()
    &&& before.metadata.schedule().len() == 0 ==> after == before
}

/// The frame a step starting from state `st` runs on, given the frame it
/// was handed: the same frame, or for a scheduled step, the frame without the
/// event it handles.
pub open spec fn started_on<T: Transposer>(st: StepState, handed: Frame<T>, running: Frame<T>) -> bool {
    if handles_scheduled(st) {
        event_taken(handed, running)
    } else {
        running == handed
    }
}

/// `after` and `r` are what `poll` makes of `before` given what the handler
/// did (`completed`), as far as the result and the record of emitted outputs
/// go.
pub open spec fn step_polled<T: Transposer>(
    before: Step<T>,
    completed: Option<Vec<T::Output>>,
    after: Step<T>,
    r: Result<SequenceFramePoll<T::Output>, ()>,
) -> bool {
    &&& !before.state().is_saturating() ==> r is Err && after == before
    &&& before.state().is_saturating() && completed is None ==> {
        &&& r is Ok
        &&& r->Ok_0 is Pending || r->Ok_0 is NeedsState
        &&& after.state() == before.state()
        &&& after.outputs_emitted() == before.outputs_emitted()
    }
    &&& before.state().is_saturating() && completed is Some ==> {
        let outputs = completed->Some_0@;
        &&& r is Ok
        &&& after.state() == before.state().saturated()
        &&& before.state().is_original() && outputs.len() > 0 ==> r->Ok_0 is ReadyOutputs
            && r->Ok_0->ReadyOutputs_0@ == outputs && after.outputs_emitted() == OutputsEmitted::SomeOutputs
        &&& before.state().is_original() && outputs.len() == 0 ==> r->Ok_0 is ReadyNoOutputs
            && after.outputs_emitted() == OutputsEmitted::NoOutputs
        &&& !before.state().is_original() ==> r->Ok_0 is ReadyNoOutputs
            && after.outputs_emitted() == before.outputs_emitted()
    }
}

/// `s` is the init step of `transposer` seeded with `rng_seed`: its update
/// is about to run on a fresh frame that holds the transposer, nothing
/// scheduled, no handles, and the generator made from the seed.
pub open spec fn is_init_step<T: Transposer>(s: Step<T>, transposer: T, rng_seed: [u8; 32]) -> bool {
    &&& s.wf()
    &&& s.state() == StepState::SaturatingInit
    &&& s.spec_time().spec_index() == 0
    &&& s.spec_time().spec_time() == 0
    &&& s.outputs_emitted() == OutputsEmitted::Pending
    &&& s.input_state() is Pending
    &&& s.emission_index() == 0
    &&& s.frame().transposer == transposer
    &&& s.frame().wf()
    &&& s.frame().metadata.schedule().len() == 0
    &&& s.frame().metadata.handles() == Map::<u64, (u64, usize, usize)>::empty()
    &&& s.frame().metadata.handles_by_event() == Map::<(u64, usize, usize), u64>::empty()
    &&& s.frame().metadata.next_handle() == 0
    &&& s.frame().metadata.generator() == chacha12_seeded(rng_seed)
}

#[allow(inconsistent_fields)]
enum StepInner<T: Transposer> {
    // notably this can never be rehydrated because you need the preceding frame
    // and there isn't one, because this is init.
    UnsaturatedInit,
    OriginalUnsaturatedInput { inputs: Box<[T::Input]> },
    OriginalUnsaturatedScheduled,
    RepeatUnsaturatedInput { inputs: Box<[T::Input]> },
    RepeatUnsaturatedScheduled,
    SaturatingInit { update: FrameUpdate<T, ()> },
    OriginalSaturatingInput { update: FrameUpdate<T, Box<[T::Input]>> },
    OriginalSaturatingScheduled { update: FrameUpdate<T, Option<T::Scheduled>> },
    RepeatSaturatingInput { update: FrameUpdate<T, Box<[T::Input]>> },
    RepeatSaturatingScheduled { update: FrameUpdate<T, Option<T::Scheduled>> },
    SaturatedInit { frame: Box<Frame<T>> },
    SaturatedInput { inputs: Box<[T::Input]>, frame: Box<Frame<T>> },
    SaturatedScheduled { frame: Box<Frame<T>> },
}

/// One update of the transposer at one time: the inputs or the scheduled event
/// it handles, and, once it ran, the frame it produced.
pub struct Step<T: Transposer> {
    time: EngineTime,
    inner: StepInner<T>,
    outputs_emitted: OutputsEmitted,
}

impl<T: Transposer> Step<T> {
    pub closed spec fn state(&self) -> StepState {
        match self.inner {
            StepInner::UnsaturatedInit => StepState::UnsaturatedInit,
            StepInner::OriginalUnsaturatedInput { .. } => StepState::OriginalUnsaturatedInput,
            StepInner::OriginalUnsaturatedScheduled => StepState::OriginalUnsaturatedScheduled,
            StepInner::RepeatUnsaturatedInput { .. } => StepState::RepeatUnsaturatedInput,
            StepInner::RepeatUnsaturatedScheduled => StepState::RepeatUnsaturatedScheduled,
            StepInner::SaturatingInit { .. } => StepState::SaturatingInit,
            StepInner::OriginalSaturatingInput { .. } => StepState::OriginalSaturatingInput,
            StepInner::OriginalSaturatingScheduled { .. } => StepState::OriginalSaturatingScheduled,
            StepInner::RepeatSaturatingInput { .. } => StepState::RepeatSaturatingInput,
            StepInner::RepeatSaturatingScheduled { .. } => StepState::RepeatSaturatingScheduled,
            StepInner::SaturatedInit { .. } => StepState::SaturatedInit,
            StepInner::SaturatedInput { .. } => StepState::SaturatedInput,
            StepInner::SaturatedScheduled { .. } => StepState::SaturatedScheduled,
        }
    }

    pub closed spec fn spec_time(&self) -> EngineTime {
        self.time
    }

    /// The frame of a saturated step, or the frame a saturating step's update
    /// works on.
    pub closed spec fn frame(&self) -> Box<Frame<T>> {
        match self.inner {
            StepInner::SaturatingInit { update } => update.frame(),
            StepInner::OriginalSaturatingInput { update } => update.frame(),
            StepInner::OriginalSaturatingScheduled { update } => update.frame(),
            StepInner::RepeatSaturatingInput { update } => update.frame(),
            StepInner::RepeatSaturatingScheduled { update } => update.frame(),
            StepInner::SaturatedInit { frame } => frame,
            StepInner::SaturatedInput { frame, .. } => frame,
            StepInner::SaturatedScheduled { frame } => frame,
            _ => arbitrary(),
        }
    }

    /// The inputs an input step handles.
    pub closed spec fn inputs(&self) -> Seq<T::Input> {
        match self.inner {
            StepInner::OriginalUnsaturatedInput { inputs } => inputs@,
            StepInner::RepeatUnsaturatedInput { inputs } => inputs@,
            StepInner::OriginalSaturatingInput { update } => update.args()@,
            StepInner::RepeatSaturatingInput { update } => update.args()@,
            StepInner::SaturatedInput { inputs, .. } => inputs@,
            _ => Seq::empty(),
        }
    }

    /// The payload of the event a running scheduled step handles.
    pub closed spec fn payload(&self) -> Option<T::Scheduled> {
        match self.inner {
            StepInner::OriginalSaturatingScheduled { update } => update.args(),
            StepInner::RepeatSaturatingScheduled { update } => update.args(),
            _ => None,
        }
    }

    /// The input state slot of the running update (neither handed in nor
    /// asked for when the step is not running).
    pub closed spec fn input_state(&self) -> LazyStateInner<T::InputState> {
        match self.inner {
            StepInner::SaturatingInit { update } => update.input_state(),
            StepInner::OriginalSaturatingInput { update } => update.input_state(),
            StepInner::OriginalSaturatingScheduled { update } => update.input_state(),
            StepInner::RepeatSaturatingInput { update } => update.input_state(),
            StepInner::RepeatSaturatingScheduled { update } => update.input_state(),
            _ => LazyStateInner::Pending,
        }
    }

    /// How many events the running update's handler scheduled so far.
    pub closed spec fn emission_index(&self) -> usize {
        match self.inner {
            StepInner::SaturatingInit { update } => update.emission_index(),
            StepInner::OriginalSaturatingInput { update } => update.emission_index(),
            StepInner::OriginalSaturatingScheduled { update } => update.emission_index(),
            StepInner::RepeatSaturatingInput { update } => update.emission_index(),
            StepInner::RepeatSaturatingScheduled { update } => update.emission_index(),
            _ => 0,
        }
    }

    pub closed spec fn outputs_emitted(&self) -> OutputsEmitted {
        self.outputs_emitted
    }

    /// A saturating step's update is running or ready to run and has emitted
    /// nothing yet, and the frame of a saturating or saturated step is well
    /// formed.
    pub closed spec fn wf(&self) -> bool {
        &&& match self.inner {
            StepInner::SaturatingInit { update } => !(update.phase() is Terminated) && update.outputs().len() == 0
                && update.time() == self.time,
            StepInner::OriginalSaturatingInput { update } => !(update.phase() is Terminated) && update.outputs().len() == 0
                && update.time() == self.time,
            StepInner::OriginalSaturatingScheduled { update } => !(update.phase() is Terminated) && update.outputs().len() == 0
                && update.time() == self.time,
            StepInner::RepeatSaturatingInput { update } => !(update.phase() is Terminated) && update.outputs().len() == 0
                && update.time() == self.time,
            StepInner::RepeatSaturatingScheduled { update } => !(update.phase() is Terminated) && update.outputs().len() == 0
                && update.time() == self.time,
            _ => true,
        }
        &&& (self.state().is_saturating() || self.state().is_saturated()) ==> self.frame().wf()
    }

    /// The first step: the transposer's init, running on a fresh frame.
    pub fn new_init(transposer: T, rng_seed: [u8; 32]) -> (r: Self)
        ensures
            r.wf(),
            r.state() == StepState::SaturatingInit,
            r.spec_time().spec_index() == 0,
            r.spec_time().spec_time() == 0,
            r.frame().transposer == transposer,
            r.frame().wf(),
            r.frame().metadata.schedule().len() == 0,
            r.outputs_emitted() == OutputsEmitted::Pending,
            is_init_step(r, transposer, rng_seed),
    {
        let time = EngineTime::new_init();
        let frame = Box::new(Frame::new(transposer, rng_seed));
        let update = FrameUpdate::new(frame, (), time);
        Step { time, inner: StepInner::SaturatingInit { update }, outputs_emitted: OutputsEmitted::Pending }
    }

    /// An unsaturated step that handles `inputs` at `time`.
    pub fn new_input(time: EngineTime, inputs: Box<[T::Input]>) -> (r: Self)
        ensures
            r.wf(),
            r.state() == StepState::OriginalUnsaturatedInput,
            r.spec_time() == time,
            r.inputs() == inputs@,
            r.outputs_emitted() == OutputsEmitted::Pending,
    {
        Step { time, inner: StepInner::OriginalUnsaturatedInput { inputs }, outputs_emitted: OutputsEmitted::Pending }
    }

    /// An unsaturated step that handles the first scheduled event at `time`.
    pub fn new_scheduled(time: EngineTime) -> (r: Self)
        ensures
            r.wf(),
            r.state() == StepState::OriginalUnsaturatedScheduled,
            r.spec_time() == time,
            r.outputs_emitted() == OutputsEmitted::Pending,
    {
        Step { time, inner: StepInner::OriginalUnsaturatedScheduled, outputs_emitted: OutputsEmitted::Pending }
    }

    /// Starts running the update on `frame`; fails when the step is not
    /// unsaturated. A scheduled step's update takes the first scheduled event
    /// off the frame: the event it handles.
    fn saturate_from_frame(&mut self, frame: Box<Frame<T>>) -> (r: Result<(), ()>)
        requires
            old(self).wf(),
            frame.wf(),
        ensures
            final(self).wf(),
            final(self).spec_time() == old(self).spec_time(),
            final(self).outputs_emitted() == old(self).outputs_emitted(),
            r is Ok == old(self).state().is_unsaturated(),
            r is Err ==> *final(self) == *old(self),
            r is Ok ==> final(self).state() == old(self).state().saturating()
                && final(self).inputs() == old(self).inputs()
                && final(self).input_state() is Pending
                && final(self).emission_index() == 0
                && started_on(old(self).state(), *frame, *final(self).frame())
                && (handles_scheduled(old(self).state()) ==> final(self).payload()
                    == (if frame.metadata.schedule().len() > 0 { Some(frame.metadata.schedule()[0].1) } else { None })),
    {
        if !self.is_unsaturated() {
            return Err(());
        }
        let mut inner = StepInner::OriginalUnsaturatedScheduled;
        std::mem::swap(&mut self.inner, &mut inner);
        let time = self.time;
        self.inner = match inner {
            StepInner::OriginalUnsaturatedInput { inputs } => {
                StepInner::OriginalSaturatingInput { update: FrameUpdate::new(frame, inputs, time) }
            },
            StepInner::RepeatUnsaturatedInput { inputs } => {
                StepInner::RepeatSaturatingInput { update: FrameUpdate::new(frame, inputs, time) }
            },
            StepInner::OriginalUnsaturatedScheduled => {
                let mut frame = frame;
                let payload = Self::take_event(&mut frame);
                StepInner::OriginalSaturatingScheduled { update: FrameUpdate::new(frame, payload, time) }
            },
            _ => {
                let mut frame = frame;
                let payload = Self::take_event(&mut frame);
                StepInner::RepeatSaturatingScheduled { update: FrameUpdate::new(frame, payload, time) }
            },
        };
        Ok(())
    }

    /// Takes the first scheduled event off `frame`, handing back its payload.
    fn take_event(frame: &mut Box<Frame<T>>) -> (r: Option<T::Scheduled>)
        requires
            old(frame).wf(),
        ensures
            final(frame).wf(),
            event_taken(**old(frame), **final(frame)),
            r == (if old(frame).metadata.schedule().len() > 0 {
                Some(old(frame).metadata.schedule()[0].1)
            } else {
                None
            }),
    {
        match frame.pop_schedule_event() {
            Some((_, payload)) => Some(payload),
            None => None,
        }
    }

    /// Takes the frame of the saturated step before this one, leaving that
    /// step to be repeated later, and starts running this step's update on it.
    pub fn saturate_take(&mut self, previous: &mut Self) -> (r: Result<(), ()>)
        requires
            old(self).wf(),
            old(previous).wf(),
        ensures
            final(self).wf(),
            final(previous).wf(),
            r is Ok == (old(previous).state().is_saturated() && old(self).state().is_unsaturated()),
            r is Err ==> *final(self) == *old(self) && *final(previous) == *old(previous),
            r is Ok ==> {
                &&& final(self).state() == old(self).state().saturating()
                &&& final(self).input_state() is Pending
                &&& started_on(old(self).state(), *old(previous).frame(), *final(self).frame())
                &&& final(self).inputs() == old(self).inputs()
                &&& final(self).spec_time() == old(self).spec_time()
                &&& final(previous).state() == old(previous).state().desaturated()
                &&& final(previous).inputs() == old(previous).inputs()
                &&& final(previous).spec_time() == old(previous).spec_time()
            },
    {
        if !(previous.is_saturated() && self.is_unsaturated()) {
            return Err(());
        }
        let mut prev = StepInner::RepeatUnsaturatedScheduled;
        std::mem::swap(&mut previous.inner, &mut prev);
        let frame = match prev {
            StepInner::SaturatedInit { frame } => {
                previous.inner = StepInner::UnsaturatedInit;
                frame
            },
            StepInner::SaturatedInput { inputs, frame } => {
                previous.inner = StepInner::RepeatUnsaturatedInput { inputs };
                frame
            },
            StepInner::SaturatedScheduled { frame } => frame,
            _ => vstd::pervasive::unreached(),
        };
        self.saturate_from_frame(frame)
    }

    /// Starts running this step's update on a copy of the frame of the
    /// saturated step before it, which keeps its frame.
    pub fn saturate_clone(&mut self, previous: &Self) -> (r: Result<(), ()>)
        where T: Clone, T::Scheduled: Clone,
        requires
            old(self).wf(),
            previous.wf(),
        ensures
            final(self).wf(),
            r is Ok == (previous.state().is_saturated() && old(self).state().is_unsaturated()),
            r is Err ==> *final(self) == *old(self),
            r is Ok ==> {
                &&& final(self).state() == old(self).state().saturating()
                &&& final(self).input_state() is Pending
                &&& cloned::<T>(previous.frame().transposer, final(self).frame().transposer)
                &&& exists|c: Frame<T>| #[trigger] frame_cloned(*previous.frame(), c)
                    && started_on(old(self).state(), c, *final(self).frame())
                    && (handles_scheduled(old(self).state()) ==> final(self).payload() == (if c.metadata.schedule().len() > 0 {
                        Some(c.metadata.schedule()[0].1)
                    } else {
                        None
                    }))
                &&& final(self).frame().metadata.schedule().len() == previous.frame().metadata.schedule().len()
                    - (if handles_scheduled(old(self).state()) && previous.frame().metadata.schedule().len() > 0 {
                        1int
                    } else {
                        0int
                    })
                &&& final(self).inputs() == old(self).inputs()
                &&& final(self).spec_time() == old(self).spec_time()
            },
    {
        let frame = match &previous.inner {
            StepInner::SaturatedInit { frame } => Box::new((**frame).clone()),
            StepInner::SaturatedInput { frame, .. } => Box::new((**frame).clone()),
            StepInner::SaturatedScheduled { frame } => Box::new((**frame).clone()),
            _ => return Err(()),
        };
        let ghost c = *frame;
        let r = self.saturate_from_frame(frame);
        proof {
            if r is Ok {
                assert(frame_cloned(*previous.frame(), c));
            }
        }
        r
    }

    /// Drops the work of the step so that it can be run again; its inputs are
    /// kept. Unsaturated steps and a running init update cannot be
    /// desaturated; a desaturated init step can never run again.
    pub fn desaturate(&mut self) -> (r: Result<(), ()>)
        requires
            old(self).wf(),
        ensures
            final(self).wf(),
            final(self).state() == old(self).state().desaturated(),
            r is Ok == (old(self).state().desaturated() != old(self).state()),
            r is Err ==> *final(self) == *old(self),
            final(self).inputs() == old(self).inputs(),
            final(self).spec_time() == old(self).spec_time(),
    {
        let mut inner = StepInner::RepeatUnsaturatedScheduled;
        std::mem::swap(&mut self.inner, &mut inner);
        let (inner, result) = match inner {
            StepInner::OriginalSaturatingInput { mut update } => {
                let inputs = update.reclaim();
                (StepInner::OriginalUnsaturatedInput { inputs }, Ok(()))
            },
            StepInner::RepeatSaturatingInput { mut update } => {
                let inputs = update.reclaim();
                (StepInner::RepeatUnsaturatedInput { inputs }, Ok(()))
            },
            StepInner::OriginalSaturatingScheduled { .. } => (StepInner::OriginalUnsaturatedScheduled, Ok(())),
            StepInner::RepeatSaturatingScheduled { .. } => (StepInner::RepeatUnsaturatedScheduled, Ok(())),
            StepInner::SaturatedInit { .. } => (StepInner::UnsaturatedInit, Ok(())),
            StepInner::SaturatedInput { inputs, .. } => (StepInner::RepeatUnsaturatedInput { inputs }, Ok(())),
            StepInner::SaturatedScheduled { .. } => (StepInner::RepeatUnsaturatedScheduled, Ok(())),
            other => (other, Err(())),
        };
        self.inner = inner;
        result
    }

    /// Hands the input state to the running update (started if it was not
    /// yet); fails when the step is not saturating or the state was already
    /// handed in.
    pub fn set_input_state(&mut self, state: T::InputState) -> (r: Result<(), T::InputState>)
        requires
            old(self).wf(),
        ensures
            final(self).wf(),
            final(self).state() == old(self).state(),
            final(self).frame() == old(self).frame(),
            final(self).inputs() == old(self).inputs(),
            final(self).spec_time() == old(self).spec_time(),
            final(self).payload() == old(self).payload(),
            final(self).emission_index() == old(self).emission_index(),
            !old(self).state().is_saturating() ==> r == Err::<(), T::InputState>(state) && *final(self) == *old(self),
            old(self).state().is_saturating() && old(self).input_state() is Ready ==> r == Err::<(), T::InputState>(state)
                && final(self).input_state() == old(self).input_state(),
            old(self).state().is_saturating() && !(old(self).input_state() is Ready) ==> r is Ok
                && final(self).input_state() == LazyStateInner::Ready(state),
    {
        match &mut self.inner {
            StepInner::SaturatingInit { update } => {
                update.start();
                update.set_input_state(state)
            },
            StepInner::OriginalSaturatingInput { update } => {
                update.start();
                update.set_input_state(state)
            },
            StepInner::OriginalSaturatingScheduled { update } => {
                update.start();
                update.set_input_state(state)
            },
            StepInner::RepeatSaturatingInput { update } => {
                update.start();
                update.set_input_state(state)
            },
            StepInner::RepeatSaturatingScheduled { update } => {
                update.start();
                update.set_input_state(state)
            },
            _ => Err(state),
        }
    }

    /// One poll of the step's update. `completed` is what the transposer's
    /// handler did during the poll: `None` when it did not complete, or the
    /// outputs it emitted when it did. A completed update saturates the step;
    /// an original step hands out the outputs, a repeat step drops them. A
    /// pending one reports whether it waits for the input state.
    pub fn poll(&mut self, completed: Option<Vec<T::Output>>) -> (r: Result<SequenceFramePoll<T::Output>, ()>)
        requires
            old(self).wf(),
        ensures
            final(self).wf(),
            final(self).spec_time() == old(self).spec_time(),
            final(self).inputs() == old(self).inputs(),
            final(self).frame() == old(self).frame(),
            !old(self).state().is_saturating() ==> r is Err && *final(self) == *old(self),
            step_polled(*old(self), completed, *final(self), r),
            old(self).state().is_saturating() && completed is Some ==> handles_scheduled(final(self).state())
                == handles_scheduled(old(self).state()) && final(self).state().is_saturated(),
            old(self).state().is_saturating() && completed is None ==> {
                &&& final(self).state() == old(self).state()
                &&& final(self).outputs_emitted() == old(self).outputs_emitted()
                &&& final(self).payload() == old(self).payload()
                &&& final(self).emission_index() == old(self).emission_index()
                &&& final(self).input_state() == old(self).input_state()
                &&& r is Ok
                &&& r->Ok_0 is Pending || r->Ok_0 is NeedsState
                &&& (r->Ok_0 is NeedsState) == (old(self).input_state() is Requested)
            },
            old(self).state().is_saturating() && completed is Some ==> {
                let outputs = completed->Some_0@;
                &&& final(self).state() == old(self).state().saturated()
                &&& r is Ok
                &&& old(self).state().is_original() && outputs.len() > 0 ==> r->Ok_0 is ReadyOutputs
                    && r->Ok_0->ReadyOutputs_0@ == outputs && final(self).outputs_emitted() == OutputsEmitted::SomeOutputs
                &&& old(self).state().is_original() && outputs.len() == 0 ==> r->Ok_0 is ReadyNoOutputs
                    && final(self).outputs_emitted() == OutputsEmitted::NoOutputs
                &&& !old(self).state().is_original() ==> r->Ok_0 is ReadyNoOutputs
                    && final(self).outputs_emitted() == old(self).outputs_emitted()
            },
    {
        let mut inner = StepInner::RepeatUnsaturatedScheduled;
        std::mem::swap(&mut self.inner, &mut inner);
        let (new_inner, result) = match inner {
            StepInner::SaturatingInit { mut update } => {
                update.start();
                match completed {
                    Some(mut emitted) => {
                        let UpdateResult { frame, mut outputs, .. } = update.complete().unwrap();
                        outputs.append(&mut emitted);
                        (StepInner::SaturatedInit { frame }, self.handle_original_outputs(outputs))
                    },
                    None => {
                        let p = Self::pending_poll(&update);
                        (StepInner::SaturatingInit { update }, p)
                    },
                }
            },
            StepInner::OriginalSaturatingInput { mut update } => {
                update.start();
                match completed {
                    Some(mut emitted) => {
                        let UpdateResult { frame, mut outputs, arg } = update.complete().unwrap();
                        outputs.append(&mut emitted);
                        (StepInner::SaturatedInput { inputs: arg, frame }, self.handle_original_outputs(outputs))
                    },
                    None => {
                        let p = Self::pending_poll(&update);
                        (StepInner::OriginalSaturatingInput { update }, p)
                    },
                }
            },
            StepInner::RepeatSaturatingInput { mut update } => {
                update.start();
                match completed {
                    Some(_) => {
                        let UpdateResult { frame, arg, .. } = update.complete().unwrap();
                        (StepInner::SaturatedInput { inputs: arg, frame }, SequenceFramePoll::ReadyNoOutputs)
                    },
                    None => {
                        let p = Self::pending_poll(&update);
                        (StepInner::RepeatSaturatingInput { update }, p)
                    },
                }
            },
            StepInner::OriginalSaturatingScheduled { mut update } => {
                update.start();
                match completed {
                    Some(mut emitted) => {
                        let UpdateResult { frame, mut outputs, .. } = update.complete().unwrap();
                        outputs.append(&mut emitted);
                        (StepInner::SaturatedScheduled { frame }, self.handle_original_outputs(outputs))
                    },
                    None => {
                        let p = Self::pending_poll(&update);
                        (StepInner::OriginalSaturatingScheduled { update }, p)
                    },
                }
            },
            StepInner::RepeatSaturatingScheduled { mut update } => {
                update.start();
                match completed {
                    Some(_) => {
                        let UpdateResult { frame, .. } = update.complete().unwrap();
                        (StepInner::SaturatedScheduled { frame }, SequenceFramePoll::ReadyNoOutputs)
                    },
                    None => {
                        let p = Self::pending_poll(&update);
                        (StepInner::RepeatSaturatingScheduled { update }, p)
                    },
                }
            },
            other => {
                self.inner = other;
                return Err(());
            },
        };
        self.inner = new_inner;
        Ok(result)
    }

    /// The running update's handler asks for the input state: it gets it when
    /// it was handed in; otherwise `waker` is kept to be woken when it is, and
    /// the step then reports that it needs the state.
    pub fn request_input_state(&mut self, waker: Waker) -> (r: Option<T::InputState>)
        requires
            old(self).wf(),
            old(self).state().is_saturating(),
        ensures
            final(self).wf(),
            final(self).state() == old(self).state(),
            final(self).frame() == old(self).frame(),
            final(self).spec_time() == old(self).spec_time(),
            final(self).inputs() == old(self).inputs(),
            final(self).payload() == old(self).payload(),
            final(self).emission_index() == old(self).emission_index(),
            final(self).outputs_emitted() == old(self).outputs_emitted(),
            old(self).input_state() is Ready ==> r == Some(old(self).input_state()->Ready_0)
                && final(self).input_state() is Pending,
            !(old(self).input_state() is Ready) ==> r is None
                && final(self).input_state() == LazyStateInner::<T::InputState>::Requested(waker),
    {
        match &mut self.inner {
            StepInner::SaturatingInit { update } => {
                update.start();
                update.request_input_state(waker)
            },
            StepInner::OriginalSaturatingInput { update } => {
                update.start();
                update.request_input_state(waker)
            },
            StepInner::OriginalSaturatingScheduled { update } => {
                update.start();
                update.request_input_state(waker)
            },
            StepInner::RepeatSaturatingInput { update } => {
                update.start();
                update.request_input_state(waker)
            },
            StepInner::RepeatSaturatingScheduled { update } => {
                update.start();
                update.request_input_state(waker)
            },
            _ => vstd::pervasive::unreached(),
        }
    }

    /// The running update's handler schedules `payload` at `time`, which may
    /// not come before the step's time; the event is keyed by the step's index
    /// and by the order in which the handler scheduled it.
    pub fn schedule_event(&mut self, time: u64, payload: T::Scheduled) -> (r: Result<(), ScheduleEventError>)
        requires
            old(self).wf(),
            old(self).state().is_saturating(),
            old(self).emission_index() < usize::MAX,
        ensures
            final(self).wf(),
            final(self).state() == old(self).state(),
            final(self).spec_time() == old(self).spec_time(),
            final(self).inputs() == old(self).inputs(),
            final(self).payload() == old(self).payload(),
            final(self).outputs_emitted() == old(self).outputs_emitted(),
            final(self).frame().transposer == old(self).frame().transposer,
            time < old(self).spec_time().spec_time() ==> r == Err::<(), ScheduleEventError>(
                ScheduleEventError::NewEventBeforeCurrent,
            ) && final(self).frame() == old(self).frame() && final(self).emission_index() == old(self).emission_index(),
            time >= old(self).spec_time().spec_time() ==> {
                let key = EngineTimeSchedule {
                    time,
                    parent_index: old(self).spec_time().spec_index(),
                    emission_index: old(self).emission_index(),
                };
                let before = old(self).frame().metadata;
                let after = final(self).frame().metadata;
                &&& r is Ok
                &&& after.schedule() == put_key(before.schedule(), key, payload)
                &&& after.handles() == before.handles()
                &&& after.handles_by_event() == before.handles_by_event()
                &&& after.next_handle() == before.next_handle()
                &&& final(self).emission_index() == old(self).emission_index() + 1
            },
    {
        match &mut self.inner {
            StepInner::SaturatingInit { update } => update.schedule_event(time, payload),
            StepInner::OriginalSaturatingInput { update } => update.schedule_event(time, payload),
            StepInner::OriginalSaturatingScheduled { update } => update.schedule_event(time, payload),
            StepInner::RepeatSaturatingInput { update } => update.schedule_event(time, payload),
            StepInner::RepeatSaturatingScheduled { update } => update.schedule_event(time, payload),
            _ => vstd::pervasive::unreached(),
        }
    }

    /// Whether the input state can be handed to this step: its update runs
    /// and holds no state yet.
    pub fn can_take_input_state(&self) -> (r: bool)
        ensures
            r == (self.state().is_saturating() && !(self.input_state() is Ready)),
    {
        match &self.inner {
            StepInner::SaturatingInit { update } => !update.has_input_state(),
            StepInner::OriginalSaturatingInput { update } => !update.has_input_state(),
            StepInner::OriginalSaturatingScheduled { update } => !update.has_input_state(),
            StepInner::RepeatSaturatingInput { update } => !update.has_input_state(),
            StepInner::RepeatSaturatingScheduled { update } => !update.has_input_state(),
            _ => false,
        }
    }

    /// Whether the running update can schedule an expireable event at `time`
    /// now: no live handle names the key that event gets.
    pub fn can_schedule_expireable(&self, time: u64) -> (r: bool)
        requires
            self.wf(),
            self.state().is_saturating(),
        ensures
            r == !self.frame().metadata.handles_by_event().contains_key(
                (time, self.spec_time().spec_index(), self.emission_index()),
            ),
    {
        match &self.inner {
            StepInner::SaturatingInit { update } => update.can_schedule_expireable(time),
            StepInner::OriginalSaturatingInput { update } => update.can_schedule_expireable(time),
            StepInner::OriginalSaturatingScheduled { update } => update.can_schedule_expireable(time),
            StepInner::RepeatSaturatingInput { update } => update.can_schedule_expireable(time),
            StepInner::RepeatSaturatingScheduled { update } => update.can_schedule_expireable(time),
            _ => vstd::pervasive::unreached(),
        }
    }

    /// Like `schedule_event`, and hands out a handle that can expire the
    /// event.
    pub fn schedule_event_expireable(&mut self, time: u64, payload: T::Scheduled) -> (r: Result<
        ExpireHandle,
        ScheduleEventError,
    >)
        requires
            old(self).wf(),
            old(self).state().is_saturating(),
            old(self).emission_index() < usize::MAX,
            old(self).frame().metadata.next_handle() < u64::MAX,
            !old(self).frame().metadata.handles_by_event().contains_key(
                (time, old(self).spec_time().spec_index(), old(self).emission_index()),
            ),
        ensures
            final(self).wf(),
            final(self).state() == old(self).state(),
            final(self).spec_time() == old(self).spec_time(),
            final(self).inputs() == old(self).inputs(),
            final(self).payload() == old(self).payload(),
            final(self).outputs_emitted() == old(self).outputs_emitted(),
            final(self).frame().transposer == old(self).frame().transposer,
            time < old(self).spec_time().spec_time() ==> r == Err::<ExpireHandle, ScheduleEventError>(
                ScheduleEventError::NewEventBeforeCurrent,
            ) && final(self).frame() == old(self).frame() && final(self).emission_index() == old(self).emission_index(),
            time >= old(self).spec_time().spec_time() ==> {
                let key = EngineTimeSchedule {
                    time,
                    parent_index: old(self).spec_time().spec_index(),
                    emission_index: old(self).emission_index(),
                };
                let before = old(self).frame().metadata;
                let after = final(self).frame().metadata;
                &&& r is Ok
                &&& r->Ok_0.value() == before.next_handle()
                &&& after.schedule() == put_key(before.schedule(), key, payload)
                &&& after.handles() == before.handles().insert(r->Ok_0.value(), key_tuple(key))
                &&& after.handles_by_event() == before.handles_by_event().insert(key_tuple(key), r->Ok_0.value())
                &&& after.next_handle() == before.next_handle() + 1
                &&& final(self).emission_index() == old(self).emission_index() + 1
            },
    {
        match &mut self.inner {
            StepInner::SaturatingInit { update } => update.schedule_event_expireable(time, payload),
            StepInner::OriginalSaturatingInput { update } => update.schedule_event_expireable(time, payload),
            StepInner::OriginalSaturatingScheduled { update } => update.schedule_event_expireable(time, payload),
            StepInner::RepeatSaturatingInput { update } => update.schedule_event_expireable(time, payload),
            StepInner::RepeatSaturatingScheduled { update } => update.schedule_event_expireable(time, payload),
            _ => vstd::pervasive::unreached(),
        }
    }

    /// The payload of the event a running scheduled step handles, for the
    /// transposer's handler.
    pub fn scheduled_payload(&self) -> (r: Option<&T::Scheduled>)
        requires
            self.wf(),
        ensures
            r == match self.payload() {
                Some(p) => Some(&p),
                None => None::<&T::Scheduled>,
            },
    {
        match &self.inner {
            StepInner::OriginalSaturatingScheduled { update } => match update.arg() {
                Some(Some(p)) => Some(p),
                _ => None,
            },
            StepInner::RepeatSaturatingScheduled { update } => match update.arg() {
                Some(Some(p)) => Some(p),
                _ => None,
            },
            _ => None,
        }
    }

    /// The frame the running update works on, for the transposer's handler to
    /// schedule and expire events on; the update is started if it was not
    /// yet. The step stays well formed when the frame is left well formed.
    pub fn frame_mut(&mut self) -> (r: Option<&mut Box<Frame<T>>>)
        requires
            old(self).wf(),
        ensures
            !old(self).state().is_saturating() ==> r is None && *final(self) == *old(self),
            old(self).state().is_saturating() ==> {
                &&& r is Some
                &&& *r->0 == old(self).frame()
                &&& final(self).frame() == *final(r->0)
                &&& final(self).state() == old(self).state()
                &&& final(self).spec_time() == old(self).spec_time()
                &&& final(self).inputs() == old(self).inputs()
                &&& final(self).outputs_emitted() == old(self).outputs_emitted()
                &&& final(self).payload() == old(self).payload()
                &&& final(self).emission_index() == old(self).emission_index()
                &&& final(r->0).wf() ==> final(self).wf()
            },
    {
        match &mut self.inner {
            StepInner::SaturatingInit { update } => {
                update.start();
                update.frame_mut()
            },
            StepInner::OriginalSaturatingInput { update } => {
                update.start();
                update.frame_mut()
            },
            StepInner::OriginalSaturatingScheduled { update } => {
                update.start();
                update.frame_mut()
            },
            StepInner::RepeatSaturatingInput { update } => {
                update.start();
                update.frame_mut()
            },
            StepInner::RepeatSaturatingScheduled { update } => {
                update.start();
                update.frame_mut()
            },
            _ => None,
        }
    }

    /// Records whether an original step emitted outputs.
    fn handle_original_outputs(&mut self, outputs: Vec<T::Output>) -> (r: SequenceFramePoll<T::Output>)
        ensures
            final(self).time == old(self).time,
            final(self).inner == old(self).inner,
            outputs@.len() == 0 ==> r is ReadyNoOutputs && final(self).outputs_emitted == OutputsEmitted::NoOutputs,
            outputs@.len() > 0 ==> r == SequenceFramePoll::ReadyOutputs(outputs)
                && final(self).outputs_emitted == OutputsEmitted::SomeOutputs,
    {
        if outputs.len() == 0 {
            self.outputs_emitted = OutputsEmitted::NoOutputs;
            SequenceFramePoll::ReadyNoOutputs
        } else {
            self.outputs_emitted = OutputsEmitted::SomeOutputs;
            SequenceFramePoll::ReadyOutputs(outputs)
        }
    }

    /// A running update that did not complete waits for the input state or
    /// for its handler.
    fn pending_poll<A>(update: &FrameUpdate<T, A>) -> (r: SequenceFramePoll<T::Output>)
        requires
            !(update.phase() is Terminated),
        ensures
            update.state_requested() ==> r is NeedsState,
            !update.state_requested() ==> r is Pending,
    {
        if update.needs_input_state().unwrap() {
            SequenceFramePoll::NeedsState
        } else {
            SequenceFramePoll::Pending
        }
    }

    /// The next step after this saturated one: the next inputs, or the
    /// earliest event the frame has scheduled when it comes strictly before
    /// them. When the step takes the inputs, `next_inputs` is left empty.
    pub fn next_unsaturated(&self, next_inputs: &mut Option<(u64, Box<[T::Input]>)>) -> (r: Result<Option<Self>, ()>)
        requires
            self.wf(),
            self.spec_time().spec_index() < usize::MAX,
        ensures
            !self.state().is_saturated() ==> r is Err && *final(next_inputs) == *old(next_inputs),
            self.state().is_saturated() ==> {
                let inputs = *old(next_inputs);
                let schedule = self.frame().metadata.schedule();
                let index = (self.spec_time().spec_index() + 1) as usize;
                let take_input = inputs is Some && (schedule.len() == 0 || inputs->Some_0.0 <= schedule[0].0.time);
                &&& r is Ok
                &&& inputs is None && schedule.len() == 0 ==> r->Ok_0 is None && *final(next_inputs) == inputs
                &&& take_input ==> {
                    let step = r->Ok_0->Some_0;
                    &&& r->Ok_0 is Some
                    &&& step.wf()
                    &&& step.state() == StepState::OriginalUnsaturatedInput
                    &&& step.spec_time().spec_index() == index
                    &&& step.spec_time().spec_time() == inputs->Some_0.0
                    &&& step.inputs() == inputs->Some_0.1@
                    &&& step.outputs_emitted() == OutputsEmitted::Pending
                    &&& *final(next_inputs) is None
                }
                &&& !take_input && schedule.len() > 0 ==> {
                    let step = r->Ok_0->Some_0;
                    &&& r->Ok_0 is Some
                    &&& step.wf()
                    &&& step.state() == StepState::OriginalUnsaturatedScheduled
                    &&& step.spec_time().spec_index() == index
                    &&& step.spec_time().spec_time() == schedule[0].0.time
                    &&& step.outputs_emitted() == OutputsEmitted::Pending
                    &&& *final(next_inputs) == inputs
                }
            },
    {
        let frame = match &self.inner {
            StepInner::SaturatedInit { frame } => frame,
            StepInner::SaturatedInput { frame, .. } => frame,
            StepInner::SaturatedScheduled { frame } => frame,
            _ => return Err(()),
        };
        let index = self.time.index() + 1;
        let next_scheduled_time = frame.get_next_scheduled_time();
        let is_input = match (&*next_inputs, next_scheduled_time) {
            (None, None) => return Ok(None),
            (None, Some(_)) => false,
            (Some(_), None) => true,
            (Some((t_i, _)), Some(t_s)) => *t_i <= t_s.time,
        };
        if is_input {
            let mut taken = None;
            std::mem::swap(next_inputs, &mut taken);
            let (t, inputs) = taken.unwrap();
            Ok(Some(Self::new_input(EngineTime::new_input(index, t), inputs)))
        } else {
            let t_s = next_scheduled_time.unwrap();
            Ok(Some(Self::new_scheduled(EngineTime::new_scheduled(index, *t_s))))
        }
    }

    /// Takes the step apart when it is rolled back: whether it emitted
    /// outputs, and the inputs it handled, for the input buffer to take back.
    pub fn rollback(self) -> (r: Result<(bool, Option<Box<[T::Input]>>), ()>)
        requires
            self.wf(),
        ensures
            r is Ok,
            r->Ok_0.0 == (self.outputs_emitted() == OutputsEmitted::SomeOutputs),
            (r->Ok_0.1 is Some) == (self.state() == StepState::OriginalUnsaturatedInput
                || self.state() == StepState::RepeatUnsaturatedInput
                || self.state() == StepState::OriginalSaturatingInput
                || self.state() == StepState::RepeatSaturatingInput
                || self.state() == StepState::SaturatedInput),
            r->Ok_0.1 is Some ==> r->Ok_0.1->Some_0@ == self.inputs(),
    {
        let emitted = self.outputs_emitted.is_some();
        let inputs = match self.inner {
            StepInner::OriginalUnsaturatedInput { inputs } => Some(inputs),
            StepInner::RepeatUnsaturatedInput { inputs } => Some(inputs),
            StepInner::OriginalSaturatingInput { mut update } => Some(update.reclaim()),
            StepInner::RepeatSaturatingInput { mut update } => Some(update.reclaim()),
            StepInner::SaturatedInput { inputs, .. } => Some(inputs),
            _ => None,
        };
        Ok((emitted, inputs))
    }

    /// The next step at the same time as this saturated one: the frame's
    /// earliest scheduled event, when it is scheduled for this step's time.
    pub fn next_unsaturated_same_time(&self) -> (r: Result<Option<Self>, ()>)
        requires
            self.wf(),
            self.spec_time().spec_index() < usize::MAX,
        ensures
            !self.state().is_saturated() ==> r is Err,
            self.state().is_saturated() ==> {
                let schedule = self.frame().metadata.schedule();
                &&& r is Ok
                &&& (schedule.len() > 0 && schedule[0].0.time == self.spec_time().spec_time()) ==> {
                    let step = r->Ok_0->Some_0;
                    &&& r->Ok_0 is Some
                    &&& step.wf()
                    &&& step.state() == StepState::OriginalUnsaturatedScheduled
                    &&& step.spec_time().spec_index() == self.spec_time().spec_index() + 1
                    &&& step.spec_time().spec_time() == self.spec_time().spec_time()
                }
                &&& !(schedule.len() > 0 && schedule[0].0.time == self.spec_time().spec_time()) ==> r->Ok_0 is None
            },
    {
        let frame = match &self.inner {
            StepInner::SaturatedInit { frame } => frame,
            StepInner::SaturatedInput { frame, .. } => frame,
            StepInner::SaturatedScheduled { frame } => frame,
            _ => return Err(()),
        };
        match frame.get_next_scheduled_time() {
            Some(t_s) => {
                if t_s.time == self.time.raw_time() {
                    let index = self.time.index() + 1;
                    Ok(Some(Self::new_scheduled(EngineTime::new_scheduled(index, *t_s))))
                } else {
                    Ok(None)
                }
            },
            None => Ok(None),
        }
    }

    pub fn time(&self) -> (r: &EngineTime)
        ensures
            *r == self.spec_time(),
    {
        &self.time
    }

    pub fn raw_time(&self) -> (r: u64)
        ensures
            r == self.spec_time().spec_time(),
    {
        self.time.raw_time()
    }

    pub fn is_unsaturated(&self) -> (r: bool)
        ensures
            r == self.state().is_unsaturated(),
    {
        matches!(
            self.inner,
            StepInner::OriginalUnsaturatedInput { .. } | StepInner::OriginalUnsaturatedScheduled
                | StepInner::RepeatUnsaturatedInput { .. } | StepInner::RepeatUnsaturatedScheduled
        )
    }

    pub fn is_saturating(&self) -> (r: bool)
        ensures
            r == self.state().is_saturating(),
    {
        matches!(
            self.inner,
            StepInner::SaturatingInit { .. } | StepInner::OriginalSaturatingInput { .. }
                | StepInner::OriginalSaturatingScheduled { .. } | StepInner::RepeatSaturatingInput { .. }
                | StepInner::RepeatSaturatingScheduled { .. }
        )
    }

    pub fn is_saturated(&self) -> (r: bool)
        ensures
            r == self.state().is_saturated(),
    {
        matches!(
            self.inner,
            StepInner::SaturatedInit { .. } | StepInner::SaturatedInput { .. } | StepInner::SaturatedScheduled { .. }
        )
    }

    pub fn can_be_taken(&self) -> (r: bool)
        ensures
            r == self.state().can_be_taken(),
    {
        matches!(self.inner, StepInner::SaturatedInput { .. } | StepInner::SaturatedScheduled { .. })
    }

    /// Whether the step has not emitted its outputs yet.
    pub fn is_original(&self) -> (r: bool)
        ensures
            r == self.state().is_original(),
    {
        matches!(
            self.inner,
            StepInner::OriginalUnsaturatedInput { .. } | StepInner::OriginalUnsaturatedScheduled
                | StepInner::SaturatingInit { .. } | StepInner::OriginalSaturatingInput { .. }
                | StepInner::OriginalSaturatingScheduled { .. }
        )
    }

    /// The transposer as a saturated step left it.
    pub fn finished_transposer(&self) -> (r: Option<&T>)
        ensures
            self.state().is_saturated() ==> r == Some(&self.frame().transposer),
            !self.state().is_saturated() ==> r is None,
    {
        match &self.inner {
            StepInner::SaturatedInit { frame } => Some(&frame.transposer),
            StepInner::SaturatedInput { frame, .. } => Some(&frame.transposer),
            StepInner::SaturatedScheduled { frame } => Some(&frame.transposer),
            _ => None,
        }
    }
}

} // verus!

verus! {

/// Desaturating a step that has just started running puts it back in the
/// state it started from, so it can be run again as before.
pub proof fn desaturate_undoes_saturate(st: StepState)
    requires
        st.is_unsaturated(),
    ensures
        st.saturating().is_saturating(),
        st.saturating().desaturated() == st,
{
}

/// A step that completed and was then dropped is repeated later, never run as
/// original again: whatever it runs into from there, it hands out no outputs
/// (`poll` hands out outputs only from original steps).
pub proof fn completed_step_only_repeats(st: StepState)
    requires
        st.is_saturating(),
        st != StepState::SaturatingInit,
    ensures
        st.saturated().is_saturated(),
        st.saturated().desaturated().is_unsaturated(),
        !st.saturated().desaturated().is_original(),
        !st.saturated().desaturated().saturating().is_original(),
        !st.saturated().desaturated().saturating().saturated().is_original(),
{
}

/// The init step runs once: once it completed and was dropped it cannot be
/// started again, neither from a taken nor from a cloned frame.
pub proof fn init_runs_once()
    ensures
        StepState::SaturatingInit.saturated() == StepState::SaturatedInit,
        StepState::SaturatedInit.desaturated() == StepState::UnsaturatedInit,
        !StepState::UnsaturatedInit.is_unsaturated(),
        !StepState::UnsaturatedInit.is_saturating(),
        !StepState::UnsaturatedInit.is_saturated(),
{
}

} // verus!

verus! {

/// A poll marks the step as having emitted outputs exactly when it hands out
/// outputs: it completes an original update that emitted some. Otherwise the
/// mark stays as it was, except that an original update completing with no
/// outputs marks that it emitted none.
pub proof fn poll_marks_handed_outputs<T: Transposer>(
    before: Step<T>,
    completed: Option<Vec<T::Output>>,
    after: Step<T>,
    r: Result<SequenceFramePoll<T::Output>, ()>,
)
    requires
        step_polled(before, completed, after, r),
    ensures
        (r is Ok && r->Ok_0 is ReadyOutputs) ==> after.outputs_emitted() == OutputsEmitted::SomeOutputs,
        !(r is Ok && r->Ok_0 is ReadyOutputs) && !(before.state().is_saturating() && before.state().is_original()
            && completed is Some) ==> after.outputs_emitted() == before.outputs_emitted(),
        !(r is Ok && r->Ok_0 is ReadyOutputs) && before.state().is_saturating() && before.state().is_original()
            && completed is Some ==> after.outputs_emitted() == OutputsEmitted::NoOutputs,
{
}

/// Over any run of polls of a step that starts with nothing recorded (as
/// every new step does), the step is marked as having emitted outputs exactly
/// when one of the polls handed out outputs.
pub proof fn outputs_emitted_iff_outputs_handed_out<T: Transposer>(
    steps: Seq<Step<T>>,
    completed: Seq<Option<Vec<T::Output>>>,
    results: Seq<Result<SequenceFramePoll<T::Output>, ()>>,
)
    requires
        steps.len() == completed.len() + 1,
        results.len() == completed.len(),
        forall|i: int| 0 <= i < completed.len() ==> #[trigger] step_polled(steps[i], completed[i], steps[i + 1], results[i]),
        steps[0].outputs_emitted() == OutputsEmitted::Pending,
    ensures
        (steps.last().outputs_emitted() == OutputsEmitted::SomeOutputs) == exists|i: int|
            0 <= i < results.len() && #[trigger] results[i] is Ok && results[i]->Ok_0 is ReadyOutputs,
{
    lemma_outputs_run(steps, completed, results);
}

proof fn lemma_outputs_run<T: Transposer>(
    steps: Seq<Step<T>>,
    completed: Seq<Option<Vec<T::Output>>>,
    results: Seq<Result<SequenceFramePoll<T::Output>, ()>>,
)
    requires
        steps.len() == completed.len() + 1,
        results.len() == completed.len(),
        forall|i: int| 0 <= i < completed.len() ==> #[trigger] step_polled(steps[i], completed[i], steps[i + 1], results[i]),
        steps[0].outputs_emitted() == OutputsEmitted::Pending,
    ensures
        (exists|i: int| 0 <= i < results.len() && #[trigger] results[i] is Ok && results[i]->Ok_0 is ReadyOutputs)
            ==> steps.last().outputs_emitted() == OutputsEmitted::SomeOutputs && !steps.last().state().is_saturating(),
        !(exists|i: int| 0 <= i < results.len() && #[trigger] results[i] is Ok && results[i]->Ok_0 is ReadyOutputs)
            ==> steps.last().outputs_emitted() != OutputsEmitted::SomeOutputs,
    decreases completed.len(),
{
    let n = completed.len() as int;
    if n > 0 {
        let ss = steps.drop_last();
        let cs = completed.drop_last();
        let rs = results.drop_last();
        assert forall|i: int| 0 <= i < cs.len() implies #[trigger] step_polled(ss[i], cs[i], ss[i + 1], rs[i]) by {
            assert(ss[i] == steps[i] && cs[i] == completed[i] && ss[i + 1] == steps[i + 1] && rs[i] == results[i]);
            assert(step_polled(steps[i], completed[i], steps[i + 1], results[i]));
        }
        lemma_outputs_run(ss, cs, rs);
        assert(step_polled(steps[n - 1], completed[n - 1], steps[n], results[n - 1]));
        assert(ss.last() == steps[n - 1]);
        if exists|i: int| 0 <= i < rs.len() && #[trigger] rs[i] is Ok && rs[i]->Ok_0 is ReadyOutputs {
            let i = choose|i: int| 0 <= i < rs.len() && #[trigger] rs[i] is Ok && rs[i]->Ok_0 is ReadyOutputs;
            assert(results[i] == rs[i]);
        } else {
            assert forall|i: int| 0 <= i < n - 1 implies !(#[trigger] results[i] is Ok && results[i]->Ok_0 is ReadyOutputs) by {
                assert(results[i] == rs[i]);
            }
            if results[n - 1] is Ok && results[n - 1]->Ok_0 is ReadyOutputs {
                let st = steps[n - 1].state();
                assert(st.is_saturating());
                assert(st.saturated().is_saturated());
            }
        }
    }
}

} // verus!

verus! {

/// Completing a step keeps what kind of step it is: a step that handles a
/// scheduled event is still one once saturated (so a rollback hands back no
/// inputs and a rerun takes the event off the frame again), a step that
/// handles inputs is still one (and keeps them), and only the init update
/// saturates into the saturated init state.
pub proof fn saturation_keeps_the_step_kind(st: StepState)
    requires
        st.is_saturating(),
    ensures
        st.saturated().is_saturated(),
        handles_scheduled(st.saturated()) == handles_scheduled(st),
        (st.saturated() == StepState::SaturatedInput) == (st == StepState::OriginalSaturatingInput
            || st == StepState::RepeatSaturatingInput),
        (st.saturated() == StepState::SaturatedInit) == (st == StepState::SaturatingInit),
        handles_scheduled(st.saturated()) ==> handles_scheduled(st.saturated().desaturated()),
{
}

/// A poll that completes a step leaves it a step of the same kind: a
/// scheduled step ends saturated as a scheduled step, an input step as an
/// input step with the same inputs.
pub proof fn completed_poll_keeps_the_step_kind<T: Transposer>(
    before: Step<T>,
    completed: Option<Vec<T::Output>>,
    after: Step<T>,
    r: Result<SequenceFramePoll<T::Output>, ()>,
)
    requires
        step_polled(before, completed, after, r),
        before.state().is_saturating(),
        completed is Some,
    ensures
        after.state().is_saturated(),
        handles_scheduled(after.state()) == handles_scheduled(before.state()),
        (after.state() == StepState::SaturatedInput) == (before.state() == StepState::OriginalSaturatingInput
            || before.state() == StepState::RepeatSaturatingInput),
{
    saturation_keeps_the_step_kind(before.state());
}

} // verus!
