use vstd::prelude::*;
use crate::engine_time::EngineTime;
use crate::step::{handles_scheduled, is_init_step, started_on, SequenceFramePoll, Step, StepState};
use crate::frame::{frame_cloned, Frame};
use crate::lazy_state::LazyStateInner;
use crate::transposer::Transposer;

verus! {

/// The steps of one time, run one after the other: the first handles the
/// inputs or the first scheduled event of that time, the others the events the
/// earlier steps scheduled for the same time.
pub struct StepGroup<T: Transposer> {
    inner: StepGroupInner<T>,
}

enum StepGroupInner<T: Transposer> {
    OriginalUnsaturated { steps: Vec<Step<T>> },
    OriginalSaturating { current_saturating_index: usize, steps: Vec<Step<T>>, waker_stack: Vec<usize> },
    RepeatUnsaturated { steps: Vec<Step<T>> },
    RepeatSaturating { current_saturating_index: usize, steps: Vec<Step<T>>, waker_stack: Vec<usize> },
    Saturated {
        // the channels interpolating from the final step, each with its time
        interpolations: Vec<(usize, u64)>,
        steps: Vec<Step<T>>,
    },
}

/// The phase of a step group.
#[derive(Clone, Copy, Debug, PartialEq, Eq, Structural)]
pub enum StepGroupKind {
    OriginalUnsaturated,
    OriginalSaturating,
    RepeatUnsaturated,
    RepeatSaturating,
    Saturated,
}

/// What interpolating a saturated group reports.
pub enum InterpolatePoll<T: Transposer> {
    Pending,
    NeedsState,
    Ready(T::OutputState),
}

/// What polling a saturating group reports: its current step waits for the
/// input state, waits for its update, or the whole group is saturated.
#[derive(Clone, Copy, Debug, PartialEq, Eq, Structural)]
pub enum StepGroupPoll {
    NeedsState,
    Pending,
    Ready,
}

#[derive(Clone, Copy, Debug, PartialEq, Eq, Structural)]
pub enum PollErr {
    Unsaturated,
    Saturated,
}

#[derive(Clone, Copy, Debug, PartialEq, Eq, Structural)]
pub enum InterpolatePollErr {
    NotSaturated,
    TimePast,
}

#[derive(Clone, Copy, Debug, PartialEq, Eq, Structural)]
enum CurrentSaturatingErr {
    Unsaturated,
    Saturated,
}

#[derive(Clone, Copy, Debug, PartialEq, Eq, Structural)]
pub enum NextUnsaturatedErr {
    NotSaturated,
    InputPastOrPresent,
}

#[derive(Clone, Copy, Debug, PartialEq, Eq, Structural)]
pub enum SaturateTakeErr {
    PreviousNotSaturated,
    SelfNotUnsaturated,
    IncorrectPrevious,
    PreviousHasActiveInterpolations,
}

#[derive(Clone, Copy, Debug, PartialEq, Eq, Structural)]
pub enum SaturateCloneErr {
    PreviousNotSaturated,
    SelfNotUnsaturated,
    IncorrectPrevious,
}

#[derive(Clone, Copy, Debug, PartialEq, Eq, Structural)]
pub enum DesaturateErr {
    AlreadyUnsaturated,
    ActiveWakers,
    ActiveInterpolations,
}

/// A state of the init step.
pub open spec fn is_init_state(st: StepState) -> bool {
    st == StepState::UnsaturatedInit || st == StepState::SaturatingInit || st == StepState::SaturatedInit
}

/// The entries with a time before `t`, in order.
pub open spec fn interpolations_before(s: Seq<(usize, u64)>, t: u64) -> Seq<(usize, u64)>
    decreases s.len(),
{
    if s.len() == 0 {
        s
    } else if s.last().1 < t {
        interpolations_before(s.drop_last(), t).push(s.last())
    } else {
        interpolations_before(s.drop_last(), t)
    }
}

/// The entries of other channels than `c`, in order.
pub open spec fn interpolations_without(s: Seq<(usize, u64)>, c: usize) -> Seq<(usize, u64)>
    decreases s.len(),
{
    if s.len() == 0 {
        s
    } else if s.last().0 != c {
        interpolations_without(s.drop_last(), c).push(s.last())
    } else {
        interpolations_without(s.drop_last(), c)
    }
}

/// The channels of the entries with a time at or after `t`, in order.
pub open spec fn channels_from(s: Seq<(usize, u64)>, t: u64) -> Seq<usize>
    decreases s.len(),
{
    if s.len() == 0 {
        Seq::empty()
    } else if s.last().1 >= t {
        channels_from(s.drop_last(), t).push(s.last().0)
    } else {
        channels_from(s.drop_last(), t)
    }
}

/// `channel` added to the channels in `waiting`, unless it is there already.
pub open spec fn with_channel(waiting: Seq<usize>, channel: usize) -> Seq<usize> {
    if waiting.contains(channel) {
        waiting
    } else {
        waiting.push(channel)
    }
}

/// Adds `channel` to `stack` unless it is there; true when the stack was
/// empty, that is when nobody polls the running step yet.
pub(crate) fn register_channel(stack: &mut Vec<usize>, channel: usize) -> (r: bool)
    ensures
        r == (old(stack)@.len() == 0),
        final(stack)@ == with_channel(old(stack)@, channel),
{
    let was_empty = stack.len() == 0;
    let mut i: usize = 0;
    while i < stack.len()
        invariant
            0 <= i <= stack@.len(),
            stack@ == old(stack)@,
            was_empty == (old(stack)@.len() == 0),
            forall|j: int| 0 <= j < i ==> stack@[j] != channel,
        decreases stack@.len() - i,
    {
        if stack[i] == channel {
            assert(stack@[i as int] == channel);
            return was_empty;
        }
        i = i + 1;
    }
    stack.push(channel);
    was_empty
}

/// A saturated step whose frame scheduled its earliest event for the step's
/// own time.
pub open spec fn same_time_event<T: Transposer>(step: Step<T>) -> bool {
    let schedule = step.frame().metadata.schedule();
    schedule.len() > 0 && schedule[0].0.time == step.spec_time().spec_time()
}

/// A step that is neither running nor holding a frame.
pub open spec fn quiet(st: StepState) -> bool {
    !st.is_saturating() && !st.is_saturated()
}

impl StepGroupKind {
    pub open spec fn is_unsaturated(self) -> bool {
        self == StepGroupKind::OriginalUnsaturated || self == StepGroupKind::RepeatUnsaturated
    }

    pub open spec fn is_saturating(self) -> bool {
        self == StepGroupKind::OriginalSaturating || self == StepGroupKind::RepeatSaturating
    }
}

impl<T: Transposer> StepGroup<T> {
    pub closed spec fn kind(&self) -> StepGroupKind {
        match self.inner {
            StepGroupInner::OriginalUnsaturated { .. } => StepGroupKind::OriginalUnsaturated,
            StepGroupInner::OriginalSaturating { .. } => StepGroupKind::OriginalSaturating,
            StepGroupInner::RepeatUnsaturated { .. } => StepGroupKind::RepeatUnsaturated,
            StepGroupInner::RepeatSaturating { .. } => StepGroupKind::RepeatSaturating,
            StepGroupInner::Saturated { .. } => StepGroupKind::Saturated,
        }
    }

    pub closed spec fn steps(&self) -> Seq<Step<T>> {
        match self.inner {
            StepGroupInner::OriginalUnsaturated { steps } => steps@,
            StepGroupInner::OriginalSaturating { steps, .. } => steps@,
            StepGroupInner::RepeatUnsaturated { steps } => steps@,
            StepGroupInner::RepeatSaturating { steps, .. } => steps@,
            StepGroupInner::Saturated { steps, .. } => steps@,
        }
    }

    /// The index of the step that runs (meaningful while saturating).
    pub closed spec fn current(&self) -> int {
        match self.inner {
            StepGroupInner::OriginalSaturating { current_saturating_index, .. } => current_saturating_index as int,
            StepGroupInner::RepeatSaturating { current_saturating_index, .. } => current_saturating_index as int,
            _ => 0,
        }
    }

    /// The channels waiting on the step that runs.
    pub closed spec fn waiting(&self) -> Seq<usize> {
        match self.inner {
            StepGroupInner::OriginalSaturating { waker_stack, .. } => waker_stack@,
            StepGroupInner::RepeatSaturating { waker_stack, .. } => waker_stack@,
            _ => Seq::empty(),
        }
    }

    /// The interpolations from a saturated group: channel and time.
    pub closed spec fn interpolations(&self) -> Seq<(usize, u64)> {
        match self.inner {
            StepGroupInner::Saturated { interpolations, .. } => interpolations@,
            _ => Seq::empty(),
        }
    }

    /// At least one step, all well formed; at most one step runs: none in an
    /// unsaturated group, the current one in a saturating group (it may have
    /// been desaturated while channels waited), and in a saturated group only
    /// the final step holds a frame.
    pub closed spec fn wf(&self) -> bool {
        let steps = self.steps();
        &&& steps.len() >= 1
        &&& forall|i: int| 0 <= i < steps.len() ==> #[trigger] steps[i].wf()
        &&& forall|i: int| 1 <= i < steps.len() ==> !is_init_state(#[trigger] steps[i].state())
        &&& self.kind().is_unsaturated() ==> forall|i: int| 0 <= i < steps.len() ==> quiet(#[trigger] steps[i].state())
        &&& self.kind().is_saturating() ==> {
            &&& 0 <= self.current() < steps.len()
            &&& forall|i: int| 0 <= i < steps.len() && i != self.current() ==> quiet(#[trigger] steps[i].state())
        }
        &&& self.kind() == StepGroupKind::Saturated ==> {
            &&& forall|i: int| 0 <= i < steps.len() - 1 ==> quiet(#[trigger] steps[i].state())
            &&& !steps.last().state().is_saturating()
        }
    }

    /// The group of the first step: the transposer's init, running.
    pub fn new_init(transposer: T, rng_seed: [u8; 32]) -> (r: Self)
        ensures
            r.wf(),
            r.kind() == StepGroupKind::OriginalSaturating,
            r.current() == 0,
            r.waiting().len() == 0,
            r.steps().len() == 1,
            r.steps()[0].state() == StepState::SaturatingInit,
            r.steps()[0].frame().transposer == transposer,
            r.steps()[0].spec_time().spec_index() == 0,
            is_init_step(r.steps()[0], transposer, rng_seed),
    {
        let mut steps = Vec::new();
        steps.push(Step::new_init(transposer, rng_seed));
        Self {
            inner: StepGroupInner::OriginalSaturating {
                current_saturating_index: 0,
                steps,
                waker_stack: Vec::new(),
            },
        }
    }

    fn new_from_unsaturated(step: Step<T>) -> (r: Self)
        requires
            step.wf(),
            quiet(step.state()),
        ensures
            r.wf(),
            r.kind() == StepGroupKind::OriginalUnsaturated,
            r.steps() == seq![step],
    {
        let mut steps = Vec::new();
        steps.push(step);
        let r = Self { inner: StepGroupInner::OriginalUnsaturated { steps } };
        assert(r.steps() =~= seq![step]);
        r
    }

    /// Takes the frame of the previous group's final step to start running
    /// this group, whose first step must be unsaturated. The previous group is
    /// left to be repeated later.
    pub fn saturate_take(&mut self, prev: &mut Self) -> (r: Result<(), SaturateTakeErr>)
        requires
            old(self).wf(),
            old(prev).wf(),
        ensures
            final(self).wf(),
            final(prev).wf(),
            r is Err ==> *final(self) == *old(self) && *final(prev) == *old(prev),
            old(prev).kind() != StepGroupKind::Saturated ==> r == Err::<(), SaturateTakeErr>(SaturateTakeErr::PreviousNotSaturated),
            old(prev).kind() == StepGroupKind::Saturated && !old(self).kind().is_unsaturated()
                ==> r == Err::<(), SaturateTakeErr>(SaturateTakeErr::SelfNotUnsaturated),
            old(prev).kind() == StepGroupKind::Saturated && old(self).kind().is_unsaturated() ==> {
                let last = old(prev).steps().last();
                let first = old(self).steps()[0];
                &&& old(prev).interpolations().len() > 0
                    ==> r == Err::<(), SaturateTakeErr>(SaturateTakeErr::PreviousHasActiveInterpolations)
                &&& old(prev).interpolations().len() == 0 && !last.state().is_saturated()
                    ==> r == Err::<(), SaturateTakeErr>(SaturateTakeErr::PreviousNotSaturated)
                &&& old(prev).interpolations().len() == 0 && last.state().is_saturated() && !first.state().is_unsaturated()
                    ==> r == Err::<(), SaturateTakeErr>(SaturateTakeErr::SelfNotUnsaturated)
                &&& old(prev).interpolations().len() == 0 && last.state().is_saturated() && first.state().is_unsaturated() ==> {
                    &&& r is Ok
                    &&& final(prev).kind() == StepGroupKind::RepeatUnsaturated
                    &&& final(prev).steps().len() == old(prev).steps().len()
                    &&& final(prev).steps().last().state() == last.state().desaturated()
                    &&& forall|i: int| 0 <= i < old(prev).steps().len() - 1 ==> final(prev).steps()[i] == old(prev).steps()[i]
                    &&& final(self).kind() == (if old(self).kind() == StepGroupKind::OriginalUnsaturated {
                        StepGroupKind::OriginalSaturating
                    } else {
                        StepGroupKind::RepeatSaturating
                    })
                    &&& final(self).current() == 0
                    &&& final(self).waiting().len() == 0
                    &&& final(self).steps().len() == old(self).steps().len()
                    &&& final(self).steps()[0].state() == first.state().saturating()
                    &&& started_on(first.state(), *last.frame(), *final(self).steps()[0].frame())
                    &&& forall|i: int| 1 <= i < old(self).steps().len() ==> final(self).steps()[i] == old(self).steps()[i]
                }
            },
    {
        let prev_saturated = matches!(prev.inner, StepGroupInner::Saturated { .. });
        if !prev_saturated {
            return Err(SaturateTakeErr::PreviousNotSaturated);
        }
        let self_unsaturated = matches!(
            self.inner,
            StepGroupInner::OriginalUnsaturated { .. } | StepGroupInner::RepeatUnsaturated { .. }
        );
        if !self_unsaturated {
            return Err(SaturateTakeErr::SelfNotUnsaturated);
        }
        let ghost old_self = *self;
        let ghost old_prev = *prev;
        let mut prev_inner = StepGroupInner::OriginalUnsaturated { steps: Vec::new() };
        std::mem::swap(&mut prev.inner, &mut prev_inner);
        let mut self_inner = StepGroupInner::OriginalUnsaturated { steps: Vec::new() };
        std::mem::swap(&mut self.inner, &mut self_inner);
        match (prev_inner, self_inner) {
            (StepGroupInner::Saturated { interpolations, steps: mut prev_steps }, self_inner) => {
                let (original, mut self_steps) = match self_inner {
                    StepGroupInner::OriginalUnsaturated { steps } => (true, steps),
                    StepGroupInner::RepeatUnsaturated { steps } => (false, steps),
                    _ => vstd::pervasive::unreached(),
                };
                if interpolations.len() > 0 {
                    prev.inner = StepGroupInner::Saturated { interpolations, steps: prev_steps };
                    self.inner = if original {
                        StepGroupInner::OriginalUnsaturated { steps: self_steps }
                    } else {
                        StepGroupInner::RepeatUnsaturated { steps: self_steps }
                    };
                    return Err(SaturateTakeErr::PreviousHasActiveInterpolations);
                }
                let last = prev_steps.len() - 1;
                let err = if !prev_steps[last].is_saturated() {
                    Some(SaturateTakeErr::PreviousNotSaturated)
                } else if !self_steps[0].is_unsaturated() {
                    Some(SaturateTakeErr::SelfNotUnsaturated)
                } else {
                    None
                };
                match err {
                    Some(e) => {
                        prev.inner = StepGroupInner::Saturated { interpolations, steps: prev_steps };
                        self.inner = if original {
                            StepGroupInner::OriginalUnsaturated { steps: self_steps }
                        } else {
                            StepGroupInner::RepeatUnsaturated { steps: self_steps }
                        };
                        Err(e)
                    },
                    None => {
                        let ghost ps = prev_steps@;
                        let ghost ss = self_steps@;
                        let taken = self_steps[0].saturate_take(&mut prev_steps[last]);
                        proof {
                            assert(taken is Ok);
                            assert forall|i: int| 0 <= i < prev_steps@.len() - 1 implies prev_steps@[i] == ps[i] by {}
                            assert forall|i: int| 1 <= i < self_steps@.len() implies self_steps@[i] == ss[i] by {}
                        }
                        prev.inner = StepGroupInner::RepeatUnsaturated { steps: prev_steps };
                        self.inner = if original {
                            StepGroupInner::OriginalSaturating {
                                current_saturating_index: 0,
                                steps: self_steps,
                                waker_stack: Vec::new(),
                            }
                        } else {
                            StepGroupInner::RepeatSaturating {
                                current_saturating_index: 0,
                                steps: self_steps,
                                waker_stack: Vec::new(),
                            }
                        };
                        Ok(())
                    },
                }
            },
            _ => vstd::pervasive::unreached(),
        }
    }

    /// Starts running this group, whose first step must be unsaturated, on a
    /// copy of the frame of the previous group's final step; the previous
    /// group keeps its frame.
    pub fn saturate_clone(&mut self, prev: &Self) -> (r: Result<(), SaturateCloneErr>)
        where T: Clone, T::Scheduled: Clone,
        requires
            old(self).wf(),
            prev.wf(),
        ensures
            final(self).wf(),
            r is Err ==> *final(self) == *old(self),
            prev.kind() != StepGroupKind::Saturated ==> r == Err::<(), SaturateCloneErr>(SaturateCloneErr::PreviousNotSaturated),
            prev.kind() == StepGroupKind::Saturated && !old(self).kind().is_unsaturated()
                ==> r == Err::<(), SaturateCloneErr>(SaturateCloneErr::SelfNotUnsaturated),
            prev.kind() == StepGroupKind::Saturated && old(self).kind().is_unsaturated() ==> {
                let last = prev.steps().last();
                let first = old(self).steps()[0];
                &&& !last.state().is_saturated() ==> r == Err::<(), SaturateCloneErr>(SaturateCloneErr::PreviousNotSaturated)
                &&& last.state().is_saturated() && !first.state().is_unsaturated()
                    ==> r == Err::<(), SaturateCloneErr>(SaturateCloneErr::SelfNotUnsaturated)
                &&& last.state().is_saturated() && first.state().is_unsaturated() ==> {
                    &&& r is Ok
                    &&& final(self).kind() == (if old(self).kind() == StepGroupKind::OriginalUnsaturated {
                        StepGroupKind::OriginalSaturating
                    } else {
                        StepGroupKind::RepeatSaturating
                    })
                    &&& final(self).current() == 0
                    &&& final(self).waiting().len() == 0
                    &&& final(self).steps().len() == old(self).steps().len()
                    &&& final(self).steps()[0].state() == first.state().saturating()
                    &&& cloned::<T>(last.frame().transposer, final(self).steps()[0].frame().transposer)
                    &&& exists|c: Frame<T>| #[trigger] frame_cloned(*last.frame(), c)
                        && started_on(first.state(), c, *final(self).steps()[0].frame())
                        && (handles_scheduled(first.state()) ==> final(self).steps()[0].payload() == (
                        if c.metadata.schedule().len() > 0 {
                            Some(c.metadata.schedule()[0].1)
                        } else {
                            None
                        }))
                    &&& final(self).steps()[0].inputs() == first.inputs()
                    &&& final(self).steps()[0].spec_time() == first.spec_time()
                    &&& forall|i: int| 1 <= i < old(self).steps().len() ==> final(self).steps()[i] == old(self).steps()[i]
                }
            },
    {
        let prev_steps = match &prev.inner {
            StepGroupInner::Saturated { steps, .. } => steps,
            _ => return Err(SaturateCloneErr::PreviousNotSaturated),
        };
        let self_unsaturated = matches!(
            self.inner,
            StepGroupInner::OriginalUnsaturated { .. } | StepGroupInner::RepeatUnsaturated { .. }
        );
        if !self_unsaturated {
            return Err(SaturateCloneErr::SelfNotUnsaturated);
        }
        let last = prev_steps.len() - 1;
        if !prev_steps[last].is_saturated() {
            return Err(SaturateCloneErr::PreviousNotSaturated);
        }
        let mut self_inner = StepGroupInner::OriginalUnsaturated { steps: Vec::new() };
        std::mem::swap(&mut self.inner, &mut self_inner);
        let (original, mut self_steps) = match self_inner {
            StepGroupInner::OriginalUnsaturated { steps } => (true, steps),
            StepGroupInner::RepeatUnsaturated { steps } => (false, steps),
            _ => vstd::pervasive::unreached(),
        };
        if !self_steps[0].is_unsaturated() {
            self.inner = if original {
                StepGroupInner::OriginalUnsaturated { steps: self_steps }
            } else {
                StepGroupInner::RepeatUnsaturated { steps: self_steps }
            };
            return Err(SaturateCloneErr::SelfNotUnsaturated);
        }
        let ghost ss = self_steps@;
        let cloned_ok = self_steps[0].saturate_clone(&prev_steps[last]);
        proof {
            assert(cloned_ok is Ok);
            assert forall|i: int| 1 <= i < self_steps@.len() implies self_steps@[i] == ss[i] by {}
        }
        self.inner = if original {
            StepGroupInner::OriginalSaturating { current_saturating_index: 0, steps: self_steps, waker_stack: Vec::new() }
        } else {
            StepGroupInner::RepeatSaturating { current_saturating_index: 0, steps: self_steps, waker_stack: Vec::new() }
        };
        Ok(())
    }

    /// The step whose work can be dropped: the current one while saturating,
    /// the final one when saturated.
    pub open spec fn working_step(&self) -> Step<T> {
        if self.kind() == StepGroupKind::Saturated {
            self.steps().last()
        } else {
            self.steps()[self.current()]
        }
    }

    /// Drops the work of the group so that it can be run again. With channels
    /// waiting (or interpolating), the working step is still desaturated but
    /// the group keeps its phase and reports the active wakers.
    pub fn desaturate(&mut self) -> (r: Result<(), DesaturateErr>)
        requires
            old(self).wf(),
            !old(self).kind().is_unsaturated() ==> old(self).working_step().state().desaturated()
                != old(self).working_step().state(),
        ensures
            final(self).wf(),
            old(self).kind().is_unsaturated() ==> r == Err::<(), DesaturateErr>(DesaturateErr::AlreadyUnsaturated)
                && *final(self) == *old(self),
            !old(self).kind().is_unsaturated() ==> {
                let w = old(self).working_step();
                let idx = if old(self).kind() == StepGroupKind::Saturated { old(self).steps().len() - 1 } else { old(self).current() };
                let blocked = if old(self).kind() == StepGroupKind::Saturated {
                    old(self).interpolations().len() > 0
                } else {
                    old(self).waiting().len() > 0
                };
                &&& final(self).steps().len() == old(self).steps().len()
                &&& final(self).steps()[idx].state() == w.state().desaturated()
                &&& forall|i: int| 0 <= i < old(self).steps().len() && i != idx ==> final(self).steps()[i] == old(self).steps()[i]
                &&& blocked ==> r == Err::<(), DesaturateErr>(DesaturateErr::ActiveWakers) && final(self).kind() == old(self).kind()
                    && final(self).current() == old(self).current() && final(self).waiting() == old(self).waiting()
                    && final(self).interpolations() == old(self).interpolations()
                &&& !blocked ==> r is Ok && final(self).kind() == (if old(self).kind() == StepGroupKind::OriginalSaturating {
                    StepGroupKind::OriginalUnsaturated
                } else {
                    StepGroupKind::RepeatUnsaturated
                })
            },
    {
        let mut inner = StepGroupInner::OriginalUnsaturated { steps: Vec::new() };
        std::mem::swap(&mut self.inner, &mut inner);
        let (inner, result) = match inner {
            StepGroupInner::OriginalUnsaturated { steps } => (
                StepGroupInner::OriginalUnsaturated { steps },
                Err(DesaturateErr::AlreadyUnsaturated),
            ),
            StepGroupInner::RepeatUnsaturated { steps } => (
                StepGroupInner::RepeatUnsaturated { steps },
                Err(DesaturateErr::AlreadyUnsaturated),
            ),
            StepGroupInner::OriginalSaturating { current_saturating_index, mut steps, waker_stack } => {
                let ghost ss = steps@;
                let d = steps[current_saturating_index].desaturate();
                proof {
                    assert(d is Ok);
                    assert forall|i: int| 0 <= i < ss.len() && i != current_saturating_index implies steps@[i] == ss[i] by {}
                }
                if waker_stack.len() == 0 {
                    (StepGroupInner::OriginalUnsaturated { steps }, Ok(()))
                } else {
                    (
                        StepGroupInner::OriginalSaturating { current_saturating_index, steps, waker_stack },
                        Err(DesaturateErr::ActiveWakers),
                    )
                }
            },
            StepGroupInner::RepeatSaturating { current_saturating_index, mut steps, waker_stack } => {
                let ghost ss = steps@;
                let d = steps[current_saturating_index].desaturate();
                proof {
                    assert(d is Ok);
                    assert forall|i: int| 0 <= i < ss.len() && i != current_saturating_index implies steps@[i] == ss[i] by {}
                }
                if waker_stack.len() == 0 {
                    (StepGroupInner::RepeatUnsaturated { steps }, Ok(()))
                } else {
                    (
                        StepGroupInner::RepeatSaturating { current_saturating_index, steps, waker_stack },
                        Err(DesaturateErr::ActiveWakers),
                    )
                }
            },
            StepGroupInner::Saturated { interpolations, mut steps } => {
                let ghost ss = steps@;
                let last = steps.len() - 1;
                let d = steps[last].desaturate();
                proof {
                    assert(d is Ok);
                    assert forall|i: int| 0 <= i < ss.len() && i != last implies steps@[i] == ss[i] by {}
                }
                if interpolations.len() == 0 {
                    (StepGroupInner::RepeatUnsaturated { steps }, Ok(()))
                } else {
                    (StepGroupInner::Saturated { interpolations, steps }, Err(DesaturateErr::ActiveWakers))
                }
            },
        };
        self.inner = inner;
        result
    }

    /// The index of the step that runs, or why there is none.
    fn current_saturating(&self) -> (r: Result<usize, CurrentSaturatingErr>)
        requires
            self.wf(),
        ensures
            self.kind().is_saturating() ==> r == Ok::<usize, CurrentSaturatingErr>(self.current() as usize),
            self.kind().is_unsaturated() ==> r == Err::<usize, CurrentSaturatingErr>(CurrentSaturatingErr::Unsaturated),
            self.kind() == StepGroupKind::Saturated ==> r == Err::<usize, CurrentSaturatingErr>(CurrentSaturatingErr::Saturated),
    {
        match &self.inner {
            StepGroupInner::OriginalSaturating { current_saturating_index, .. } => Ok(*current_saturating_index),
            StepGroupInner::RepeatSaturating { current_saturating_index, .. } => Ok(*current_saturating_index),
            StepGroupInner::OriginalUnsaturated { .. } => Err(CurrentSaturatingErr::Unsaturated),
            StepGroupInner::RepeatUnsaturated { .. } => Err(CurrentSaturatingErr::Unsaturated),
            StepGroupInner::Saturated { .. } => Err(CurrentSaturatingErr::Saturated),
        }
    }

    /// After the current step saturated: an original group gains the step of
    /// the next event its frame scheduled for the same time. The group is
    /// saturated when the current step was the last one (true); otherwise the
    /// next step takes the current step's frame and runs (false).
    #[verifier::rlimit(60)]
    fn advance_saturation_index(&mut self) -> (r: Result<bool, ()>)
        requires
            old(self).wf(),
            old(self).kind().is_saturating(),
            old(self).steps()[old(self).current()].state().is_saturated(),
            old(self).steps().last().spec_time().spec_index() < usize::MAX,
        ensures
            final(self).wf(),
            r is Ok,
            (r == Ok::<bool, ()>(true)) == (old(self).current() == old(self).steps().len() - 1
                && !(old(self).kind() == StepGroupKind::OriginalSaturating && same_time_event(old(self).steps().last()))),
            r == Ok::<bool, ()>(true) ==> final(self).kind() == StepGroupKind::Saturated && final(self).interpolations().len() == 0
                && final(self).steps() == old(self).steps(),
            r == Ok::<bool, ()>(false) ==> final(self).kind() == old(self).kind() && final(self).current() == old(self).current() + 1
                && final(self).steps()[final(self).current()].state().is_saturating()
                && final(self).steps()[final(self).current()].input_state() is Pending
                && final(self).steps()[old(self).current()].state() == old(self).steps()[old(self).current()].state().desaturated()
                && final(self).waiting().len() == 0,
            final(self).steps().len() >= old(self).steps().len(),
            final(self).steps()[0].spec_time() == old(self).steps()[0].spec_time(),
            final(self).steps().last().spec_time().spec_index() <= old(self).steps().last().spec_time().spec_index() + 1,
    {
        let mut inner = StepGroupInner::OriginalUnsaturated { steps: Vec::new() };
        std::mem::swap(&mut self.inner, &mut inner);
        let (original, mut i, mut steps) = match inner {
            StepGroupInner::OriginalSaturating { current_saturating_index, steps, .. } => {
                (true, current_saturating_index, steps)
            },
            StepGroupInner::RepeatSaturating { current_saturating_index, steps, .. } => {
                (false, current_saturating_index, steps)
            },
            _ => vstd::pervasive::unreached(),
        };
        let ghost first_time = steps@[0].spec_time();
        if original {
            let last = steps.len() - 1;
            proof {
                assert(steps@[last as int].wf());
            }
            let next = steps[last].next_unsaturated_same_time();
            match next {
                Ok(Some(next)) => {
                    steps.push(next);
                },
                _ => {},
            }
        }
        if i == steps.len() - 1 {
            self.inner = StepGroupInner::Saturated { steps, interpolations: Vec::new() };
            return Ok(true);
        }
        i = i + 1;
        let ghost ss = steps@;
        let mut next = steps.remove(i);
        let taken = next.saturate_take(&mut steps[i - 1]);
        proof {
            assert(taken is Ok);
        }
        steps.insert(i, next);
        proof {
            assert forall|j: int| 0 <= j < steps@.len() && j != i && j != i - 1 implies steps@[j] == ss[j] by {}
        }
        // the waker of the finished step went with its update: nobody waits
        let waker_stack: Vec<usize> = Vec::new();
        self.inner = if original {
            StepGroupInner::OriginalSaturating { current_saturating_index: i, steps, waker_stack }
        } else {
            StepGroupInner::RepeatSaturating { current_saturating_index: i, steps, waker_stack }
        };
        Ok(false)
    }
}


impl<T: Transposer> StepGroup<T> {
    /// Adds `channel` to the channels that wait on the running step; true
    /// when none waited, that is when the step must be polled.
    fn register(&mut self, channel: usize) -> (r: bool)
        requires
            old(self).wf(),
            old(self).kind().is_saturating(),
        ensures
            final(self).wf(),
            final(self).kind() == old(self).kind(),
            final(self).steps() == old(self).steps(),
            final(self).current() == old(self).current(),
            final(self).waiting() == with_channel(old(self).waiting(), channel),
            r == (old(self).waiting().len() == 0),
    {
        match &mut self.inner {
            StepGroupInner::OriginalSaturating { waker_stack, .. } => register_channel(waker_stack, channel),
            StepGroupInner::RepeatSaturating { waker_stack, .. } => register_channel(waker_stack, channel),
            _ => vstd::pervasive::unreached(),
        }
    }

    /// Polls the running step once; `completed` is what its handler did.
    fn poll_current_step(&mut self, completed: Option<Vec<T::Output>>) -> (r: Result<SequenceFramePoll<T::Output>, PollErr>)
        requires
            old(self).wf(),
            old(self).kind().is_saturating(),
        ensures
            final(self).wf(),
            final(self).kind() == old(self).kind(),
            final(self).current() == old(self).current(),
            final(self).waiting() == old(self).waiting(),
            final(self).steps().len() == old(self).steps().len(),
            forall|i: int| 0 <= i < old(self).steps().len() && i != old(self).current()
                ==> final(self).steps()[i] == old(self).steps()[i],
            ({
                let st = old(self).steps()[old(self).current()];
                let fst = final(self).steps()[old(self).current()];
                &&& fst.spec_time() == st.spec_time()
                &&& !st.state().is_saturating() ==> *final(self) == *old(self)
                    && r == Err::<SequenceFramePoll<T::Output>, PollErr>(
                        if st.state().is_saturated() { PollErr::Saturated } else { PollErr::Unsaturated })
                &&& st.state().is_saturating() && completed is None ==> fst.state() == st.state() && r is Ok
                    && (r->Ok_0 is Pending || r->Ok_0 is NeedsState)
                    && (r->Ok_0 is NeedsState) == (st.input_state() is Requested)
                &&& st.state().is_saturating() && completed is Some ==> fst.state() == st.state().saturated() && r is Ok
                    && (r->Ok_0 is ReadyNoOutputs || r->Ok_0 is ReadyOutputs)
                    && (r->Ok_0 is ReadyOutputs ==> r->Ok_0->ReadyOutputs_0@ == completed->Some_0@)
                    && (r->Ok_0 is ReadyOutputs <==> (st.state().is_original() && completed->Some_0@.len() > 0))
            }),
    {
        let i = match &self.inner {
            StepGroupInner::OriginalSaturating { current_saturating_index, .. } => *current_saturating_index,
            StepGroupInner::RepeatSaturating { current_saturating_index, .. } => *current_saturating_index,
            _ => vstd::pervasive::unreached(),
        };
        let (saturating, saturated) = match &self.inner {
            StepGroupInner::OriginalSaturating { steps, .. } => (steps[i].is_saturating(), steps[i].is_saturated()),
            StepGroupInner::RepeatSaturating { steps, .. } => (steps[i].is_saturating(), steps[i].is_saturated()),
            _ => vstd::pervasive::unreached(),
        };
        if !saturating {
            return Err(if saturated { PollErr::Saturated } else { PollErr::Unsaturated });
        }
        let mut inner = StepGroupInner::OriginalUnsaturated { steps: Vec::new() };
        std::mem::swap(&mut self.inner, &mut inner);
        let (original, mut steps, waker_stack) = match inner {
            StepGroupInner::OriginalSaturating { steps, waker_stack, .. } => (true, steps, waker_stack),
            StepGroupInner::RepeatSaturating { steps, waker_stack, .. } => (false, steps, waker_stack),
            _ => vstd::pervasive::unreached(),
        };
        let ghost ss = steps@;
        let polled = steps[i].poll(completed);
        proof {
            assert forall|j: int| 0 <= j < ss.len() && j != i implies steps@[j] == ss[j] by {}
        }
        self.inner = if original {
            StepGroupInner::OriginalSaturating { current_saturating_index: i, steps, waker_stack }
        } else {
            StepGroupInner::RepeatSaturating { current_saturating_index: i, steps, waker_stack }
        };
        match polled {
            Ok(p) => Ok(p),
            Err(()) => Err(PollErr::Unsaturated),
        }
    }

    /// Polls the group for `channel`: the running step is polled unless other
    /// channels already wait on it, in which case `channel` joins them.
    /// `completed` is what the handler of the step polled first did: `None`
    /// when it did not complete, or the outputs it emitted. When it completed,
    /// the next step of the group, if any, takes its frame and is polled once.
    /// The outputs of an original step are handed back.
    pub fn poll(&mut self, channel: usize, completed: Option<Vec<T::Output>>) -> (r: Result<(StepGroupPoll, Vec<T::Output>), PollErr>)
        requires
            old(self).wf(),
            old(self).steps().last().spec_time().spec_index() < usize::MAX,
        ensures
            final(self).wf(),
            final(self).steps()[0].spec_time() == old(self).steps()[0].spec_time(),
            old(self).kind().is_unsaturated() ==> r == Err::<(StepGroupPoll, Vec<T::Output>), PollErr>(PollErr::Unsaturated)
                && *final(self) == *old(self),
            old(self).kind() == StepGroupKind::Saturated ==> r is Ok && r->Ok_0.0 == StepGroupPoll::Ready
                && r->Ok_0.1@.len() == 0 && *final(self) == *old(self),
            old(self).kind().is_saturating() && old(self).waiting().len() > 0 ==> {
                &&& r is Ok
                &&& r->Ok_0.0 == StepGroupPoll::Pending
                &&& r->Ok_0.1@.len() == 0
                &&& final(self).kind() == old(self).kind()
                &&& final(self).steps() == old(self).steps()
                &&& final(self).current() == old(self).current()
                &&& final(self).waiting() == with_channel(old(self).waiting(), channel)
            },
            old(self).kind().is_saturating() && old(self).waiting().len() == 0 ==> {
                let cur = old(self).current();
                let st = old(self).steps()[cur].state();
                &&& !st.is_saturating() ==> {
                    &&& r == Err::<(StepGroupPoll, Vec<T::Output>), PollErr>(
                        if st.is_saturated() { PollErr::Saturated } else { PollErr::Unsaturated })
                    &&& final(self).kind() == old(self).kind()
                    &&& final(self).steps() == old(self).steps()
                    &&& final(self).current() == cur
                    &&& final(self).waiting() == seq![channel]
                }
                &&& st.is_saturating() && completed is None ==> {
                    &&& r is Ok
                    &&& r->Ok_0.0 == (if old(self).steps()[cur].input_state() is Requested {
                        StepGroupPoll::NeedsState
                    } else {
                        StepGroupPoll::Pending
                    })
                    &&& r->Ok_0.1@.len() == 0
                    &&& final(self).kind() == old(self).kind()
                    &&& final(self).current() == cur
                    &&& final(self).waiting() == seq![channel]
                    &&& final(self).steps().len() == old(self).steps().len()
                    &&& final(self).steps()[cur].state() == st
                }
                &&& st.is_saturating() && completed is Some ==> {
                    &&& r is Ok
                    &&& r->Ok_0.1@ == (if st.is_original() { completed->Some_0@ } else { Seq::empty() })
                    &&& (r->Ok_0.0 == StepGroupPoll::Ready) == (final(self).kind() == StepGroupKind::Saturated)
                    &&& old(self).kind() == StepGroupKind::RepeatSaturating
                        ==> (final(self).kind() == StepGroupKind::Saturated) == (cur == old(self).steps().len() - 1)
                    &&& final(self).kind() == StepGroupKind::Saturated ==> {
                        &&& final(self).interpolations().len() == 0
                        &&& cur == final(self).steps().len() - 1
                        &&& final(self).steps()[cur].state() == st.saturated()
                    }
                    &&& final(self).kind() != StepGroupKind::Saturated ==> {
                        &&& r->Ok_0.0 == StepGroupPoll::Pending
                        &&& final(self).kind() == old(self).kind()
                        &&& final(self).current() == cur + 1
                        &&& final(self).waiting() == seq![channel]
                        &&& final(self).steps()[cur].state() == st.saturated().desaturated()
                        &&& final(self).steps()[cur + 1].state().is_saturating()
                    }
                }
            },
    {
        let mut pending = completed;
        let mut outputs: Vec<T::Output> = Vec::new();
        let mut first = true;
        loop
            invariant
                old(self).wf(),
                old(self).steps().last().spec_time().spec_index() < usize::MAX,
                self.wf(),
                self.steps()[0].spec_time() == old(self).steps()[0].spec_time(),
                first ==> *self == *old(self) && outputs@.len() == 0,
                first ==> pending == completed,
                !first ==> pending is None,
                !first ==> {
                    let cur = old(self).current();
                    let st = old(self).steps()[cur].state();
                    &&& completed is Some
                    &&& old(self).kind().is_saturating()
                    &&& old(self).waiting().len() == 0
                    &&& st.is_saturating()
                    &&& outputs@ == (if st.is_original() { completed->Some_0@ } else { Seq::empty() })
                    &&& self.kind() == old(self).kind()
                    &&& self.current() == cur + 1
                    &&& self.waiting().len() == 0
                    &&& self.steps()[cur].state() == st.saturated().desaturated()
                    &&& self.steps()[cur + 1].state().is_saturating()
                    &&& self.steps()[cur + 1].input_state() is Pending
                    &&& old(self).kind() == StepGroupKind::RepeatSaturating ==> cur < old(self).steps().len() - 1
                },
            decreases (if first { 1int } else { 0int }),
        {
            match self.current_saturating() {
                Err(CurrentSaturatingErr::Unsaturated) => return Err(PollErr::Unsaturated),
                Err(CurrentSaturatingErr::Saturated) => return Ok((StepGroupPoll::Ready, outputs)),
                Ok(_) => {},
            }
            if !self.register(channel) {
                return Ok((StepGroupPoll::Pending, outputs));
            }
            let polled = self.poll_current_step(pending.take())?;
            match polled {
                SequenceFramePoll::Pending => return Ok((StepGroupPoll::Pending, outputs)),
                SequenceFramePoll::NeedsState => return Ok((StepGroupPoll::NeedsState, outputs)),
                SequenceFramePoll::ReadyNoOutputs => {},
                SequenceFramePoll::ReadyOutputs(mut o) => {
                    outputs.append(&mut o);
                },
            }
            let done = self.advance_saturation_index().unwrap();
            if done {
                return Ok((StepGroupPoll::Ready, outputs));
            }
            first = false;
        }
    }

    /// The running step, for the transposer's handler to schedule events and
    /// work on the frame through. The group stays well formed when the step
    /// is left well formed and in the same state.
    pub fn current_step_mut(&mut self) -> (r: Option<&mut Step<T>>)
        requires
            old(self).wf(),
        ensures
            !(old(self).kind().is_saturating() && old(self).steps()[old(self).current()].state().is_saturating())
                ==> r is None && *final(self) == *old(self),
            old(self).kind().is_saturating() && old(self).steps()[old(self).current()].state().is_saturating() ==> {
                let cur = old(self).current();
                &&& r is Some
                &&& *r->0 == old(self).steps()[cur]
                &&& final(self).steps() == old(self).steps().update(cur, *final(r->0))
                &&& final(self).kind() == old(self).kind()
                &&& final(self).current() == cur
                &&& final(self).waiting() == old(self).waiting()
                &&& final(r->0).wf() && final(r->0).state() == old(self).steps()[cur].state() ==> final(self).wf()
            },
    {
        let running = match &self.inner {
            StepGroupInner::OriginalSaturating { current_saturating_index, steps, .. } => {
                steps[*current_saturating_index].is_saturating()
            },
            StepGroupInner::RepeatSaturating { current_saturating_index, steps, .. } => {
                steps[*current_saturating_index].is_saturating()
            },
            _ => false,
        };
        if !running {
            return None;
        }
        match &mut self.inner {
            StepGroupInner::OriginalSaturating { current_saturating_index, steps, .. } => {
                let i = *current_saturating_index;
                Some(&mut steps[i])
            },
            StepGroupInner::RepeatSaturating { current_saturating_index, steps, .. } => {
                let i = *current_saturating_index;
                Some(&mut steps[i])
            },
            _ => None,
        }
    }

    /// The waker of the running step fired: hands back the channels that
    /// waited on it, none of which waits any more.
    pub fn wake_waiting(&mut self) -> (r: Vec<usize>)
        requires
            old(self).wf(),
        ensures
            final(self).wf(),
            r@ == old(self).waiting(),
            final(self).waiting().len() == 0,
            final(self).kind() == old(self).kind(),
            final(self).steps() == old(self).steps(),
            final(self).current() == old(self).current(),
            final(self).interpolations() == old(self).interpolations(),
    {
        let mut inner = StepGroupInner::OriginalUnsaturated { steps: Vec::new() };
        std::mem::swap(&mut self.inner, &mut inner);
        let (inner, woken) = match inner {
            StepGroupInner::OriginalSaturating { current_saturating_index, steps, waker_stack } => (
                StepGroupInner::OriginalSaturating { current_saturating_index, steps, waker_stack: Vec::new() },
                waker_stack,
            ),
            StepGroupInner::RepeatSaturating { current_saturating_index, steps, waker_stack } => (
                StepGroupInner::RepeatSaturating { current_saturating_index, steps, waker_stack: Vec::new() },
                waker_stack,
            ),
            other => (other, Vec::new()),
        };
        self.inner = inner;
        woken
    }
}


impl<T: Transposer> StepGroup<T> {
    /// Hands the input state to the running step; the state comes back when
    /// no step runs or the step's update does not take it.
    pub fn set_input_state(&mut self, state: T::InputState) -> (r: Result<(), T::InputState>)
        requires
            old(self).wf(),
        ensures
            final(self).wf(),
            final(self).kind() == old(self).kind(),
            final(self).current() == old(self).current(),
            final(self).waiting() == old(self).waiting(),
            final(self).interpolations() == old(self).interpolations(),
            final(self).steps().len() == old(self).steps().len(),
            !old(self).kind().is_saturating() ==> r == Err::<(), T::InputState>(state) && *final(self) == *old(self),
            old(self).kind().is_saturating() ==> {
                let cur = old(self).current();
                &&& forall|i: int| 0 <= i < old(self).steps().len() && i != cur ==> final(self).steps()[i] == old(self).steps()[i]
                &&& final(self).steps()[cur].state() == old(self).steps()[cur].state()
                &&& final(self).steps()[cur].frame() == old(self).steps()[cur].frame()
                &&& final(self).steps()[cur].spec_time() == old(self).steps()[cur].spec_time()
                &&& !old(self).steps()[cur].state().is_saturating() ==> r == Err::<(), T::InputState>(state)
                &&& old(self).steps()[cur].state().is_saturating() && old(self).steps()[cur].input_state() is Ready
                    ==> r == Err::<(), T::InputState>(state)
                &&& old(self).steps()[cur].state().is_saturating() && !(old(self).steps()[cur].input_state() is Ready)
                    ==> r is Ok && final(self).steps()[cur].input_state() == LazyStateInner::Ready(state)
            },
    {
        let i = match self.current_saturating() {
            Ok(i) => i,
            Err(_) => return Err(state),
        };
        let mut inner = StepGroupInner::OriginalUnsaturated { steps: Vec::new() };
        std::mem::swap(&mut self.inner, &mut inner);
        let (original, mut steps, waker_stack) = match inner {
            StepGroupInner::OriginalSaturating { steps, waker_stack, .. } => (true, steps, waker_stack),
            StepGroupInner::RepeatSaturating { steps, waker_stack, .. } => (false, steps, waker_stack),
            _ => vstd::pervasive::unreached(),
        };
        let ghost ss = steps@;
        let r = steps[i].set_input_state(state);
        proof {
            assert forall|j: int| 0 <= j < ss.len() && j != i implies steps@[j] == ss[j] by {}
        }
        self.inner = if original {
            StepGroupInner::OriginalSaturating { current_saturating_index: i, steps, waker_stack }
        } else {
            StepGroupInner::RepeatSaturating { current_saturating_index: i, steps, waker_stack }
        };
        r
    }

    /// Drops the interpolations of a saturated group from `t` on, and hands
    /// back their channels to be woken.
    fn drain_interpolations_from(&mut self, t: u64) -> (r: Vec<usize>)
        requires
            old(self).wf(),
            old(self).kind() == StepGroupKind::Saturated,
        ensures
            final(self).wf(),
            final(self).kind() == StepGroupKind::Saturated,
            final(self).steps() == old(self).steps(),
            final(self).interpolations() == interpolations_before(old(self).interpolations(), t),
            r@ == channels_from(old(self).interpolations(), t),
    {
        let mut inner = StepGroupInner::OriginalUnsaturated { steps: Vec::new() };
        std::mem::swap(&mut self.inner, &mut inner);
        let (interpolations, steps) = match inner {
            StepGroupInner::Saturated { interpolations, steps } => (interpolations, steps),
            _ => vstd::pervasive::unreached(),
        };
        let mut kept: Vec<(usize, u64)> = Vec::new();
        let mut woken: Vec<usize> = Vec::new();
        let mut i: usize = 0;
        while i < interpolations.len()
            invariant
                0 <= i <= interpolations@.len(),
                kept@ == interpolations_before(interpolations@.subrange(0, i as int), t),
                woken@ == channels_from(interpolations@.subrange(0, i as int), t),
            decreases interpolations@.len() - i,
        {
            let entry = interpolations[i];
            proof {
                assert(interpolations@.subrange(0, i as int + 1).drop_last() =~= interpolations@.subrange(0, i as int));
            }
            if entry.1 >= t {
                woken.push(entry.0);
            } else {
                kept.push(entry);
            }
            i = i + 1;
        }
        proof {
            assert(interpolations@.subrange(0, interpolations@.len() as int) =~= interpolations@);
        }
        self.inner = StepGroupInner::Saturated { interpolations: kept, steps };
        woken
    }

    /// The group after this saturated one: the next inputs, or the earliest
    /// event the final frame scheduled when it comes strictly before them.
    /// The interpolations at or after the next inputs' time are dropped and
    /// their channels handed back to be woken.
    pub fn next_unsaturated(&mut self, next_inputs: &mut Option<(u64, Box<[T::Input]>)>)
        -> (r: Result<(Option<Self>, Vec<usize>), NextUnsaturatedErr>)
        requires
            old(self).wf(),
            old(self).kind() == StepGroupKind::Saturated ==> old(self).steps().last().state().is_saturated()
                && old(self).steps().last().spec_time().spec_index() < usize::MAX,
        ensures
            final(self).wf(),
            old(self).kind() != StepGroupKind::Saturated
                ==> r == Err::<(Option<Self>, Vec<usize>), NextUnsaturatedErr>(NextUnsaturatedErr::NotSaturated)
                && *final(self) == *old(self) && *final(next_inputs) == *old(next_inputs),
            old(self).kind() == StepGroupKind::Saturated ==> {
                let last = old(self).steps().last();
                let inputs = *old(next_inputs);
                let schedule = last.frame().metadata.schedule();
                let index = (last.spec_time().spec_index() + 1) as usize;
                let take_input = inputs is Some && (schedule.len() == 0 || inputs->Some_0.0 <= schedule[0].0.time);
                &&& r is Ok
                &&& final(self).kind() == StepGroupKind::Saturated
                &&& final(self).steps() == old(self).steps()
                &&& inputs is Some ==> final(self).interpolations()
                    == interpolations_before(old(self).interpolations(), inputs->Some_0.0)
                    && r->Ok_0.1@ == channels_from(old(self).interpolations(), inputs->Some_0.0)
                &&& inputs is None ==> final(self).interpolations() == old(self).interpolations() && r->Ok_0.1@.len() == 0
                &&& inputs is None && schedule.len() == 0 ==> r->Ok_0.0 is None && *final(next_inputs) == inputs
                &&& take_input ==> {
                    let g = r->Ok_0.0->Some_0;
                    &&& r->Ok_0.0 is Some
                    &&& g.wf()
                    &&& g.kind() == StepGroupKind::OriginalUnsaturated
                    &&& g.steps().len() == 1
                    &&& g.steps()[0].state() == StepState::OriginalUnsaturatedInput
                    &&& g.steps()[0].spec_time().spec_index() == index
                    &&& g.steps()[0].spec_time().spec_time() == inputs->Some_0.0
                    &&& g.steps()[0].inputs() == inputs->Some_0.1@
                    &&& *final(next_inputs) is None
                }
                &&& !take_input && schedule.len() > 0 ==> {
                    let g = r->Ok_0.0->Some_0;
                    &&& r->Ok_0.0 is Some
                    &&& g.wf()
                    &&& g.kind() == StepGroupKind::OriginalUnsaturated
                    &&& g.steps().len() == 1
                    &&& g.steps()[0].state() == StepState::OriginalUnsaturatedScheduled
                    &&& g.steps()[0].spec_time().spec_index() == index
                    &&& g.steps()[0].spec_time().spec_time() == schedule[0].0.time
                    &&& *final(next_inputs) == inputs
                }
            },
    {
        if !self.is_saturated() {
            return Err(NextUnsaturatedErr::NotSaturated);
        }
        let next_time: Option<u64> = match &*next_inputs {
            Some((t, _)) => Some(*t),
            None => None,
        };
        let woken = match next_time {
            Some(t) => self.drain_interpolations_from(t),
            None => Vec::new(),
        };
        let last = match self.final_step() {
            Ok(step) => step,
            Err(()) => return Err(NextUnsaturatedErr::NotSaturated),
        };
        let next = match last.next_unsaturated(next_inputs) {
            Ok(next) => next,
            Err(()) => return Err(NextUnsaturatedErr::NotSaturated),
        };
        match next {
            Some(step) => Ok((Some(Self::new_from_unsaturated(step)), woken)),
            None => Ok((None, woken)),
        }
    }

    /// The library computes no interpolation itself: a poll reports a time
    /// before the group's own, or a group that is not saturated.
    pub fn interpolate_poll(&mut self, time: u64, channel: usize) -> (r: Result<InterpolatePoll<T>, InterpolatePollErr>)
        requires
            old(self).wf(),
            old(self).kind() == StepGroupKind::Saturated ==> time < old(self).steps()[0].spec_time().spec_time(),
        ensures
            *final(self) == *old(self),
            time < old(self).steps()[0].spec_time().spec_time()
                ==> r == Err::<InterpolatePoll<T>, InterpolatePollErr>(InterpolatePollErr::TimePast),
            time >= old(self).steps()[0].spec_time().spec_time()
                ==> r == Err::<InterpolatePoll<T>, InterpolatePollErr>(InterpolatePollErr::NotSaturated),
    {
        if time < self.time() {
            return Err(InterpolatePollErr::TimePast);
        }
        Err(InterpolatePollErr::NotSaturated)
    }

    /// Drops the interpolation of `channel` from a saturated group.
    pub fn remove_interpolation(&mut self, channel: usize)
        requires
            old(self).wf(),
        ensures
            final(self).wf(),
            final(self).kind() == old(self).kind(),
            final(self).steps() == old(self).steps(),
            final(self).current() == old(self).current(),
            final(self).waiting() == old(self).waiting(),
            final(self).interpolations() == interpolations_without(old(self).interpolations(), channel),
    {
        if !self.is_saturated() {
            proof {
                assert(old(self).interpolations() =~= Seq::<(usize, u64)>::empty());
            }
            return;
        }
        let mut inner = StepGroupInner::OriginalUnsaturated { steps: Vec::new() };
        std::mem::swap(&mut self.inner, &mut inner);
        let (interpolations, steps) = match inner {
            StepGroupInner::Saturated { interpolations, steps } => (interpolations, steps),
            _ => vstd::pervasive::unreached(),
        };
        let mut kept: Vec<(usize, u64)> = Vec::new();
        let mut i: usize = 0;
        while i < interpolations.len()
            invariant
                0 <= i <= interpolations@.len(),
                kept@ == interpolations_without(interpolations@.subrange(0, i as int), channel),
            decreases interpolations@.len() - i,
        {
            let entry = interpolations[i];
            proof {
                assert(interpolations@.subrange(0, i as int + 1).drop_last() =~= interpolations@.subrange(0, i as int));
            }
            if entry.0 != channel {
                kept.push(entry);
            }
            i = i + 1;
        }
        proof {
            assert(interpolations@.subrange(0, interpolations@.len() as int) =~= interpolations@);
        }
        self.inner = StepGroupInner::Saturated { interpolations: kept, steps };
    }

    fn first_step_time(&self) -> (r: &EngineTime)
        requires
            self.wf(),
        ensures
            *r == self.steps()[0].spec_time(),
    {
        match &self.inner {
            StepGroupInner::OriginalUnsaturated { steps } => steps[0].time(),
            StepGroupInner::OriginalSaturating { steps, .. } => steps[0].time(),
            StepGroupInner::RepeatUnsaturated { steps } => steps[0].time(),
            StepGroupInner::RepeatSaturating { steps, .. } => steps[0].time(),
            StepGroupInner::Saturated { steps, .. } => steps[0].time(),
        }
    }

    /// The final step of a saturated group.
    pub fn final_step(&self) -> (r: Result<&Step<T>, ()>)
        requires
            self.wf(),
        ensures
            self.kind() == StepGroupKind::Saturated ==> r == Ok::<&Step<T>, ()>(&self.steps().last()),
            self.kind() != StepGroupKind::Saturated ==> r is Err,
    {
        match &self.inner {
            StepGroupInner::Saturated { steps, .. } => Ok(&steps[steps.len() - 1]),
            _ => Err(()),
        }
    }

    /// The transposer the final step of a saturated group left.
    pub fn final_transposer(&self) -> (r: Result<&T, ()>)
        requires
            self.wf(),
            self.kind() == StepGroupKind::Saturated ==> self.steps().last().state().is_saturated(),
        ensures
            self.kind() == StepGroupKind::Saturated ==> r == Ok::<&T, ()>(&self.steps().last().frame().transposer),
            self.kind() != StepGroupKind::Saturated ==> r is Err,
    {
        let last = self.final_step()?;
        match last.finished_transposer() {
            Some(t) => Ok(t),
            None => Err(()),
        }
    }

    pub fn is_saturated(&self) -> (r: bool)
        ensures
            r == (self.kind() == StepGroupKind::Saturated),
    {
        matches!(self.inner, StepGroupInner::Saturated { .. })
    }

    /// Whether the group is running (saturating).
    pub fn is_desaturated(&self) -> (r: bool)
        ensures
            r == self.kind().is_saturating(),
    {
        matches!(self.inner, StepGroupInner::OriginalSaturating { .. } | StepGroupInner::RepeatSaturating { .. })
    }

    /// Whether this is the group of the transposer's init.
    pub fn is_init(&self) -> (r: bool)
        requires
            self.wf(),
        ensures
            r == (self.steps()[0].spec_time().spec_index() == 0),
    {
        self.first_step_time().index() == 0
    }

    /// The time of the group's steps.
    pub fn time(&self) -> (r: u64)
        requires
            self.wf(),
        ensures
            r == self.steps()[0].spec_time().spec_time(),
    {
        self.first_step_time().raw_time()
    }
}

} // verus!
