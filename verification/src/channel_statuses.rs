use std::collections::{BTreeMap, HashMap};
use vstd::prelude::*;
use crate::steps::Steps;
use crate::step::is_init_step;
use crate::transposer::Transposer;
use crate::step_group::{register_channel, with_channel};

verus! {

/// Why a step is blocked: it waits for the source's state on a source
/// channel, or its update is pending; either way with the caller channels
/// that wait on it.
pub enum StepBlockedReason {
    SourceState { source_channel: usize, waiting: Vec<usize> },
    Future { waiting: Vec<usize> },
}

/// Why a caller channel is blocked: on the original step, on a repeat step
/// (by its sequence number), or on an interpolation that waits for the
/// source's state on a source channel or for its own computation.
#[derive(Clone, Copy, Debug, PartialEq, Eq, Structural)]
pub enum CallerChannelBlockedReason {
    OriginalStep,
    RepeatStep { step_id: usize },
    InterpolationSourceState { source_channel: usize, forget: bool },
    InterpolationFuture { forget: bool },
}

/// Which caller channels, source channels and steps are blocked, and on what.
pub struct ChannelStatuses<T: Transposer> {
    /// The steps of the transposer.
    pub steps: Steps<T>,
    /// The source channels in use.
    pub blocked_source_channels: BTreeMap<usize, ()>,
    /// The caller channels with a pending operation, and what it waits on.
    pub blocked_caller_channels: HashMap<usize, CallerChannelBlockedReason>,
    /// The blocked repeat steps, by sequence number.
    pub repeat_step_blocked_reasons: HashMap<usize, StepBlockedReason>,
    /// Why the original step is blocked, if it is.
    pub original_step_blocked_reasons: Option<StepBlockedReason>,
}

/// What a blocked caller channel's poll asks next: wait, poll the source for
/// its state at `time` on `source_channel`, or take the finished
/// interpolation's state.
pub enum BlockedPoll<S> {
    Pending,
    Poll { time: u64, source_channel: usize, forget: bool },
    Ready(S),
}

/// What polling the computation a caller channel waits on gave: still
/// pending, asking for the source's state, or done with a state.
pub enum FutureOutcome<S> {
    Pending,
    NeedsState,
    Ready(S),
}

/// A caller channel with no pending operation.
#[derive(Clone, Copy, Debug, PartialEq, Eq, Structural)]
pub struct Free {
    pub caller_channel: usize,
}

/// A caller channel blocked on the original step, which waits for the
/// source's state on `source_channel`.
#[derive(Clone, Copy, Debug, PartialEq, Eq, Structural)]
pub struct OriginalStepSourceState {
    pub caller_channel: usize,
    pub source_channel: usize,
}

/// A caller channel blocked on the pending update of the original step.
#[derive(Clone, Copy, Debug, PartialEq, Eq, Structural)]
pub struct OriginalStepFuture {
    pub caller_channel: usize,
}

/// A caller channel blocked on repeat step `step_id`, which waits for the
/// source's state on `source_channel`.
#[derive(Clone, Copy, Debug, PartialEq, Eq, Structural)]
pub struct RepeatStepSourceState {
    pub caller_channel: usize,
    pub step_id: usize,
    pub source_channel: usize,
}

/// A caller channel blocked on the pending update of repeat step `step_id`.
#[derive(Clone, Copy, Debug, PartialEq, Eq, Structural)]
pub struct RepeatStepFuture {
    pub caller_channel: usize,
    pub step_id: usize,
}

/// A caller channel whose interpolation waits for the source's state on
/// `source_channel`.
#[derive(Clone, Copy, Debug, PartialEq, Eq, Structural)]
pub struct InterpolationSourceState {
    pub caller_channel: usize,
    pub source_channel: usize,
}

/// A caller channel whose interpolation is pending.
#[derive(Clone, Copy, Debug, PartialEq, Eq, Structural)]
pub struct InterpolationFuture {
    pub caller_channel: usize,
}

/// The status of a caller channel, with the keys of what it is blocked on.
#[derive(Clone, Copy, Debug, PartialEq, Eq, Structural)]
pub enum CallerChannelStatus {
    Free(Free),
    OriginalStepSourceState(OriginalStepSourceState),
    OriginalStepFuture(OriginalStepFuture),
    RepeatStepSourceState(RepeatStepSourceState),
    RepeatStepFuture(RepeatStepFuture),
    InterpolationSourceState(InterpolationSourceState),
    InterpolationFuture(InterpolationFuture),
}

impl<T: Transposer> ChannelStatuses<T> {
    /// A step blocked on the source's state uses a source channel in use.
    pub open spec fn step_block_ok(&self, b: StepBlockedReason) -> bool {
        match b {
            StepBlockedReason::SourceState { source_channel, .. } => self.blocked_source_channels@.contains_key(
                source_channel,
            ),
            StepBlockedReason::Future { .. } => true,
        }
    }

    /// What a blocked caller channel waits on exists.
    pub open spec fn caller_block_ok(&self, r: CallerChannelBlockedReason) -> bool {
        match r {
            CallerChannelBlockedReason::OriginalStep => match self.original_step_blocked_reasons {
                Some(b) => self.step_block_ok(b),
                None => false,
            },
            CallerChannelBlockedReason::RepeatStep { step_id } => {
                &&& self.steps.deleted() <= step_id < self.steps.deleted() + self.steps@.len()
                &&& self.repeat_step_blocked_reasons@.contains_key(step_id)
                &&& self.step_block_ok(self.repeat_step_blocked_reasons@[step_id])
            },
            CallerChannelBlockedReason::InterpolationSourceState { source_channel, .. } => {
                self.blocked_source_channels@.contains_key(source_channel)
            },
            CallerChannelBlockedReason::InterpolationFuture { .. } => true,
        }
    }

    /// Every blocked caller channel waits on something that exists.
    pub open spec fn wf(&self) -> bool {
        &&& self.steps.wf()
        &&& forall|c: usize| #[trigger] self.blocked_caller_channels@.contains_key(c)
            ==> self.caller_block_ok(self.blocked_caller_channels@[c])
    }

    /// The status of `caller_channel`.
    pub open spec fn status_of(&self, caller_channel: usize) -> CallerChannelStatus {
        if !self.blocked_caller_channels@.contains_key(caller_channel) {
            CallerChannelStatus::Free(Free { caller_channel })
        } else {
            match self.blocked_caller_channels@[caller_channel] {
                CallerChannelBlockedReason::OriginalStep => match self.original_step_blocked_reasons {
                    Some(StepBlockedReason::SourceState { source_channel, .. }) => {
                        CallerChannelStatus::OriginalStepSourceState(
                            OriginalStepSourceState { caller_channel, source_channel },
                        )
                    },
                    _ => CallerChannelStatus::OriginalStepFuture(OriginalStepFuture { caller_channel }),
                },
                CallerChannelBlockedReason::RepeatStep { step_id } => match self.repeat_step_blocked_reasons@[step_id] {
                    StepBlockedReason::SourceState { source_channel, .. } => {
                        CallerChannelStatus::RepeatStepSourceState(
                            RepeatStepSourceState { caller_channel, step_id, source_channel },
                        )
                    },
                    StepBlockedReason::Future { .. } => {
                        CallerChannelStatus::RepeatStepFuture(RepeatStepFuture { caller_channel, step_id })
                    },
                },
                CallerChannelBlockedReason::InterpolationSourceState { source_channel, .. } => {
                    CallerChannelStatus::InterpolationSourceState(
                        InterpolationSourceState { caller_channel, source_channel },
                    )
                },
                CallerChannelBlockedReason::InterpolationFuture { .. } => {
                    CallerChannelStatus::InterpolationFuture(InterpolationFuture { caller_channel })
                },
            }
        }
    }

    /// The statuses of a transposer that has only its init step, with no
    /// channel blocked.
    pub fn new(transposer: T, rng_seed: [u8; 32]) -> (r: Self)
        ensures
            r.wf(),
            r.steps@.len() == 1,
            r.steps.deleted() == 0,
            r.steps@[0].step.frame().transposer == transposer,
            is_init_step(r.steps@[0].step, transposer, rng_seed),
            r.steps@[0].first_emitted_id is None,
            r.blocked_source_channels@ == Map::<usize, ()>::empty(),
            r.blocked_caller_channels@ == Map::<usize, CallerChannelBlockedReason>::empty(),
            r.repeat_step_blocked_reasons@ == Map::<usize, StepBlockedReason>::empty(),
            r.original_step_blocked_reasons is None,
    {
        ChannelStatuses {
            steps: Steps::new(transposer, rng_seed),
            blocked_source_channels: BTreeMap::new(),
            blocked_caller_channels: HashMap::new(),
            repeat_step_blocked_reasons: HashMap::new(),
            original_step_blocked_reasons: None,
        }
    }

    /// The next action for a blocked caller channel polled at `time`.
    /// - Blocked on a repeat step that waits for the source's state: the
    ///   channel joins the step's waiting channels; the first one to wait polls
    ///   the source on the step's source channel (never forgetting), the others
    ///   wait.
    /// - Blocked on a repeat step whose update is pending: the channel joins the
    ///   waiting channels, the first one polls the update (`outcome`), and the
    ///   channel waits.
    /// - Blocked on an interpolation that waits for the source's state: the
    ///   channel forgets only if it did and does now, and polls the source on
    ///   the interpolation's source channel.
    /// - Blocked on a pending interpolation, polled with `outcome`: a finished
    ///   one unblocks the channel and hands its state; otherwise the channel
    ///   forgets only if it did and does now, and waits.
    pub fn handle_blocked_channel<S>(
        &mut self,
        caller_channel: usize,
        time: u64,
        forget: bool,
        outcome: FutureOutcome<S>,
    ) -> (r: BlockedPoll<S>)
        requires
            old(self).wf(),
            old(self).blocked_caller_channels@.contains_key(caller_channel),
            old(self).blocked_caller_channels@[caller_channel] != CallerChannelBlockedReason::OriginalStep,
            ({
                let reason = old(self).blocked_caller_channels@[caller_channel];
                &&& reason matches CallerChannelBlockedReason::RepeatStep { step_id } ==> {
                    let b = old(self).repeat_step_blocked_reasons@[step_id];
                    b matches StepBlockedReason::Future { waiting } && waiting@.len() == 0 ==> outcome is Pending
                }
                &&& reason is InterpolationFuture ==> !(outcome is NeedsState)
            }),
        ensures
            final(self).wf(),
            final(self).steps == old(self).steps,
            final(self).blocked_source_channels@ == old(self).blocked_source_channels@,
            final(self).original_step_blocked_reasons == old(self).original_step_blocked_reasons,
            match old(self).blocked_caller_channels@[caller_channel] {
                CallerChannelBlockedReason::RepeatStep { step_id } => {
                    let b = old(self).repeat_step_blocked_reasons@[step_id];
                    &&& final(self).blocked_caller_channels@ == old(self).blocked_caller_channels@
                    &&& final(self).repeat_step_blocked_reasons@.dom() == old(self).repeat_step_blocked_reasons@.dom()
                    &&& forall|i: usize| i != step_id && #[trigger] old(self).repeat_step_blocked_reasons@.contains_key(i)
                        ==> final(self).repeat_step_blocked_reasons@[i] == old(self).repeat_step_blocked_reasons@[i]
                    &&& match b {
                        StepBlockedReason::SourceState { source_channel, waiting } => {
                            &&& final(self).repeat_step_blocked_reasons@[step_id] matches StepBlockedReason::SourceState {
                                source_channel: sc2,
                                waiting: w2,
                            } && sc2 == source_channel && w2@ == with_channel(waiting@, caller_channel)
                            &&& waiting@.len() == 0 ==> r == BlockedPoll::<S>::Poll { time, source_channel, forget: false }
                            &&& waiting@.len() > 0 ==> r is Pending
                        },
                        StepBlockedReason::Future { waiting } => {
                            &&& final(self).repeat_step_blocked_reasons@[step_id] matches StepBlockedReason::Future {
                                waiting: w2,
                            } && w2@ == with_channel(waiting@, caller_channel)
                            &&& r is Pending
                        },
                    }
                },
                CallerChannelBlockedReason::InterpolationSourceState { source_channel, forget: f0 } => {
                    &&& r == BlockedPoll::<S>::Poll { time, source_channel, forget: f0 && forget }
                    &&& final(self).blocked_caller_channels@ == old(self).blocked_caller_channels@.insert(
                        caller_channel,
                        CallerChannelBlockedReason::InterpolationSourceState { source_channel, forget: f0 && forget },
                    )
                    &&& final(self).repeat_step_blocked_reasons@ == old(self).repeat_step_blocked_reasons@
                },
                CallerChannelBlockedReason::InterpolationFuture { forget: f0 } => {
                    &&& final(self).repeat_step_blocked_reasons@ == old(self).repeat_step_blocked_reasons@
                    &&& match outcome {
                        FutureOutcome::Ready(st) => {
                            &&& r == BlockedPoll::<S>::Ready(st)
                            &&& final(self).blocked_caller_channels@ == old(self).blocked_caller_channels@.remove(caller_channel)
                        },
                        _ => {
                            &&& r is Pending
                            &&& final(self).blocked_caller_channels@ == old(self).blocked_caller_channels@.insert(
                                caller_channel,
                                CallerChannelBlockedReason::InterpolationFuture { forget: f0 && forget },
                            )
                        },
                    }
                },
                CallerChannelBlockedReason::OriginalStep => true,
            },
    {
        broadcast use vstd::std_specs::hash::group_hash_axioms;

        let reason = *self.blocked_caller_channels.get(&caller_channel).unwrap();
        proof {
            assert(self.caller_block_ok(self.blocked_caller_channels@[caller_channel]));
        }
        match reason {
            CallerChannelBlockedReason::RepeatStep { step_id } => {
                let b = self.repeat_step_blocked_reasons.remove(&step_id).unwrap();
                match b {
                    StepBlockedReason::SourceState { source_channel, mut waiting } => {
                        let first = register_channel(&mut waiting, caller_channel);
                        self.repeat_step_blocked_reasons.insert(
                            step_id,
                            StepBlockedReason::SourceState { source_channel, waiting },
                        );
                        proof {
                            assert(self.repeat_step_blocked_reasons@.dom() =~= old(self).repeat_step_blocked_reasons@.dom());
                        }
                        if first {
                            BlockedPoll::Poll { time, source_channel, forget: false }
                        } else {
                            BlockedPoll::Pending
                        }
                    },
                    StepBlockedReason::Future { mut waiting } => {
                        let _first = register_channel(&mut waiting, caller_channel);
                        self.repeat_step_blocked_reasons.insert(step_id, StepBlockedReason::Future { waiting });
                        proof {
                            assert(self.repeat_step_blocked_reasons@.dom() =~= old(self).repeat_step_blocked_reasons@.dom());
                        }
                        BlockedPoll::Pending
                    },
                }
            },
            CallerChannelBlockedReason::InterpolationSourceState { source_channel, forget: f0 } => {
                let f = f0 && forget;
                self.blocked_caller_channels.insert(
                    caller_channel,
                    CallerChannelBlockedReason::InterpolationSourceState { source_channel, forget: f },
                );
                BlockedPoll::Poll { time, source_channel, forget: f }
            },
            CallerChannelBlockedReason::InterpolationFuture { forget: f0 } => {
                match outcome {
                    FutureOutcome::Ready(st) => {
                        self.blocked_caller_channels.remove(&caller_channel);
                        BlockedPoll::Ready(st)
                    },
                    _ => {
                        let f = f0 && forget;
                        self.blocked_caller_channels.insert(
                            caller_channel,
                            CallerChannelBlockedReason::InterpolationFuture { forget: f },
                        );
                        BlockedPoll::Pending
                    },
                }
            },
            CallerChannelBlockedReason::OriginalStep => vstd::pervasive::unreached(),
        }
    }

    /// The status of `caller_channel`: free, or blocked on the original step,
    /// on a repeat step or on its interpolation, each waiting for the source's
    /// state or for a pending computation.
    pub fn get_channel_status(&self, caller_channel: usize) -> (r: CallerChannelStatus)
        requires
            self.wf(),
        ensures
            r == self.status_of(caller_channel),
    {
        broadcast use vstd::std_specs::hash::group_hash_axioms;

        let reason = match self.blocked_caller_channels.get(&caller_channel) {
            None => return CallerChannelStatus::Free(Free { caller_channel }),
            Some(reason) => *reason,
        };
        proof {
            assert(self.caller_block_ok(self.blocked_caller_channels@[caller_channel]));
        }
        match reason {
            CallerChannelBlockedReason::OriginalStep => match &self.original_step_blocked_reasons {
                Some(StepBlockedReason::SourceState { source_channel, .. }) => {
                    CallerChannelStatus::OriginalStepSourceState(
                        OriginalStepSourceState { caller_channel, source_channel: *source_channel },
                    )
                },
                _ => CallerChannelStatus::OriginalStepFuture(OriginalStepFuture { caller_channel }),
            },
            CallerChannelBlockedReason::RepeatStep { step_id } => match self.repeat_step_blocked_reasons.get(&step_id) {
                Some(StepBlockedReason::SourceState { source_channel, .. }) => {
                    CallerChannelStatus::RepeatStepSourceState(
                        RepeatStepSourceState { caller_channel, step_id, source_channel: *source_channel },
                    )
                },
                Some(StepBlockedReason::Future { .. }) => {
                    CallerChannelStatus::RepeatStepFuture(RepeatStepFuture { caller_channel, step_id })
                },
                None => vstd::pervasive::unreached(),
            },
            CallerChannelBlockedReason::InterpolationSourceState { source_channel, .. } => {
                CallerChannelStatus::InterpolationSourceState(InterpolationSourceState { caller_channel, source_channel })
            },
            CallerChannelBlockedReason::InterpolationFuture { .. } => {
                CallerChannelStatus::InterpolationFuture(InterpolationFuture { caller_channel })
            },
        }
    }
}

impl CallerChannelStatus {
    /// The caller channel a status is about.
    pub open spec fn spec_caller_channel(self) -> usize {
        match self {
            CallerChannelStatus::Free(s) => s.caller_channel,
            CallerChannelStatus::OriginalStepSourceState(s) => s.caller_channel,
            CallerChannelStatus::OriginalStepFuture(s) => s.caller_channel,
            CallerChannelStatus::RepeatStepSourceState(s) => s.caller_channel,
            CallerChannelStatus::RepeatStepFuture(s) => s.caller_channel,
            CallerChannelStatus::InterpolationSourceState(s) => s.caller_channel,
            CallerChannelStatus::InterpolationFuture(s) => s.caller_channel,
        }
    }

    pub fn caller_channel(&self) -> (r: usize)
        ensures
            r == self.spec_caller_channel(),
    {
        match self {
            CallerChannelStatus::Free(s) => s.caller_channel(),
            CallerChannelStatus::OriginalStepSourceState(s) => s.caller_channel(),
            CallerChannelStatus::OriginalStepFuture(s) => s.caller_channel(),
            CallerChannelStatus::RepeatStepSourceState(s) => s.caller_channel(),
            CallerChannelStatus::RepeatStepFuture(s) => s.caller_channel(),
            CallerChannelStatus::InterpolationSourceState(s) => s.caller_channel(),
            CallerChannelStatus::InterpolationFuture(s) => s.caller_channel(),
        }
    }
}

impl Free {
    pub fn caller_channel(&self) -> (r: usize)
        ensures
            r == self.caller_channel,
    {
        self.caller_channel
    }
}

impl OriginalStepSourceState {
    pub fn caller_channel(&self) -> (r: usize)
        ensures
            r == self.caller_channel,
    {
        self.caller_channel
    }
}

impl OriginalStepFuture {
    pub fn caller_channel(&self) -> (r: usize)
        ensures
            r == self.caller_channel,
    {
        self.caller_channel
    }
}

impl RepeatStepSourceState {
    pub fn caller_channel(&self) -> (r: usize)
        ensures
            r == self.caller_channel,
    {
        self.caller_channel
    }
}

impl RepeatStepFuture {
    pub fn caller_channel(&self) -> (r: usize)
        ensures
            r == self.caller_channel,
    {
        self.caller_channel
    }
}

impl InterpolationSourceState {
    pub fn caller_channel(&self) -> (r: usize)
        ensures
            r == self.caller_channel,
    {
        self.caller_channel
    }
}

impl InterpolationFuture {
    pub fn caller_channel(&self) -> (r: usize)
        ensures
            r == self.caller_channel,
    {
        self.caller_channel
    }
}

} // verus!

verus! {

/// The status reported for a caller channel is about that channel.
pub proof fn status_names_its_channel<T: Transposer>(cs: ChannelStatuses<T>, caller_channel: usize)
    requires
        cs.wf(),
    ensures
        cs.status_of(caller_channel).spec_caller_channel() == caller_channel,
{
}

/// A caller channel with no pending operation is free, and a free status is
/// reported for no other.
pub proof fn free_exactly_when_unblocked<T: Transposer>(cs: ChannelStatuses<T>, caller_channel: usize)
    requires
        cs.wf(),
    ensures
        (cs.status_of(caller_channel) is Free) == !cs.blocked_caller_channels@.contains_key(caller_channel),
{
}

} // verus!
