//! Building blocks of a time-travelling event engine: timestamps, input and
//! output buffers, a pinned chunked stack, a sparsely buffered stack, a
//! scheduled-event frame, and the state machines that drive steps, step
//! groups and caller channels.
use vstd::prelude::*;

pub mod channel_statuses;
pub mod engine_time;
pub mod expire_handle;
pub mod frame;
pub mod frame_update;
mod handle_maps;
pub mod input_buffer;
pub mod lazy_state;
pub mod output_buffer;
pub mod pin_stack;
pub mod source_context;
pub mod source_poll;
pub mod sparse_buffer_stack;
pub mod step;
pub mod step_group;
pub mod steps;
pub mod transpose_inner;
pub mod transposer;
mod waker;
mod word_bits;

pub use channel_statuses::{
    BlockedPoll, FutureOutcome, CallerChannelBlockedReason, CallerChannelStatus, ChannelStatuses, Free, InterpolationFuture,
    InterpolationSourceState, OriginalStepFuture, OriginalStepSourceState, RepeatStepFuture,
    RepeatStepSourceState, StepBlockedReason,
};
pub use engine_time::{EngineTime, EngineTimeSchedule};
pub use expire_handle::{ExpireHandle, ExpireHandleFactory};
pub use frame::{ExpireEventError, Frame, FrameMetaData};
pub use frame_update::{FrameUpdate, FrameUpdatePhase, ScheduleEventError, UpdateResult};
pub use input_buffer::InputBuffer;
pub use lazy_state::{LazyState, LazyStateInner};
pub use output_buffer::{OutputBuffer, OutputType};
pub use pin_stack::{KeyBound, PinStack, RangeMutBy};
pub use source_context::SourceContext;
pub use source_poll::{SourcePollErr, SourcePollOk};
pub use sparse_buffer_stack::SparseBufferStack;
pub use step::{OutputsEmitted, SequenceFramePoll, Step, StepState};
pub use step_group::{
    DesaturateErr, InterpolatePoll, InterpolatePollErr, NextUnsaturatedErr, PollErr, SaturateCloneErr,
    SaturateTakeErr, StepGroup, StepGroupKind, StepGroupPoll,
};
pub use steps::{StepWrapper, Steps};
pub use transpose_inner::{InnerPoll, PollResult, TransposeInner};
pub use transposer::Transposer;
