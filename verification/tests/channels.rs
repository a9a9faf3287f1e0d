use std::sync::Arc;
use std::task::{Wake, Waker};

use cozal::{
    BlockedPoll, FutureOutcome,
    CallerChannelBlockedReason, CallerChannelStatus, ChannelStatuses, Free, InterpolationFuture,
    InterpolationSourceState, OriginalStepFuture, OriginalStepSourceState, RepeatStepFuture, RepeatStepSourceState,
    InnerPoll, PollResult, SourcePollErr, SourcePollOk, StepBlockedReason, Steps, TransposeInner, Transposer,
};

#[derive(Clone, Debug, PartialEq)]
struct Echo;

impl Transposer for Echo {
    type Input = u32;
    type InputState = ();
    type Scheduled = u32;
    type Output = u32;
    type OutputState = ();

    fn can_handle(_time: u64, _event: &Self::Input) -> bool {
        true
    }
}

#[test]
fn steps_keep_their_sequence_numbers() {
    let mut steps = Steps::new(Echo, [1; 32]);
    assert!(steps.get_by_sequence_number(0).is_some());
    assert!(steps.get_by_sequence_number(1).is_none());
    assert!(steps.get_mut_by_sequence_number(0).is_some());
    assert!(steps.get_mut_by_sequence_number(7).is_none());
    let last = steps.get_last_mut();
    assert!(last.first_emitted_id.is_none());
    last.first_emitted_id = Some(3);
    assert_eq!(steps.get_by_sequence_number(0).unwrap().first_emitted_id, Some(3));
    assert!(steps.get_by_sequence_number(0).unwrap().step.is_saturating());
    // the only step is the one the search starts from: nothing comes before it
    assert!(steps.get_last_saturating_before_or_at(0).is_none());
    assert!(steps.get_last_saturating_before_or_at(100).is_none());
}

#[test]
fn inner_state_reports_its_working_step_and_schedule() {
    let mut inner = TransposeInner::new(Echo, [2; 32]);
    assert_eq!(inner.get_scheduled_time(), Some(0));
    let step = inner.get_working_step(50);
    assert!(step.is_saturating());
    assert_eq!(step.raw_time(), 0);
    assert!(matches!(inner.poll_output_buffer(10), SourcePollOk::Ready(())));
}

#[test]
fn polls_start_from_the_steps_at_or_before_the_time() {
    let inner = TransposeInner::new(Echo, [4; 32]);
    assert!(matches!(inner.calculate_starting_step_index::<()>(0), Ok(1)));
    assert!(matches!(inner.calculate_starting_step_index::<()>(77), Ok(1)));
}

#[test]
fn free_channels_and_blocked_ones() {
    let mut statuses = ChannelStatuses::new(Echo, [3; 32]);
    assert_eq!(statuses.get_channel_status(3), CallerChannelStatus::Free(Free { caller_channel: 3 }));
    assert_eq!(statuses.get_channel_status(3).caller_channel(), 3);

    statuses.blocked_source_channels.insert(8, ());
    statuses.original_step_blocked_reasons = Some(StepBlockedReason::SourceState { source_channel: 8, waiting: vec![1] });
    statuses.blocked_caller_channels.insert(1, CallerChannelBlockedReason::OriginalStep);
    assert_eq!(
        statuses.get_channel_status(1),
        CallerChannelStatus::OriginalStepSourceState(OriginalStepSourceState { caller_channel: 1, source_channel: 8 })
    );

    statuses.original_step_blocked_reasons = Some(StepBlockedReason::Future { waiting: vec![1] });
    assert_eq!(
        statuses.get_channel_status(1),
        CallerChannelStatus::OriginalStepFuture(OriginalStepFuture { caller_channel: 1 })
    );

    statuses.repeat_step_blocked_reasons.insert(0, StepBlockedReason::SourceState { source_channel: 8, waiting: vec![] });
    statuses.blocked_caller_channels.insert(2, CallerChannelBlockedReason::RepeatStep { step_id: 0 });
    assert_eq!(
        statuses.get_channel_status(2),
        CallerChannelStatus::RepeatStepSourceState(RepeatStepSourceState {
            caller_channel: 2,
            step_id: 0,
            source_channel: 8,
        })
    );
    statuses.repeat_step_blocked_reasons.insert(0, StepBlockedReason::Future { waiting: vec![2] });
    assert_eq!(
        statuses.get_channel_status(2),
        CallerChannelStatus::RepeatStepFuture(RepeatStepFuture { caller_channel: 2, step_id: 0 })
    );

    statuses.blocked_caller_channels.insert(
        4,
        CallerChannelBlockedReason::InterpolationSourceState { source_channel: 8, forget: false },
    );
    assert_eq!(
        statuses.get_channel_status(4),
        CallerChannelStatus::InterpolationSourceState(InterpolationSourceState { caller_channel: 4, source_channel: 8 })
    );
    statuses.blocked_caller_channels.insert(5, CallerChannelBlockedReason::InterpolationFuture { forget: true });
    assert_eq!(
        statuses.get_channel_status(5),
        CallerChannelStatus::InterpolationFuture(InterpolationFuture { caller_channel: 5 })
    );
    for c in [1usize, 2, 4, 5, 6] {
        assert_eq!(statuses.get_channel_status(c).caller_channel(), c);
    }
    assert_eq!(Free { caller_channel: 6 }.caller_channel(), 6);
    assert_eq!(RepeatStepFuture { caller_channel: 7, step_id: 1 }.caller_channel(), 7);
}

#[test]
fn a_poll_pass_hands_out_the_first_output_and_buffers_the_rest() {
    let mut inner = TransposeInner::new(Echo, [5; 32]);
    assert!(matches!(inner.poll_steps_step(5, 2, 0, None), InnerPoll::Pending));
    assert!(matches!(
        inner.poll_steps_step(5, 2, 0, Some(vec![1, 2, 3])),
        InnerPoll::Output { time: 0, output: 1 }
    ));
    assert!(matches!(inner.poll_output_buffer(5), SourcePollOk::Event(2, 0)));
    assert!(matches!(inner.poll_output_buffer(5), SourcePollOk::Event(3, 0)));
    assert!(matches!(inner.poll_output_buffer(5), SourcePollOk::Ready(())));
    assert!(matches!(inner.poll_steps_step(5, 2, 0, None), InnerPoll::Interpolate { step_index: 0 }));
}

#[test]
fn source_answers_change_inputs_and_state() {
    let mut inner = TransposeInner::new(Echo, [6; 32]);
    assert!(matches!(inner.handle_state_poll::<()>(9, 0, SourcePollOk::Ready(())), Ok(0)));
    // a change of inputs restarts from the number of steps at or before the poll
    assert!(matches!(inner.handle_state_poll::<()>(9, 0, SourcePollOk::Event(7, 3)), Ok(1)));
    assert!(matches!(inner.handle_state_poll::<()>(9, 0, SourcePollOk::Finalize(4)), Ok(1)));
    assert!(matches!(inner.handle_state_poll::<()>(9, 0, SourcePollOk::Rollback(3)), Ok(1)));
    assert!(inner.can_poll_from(0));
    assert!(!inner.can_poll_from(1));
    assert!(matches!(inner.poll_output_buffer(2), SourcePollOk::Scheduled((), 3)));
    assert!(matches!(inner.poll_output_buffer(3), SourcePollOk::Rollback(3)));
}

struct Quiet;

impl Wake for Quiet {
    fn wake(self: Arc<Self>) {}
}

#[test]
fn a_step_that_asks_for_state_sends_the_poll_to_the_source() {
    let mut inner = TransposeInner::new(Echo, [7; 32]);
    assert!(inner.get_working_step(4).request_input_state(Waker::from(Arc::new(Quiet))).is_none());
    assert!(matches!(
        inner.poll_steps_step(4, 3, 0, None),
        InnerPoll::NeedsState { time: 4, channel: 7, step_index: 0 }
    ));
    assert!(inner.can_take_state(0));
    assert!(!inner.can_take_state(1));
    assert!(matches!(inner.handle_state_poll::<()>(4, 0, SourcePollOk::Scheduled((), 11)), Ok(0)));
    assert!(!inner.can_take_state(0));
    assert_eq!(inner.get_scheduled_time(), Some(0));
    assert!(matches!(inner.poll_steps_step(4, 3, 0, None), InnerPoll::Pending));
}

#[test]
fn source_answers_to_its_own_poll() {
    let mut inner = TransposeInner::new(Echo, [8; 32]);
    assert!(matches!(inner.handle_source_poll::<u8, ()>(None), Ok(PollResult::Pending)));
    assert!(matches!(
        inner.handle_source_poll::<u8, ()>(Some(Err(SourcePollErr::PollBeforeDefault))),
        Err(SourcePollErr::PollBeforeDefault)
    ));
    assert!(matches!(inner.handle_source_poll::<u8, ()>(Some(Ok(SourcePollOk::Event(4, 2)))), Ok(PollResult::PollAgain)));
    assert!(matches!(inner.handle_source_poll::<u8, ()>(Some(Ok(SourcePollOk::Scheduled(6, 30)))), Ok(PollResult::Ready(6))));
    assert_eq!(inner.get_scheduled_time(), Some(0));
    assert!(matches!(inner.handle_source_poll::<u8, ()>(Some(Ok(SourcePollOk::Ready(7)))), Ok(PollResult::Ready(7))));
    assert!(matches!(inner.handle_source_poll::<u8, ()>(Some(Ok(SourcePollOk::Rollback(1)))), Ok(PollResult::PollAgain)));
    assert!(matches!(inner.poll_output_buffer(5), SourcePollOk::Rollback(1)));
}

#[test]
fn blocked_channels_poll_wait_or_finish() {
    let mut statuses = ChannelStatuses::new(Echo, [9; 32]);
    statuses.blocked_source_channels.insert(4, ());
    statuses.blocked_caller_channels.insert(
        1,
        CallerChannelBlockedReason::InterpolationSourceState { source_channel: 4, forget: true },
    );
    assert!(matches!(
        statuses.handle_blocked_channel::<u8>(1, 30, false, FutureOutcome::Pending),
        BlockedPoll::Poll { time: 30, source_channel: 4, forget: false }
    ));
    assert_eq!(
        statuses.blocked_caller_channels.get(&1),
        Some(&CallerChannelBlockedReason::InterpolationSourceState { source_channel: 4, forget: false })
    );

    statuses.blocked_caller_channels.insert(2, CallerChannelBlockedReason::InterpolationFuture { forget: true });
    assert!(matches!(
        statuses.handle_blocked_channel::<u8>(2, 30, true, FutureOutcome::Pending),
        BlockedPoll::Pending
    ));
    assert!(matches!(
        statuses.handle_blocked_channel::<u8>(2, 30, true, FutureOutcome::Ready(5)),
        BlockedPoll::Ready(5)
    ));
    assert!(statuses.blocked_caller_channels.get(&2).is_none());

    statuses.repeat_step_blocked_reasons.insert(0, StepBlockedReason::SourceState { source_channel: 4, waiting: vec![] });
    statuses.blocked_caller_channels.insert(3, CallerChannelBlockedReason::RepeatStep { step_id: 0 });
    statuses.blocked_caller_channels.insert(5, CallerChannelBlockedReason::RepeatStep { step_id: 0 });
    assert!(matches!(
        statuses.handle_blocked_channel::<u8>(3, 40, true, FutureOutcome::Pending),
        BlockedPoll::Poll { time: 40, source_channel: 4, forget: false }
    ));
    assert!(matches!(
        statuses.handle_blocked_channel::<u8>(5, 40, true, FutureOutcome::Pending),
        BlockedPoll::Pending
    ));
}
