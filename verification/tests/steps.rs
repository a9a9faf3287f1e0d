use rand::Rng;

use cozal::{
    DesaturateErr, ExpireEventError, ScheduleEventError, EngineTime, EngineTimeSchedule, InterpolatePollErr, NextUnsaturatedErr, PollErr, SaturateCloneErr,
    SaturateTakeErr, SequenceFramePoll, Step, StepGroup, StepGroupPoll, Transposer,
};

#[derive(Clone, Debug, PartialEq)]
struct Counter {
    count: usize,
}

impl Transposer for Counter {
    type Input = usize;
    type InputState = u8;
    type Scheduled = usize;
    type Output = usize;
    type OutputState = ();

    fn can_handle(_time: u64, _event: &Self::Input) -> bool {
        true
    }
}

fn at(time: u64, parent_index: usize, emission_index: usize) -> EngineTimeSchedule {
    EngineTimeSchedule { time, parent_index, emission_index }
}

/// An init step whose handler scheduled `payload` at `time` and completed.
fn saturated_init(time: u64, payload: usize) -> Step<Counter> {
    let mut init = Step::new_init(Counter { count: 0 }, [9; 32]);
    assert_eq!(init.schedule_event(time, payload), Ok(()));
    assert!(matches!(init.poll(Some(vec![])), Ok(SequenceFramePoll::ReadyNoOutputs)));
    init
}

#[test]
fn init_step_runs_and_hands_out_outputs() {
    let mut init = Step::new_init(Counter { count: 17 }, [0; 32]);
    assert!(init.is_saturating());
    assert!(init.is_original());
    assert_eq!(init.raw_time(), 0);
    assert_eq!(init.time().index(), 0);
    assert!(matches!(init.poll(None), Ok(SequenceFramePoll::Pending)));
    match init.poll(Some(vec![1, 2])) {
        Ok(SequenceFramePoll::ReadyOutputs(o)) => assert_eq!(o, vec![1, 2]),
        _ => panic!("poll wasn't ready"),
    }
    assert!(init.is_saturated());
    assert!(!init.can_be_taken());
    assert_eq!(init.finished_transposer(), Some(&Counter { count: 17 }));
    assert!(init.poll(None).is_err());
    assert_eq!(init.rollback(), Ok((true, None)));
}

#[test]
fn next_step_is_the_earliest_of_inputs_and_schedule() {
    let init = saturated_init(10, 99);

    let mut inputs = Some((5u64, vec![1usize].into_boxed_slice()));
    let next = init.next_unsaturated(&mut inputs).unwrap().unwrap();
    assert!(inputs.is_none());
    assert_eq!(next.raw_time(), 5);
    assert_eq!(next.time().index(), 1);
    assert!(next.is_unsaturated());
    assert!(next.is_original());

    let mut inputs = Some((10u64, vec![2usize].into_boxed_slice()));
    let next = init.next_unsaturated(&mut inputs).unwrap().unwrap();
    assert!(inputs.is_none());
    assert_eq!(next.raw_time(), 10);
    let (emitted, back) = next.rollback().unwrap();
    assert!(!emitted);
    assert_eq!(back.map(|b| b.to_vec()), Some(vec![2]));

    let mut inputs = Some((20u64, vec![3usize].into_boxed_slice()));
    let next = init.next_unsaturated(&mut inputs).unwrap().unwrap();
    assert!(inputs.is_some());
    assert_eq!(next.raw_time(), 10);
    assert_eq!(next.rollback(), Ok((false, None)));

    let lone = Step::new_init(Counter { count: 1 }, [0; 32]);
    assert!(lone.next_unsaturated(&mut None).is_err());
    assert!(lone.next_unsaturated_same_time().is_err());
    assert!(init.next_unsaturated_same_time().unwrap().is_none());
}

#[test]
fn taking_the_frame_moves_it_forward() {
    let mut init = saturated_init(10, 99);
    let mut next = init.next_unsaturated(&mut None).unwrap().unwrap();
    assert!(next.saturate_take(&mut init).is_ok());
    assert!(!init.is_saturated());
    assert!(!init.is_unsaturated());
    assert!(next.is_saturating());
    assert_eq!(next.scheduled_payload(), Some(&99));
    assert!(next.saturate_take(&mut init).is_err());
    assert!(next.frame_mut().unwrap().get_next_scheduled_time().is_none());
    match next.poll(Some(vec![7])) {
        Ok(SequenceFramePoll::ReadyOutputs(o)) => assert_eq!(o, vec![7]),
        _ => panic!("poll wasn't ready"),
    }
    assert!(next.can_be_taken());
    assert!(next.next_unsaturated(&mut None).unwrap().is_none());
}

#[test]
fn repeated_step_emits_nothing() {
    let mut init = saturated_init(50, 1);
    let keep = saturated_init(50, 1);
    let mut inputs = Some((5u64, vec![4usize].into_boxed_slice()));
    let mut step = init.next_unsaturated(&mut inputs).unwrap().unwrap();
    assert!(step.saturate_take(&mut init).is_ok());
    assert!(matches!(step.poll(Some(vec![11])), Ok(SequenceFramePoll::ReadyOutputs(_))));
    assert_eq!(step.desaturate(), Ok(()));
    assert!(step.is_unsaturated());
    assert!(!step.is_original());
    assert!(step.saturate_clone(&keep).is_ok());
    assert!(matches!(step.poll(Some(vec![12])), Ok(SequenceFramePoll::ReadyNoOutputs)));
    let (emitted, back) = step.rollback().unwrap();
    assert!(emitted);
    assert_eq!(back.map(|b| b.to_vec()), Some(vec![4]));
}

#[test]
fn step_refusals() {
    let mut input = Step::<Counter>::new_input(EngineTime::new_input(1, 3), vec![1].into_boxed_slice());
    assert!(input.poll(None).is_err());
    assert!(input.desaturate().is_err());
    assert_eq!(input.set_input_state(4), Err(4));
    let mut other = Step::<Counter>::new_scheduled(EngineTime::new_scheduled(1, at(3, 0, 0)));
    assert!(input.saturate_take(&mut other).is_err());
    let mut init = Step::new_init(Counter { count: 0 }, [0; 32]);
    assert!(init.desaturate().is_err());
    assert!(init.is_saturating());
    assert_eq!(init.set_input_state(1), Ok(()));
    assert_eq!(init.set_input_state(2), Err(2));
    assert!(matches!(init.poll(None), Ok(SequenceFramePoll::Pending)));
}

#[test]
fn same_time_events_run_in_one_group() {
    let mut group = StepGroup::new_init(Counter { count: 0 }, [5; 32]);
    assert!(group.is_desaturated());
    assert!(group.is_init());
    assert_eq!(group.current_step_mut().unwrap().schedule_event(0, 1), Ok(()));
    let (p, out) = group.poll(0, Some(vec![100])).unwrap();
    assert_eq!(p, StepGroupPoll::Pending);
    assert_eq!(out, vec![100]);
    assert!(!group.is_saturated());

    let (p, out) = group.poll(1, Some(vec![5])).unwrap();
    assert_eq!(p, StepGroupPoll::Pending);
    assert!(out.is_empty());
    assert_eq!(group.wake_waiting(), vec![0, 1]);
    assert_eq!(group.current_step_mut().unwrap().scheduled_payload(), Some(&1));

    let (p, out) = group.poll(0, Some(vec![200])).unwrap();
    assert_eq!(p, StepGroupPoll::Ready);
    assert_eq!(out, vec![200]);
    assert!(group.is_saturated());
    assert_eq!(group.time(), 0);
    assert_eq!(group.final_transposer(), Ok(&Counter { count: 0 }));
    assert!(group.final_step().is_ok());

    let (p, out) = group.poll(2, None).unwrap();
    assert_eq!(p, StepGroupPoll::Ready);
    assert!(out.is_empty());
}

#[test]
fn groups_follow_each_other() {
    let mut init = StepGroup::new_init(Counter { count: 0 }, [5; 32]);
    assert_eq!(init.current_step_mut().unwrap().schedule_event(30, 3), Ok(()));
    assert_eq!(init.poll(0, Some(vec![])).unwrap().0, StepGroupPoll::Ready);

    let mut inputs = Some((10u64, vec![1usize].into_boxed_slice()));
    let (next, woken) = init.next_unsaturated(&mut inputs).unwrap();
    let mut next = next.unwrap();
    assert!(woken.is_empty());
    assert!(inputs.is_none());
    assert_eq!(next.time(), 10);
    assert!(!next.is_init());
    assert_eq!(next.poll(0, None), Err(PollErr::Unsaturated));

    assert_eq!(next.saturate_take(&mut init), Ok(()));
    assert!(!init.is_saturated());
    assert_eq!(next.saturate_take(&mut init), Err(SaturateTakeErr::PreviousNotSaturated));
    assert_eq!(next.poll(3, Some(vec![8])).unwrap(), (StepGroupPoll::Ready, vec![8]));

    let (after, _) = next.next_unsaturated(&mut None).unwrap();
    let mut after = after.unwrap();
    assert_eq!(after.time(), 30);
    let mut other = StepGroup::new_init(Counter { count: 0 }, [5; 32]);
    assert_eq!(after.saturate_clone(&other), Err(SaturateCloneErr::PreviousNotSaturated));
    assert_eq!(other.saturate_take(&mut next), Err(SaturateTakeErr::SelfNotUnsaturated));
    assert_eq!(after.saturate_clone(&next), Ok(()));
    assert_eq!(after.saturate_clone(&next), Err(SaturateCloneErr::SelfNotUnsaturated));
    assert_eq!(after.poll(0, None).unwrap(), (StepGroupPoll::Pending, vec![]));
    assert_eq!(after.set_input_state(1), Ok(()));
    assert_eq!(after.set_input_state(2), Err(2));
    assert_eq!(after.wake_waiting(), vec![0]);
    assert_eq!(after.poll(0, Some(vec![9])).unwrap(), (StepGroupPoll::Ready, vec![9]));
}

#[test]
fn desaturating_groups() {
    let mut init = StepGroup::new_init(Counter { count: 0 }, [5; 32]);
    assert_eq!(init.poll(0, Some(vec![])).unwrap().0, StepGroupPoll::Ready);
    let mut inputs = Some((10u64, vec![1usize].into_boxed_slice()));
    let mut next = init.next_unsaturated(&mut inputs).unwrap().0.unwrap();
    assert_eq!(next.desaturate(), Err(DesaturateErr::AlreadyUnsaturated));
    assert_eq!(next.saturate_take(&mut init), Ok(()));
    assert_eq!(next.poll(4, None).unwrap().0, StepGroupPoll::Pending);
    assert_eq!(next.desaturate(), Err(DesaturateErr::ActiveWakers));
    assert_eq!(next.wake_waiting(), vec![4]);
    assert_eq!(next.poll(4, None), Err(PollErr::Unsaturated));
    assert_eq!(next.wake_waiting(), vec![4]);
    assert!(next.next_unsaturated(&mut None).is_err());
    assert_eq!(next.next_unsaturated(&mut None).err(), Some(NextUnsaturatedErr::NotSaturated));
}

#[test]
fn interpolation_refusals() {
    let mut init = StepGroup::new_init(Counter { count: 0 }, [5; 32]);
    assert!(matches!(init.interpolate_poll(3, 0), Err(InterpolatePollErr::NotSaturated)));
    init.remove_interpolation(0);
    assert!(init.final_step().is_err());
    assert!(init.final_transposer().is_err());
    assert!(!init.is_saturated());
}

#[test]
fn handlers_schedule_in_order_and_never_in_the_past() {
    let mut init = saturated_init(10, 1);
    let mut inputs = Some((10u64, vec![0usize].into_boxed_slice()));
    let mut step = init.next_unsaturated(&mut inputs).unwrap().unwrap();
    assert!(step.saturate_take(&mut init).is_ok());
    assert_eq!(step.schedule_event(9, 2), Err(ScheduleEventError::NewEventBeforeCurrent));
    assert_eq!(step.schedule_event(12, 3), Ok(()));
    assert_eq!(step.schedule_event(12, 4), Ok(()));
    let handle = step.schedule_event_expireable(11, 5).unwrap();
    assert_eq!(step.frame_mut().unwrap().metadata.expire_event(handle), Ok((11, 5)));
    assert_eq!(
        step.frame_mut().unwrap().metadata.expire_event(handle),
        Err(ExpireEventError::InvalidOrUsedHandle)
    );
    let frame = step.frame_mut().unwrap();
    let mut order = Vec::new();
    while let Some((key, payload)) = frame.pop_schedule_event() {
        order.push((key.time, key.parent_index, key.emission_index, payload));
    }
    // the init's event at 10, then the two at 12 in the order they were
    // scheduled (the third emission was the expired one)
    assert_eq!(order, vec![(10, 0, 0, 1), (12, 1, 0, 3), (12, 1, 1, 4)]);
}

struct CountingWaker {
    wake_count: std::sync::atomic::AtomicUsize,
}

impl std::task::Wake for CountingWaker {
    fn wake(self: std::sync::Arc<Self>) {
        self.wake_count.fetch_add(1, std::sync::atomic::Ordering::SeqCst);
    }
}

#[test]
fn a_step_waiting_for_the_input_state_needs_it() {
    let counter = std::sync::Arc::new(CountingWaker { wake_count: std::sync::atomic::AtomicUsize::new(0) });
    let mut group = StepGroup::new_init(Counter { count: 0 }, [8; 32]);
    let step = group.current_step_mut().unwrap();
    assert_eq!(step.request_input_state(std::task::Waker::from(counter.clone())), None);
    assert_eq!(group.poll(0, None).unwrap(), (StepGroupPoll::NeedsState, vec![]));
    assert_eq!(group.wake_waiting(), vec![0]);
    assert_eq!(group.set_input_state(6), Ok(()));
    assert_eq!(counter.wake_count.load(std::sync::atomic::Ordering::SeqCst), 1);
    assert_eq!(group.poll(0, None).unwrap(), (StepGroupPoll::Pending, vec![]));
    let step = group.current_step_mut().unwrap();
    assert_eq!(step.request_input_state(std::task::Waker::from(counter.clone())), Some(6));
    assert_eq!(group.wake_waiting(), vec![0]);
    assert_eq!(group.poll(0, Some(vec![1])).unwrap(), (StepGroupPoll::Ready, vec![1]));
    assert_eq!(group.set_input_state(7), Err(7));
}

#[derive(Clone, Debug)]
struct TestTransposer {
    counter: usize,
}

impl Transposer for TestTransposer {
    type Input = ();
    type InputState = ();
    type Scheduled = ();
    type Output = usize;
    type OutputState = ();

    fn can_handle(_time: u64, _event: &Self::Input) -> bool {
        true
    }
}

/// The scheduled handler of `TestTransposer`: schedules the next event one
/// tick later, counts, and emits ten times the count.
fn handle_scheduled(step: &mut Step<TestTransposer>) -> Result<SequenceFramePoll<usize>, ()> {
    let time = step.raw_time();
    step.schedule_event(time + 1, ()).unwrap();
    let frame = step.frame_mut().unwrap();
    frame.transposer.counter += 1;
    let count = frame.transposer.counter;
    step.poll(Some(vec![count * 10]))
}

#[test]
fn init_saturate() {
    let transposer = TestTransposer { counter: 17 };
    let rng_seed: [u8; 32] = rand::thread_rng().gen();
    let mut input_buffer: Option<(u64, Box<[()]>)> = None;

    let mut init = Step::new_init(transposer, rng_seed);

    // the init handler: reset the count and schedule the first event at 0
    init.frame_mut().unwrap().transposer.counter = 0;
    init.schedule_event(0, ()).unwrap();
    assert!(matches!(init.poll(Some(vec![])), Ok(SequenceFramePoll::ReadyNoOutputs)));

    let mut scheduled = init.next_unsaturated(&mut input_buffer).unwrap().unwrap();
    scheduled.saturate_clone(&init).unwrap();

    assert!(matches!(handle_scheduled(&mut scheduled), Ok(SequenceFramePoll::ReadyOutputs(_))));

    for i in 2..100 {
        let mut scheduled_next = scheduled.next_unsaturated(&mut input_buffer).unwrap().unwrap();
        scheduled_next.saturate_take(&mut scheduled).unwrap();

        let poll_result = handle_scheduled(&mut scheduled_next);
        if let SequenceFramePoll::ReadyOutputs(o) = poll_result.unwrap() {
            assert_eq!(o.len(), 1);
            assert_eq!(*o.first().unwrap(), i * 10);
        }

        scheduled = scheduled_next;
    }
}

#[test]
fn a_running_update_reports_when_it_can_schedule_expireable_events() {
    let mut init = Step::new_init(Counter { count: 0 }, [3; 32]);
    assert!(init.can_schedule_expireable(5));
    let handle = init.schedule_event_expireable(5, 1);
    assert!(handle.is_ok());
    // the next event gets a new emission index, so its key is still free
    assert!(init.can_schedule_expireable(5));
}
