use cozal::{EngineTimeSchedule, ExpireEventError, Frame, FrameMetaData, Transposer};
use rand::Rng;
use rand::RngCore;

#[derive(Clone)]
struct TestTransposer {}

impl Transposer for TestTransposer {
    type Input = ();
    type InputState = ();
    type Scheduled = usize;
    type Output = ();
    type OutputState = ();

    fn can_handle(_time: u64, _event: &Self::Input) -> bool {
        true
    }
}

fn at(time: u64, parent_index: usize, emission_index: usize) -> EngineTimeSchedule {
    EngineTimeSchedule { time, parent_index, emission_index }
}

#[test]
fn frame_internal() {
    let seed = rand::thread_rng().gen();
    let mut internal = FrameMetaData::<usize>::new(seed);

    assert_eq!(internal.schedule_len(), 0);
    assert_eq!(internal.handle_count(), 0);
    assert_eq!(internal.handled_event_count(), 0);

    for i in 0..100 {
        internal.schedule_event(at(10, 0, i), i)
    }

    assert_eq!(internal.schedule_len(), 100);
    assert_eq!(internal.handle_count(), 0);
    assert_eq!(internal.handled_event_count(), 0);

    let mut exp_handles = Vec::new();

    for i in 0..100 {
        exp_handles.push((internal.schedule_event_expireable(at(20, 0, 100 + i), i), i))
    }

    assert_eq!(internal.schedule_len(), 200);
    assert_eq!(internal.handle_count(), 100);
    assert_eq!(internal.handled_event_count(), 100);

    for i in 0..100 {
        internal.schedule_event(at(5 + i as u64, 0, 200 + i), i)
    }

    assert_eq!(internal.schedule_len(), 300);
    assert_eq!(internal.handle_count(), 100);
    assert_eq!(internal.handled_event_count(), 100);

    for (handle, payload) in exp_handles {
        let r = internal.expire_event(handle);
        if let Ok((t, p)) = r {
            assert_eq!(t, 20);
            assert_eq!(p, payload);
        } else {
            panic!("expiration error");
        }
    }

    assert_eq!(internal.schedule_len(), 200);
    assert_eq!(internal.handle_count(), 0);
    assert_eq!(internal.handled_event_count(), 0);
}

#[test]
fn frame_internal_pop() {
    let seed = rand::thread_rng().gen();
    let mut internal = FrameMetaData::<usize>::new(seed);

    assert_eq!(internal.schedule_len(), 0);
    assert_eq!(internal.handle_count(), 0);
    assert_eq!(internal.handled_event_count(), 0);

    internal.schedule_event(at(10, 0, 0), 17);

    assert_eq!(internal.schedule_len(), 1);
    assert_eq!(internal.handle_count(), 0);
    assert_eq!(internal.handled_event_count(), 0);

    internal.schedule_event_expireable(at(20, 0, 1), 23);

    assert_eq!(internal.schedule_len(), 2);
    assert_eq!(internal.handle_count(), 1);
    assert_eq!(internal.handled_event_count(), 1);

    assert_eq!(internal.get_next_scheduled_time().unwrap().time, 10);
    assert_eq!(internal.pop_first_event().unwrap().1, 17);

    assert_eq!(internal.schedule_len(), 1);
    assert_eq!(internal.handle_count(), 1);
    assert_eq!(internal.handled_event_count(), 1);

    assert_eq!(internal.get_next_scheduled_time().unwrap().time, 20);
    assert_eq!(internal.pop_first_event().unwrap().1, 23);

    assert_eq!(internal.schedule_len(), 0);
    assert_eq!(internal.handle_count(), 0);
    assert_eq!(internal.handled_event_count(), 0);

    assert!(internal.get_next_scheduled_time().is_none());
    assert!(internal.pop_first_event().is_none());
}

#[test]
fn frame_internal_failed_expire() {
    let seed = rand::thread_rng().gen();
    let mut internal = FrameMetaData::<usize>::new(seed);

    let handle = internal.schedule_event_expireable(at(10, 0, 0), 17);

    assert!(internal.pop_first_event().is_some());

    assert!(internal.expire_event(handle).is_err());
}

#[test]
fn frame() {
    let transposer = TestTransposer {};
    let seed = rand::thread_rng().gen();
    let mut frame = Frame::new(transposer, seed);

    assert!(frame.get_next_scheduled_time().is_none());
    assert!(frame.pop_schedule_event().is_none());

    for i in 3..10 {
        frame.metadata.schedule_event(at(5 + i as u64, 0, i), i)
    }

    assert_eq!(frame.get_next_scheduled_time().unwrap().time, 8);
    let (t, p) = frame.pop_schedule_event().unwrap();
    assert_eq!(t.time, 8);
    assert_eq!(p, 3);
}

#[test]
fn frame_clone() {
    let transposer = TestTransposer {};
    let seed = rand::thread_rng().gen();
    let mut frame = Frame::new(transposer, seed);

    assert!(frame.get_next_scheduled_time().is_none());
    assert!(frame.pop_schedule_event().is_none());

    for i in 3..10 {
        frame.metadata.schedule_event(at(5 + i as u64, 0, i), i)
    }

    let mut frame_clone = frame.clone();

    assert_eq!(frame.get_next_scheduled_time().unwrap().time, 8);
    let (t, p) = frame.pop_schedule_event().unwrap();
    assert_eq!(t.time, 8);
    assert_eq!(p, 3);

    assert_eq!(frame_clone.get_next_scheduled_time().unwrap().time, 8);
    let (t, p) = frame_clone.pop_schedule_event().unwrap();
    assert_eq!(t.time, 8);
    assert_eq!(p, 3);
}

#[test]
fn expiring_twice_is_refused() {
    let mut internal = FrameMetaData::<usize>::new([7; 32]);
    let handle = internal.schedule_event_expireable(at(10, 0, 0), 5);
    assert_eq!(internal.expire_event(handle), Ok((10, 5)));
    assert_eq!(internal.expire_event(handle), Err(ExpireEventError::InvalidOrUsedHandle));
    assert_eq!(internal.schedule_len(), 0);
}

#[test]
fn expire_gives_back_its_own_event_only() {
    let mut internal = FrameMetaData::<usize>::new([1; 32]);
    internal.schedule_event(at(3, 0, 0), 30);
    let first = internal.schedule_event_expireable(at(10, 1, 0), 100);
    let second = internal.schedule_event_expireable(at(10, 1, 1), 101);
    assert_ne!(first, second);
    assert_eq!(internal.expire_event(second), Ok((10, 101)));
    assert_eq!(internal.schedule_len(), 2);
    assert_eq!(internal.handle_count(), 1);
    assert_eq!(internal.expire_event(first), Ok((10, 100)));
    assert_eq!(internal.pop_first_event().map(|(k, p)| (k.time, p)), Some((3, 30)));
    assert!(internal.pop_first_event().is_none());
}

#[test]
fn schedule_event_replaces_the_same_entry() {
    let mut internal = FrameMetaData::<usize>::new([0; 32]);
    internal.schedule_event(at(4, 2, 2), 1);
    internal.schedule_event(at(4, 2, 2), 2);
    assert_eq!(internal.schedule_len(), 1);
    assert_eq!(internal.pop_first_event().unwrap().1, 2);
}

#[test]
fn schedule_orders_by_time_then_parent_then_emission() {
    let mut internal = FrameMetaData::<usize>::new([0; 32]);
    internal.schedule_event(at(5, 1, 0), 3);
    internal.schedule_event(at(5, 0, 9), 2);
    internal.schedule_event(at(5, 0, 1), 1);
    internal.schedule_event(at(6, 0, 0), 4);
    internal.schedule_event(at(4, 9, 9), 0);
    let mut order = Vec::new();
    while let Some((_, p)) = internal.pop_first_event() {
        order.push(p);
    }
    assert_eq!(order, vec![0, 1, 2, 3, 4]);
}

#[test]
fn popping_an_expireable_event_retires_its_handle() {
    let mut internal = FrameMetaData::<usize>::new([0; 32]);
    let handle = internal.schedule_event_expireable(at(1, 0, 0), 9);
    internal.schedule_event_expireable(at(2, 0, 0), 8);
    assert_eq!(internal.pop_first_event().unwrap().1, 9);
    assert_eq!(internal.handle_count(), 1);
    assert_eq!(internal.handled_event_count(), 1);
    assert_eq!(internal.expire_event(handle), Err(ExpireEventError::InvalidOrUsedHandle));
}

#[test]
fn same_seed_gives_the_same_generator() {
    let mut a = FrameMetaData::<usize>::new([42; 32]);
    let mut b = FrameMetaData::<usize>::new([42; 32]);
    let mut c = FrameMetaData::<usize>::new([43; 32]);
    let x = a.rng.next_u64();
    assert_eq!(x, b.rng.next_u64());
    assert_ne!(x, c.rng.next_u64());
}

#[test]
fn clone_keeps_the_generator_position_and_handles() {
    let mut a = FrameMetaData::<usize>::new([3; 32]);
    let handle = a.schedule_event_expireable(at(7, 0, 0), 70);
    a.rng.next_u64();
    let mut b = a.clone();
    assert_eq!(a.rng.next_u64(), b.rng.next_u64());
    assert_eq!(b.handle_count(), 1);
    assert_eq!(b.handled_event_count(), 1);
    assert_eq!(b.expire_event(handle), Ok((7, 70)));
    assert_eq!(a.schedule_len(), 1);
    assert_eq!(a.expire_event(handle), Ok((7, 70)));
}

#[test]
fn a_key_with_a_live_handle_is_reported() {
    let mut internal = FrameMetaData::<usize>::new([2; 32]);
    assert!(!internal.has_handle_for(&at(10, 0, 0)));
    let handle = internal.schedule_event_expireable(at(10, 0, 0), 5);
    assert!(internal.has_handle_for(&at(10, 0, 0)));
    assert!(!internal.has_handle_for(&at(10, 0, 1)));
    internal.schedule_event(at(12, 0, 0), 6);
    assert!(!internal.has_handle_for(&at(12, 0, 0)));
    assert_eq!(internal.expire_event(handle), Ok((10, 5)));
    assert!(!internal.has_handle_for(&at(10, 0, 0)));
}
