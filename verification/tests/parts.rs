use std::sync::atomic::{AtomicUsize, Ordering};
use std::sync::Arc;
use std::task::{Wake, Waker};

use cozal::{
    EngineTime, EngineTimeSchedule, ExpireHandleFactory, Frame, FrameUpdate, LazyState, SourceContext, SourcePollOk,
    Transposer,
};

struct CountingWaker {
    wake_count: AtomicUsize,
}

impl Wake for CountingWaker {
    fn wake(self: Arc<Self>) {
        self.wake_count.fetch_add(1, Ordering::SeqCst);
    }
}

fn counting_waker() -> (Waker, Arc<CountingWaker>) {
    let inner = Arc::new(CountingWaker { wake_count: AtomicUsize::new(0) });
    (Waker::from(inner.clone()), inner)
}

#[derive(Clone)]
struct Plain;

impl Transposer for Plain {
    type Input = ();
    type InputState = i32;
    type Scheduled = ();
    type Output = &'static str;
    type OutputState = ();

    fn can_handle(_time: u64, _event: &Self::Input) -> bool {
        true
    }
}

#[test]
fn engine_times() {
    let init = EngineTime::new_init();
    assert_eq!(init.index(), 0);
    assert_eq!(init.raw_time(), 0);
    let input = EngineTime::new_input(4, 40);
    assert_eq!((input.index(), input.raw_time()), (4, 40));
    let spawned = input.spawn_scheduled(55, 2);
    assert_eq!(spawned, EngineTimeSchedule { time: 55, parent_index: 4, emission_index: 2 });
    let scheduled = EngineTime::new_scheduled(5, spawned);
    assert_eq!((scheduled.index(), scheduled.raw_time()), (5, 55));
}

#[test]
fn handles_are_handed_out_in_order() {
    let mut factory = ExpireHandleFactory::new();
    let a = factory.next();
    let b = factory.next();
    let c = factory.next();
    assert_ne!(a, b);
    assert_ne!(b, c);
    assert_ne!(a, c);
}

#[test]
fn lazy_state_wakes_whoever_asked() {
    let (waker, counter) = counting_waker();
    let mut state = LazyState::new();
    assert!(!state.requested());
    assert_eq!(state.poll(waker), None);
    assert!(state.requested());
    assert_eq!(counter.wake_count.load(Ordering::SeqCst), 0);
    assert_eq!(state.set(5), Ok(()));
    assert_eq!(counter.wake_count.load(Ordering::SeqCst), 1);
    assert_eq!(state.set(6), Err(6));
    let (waker, _) = counting_waker();
    assert_eq!(state.poll(waker), Some(5));
    assert!(state.requested() == false);
    assert_eq!(state.set(7), Ok(()));
    assert_eq!(state.destroy(), Some(7));
    let empty: LazyState<u8> = LazyState::default();
    assert_eq!(empty.destroy(), None);
}

#[test]
fn supressing_the_state_keeps_the_rest() {
    let poll: SourcePollOk<u64, char, String> = SourcePollOk::Scheduled("s".to_string(), 9);
    assert!(matches!(poll.supress_state(), SourcePollOk::Scheduled((), 9)));
    let poll: SourcePollOk<u64, char, String> = SourcePollOk::Event('e', 3);
    assert!(matches!(poll.supress_state(), SourcePollOk::Event('e', 3)));
    let poll: SourcePollOk<u64, char, String> = SourcePollOk::Ready("r".to_string());
    assert!(matches!(poll.supress_state(), SourcePollOk::Ready(())));
    let poll: SourcePollOk<u64, char, String> = SourcePollOk::Rollback(2);
    assert!(matches!(poll.supress_state(), SourcePollOk::Rollback(2)));
    let poll: SourcePollOk<u64, char, String> = SourcePollOk::Finalize(1);
    assert!(matches!(poll.supress_state(), SourcePollOk::Finalize(1)));
}

#[test]
fn source_context_changes_channel_only() {
    let (one, _) = counting_waker();
    let (all, _) = counting_waker();
    let mut cx = SourceContext { channel: 1, one_channel_waker: one, all_channel_waker: all };
    cx.change_channel(9);
    assert_eq!(cx.channel, 9);
}

#[test]
fn frame_update_runs_through_its_phases() {
    let frame = Box::new(Frame::new(Plain, [0; 32]));
    let mut update = FrameUpdate::new(frame, 17u8, EngineTime::new_init());
    assert_eq!(update.needs_input_state(), Ok(false));
    assert_eq!(update.arg(), Some(&17));
    assert!(update.frame_mut().is_none());
    assert_eq!(update.set_input_state(1), Err(1));
    update.start();
    assert!(update.frame_mut().is_some());
    let (waker, counter) = counting_waker();
    assert_eq!(update.request_input_state(waker), None);
    assert_eq!(update.needs_input_state(), Ok(true));
    assert_eq!(update.set_input_state(3), Ok(()));
    assert_eq!(counter.wake_count.load(Ordering::SeqCst), 1);
    assert_eq!(update.needs_input_state(), Ok(false));
    let (waker, _) = counting_waker();
    assert_eq!(update.request_input_state(waker), Some(3));
    update.emit("a");
    update.emit("b");
    let result = update.complete().unwrap();
    assert_eq!(result.outputs, vec!["a", "b"]);
    assert_eq!(result.arg, 17);
    assert!(update.complete().is_none());
    assert_eq!(update.needs_input_state(), Err(()));
    assert!(update.arg().is_none());

    let frame = Box::new(Frame::new(Plain, [0; 32]));
    let mut update = FrameUpdate::new(frame, 5u8, EngineTime::new_init());
    assert_eq!(update.reclaim(), 5);
    assert!(update.complete().is_none());
}
