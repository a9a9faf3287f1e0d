use cozal::{InputBuffer, OutputBuffer, SourcePollOk};

#[test]
fn inputs_come_out_by_time_in_arrival_order() {
    let mut buffer = InputBuffer::new();
    buffer.insert_back(20, 'a');
    buffer.insert_back(10, 'b');
    buffer.insert_back(20, 'c');
    assert_eq!(buffer.first_time(), Some(10));
    let (t, inputs) = buffer.pop_first().unwrap();
    assert_eq!(t, 10);
    assert_eq!(&*inputs, &['b']);
    let (t, inputs) = buffer.pop_first().unwrap();
    assert_eq!(t, 20);
    assert_eq!(&*inputs, &['a', 'c']);
    assert!(buffer.pop_first().is_none());
    assert_eq!(buffer.first_time(), None);
}

#[test]
fn input_rollback_drops_at_and_after() {
    let mut buffer = InputBuffer::new();
    for t in [5u64, 10, 15, 20] {
        buffer.insert_back(t, t * 2);
    }
    buffer.rollback(15);
    assert_eq!(buffer.pop_first().map(|(t, v)| (t, v.to_vec())), Some((5, vec![10])));
    assert_eq!(buffer.pop_first().map(|(t, v)| (t, v.to_vec())), Some((10, vec![20])));
    assert!(buffer.pop_first().is_none());
    buffer.insert_back(30, 1);
    buffer.rollback(0);
    assert!(buffer.pop_first().is_none());
}

#[test]
fn inputs_put_back_come_out_first() {
    let mut buffer = InputBuffer::new();
    buffer.insert_back(10, 3u32);
    buffer.insert_back(20, 4u32);
    let (t, taken) = buffer.pop_first().unwrap();
    assert_eq!(t, 10);
    buffer.extend_front(t, taken);
    buffer.extend_front(10, vec![1u32, 2].into_boxed_slice());
    let (t, inputs) = buffer.pop_first().unwrap();
    assert_eq!(t, 10);
    assert_eq!(inputs.to_vec(), vec![1, 2, 3]);
    buffer.extend_front(15, vec![9u32].into_boxed_slice());
    assert_eq!(buffer.pop_first().map(|(t, v)| (t, v.to_vec())), Some((15, vec![9])));
    assert_eq!(buffer.pop_first().map(|(t, v)| (t, v.to_vec())), Some((20, vec![4])));
}

#[test]
fn outputs_come_out_when_due() {
    let mut buffer = OutputBuffer::new();
    assert!(matches!(buffer.poll(0), SourcePollOk::Ready(())));
    buffer.handle_event(10, "late");
    buffer.handle_event(5, "early");
    buffer.handle_event(10, "later");
    assert_eq!(buffer.first_event_time(), Some(5));
    assert!(matches!(buffer.poll(3), SourcePollOk::Scheduled((), 5)));
    assert!(matches!(buffer.poll(10), SourcePollOk::Event("early", 5)));
    assert!(matches!(buffer.poll(7), SourcePollOk::Scheduled((), 10)));
    assert!(matches!(buffer.poll(10), SourcePollOk::Event("late", 10)));
    assert!(matches!(buffer.poll(10), SourcePollOk::Event("later", 10)));
    assert!(matches!(buffer.poll(10), SourcePollOk::Ready(())));
    assert_eq!(buffer.first_event_time(), None);
}

#[test]
fn output_rollback_discards_later_outputs() {
    let mut buffer = OutputBuffer::new();
    buffer.handle_event(5, 1);
    buffer.handle_event(10, 2);
    buffer.handle_event(15, 3);
    buffer.handle_rollback(10);
    assert!(matches!(buffer.poll(100), SourcePollOk::Event(1, 5)));
    assert!(matches!(buffer.poll(100), SourcePollOk::Rollback(10)));
    assert!(matches!(buffer.poll(100), SourcePollOk::Ready(())));
}

#[test]
fn output_finalize_is_queued_in_time_order() {
    let mut buffer = OutputBuffer::new();
    buffer.handle_finalize(8);
    buffer.handle_event(8, 'x');
    buffer.handle_event(2, 'y');
    assert!(matches!(buffer.poll(8), SourcePollOk::Event('y', 2)));
    assert!(matches!(buffer.poll(8), SourcePollOk::Finalize(8)));
    assert!(matches!(buffer.poll(8), SourcePollOk::Event('x', 8)));
    assert!(matches!(buffer.poll(8), SourcePollOk::Ready(())));
}
