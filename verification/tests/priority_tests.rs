use wenmeng::{Frame, PriorityQueue};

fn data_frame(stream_id: u32) -> Frame {
    Frame::Data { stream_id, payload: vec![stream_id as u8], end_stream: false }
}

fn stream_of(f: &Frame) -> u32 {
    match f {
        Frame::Data { stream_id, .. } => *stream_id,
        Frame::Headers { stream_id, .. } => *stream_id,
        Frame::PushPromise { stream_id, .. } => *stream_id,
        Frame::WindowUpdate { stream_id, .. } => *stream_id,
        Frame::Priority { stream_id, .. } => *stream_id,
        _ => 0,
    }
}

#[test]
fn root_stream_weighs_255_and_unknown_streams_0() {
    let q = PriorityQueue::new();
    assert_eq!(q.weight(0), 255);
    assert_eq!(q.weight(7), 0);
}

#[test]
fn drain_order_is_descending_weight() {
    let mut q = PriorityQueue::new();
    q.priority_recv(1, 0, 10);
    q.priority_recv(3, 0, 200);
    q.priority_recv(5, 0, 50);
    assert!(q.send_frames(1, vec![data_frame(1)]).is_ok());
    assert!(q.send_frames(3, vec![data_frame(3)]).is_ok());
    assert!(q.send_frames(5, vec![data_frame(5)]).is_ok());
    let drained = q.poll_handle(10);
    let order: Vec<u32> = drained.iter().map(|e| stream_of(&e.frame)).collect();
    assert_eq!(order, vec![3, 5, 1]);
}

#[test]
fn equal_weights_drain_in_insertion_order() {
    let mut q = PriorityQueue::new();
    q.priority_recv(2, 0, 77);
    q.priority_recv(4, 0, 77);
    assert!(q.send_frames(2, vec![data_frame(2)]).is_ok());
    assert!(q.send_frames(4, vec![data_frame(4)]).is_ok());
    assert!(q.send_frames(2, vec![data_frame(2)]).is_ok());
    let drained = q.poll_handle(10);
    let order: Vec<u32> = drained.iter().map(|e| stream_of(&e.frame)).collect();
    assert_eq!(order, vec![2, 4, 2]);
}

#[test]
fn later_priority_update_does_not_reorder_queued_frames() {
    let mut q = PriorityQueue::new();
    q.priority_recv(1, 0, 10);
    q.priority_recv(3, 0, 200);
    assert!(q.send_frames(1, vec![data_frame(1)]).is_ok());
    assert!(q.send_frames(3, vec![data_frame(3)]).is_ok());
    // stream 1 is promoted afterwards; the queued frame keeps its old key
    q.priority_recv(1, 0, 250);
    let drained = q.poll_handle(10);
    let order: Vec<u32> = drained.iter().map(|e| stream_of(&e.frame)).collect();
    assert_eq!(order, vec![3, 1]);
}

#[test]
fn parent_weight_is_raised_never_lowered() {
    let mut q = PriorityQueue::new();
    q.priority_recv(3, 1, 200);
    assert_eq!(q.weight(3), 200);
    assert_eq!(q.weight(1), 201);
    q.priority_recv(5, 1, 10);
    // min(10 + 1, 255) = 11 would lower stream 1: it stays at 201
    assert_eq!(q.weight(1), 201);
    q.priority_recv(7, 1, 255);
    // saturating: min(255 + 1, 255) = 255
    assert_eq!(q.weight(1), 255);
}

#[test]
fn pop_frame_empties_the_queue() {
    let mut q = PriorityQueue::new();
    assert!(q.pop_frame().is_none());
    assert!(q.send_frames(9, vec![data_frame(9)]).is_ok());
    let e = q.pop_frame().unwrap();
    assert_eq!(stream_of(&e.frame), 9);
    assert!(q.pop_frame().is_none());
}

#[test]
fn poll_handle_respects_the_limit() {
    let mut q = PriorityQueue::new();
    assert!(q.send_frames(1, vec![data_frame(1), data_frame(1), data_frame(1)]).is_ok());
    let first = q.poll_handle(2);
    assert_eq!(first.len(), 2);
    let rest = q.poll_handle(2);
    assert_eq!(rest.len(), 1);
}
