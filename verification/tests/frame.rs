use sctk_event_loop::frame::{receive_frame, request_redraw, FrameStatus};
use std::collections::HashMap;

#[test]
fn a_request_waits_for_a_frame() {
    let mut frames: HashMap<u64, FrameStatus> = HashMap::new();
    request_redraw(&mut frames, 7);
    assert_eq!(frames.get(&7), Some(&FrameStatus::RequestedRedraw));
    receive_frame(&mut frames, 7);
    assert_eq!(frames.get(&7), Some(&FrameStatus::Ready));
}

#[test]
fn a_frame_waits_for_a_request() {
    let mut frames: HashMap<u64, FrameStatus> = HashMap::new();
    receive_frame(&mut frames, 7);
    assert_eq!(frames.get(&7), Some(&FrameStatus::Received));
    request_redraw(&mut frames, 7);
    assert_eq!(frames.get(&7), Some(&FrameStatus::Ready));
}

#[test]
fn repeated_inputs_add_nothing() {
    let mut frames: HashMap<u64, FrameStatus> = HashMap::new();
    request_redraw(&mut frames, 1);
    request_redraw(&mut frames, 1);
    assert_eq!(frames.get(&1), Some(&FrameStatus::RequestedRedraw));
    receive_frame(&mut frames, 2);
    receive_frame(&mut frames, 2);
    assert_eq!(frames.get(&2), Some(&FrameStatus::Received));
    receive_frame(&mut frames, 1);
    request_redraw(&mut frames, 1);
    receive_frame(&mut frames, 1);
    assert_eq!(frames.get(&1), Some(&FrameStatus::Ready));
    assert_eq!(frames.len(), 2);
}
