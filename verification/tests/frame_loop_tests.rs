use vr_harness::frame_loop::{Flow, FrameState, PlatformEvent};

#[test]
fn initial_state_is_running_with_submission_disabled() {
    let s = FrameState::new();
    assert!(!s.submission_enabled);
    assert_eq!(s.flow, Flow::Continue);
}

#[test]
fn mouse_input_enables_submission() {
    let mut s = FrameState::new();
    s.handle_event(PlatformEvent::MouseInput);
    assert!(s.submission_enabled);
    assert_eq!(s.flow, Flow::Continue);
}

#[test]
fn close_request_exits() {
    let mut s = FrameState::new();
    s.handle_event(PlatformEvent::CloseRequested);
    assert_eq!(s.flow, Flow::Exit);
    assert!(!s.submission_enabled);
}

#[test]
fn other_event_changes_nothing() {
    let mut s = FrameState::new();
    s.handle_event(PlatformEvent::Other);
    assert!(!s.submission_enabled);
    assert_eq!(s.flow, Flow::Continue);
}

#[test]
fn submission_flag_never_resets() {
    let mut s = FrameState::new();
    s.handle_event(PlatformEvent::MouseInput);
    s.handle_event(PlatformEvent::Other);
    s.handle_event(PlatformEvent::CloseRequested);
    s.handle_event(PlatformEvent::Other);
    assert!(s.submission_enabled);
    assert_eq!(s.flow, Flow::Exit);
}

#[test]
fn drain_with_no_events_changes_nothing() {
    let mut s = FrameState::new();
    s.drain_events(&vec![]);
    assert!(!s.submission_enabled);
    assert_eq!(s.flow, Flow::Continue);
}

#[test]
fn close_exits_even_with_submission_enabled() {
    let mut s = FrameState::new();
    s.drain_events(&vec![PlatformEvent::MouseInput]);
    assert!(s.submission_enabled);
    s.drain_events(&vec![PlatformEvent::CloseRequested]);
    assert_eq!(s.flow, Flow::Exit);
    assert!(s.submission_enabled);
}

#[test]
fn close_exits_alongside_other_pending_events() {
    let mut s = FrameState::new();
    s.drain_events(&vec![
        PlatformEvent::Other,
        PlatformEvent::CloseRequested,
        PlatformEvent::MouseInput,
    ]);
    assert_eq!(s.flow, Flow::Exit);
    assert!(s.submission_enabled);
}
