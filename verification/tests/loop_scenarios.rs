use vr_harness::frame_loop::{run_loop, PlatformEvent};

#[test]
fn close_on_tick_three_runs_exactly_three_ticks_without_submission() {
    let batches = vec![vec![], vec![], vec![PlatformEvent::CloseRequested]];
    let submits = run_loop(&batches);
    assert_eq!(submits, vec![false, false, false]);
}

#[test]
fn pointer_on_tick_two_close_on_tick_five() {
    let batches = vec![
        vec![],
        vec![PlatformEvent::MouseInput],
        vec![],
        vec![],
        vec![PlatformEvent::CloseRequested],
    ];
    let submits = run_loop(&batches);
    // The pointer event is drained at the end of tick 2, after that tick's
    // submission step already ran, so submission starts on tick 3 and stays
    // on through the final tick.
    assert_eq!(submits, vec![false, false, true, true, true]);
}

#[test]
fn no_batches_runs_no_ticks() {
    let batches: Vec<Vec<PlatformEvent>> = vec![];
    let submits = run_loop(&batches);
    assert!(submits.is_empty());
}

#[test]
fn close_on_first_tick_runs_one_tick() {
    let batches = vec![vec![PlatformEvent::CloseRequested], vec![], vec![]];
    let submits = run_loop(&batches);
    assert_eq!(submits, vec![false]);
}

#[test]
fn ticks_after_a_close_never_run() {
    let batches = vec![
        vec![],
        vec![PlatformEvent::CloseRequested],
        vec![PlatformEvent::MouseInput],
        vec![],
    ];
    let submits = run_loop(&batches);
    assert_eq!(submits, vec![false, false]);
}

#[test]
fn without_close_every_batch_gets_a_tick() {
    let batches = vec![vec![], vec![PlatformEvent::Other], vec![]];
    let submits = run_loop(&batches);
    assert_eq!(submits, vec![false, false, false]);
}

#[test]
fn mouse_and_close_in_same_drain_exit_without_submitting() {
    let batches = vec![vec![PlatformEvent::MouseInput, PlatformEvent::CloseRequested]];
    let submits = run_loop(&batches);
    assert_eq!(submits, vec![false]);
}

#[test]
fn submission_stays_on_for_the_rest_of_the_run() {
    let batches = vec![
        vec![PlatformEvent::MouseInput],
        vec![],
        vec![PlatformEvent::Other],
        vec![],
    ];
    let submits = run_loop(&batches);
    assert_eq!(submits, vec![false, true, true, true]);
}
