use vr_harness::tick::{plan_tick, TickAction};

#[test]
fn disabled_plan_renders_without_submitting() {
    let plan = plan_tick(false);
    assert_eq!(
        plan,
        vec![
            TickAction::WaitGetPoses,
            TickAction::BeginFrame,
            TickAction::Draw,
            TickAction::Present,
        ]
    );
}

#[test]
fn enabled_plan_submits_left_then_right_after_rendering() {
    let plan = plan_tick(true);
    assert_eq!(
        plan,
        vec![
            TickAction::WaitGetPoses,
            TickAction::BeginFrame,
            TickAction::Draw,
            TickAction::Present,
            TickAction::SubmitLeftEye,
            TickAction::SubmitRightEye,
        ]
    );
}

#[test]
fn every_plan_waits_for_poses_once_and_first() {
    for enabled in [false, true] {
        let plan = plan_tick(enabled);
        assert_eq!(plan[0], TickAction::WaitGetPoses);
        let waits = plan
            .iter()
            .filter(|a| matches!(a, TickAction::WaitGetPoses))
            .count();
        assert_eq!(waits, 1);
        let wait_pos = 0;
        let draw_pos = plan
            .iter()
            .position(|a| matches!(a, TickAction::Draw))
            .unwrap();
        assert!(wait_pos < draw_pos);
    }
}
