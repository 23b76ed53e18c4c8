use vstd::prelude::*;

verus! {

/// One step of a tick's fixed schedule, in the order the loop performs it.
#[derive(Clone, Copy, PartialEq, Eq, Structural, Debug)]
pub enum TickAction {
    /// Block until the device signals readiness and update the pose state.
    WaitGetPoses,
    /// Acquire a drawable surface for this tick.
    BeginFrame,
    /// Draw the test pattern into the surface.
    Draw,
    /// Commit the frame to the window surface.
    Present,
    /// Hand the left eye's color buffer to the compositor.
    SubmitLeftEye,
    /// Hand the right eye's color buffer to the compositor.
    SubmitRightEye,
}

/// The schedule of one tick: wait for poses, then render and present, and,
/// only with submission enabled, submit the left eye and then the right.
pub open spec fn spec_tick_plan(submission_enabled: bool) -> Seq<TickAction> {
    if submission_enabled {
        seq![
            TickAction::WaitGetPoses,
            TickAction::BeginFrame,
            TickAction::Draw,
            TickAction::Present,
            TickAction::SubmitLeftEye,
            TickAction::SubmitRightEye,
        ]
    } else {
        seq![
            TickAction::WaitGetPoses,
            TickAction::BeginFrame,
            TickAction::Draw,
            TickAction::Present,
        ]
    }
}

/// Build the schedule of actions for one tick; the caller performs them
/// strictly in order.
pub fn plan_tick(submission_enabled: bool) -> (plan: Vec<TickAction>)
    ensures
        plan@ == spec_tick_plan(submission_enabled),
{
    let mut plan: Vec<TickAction> = Vec::new();
    plan.push(TickAction::WaitGetPoses);
    plan.push(TickAction::BeginFrame);
    plan.push(TickAction::Draw);
    plan.push(TickAction::Present);
    if submission_enabled {
        plan.push(TickAction::SubmitLeftEye);
        plan.push(TickAction::SubmitRightEye);
    }
    proof {
        assert(plan@ =~= spec_tick_plan(submission_enabled));
    }
    plan
}

/// Law: every tick waits for poses exactly once, as its very first action,
/// so the wait comes strictly before the tick's one draw call.
pub proof fn lemma_pose_wait_once_before_draw(submission_enabled: bool)
    ensures
        spec_tick_plan(submission_enabled).len() >= 4,
        spec_tick_plan(submission_enabled)[0] is WaitGetPoses,
        forall|i: int|
            0 < i < spec_tick_plan(submission_enabled).len() ==> !(spec_tick_plan(
                submission_enabled,
            )[i] is WaitGetPoses),
        spec_tick_plan(submission_enabled)[2] is Draw,
        forall|i: int|
            0 <= i < spec_tick_plan(submission_enabled).len() && spec_tick_plan(
                submission_enabled,
            )[i] is Draw ==> i == 2,
{
}

/// Law: with submission enabled the tick submits both eyes, the left one
/// strictly before the right one, and both only after the frame was drawn
/// and presented; with submission disabled no submit action appears at all.
pub proof fn lemma_submit_order(submission_enabled: bool)
    ensures
        submission_enabled ==> {
            &&& spec_tick_plan(submission_enabled).len() == 6
            &&& spec_tick_plan(submission_enabled)[4] is SubmitLeftEye
            &&& spec_tick_plan(submission_enabled)[5] is SubmitRightEye
            &&& forall|i: int|
                0 <= i < 4 ==> !(spec_tick_plan(submission_enabled)[i] is SubmitLeftEye)
                    && !(spec_tick_plan(submission_enabled)[i] is SubmitRightEye)
        },
        !submission_enabled ==> forall|i: int|
            0 <= i < spec_tick_plan(submission_enabled).len() ==> !(spec_tick_plan(
                submission_enabled,
            )[i] is SubmitLeftEye) && !(spec_tick_plan(submission_enabled)[i] is SubmitRightEye),
{
}

} // verus!
