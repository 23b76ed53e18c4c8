use vstd::prelude::*;

verus! {

/// A per-tick operation that can fail.
#[derive(Clone, Copy, PartialEq, Eq, Structural, Debug)]
pub enum TickFailure {
    /// The blocking pose wait failed: the device has likely disconnected,
    /// and there is no meaningful fallback pose.
    PoseWait,
    /// Committing the frame to the window surface failed.
    Present,
    /// Handing an eye's color buffer to the compositor failed.
    Submit,
}

/// How the loop reacts to per-tick failures.
#[derive(Clone, Copy, PartialEq, Eq, Structural, Debug)]
pub enum FailurePolicy {
    /// Any per-tick failure aborts the run at once.
    FatalOnFirstFailure,
    /// A present or submit failure only skips the frame; the run aborts
    /// once `max_consecutive` ticks in a row have failed. A pose-wait
    /// failure still aborts at once.
    SkipFrame { max_consecutive: u32 },
}

/// What the loop does after a failed tick operation.
#[derive(Clone, Copy, PartialEq, Eq, Structural, Debug)]
pub enum FailureDecision {
    AbortRun,
    SkipThisFrame,
}

/// The reaction to a failure, given how many ticks in a row had already
/// failed before this one: under `FatalOnFirstFailure` every failure
/// aborts; under `SkipFrame` a pose-wait failure aborts at once, any other
/// failure aborts exactly when it brings the consecutive count up to the
/// configured bound, and is skipped otherwise.
pub open spec fn spec_failure_decision(
    policy: FailurePolicy,
    failed: TickFailure,
    prior_consecutive: u32,
) -> FailureDecision {
    match policy {
        FailurePolicy::FatalOnFirstFailure => FailureDecision::AbortRun,
        FailurePolicy::SkipFrame { max_consecutive } => {
            if failed is PoseWait {
                FailureDecision::AbortRun
            } else if prior_consecutive + 1 >= max_consecutive {
                FailureDecision::AbortRun
            } else {
                FailureDecision::SkipThisFrame
            }
        },
    }
}

/// Decide how the loop reacts to a failed tick operation.
pub fn decide_on_failure(policy: FailurePolicy, failed: TickFailure, prior_consecutive: u32) -> (d:
    FailureDecision)
    ensures
        d == spec_failure_decision(policy, failed, prior_consecutive),
{
    match policy {
        FailurePolicy::FatalOnFirstFailure => FailureDecision::AbortRun,
        FailurePolicy::SkipFrame { max_consecutive } => {
            if matches!(failed, TickFailure::PoseWait) {
                FailureDecision::AbortRun
            } else if max_consecutive == 0 || prior_consecutive >= max_consecutive - 1 {
                FailureDecision::AbortRun
            } else {
                FailureDecision::SkipThisFrame
            }
        },
    }
}

/// Law: a pose-wait failure aborts the run at once under every policy and
/// every prior failure count.
pub proof fn lemma_pose_wait_failure_is_always_fatal(policy: FailurePolicy, prior_consecutive: u32)
    ensures
        spec_failure_decision(policy, TickFailure::PoseWait, prior_consecutive)
            is AbortRun,
{
}

} // verus!
