use vstd::prelude::*;

verus! {

/// A platform event observed during a tick's event drain.
#[derive(Clone, Copy, PartialEq, Eq, Structural, Debug)]
pub enum PlatformEvent {
    /// The window was asked to close.
    CloseRequested,
    /// A pointer/button press arrived.
    MouseInput,
    /// Any other platform event; it has no effect on the loop state.
    Other,
}

/// Whether the frame loop keeps running or terminates after the current tick.
#[derive(Clone, Copy, PartialEq, Eq, Structural, Debug)]
pub enum Flow {
    Continue,
    Exit,
}

/// Loop state: a monotonic submission flag plus the control-flow decision.
///
/// `submission_enabled` starts false and only ever moves to true;
/// `flow` starts at `Continue` and moves to `Exit` when a close request is
/// seen, after which it never returns to `Continue`.
#[derive(Clone, Copy, PartialEq, Eq, Structural, Debug)]
pub struct FrameState {
    pub submission_enabled: bool,
    pub flow: Flow,
}

/// The effect of one platform event on the loop state: a close request
/// moves the flow to `Exit`, a pointer/button press enables submission,
/// and every other event leaves the state unchanged.
pub open spec fn spec_step(s: FrameState, e: PlatformEvent) -> FrameState {
    FrameState {
        submission_enabled: s.submission_enabled || e is MouseInput,
        flow: if e is CloseRequested {
            Flow::Exit
        } else {
            s.flow
        },
    }
}

/// The state after draining a whole sequence of events, front to back.
pub open spec fn spec_drain(s: FrameState, evs: Seq<PlatformEvent>) -> FrameState
    decreases evs.len(),
{
    if evs.len() == 0 {
        s
    } else {
        spec_drain(spec_step(s, evs[0]), evs.drop_first())
    }
}

/// Some event of the sequence is a pointer/button press.
pub open spec fn has_mouse_input(evs: Seq<PlatformEvent>) -> bool {
    exists|i: int| 0 <= i < evs.len() && evs[i] is MouseInput
}

/// Some event of the sequence is a close request.
pub open spec fn has_close(evs: Seq<PlatformEvent>) -> bool {
    exists|i: int| 0 <= i < evs.len() && evs[i] is CloseRequested
}

proof fn lemma_has_mouse_unfold(evs: Seq<PlatformEvent>)
    requires
        evs.len() > 0,
    ensures
        has_mouse_input(evs) == (evs[0] is MouseInput || has_mouse_input(evs.drop_first())),
{
    if evs[0] is MouseInput {
        assert(has_mouse_input(evs));
    }
    if has_mouse_input(evs.drop_first()) {
        let i = choose|i: int| 0 <= i < evs.drop_first().len() && evs.drop_first()[i] is MouseInput;
        assert(evs[i + 1] is MouseInput);
        assert(has_mouse_input(evs));
    }
    if has_mouse_input(evs) && !(evs[0] is MouseInput) {
        let i = choose|i: int| 0 <= i < evs.len() && evs[i] is MouseInput;
        assert(evs.drop_first()[i - 1] is MouseInput);
        assert(has_mouse_input(evs.drop_first()));
    }
}

proof fn lemma_has_close_unfold(evs: Seq<PlatformEvent>)
    requires
        evs.len() > 0,
    ensures
        has_close(evs) == (evs[0] is CloseRequested || has_close(evs.drop_first())),
{
    if evs[0] is CloseRequested {
        assert(has_close(evs));
    }
    if has_close(evs.drop_first()) {
        let i = choose|i: int|
            0 <= i < evs.drop_first().len() && evs.drop_first()[i] is CloseRequested;
        assert(evs[i + 1] is CloseRequested);
        assert(has_close(evs));
    }
    if has_close(evs) && !(evs[0] is CloseRequested) {
        let i = choose|i: int| 0 <= i < evs.len() && evs[i] is CloseRequested;
        assert(evs.drop_first()[i - 1] is CloseRequested);
        assert(has_close(evs.drop_first()));
    }
}

/// Draining a sequence enables submission exactly when it was already
/// enabled or the sequence holds a pointer/button press, and leaves the
/// loop exiting exactly when it was already exiting or the sequence holds
/// a close request.
pub proof fn lemma_drain_characterization(s: FrameState, evs: Seq<PlatformEvent>)
    ensures
        spec_drain(s, evs).submission_enabled == (s.submission_enabled || has_mouse_input(evs)),
        spec_drain(s, evs).flow is Exit <==> (s.flow is Exit || has_close(evs)),
    decreases evs.len(),
{
    if evs.len() == 0 {
        assert(!has_mouse_input(evs));
        assert(!has_close(evs));
    } else {
        lemma_has_mouse_unfold(evs);
        lemma_has_close_unfold(evs);
        lemma_drain_characterization(spec_step(s, evs[0]), evs.drop_first());
    }
}

/// Law: once submission is enabled, no event sequence ever disables it.
pub proof fn lemma_flag_never_resets(s: FrameState, evs: Seq<PlatformEvent>)
    requires
        s.submission_enabled,
    ensures
        spec_drain(s, evs).submission_enabled,
{
    lemma_drain_characterization(s, evs);
}

/// Law: a close request seen during a drain always leaves the loop
/// exiting, whatever the submission flag or the prior flow was.
pub proof fn lemma_close_always_exits(s: FrameState, evs: Seq<PlatformEvent>)
    requires
        has_close(evs),
    ensures
        spec_drain(s, evs).flow is Exit,
{
    lemma_drain_characterization(s, evs);
}

impl FrameState {
    /// Initial loop state: submission disabled, loop running.
    pub fn new() -> (s: FrameState)
        ensures
            !s.submission_enabled,
            s.flow is Continue,
    {
        FrameState { submission_enabled: false, flow: Flow::Continue }
    }

    /// Dispatch one platform event into the loop state.
    pub fn handle_event(&mut self, event: PlatformEvent)
        ensures
            *final(self) == spec_step(*old(self), event),
    {
        match event {
            PlatformEvent::CloseRequested => {
                self.flow = Flow::Exit;
            },
            PlatformEvent::MouseInput => {
                self.submission_enabled = true;
            },
            PlatformEvent::Other => {},
        }
    }

    /// Drain all pending platform events of one tick, front to back.
    pub fn drain_events(&mut self, events: &Vec<PlatformEvent>)
        ensures
            *final(self) == spec_drain(*old(self), events@),
            final(self).submission_enabled == (old(self).submission_enabled || has_mouse_input(
                events@,
            )),
            final(self).flow is Exit <==> (old(self).flow is Exit || has_close(events@)),
    {
        let ghost orig = *self;
        let mut k: usize = 0;
        while k < events.len()
            invariant
                k <= events.len(),
                *self == spec_drain(orig, events@.subrange(0, k as int)),
            decreases events.len() - k,
        {
            let ev = events[k];
            self.handle_event(ev);
            proof {
                lemma_drain_snoc(orig, events@.subrange(0, k as int), ev);
                assert(events@.subrange(0, k as int).push(ev) =~= events@.subrange(
                    0,
                    k as int + 1,
                ));
            }
            k = k + 1;
        }
        proof {
            assert(events@.subrange(0, events@.len() as int) =~= events@);
            lemma_drain_characterization(orig, events@);
        }
    }
}

/// The event sequences behind a vector of per-tick event batches.
pub open spec fn batch_views(batches: Seq<Vec<PlatformEvent>>) -> Seq<Seq<PlatformEvent>> {
    batches.map_values(|b: Vec<PlatformEvent>| b@)
}

/// How many ticks the loop executes on the given per-tick batches: it stops
/// after the first tick whose drain sees a close request, and with no close
/// request anywhere it runs one tick per batch.
pub open spec fn spec_ticks_executed(batches: Seq<Seq<PlatformEvent>>) -> int
    decreases batches.len(),
{
    if batches.len() == 0 {
        0
    } else if has_close(batches[0]) {
        1
    } else {
        1 + spec_ticks_executed(batches.drop_first())
    }
}

/// Whether the tick with index `t` (counted from 0) attempts compositor
/// submission: exactly when some strictly earlier tick's drain saw a
/// pointer/button event.
pub open spec fn spec_submits_at(batches: Seq<Seq<PlatformEvent>>, t: int) -> bool {
    exists|j: int| 0 <= j < t && has_mouse_input(batches[j])
}

/// Law: submission never turns back off — once it is attempted at some
/// tick, it is attempted at every later tick as well.
pub proof fn lemma_submission_monotonic(batches: Seq<Seq<PlatformEvent>>, t1: int, t2: int)
    requires
        t1 <= t2,
        spec_submits_at(batches, t1),
    ensures
        spec_submits_at(batches, t2),
{
    let j = choose|j: int| 0 <= j < t1 && has_mouse_input(batches[j]);
    assert(0 <= j < t2 && has_mouse_input(batches[j]));
}

/// Law: a pointer/button event drained on tick `j` makes every tick after
/// `j` attempt submission.
pub proof fn lemma_mouse_enables_submission(batches: Seq<Seq<PlatformEvent>>, j: int, t: int)
    requires
        0 <= j < t,
        has_mouse_input(batches[j]),
    ensures
        spec_submits_at(batches, t),
{
}

proof fn lemma_ticks_executed_no_close(batches: Seq<Seq<PlatformEvent>>)
    requires
        forall|j: int| 0 <= j < batches.len() ==> !has_close(#[trigger] batches[j]),
    ensures
        spec_ticks_executed(batches) == batches.len(),
    decreases batches.len(),
{
    if batches.len() > 0 {
        assert(forall|j: int|
            0 <= j < batches.drop_first().len() ==> !has_close(
                #[trigger] batches.drop_first()[j],
            ));
        lemma_ticks_executed_no_close(batches.drop_first());
    }
}

proof fn lemma_ticks_executed_first_close(batches: Seq<Seq<PlatformEvent>>, k: int)
    requires
        0 <= k < batches.len(),
        has_close(batches[k]),
        forall|j: int| 0 <= j < k ==> !has_close(#[trigger] batches[j]),
    ensures
        spec_ticks_executed(batches) == k + 1,
    decreases k,
{
    if k > 0 {
        assert(batches.drop_first()[k - 1] == batches[k]);
        assert(forall|j: int|
            0 <= j < k - 1 ==> !has_close(#[trigger] batches.drop_first()[j]));
        lemma_ticks_executed_first_close(batches.drop_first(), k - 1);
    }
}

proof fn lemma_submits_at_step(batches: Seq<Seq<PlatformEvent>>, t: int)
    requires
        0 <= t,
    ensures
        spec_submits_at(batches, t + 1) == (spec_submits_at(batches, t) || has_mouse_input(
            batches[t],
        )),
{
    if spec_submits_at(batches, t + 1) {
        let j = choose|j: int| 0 <= j < t + 1 && has_mouse_input(batches[j]);
        if j < t {
            assert(spec_submits_at(batches, t));
        }
    }
    if spec_submits_at(batches, t) {
        let j = choose|j: int| 0 <= j < t && has_mouse_input(batches[j]);
        assert(0 <= j < t + 1 && has_mouse_input(batches[j]));
    }
    if has_mouse_input(batches[t]) {
        assert(0 <= t < t + 1 && has_mouse_input(batches[t]));
    }
}

/// Drive the frame-loop state machine over per-tick event batches, as the
/// running loop does: each tick first attempts submission when the flag is
/// set, then drains its batch, and the loop stops after the tick whose
/// drain saw a close request. Entry `t` of the result says whether the
/// tick with index `t` attempted submission; its length is the number of
/// ticks executed.
pub fn run_loop(batches: &Vec<Vec<PlatformEvent>>) -> (submits: Vec<bool>)
    ensures
        submits@.len() == spec_ticks_executed(batch_views(batches@)),
        forall|t: int|
            0 <= t < submits@.len() ==> submits@[t] == spec_submits_at(
                batch_views(batches@),
                t,
            ),
{
    let ghost bviews = batch_views(batches@);
    let mut submits: Vec<bool> = Vec::new();
    let mut state = FrameState::new();
    let mut i: usize = 0;
    while i < batches.len() && state.flow == Flow::Continue
        invariant
            i <= batches.len(),
            bviews == batch_views(batches@),
            bviews.len() == batches@.len(),
            submits@.len() == i,
            state.submission_enabled == spec_submits_at(bviews, i as int),
            forall|t: int| 0 <= t < i ==> submits@[t] == spec_submits_at(bviews, t),
            state.flow is Continue ==> forall|j: int|
                0 <= j < i ==> !has_close(#[trigger] bviews[j]),
            state.flow is Exit ==> i >= 1 && has_close(bviews[i - 1]) && forall|j: int|
                0 <= j < i - 1 ==> !has_close(#[trigger] bviews[j]),
        decreases batches.len() - i,
    {
        submits.push(state.submission_enabled);
        state.drain_events(&batches[i]);
        proof {
            assert(bviews[i as int] == batches@[i as int]@);
            lemma_submits_at_step(bviews, i as int);
        }
        i = i + 1;
    }
    proof {
        if state.flow is Exit {
            lemma_ticks_executed_first_close(bviews, i as int - 1);
        } else {
            lemma_ticks_executed_no_close(bviews);
        }
    }
    submits
}

proof fn lemma_drain_snoc(s: FrameState, evs: Seq<PlatformEvent>, e: PlatformEvent)
    ensures
        spec_drain(s, evs.push(e)) == spec_step(spec_drain(s, evs), e),
    decreases evs.len(),
{
    assert(evs.push(e)[0] == if evs.len() == 0 {
        e
    } else {
        evs[0]
    });
    if evs.len() == 0 {
        assert(evs.push(e).drop_first() =~= Seq::<PlatformEvent>::empty());
        assert(spec_drain(s, evs.push(e)) == spec_drain(spec_step(s, e), evs.push(e).drop_first()));
    } else {
        assert(evs.push(e).drop_first() =~= evs.drop_first().push(e));
        lemma_drain_snoc(spec_step(s, evs[0]), evs.drop_first(), e);
    }
}

} // verus!
