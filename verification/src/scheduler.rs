//! The frame-scheduling protocol: a two-state machine driven by the host's
//! display-refresh and resize event sources.
//!
//! The scheduler decides; the embedder performs. Each method returns the
//! actions the embedder must carry out in order: invoke the frame callback
//! with a layout flag, register the resize listener, or request the next
//! animation frame from the host. The host delivers events back as calls on
//! the scheduler. All of it runs on the single render thread, so at most one
//! callback execution is ever in flight.

use vstd::prelude::*;
use crate::error::Error;

verus! {

#[derive(Clone, Copy, Debug, PartialEq, Eq, Structural)]
pub enum SchedulerState {
    /// Constructed, not yet started.
    Idle,
    /// Started: the self-sustaining frame loop is in flight.
    Running,
    /// A host event source could not be registered; the loop never ran.
    Failed,
}

/// What the host reports to the scheduler.
#[derive(Clone, Copy, Debug, PartialEq, Eq, Structural)]
pub enum SchedulerEvent {
    Start,
    AnimationFrame,
    Resize,
    InitFailure,
}

/// What the scheduler tells the embedder to do, in order.
#[derive(Clone, Copy, Debug, PartialEq, Eq, Structural)]
pub enum SchedulerAction {
    /// Invoke the frame callback; `true` means the output surface may have
    /// changed and layout-dependent state must be recomputed.
    InvokeCallback(bool),
    /// Register the resize listener on the host's surface-size event source.
    RegisterResizeListener,
    /// Ask the host for a one-shot notification before the next display
    /// refresh.
    RequestAnimationFrame,
}

/// The complete transition function of the protocol: starting invokes the
/// callback once with `true` before anything is registered; each animation
/// frame invokes it with `false` and immediately re-requests the next frame;
/// each resize invokes it once with `true`; a registration failure is
/// terminal. Events outside the protocol change nothing.
pub open spec fn scheduler_step(s: SchedulerState, e: SchedulerEvent) -> (
    SchedulerState,
    Seq<SchedulerAction>,
) {
    match (s, e) {
        (SchedulerState::Idle, SchedulerEvent::Start) => (
            SchedulerState::Running,
            seq![
                SchedulerAction::InvokeCallback(true),
                SchedulerAction::RegisterResizeListener,
                SchedulerAction::RequestAnimationFrame,
            ],
        ),
        (SchedulerState::Running, SchedulerEvent::AnimationFrame) => (
            SchedulerState::Running,
            seq![
                SchedulerAction::InvokeCallback(false),
                SchedulerAction::RequestAnimationFrame,
            ],
        ),
        (SchedulerState::Running, SchedulerEvent::Resize) => (
            SchedulerState::Running,
            seq![SchedulerAction::InvokeCallback(true)],
        ),
        (_, SchedulerEvent::InitFailure) => (SchedulerState::Failed, Seq::empty()),
        _ => (s, Seq::empty()),
    }
}

/// The state and concatenated actions after a whole event sequence.
pub open spec fn scheduler_run(s: SchedulerState, events: Seq<SchedulerEvent>) -> (
    SchedulerState,
    Seq<SchedulerAction>,
)
    decreases events.len(),
{
    if events.len() == 0 {
        (s, Seq::empty())
    } else {
        let first = scheduler_step(s, events[0]);
        let rest = scheduler_run(first.0, events.skip(1));
        (rest.0, first.1 + rest.1)
    }
}

/// How many times `x` occurs in `s`.
pub open spec fn count_occurrences<T>(s: Seq<T>, x: T) -> nat
    decreases s.len(),
{
    if s.len() == 0 {
        0
    } else {
        (if s[0] == x {
            1nat
        } else {
            0nat
        }) + count_occurrences(s.skip(1), x)
    }
}

pub proof fn lemma_count_occurrences_add<T>(a: Seq<T>, b: Seq<T>, x: T)
    ensures
        count_occurrences(a + b, x) == count_occurrences(a, x) + count_occurrences(b, x),
    decreases a.len(),
{
    if a.len() == 0 {
        assert(a + b =~= b);
    } else {
        assert((a + b)[0] == a[0]);
        assert((a + b).skip(1) =~= a.skip(1) + b);
        lemma_count_occurrences_add(a.skip(1), b, x);
    }
}

pub proof fn lemma_count_occurrences_singleton<T>(y: T, x: T)
    ensures
        count_occurrences(seq![y], x) == if y == x {
            1nat
        } else {
            0nat
        },
{
    assert(seq![y].skip(1) =~= Seq::<T>::empty());
    assert(count_occurrences(Seq::<T>::empty(), x) == 0);
    assert(seq![y][0] == y);
}

/// The occurrence count of each action in one step's action list.
pub proof fn lemma_step_counts(s: SchedulerState, e: SchedulerEvent, x: SchedulerAction)
    ensures
        count_occurrences(scheduler_step(s, e).1, x) == (
        if s == SchedulerState::Idle && e == SchedulerEvent::Start {
            (if x == SchedulerAction::InvokeCallback(true) { 1nat } else { 0nat })
                + (if x == SchedulerAction::RegisterResizeListener { 1nat } else { 0nat })
                + (if x == SchedulerAction::RequestAnimationFrame { 1nat } else { 0nat })
        } else if s == SchedulerState::Running && e == SchedulerEvent::AnimationFrame {
            (if x == SchedulerAction::InvokeCallback(false) { 1nat } else { 0nat })
                + (if x == SchedulerAction::RequestAnimationFrame { 1nat } else { 0nat })
        } else if s == SchedulerState::Running && e == SchedulerEvent::Resize {
            if x == SchedulerAction::InvokeCallback(true) { 1nat } else { 0nat }
        } else {
            0nat
        }),
{
    let acts = scheduler_step(s, e).1;
    if s == SchedulerState::Idle && e == SchedulerEvent::Start {
        let a = SchedulerAction::InvokeCallback(true);
        let b = SchedulerAction::RegisterResizeListener;
        let c = SchedulerAction::RequestAnimationFrame;
        assert(acts =~= seq![a] + seq![b] + seq![c]);
        lemma_count_occurrences_add(seq![a] + seq![b], seq![c], x);
        lemma_count_occurrences_add(seq![a], seq![b], x);
        lemma_count_occurrences_singleton(a, x);
        lemma_count_occurrences_singleton(b, x);
        lemma_count_occurrences_singleton(c, x);
    } else if s == SchedulerState::Running && e == SchedulerEvent::AnimationFrame {
        let a = SchedulerAction::InvokeCallback(false);
        let c = SchedulerAction::RequestAnimationFrame;
        assert(acts =~= seq![a] + seq![c]);
        lemma_count_occurrences_add(seq![a], seq![c], x);
        lemma_count_occurrences_singleton(a, x);
        lemma_count_occurrences_singleton(c, x);
    } else if s == SchedulerState::Running && e == SchedulerEvent::Resize {
        lemma_count_occurrences_singleton(SchedulerAction::InvokeCallback(true), x);
        assert(acts =~= seq![SchedulerAction::InvokeCallback(true)]);
    } else {
        assert(acts =~= Seq::<SchedulerAction>::empty());
    }
}

/// Law: while the loop is running, a stretch of animation-frame and resize
/// events produces exactly one layout (`true`) invocation per resize event,
/// and exactly one ordinary (`false`) invocation and one re-request per
/// animation frame — no frame is dropped or duplicated, and a resize adds
/// exactly one extra layout pass.
pub proof fn lemma_running_counts(events: Seq<SchedulerEvent>)
    requires
        forall|i: int|
            0 <= i < events.len() ==> events[i] == SchedulerEvent::AnimationFrame
                || events[i] == SchedulerEvent::Resize,
    ensures
        ({
            let r = scheduler_run(SchedulerState::Running, events);
            &&& r.0 == SchedulerState::Running
            &&& count_occurrences(r.1, SchedulerAction::InvokeCallback(true))
                == count_occurrences(events, SchedulerEvent::Resize)
            &&& count_occurrences(r.1, SchedulerAction::InvokeCallback(false))
                == count_occurrences(events, SchedulerEvent::AnimationFrame)
            &&& count_occurrences(r.1, SchedulerAction::RequestAnimationFrame)
                == count_occurrences(events, SchedulerEvent::AnimationFrame)
        }),
    decreases events.len(),
{
    if events.len() == 0 {
    } else {
        let first = scheduler_step(SchedulerState::Running, events[0]);
        assert(first.0 == SchedulerState::Running);
        lemma_running_counts(events.skip(1));
        lemma_step_counts(SchedulerState::Running, events[0], SchedulerAction::InvokeCallback(true));
        lemma_step_counts(SchedulerState::Running, events[0], SchedulerAction::InvokeCallback(false));
        lemma_step_counts(SchedulerState::Running, events[0], SchedulerAction::RequestAnimationFrame);
        let rest = scheduler_run(SchedulerState::Running, events.skip(1));
        lemma_count_occurrences_add(first.1, rest.1, SchedulerAction::InvokeCallback(true));
        lemma_count_occurrences_add(first.1, rest.1, SchedulerAction::InvokeCallback(false));
        lemma_count_occurrences_add(first.1, rest.1, SchedulerAction::RequestAnimationFrame);
    }
}

/// Law: over a whole trace — a start followed by any interleaving of
/// animation frames and resizes — the callback sees `true` exactly once for
/// the start plus once per resize, `false` exactly once per animation frame,
/// and a new frame is requested once at start and once per frame delivered;
/// and the very first action of the trace is the initial layout invocation,
/// before either event source is registered.
pub proof fn lemma_trace_counts(events: Seq<SchedulerEvent>)
    requires
        events.len() >= 1,
        events[0] == SchedulerEvent::Start,
        forall|i: int|
            1 <= i < events.len() ==> events[i] == SchedulerEvent::AnimationFrame
                || events[i] == SchedulerEvent::Resize,
    ensures
        ({
            let r = scheduler_run(SchedulerState::Idle, events);
            &&& r.0 == SchedulerState::Running
            &&& count_occurrences(r.1, SchedulerAction::InvokeCallback(true))
                == 1 + count_occurrences(events, SchedulerEvent::Resize)
            &&& count_occurrences(r.1, SchedulerAction::InvokeCallback(false))
                == count_occurrences(events, SchedulerEvent::AnimationFrame)
            &&& count_occurrences(r.1, SchedulerAction::RequestAnimationFrame)
                == 1 + count_occurrences(events, SchedulerEvent::AnimationFrame)
            &&& r.1.len() >= 1 && r.1[0] == SchedulerAction::InvokeCallback(true)
        }),
{
    let first = scheduler_step(SchedulerState::Idle, SchedulerEvent::Start);
    let tail = events.skip(1);
    lemma_running_counts(tail);
    let rest = scheduler_run(SchedulerState::Running, tail);
    lemma_step_counts(SchedulerState::Idle, SchedulerEvent::Start, SchedulerAction::InvokeCallback(true));
    lemma_step_counts(SchedulerState::Idle, SchedulerEvent::Start, SchedulerAction::InvokeCallback(false));
    lemma_step_counts(SchedulerState::Idle, SchedulerEvent::Start, SchedulerAction::RequestAnimationFrame);
    lemma_count_occurrences_add(first.1, rest.1, SchedulerAction::InvokeCallback(true));
    lemma_count_occurrences_add(first.1, rest.1, SchedulerAction::InvokeCallback(false));
    lemma_count_occurrences_add(first.1, rest.1, SchedulerAction::RequestAnimationFrame);
    assert((first.1 + rest.1)[0] == SchedulerAction::InvokeCallback(true));
    assert(count_occurrences(events, SchedulerEvent::Resize)
        == count_occurrences(tail, SchedulerEvent::Resize));
    assert(count_occurrences(events, SchedulerEvent::AnimationFrame)
        == count_occurrences(tail, SchedulerEvent::AnimationFrame));
}

/// Drives the render loop: hands the embedder, step by step, the actions
/// that keep one frame callback and one resize listener registered and the
/// frame loop self-sustaining.
#[derive(Debug)]
pub struct FrameScheduler {
    state: SchedulerState,
}

impl View for FrameScheduler {
    type V = SchedulerState;

    closed spec fn view(&self) -> SchedulerState {
        self.state
    }
}

impl FrameScheduler {
    /// A scheduler that has not started; the frame callback it will drive is
    /// chosen by the embedder and replaceable only by constructing a new
    /// scheduler.
    pub fn new() -> (s: FrameScheduler)
        ensures
            s@ == SchedulerState::Idle,
    {
        FrameScheduler { state: SchedulerState::Idle }
    }

    pub fn state(&self) -> (s: SchedulerState)
        ensures
            s == self@,
    {
        self.state
    }

    /// Starts the loop. The actions invoke the callback exactly once with
    /// `true` — synchronously, first, so layout-dependent state exists
    /// before any animation-driven frame — then register the resize listener
    /// and request the first animation frame.
    pub fn start(&mut self) -> (acts: Vec<SchedulerAction>)
        requires
            old(self)@ == SchedulerState::Idle,
        ensures
            final(self)@ == scheduler_step(old(self)@, SchedulerEvent::Start).0,
            acts@ == scheduler_step(old(self)@, SchedulerEvent::Start).1,
    {
        self.state = SchedulerState::Running;
        let mut acts: Vec<SchedulerAction> = Vec::new();
        acts.push(SchedulerAction::InvokeCallback(true));
        acts.push(SchedulerAction::RegisterResizeListener);
        acts.push(SchedulerAction::RequestAnimationFrame);
        proof {
            assert(acts@ =~= scheduler_step(SchedulerState::Idle, SchedulerEvent::Start).1);
        }
        acts
    }

    /// The host delivered the animation-frame notification: invoke the
    /// callback with `false`, then immediately re-request the next frame.
    pub fn on_animation_frame(&mut self) -> (acts: Vec<SchedulerAction>)
        requires
            old(self)@ == SchedulerState::Running,
        ensures
            final(self)@ == scheduler_step(old(self)@, SchedulerEvent::AnimationFrame).0,
            acts@ == scheduler_step(old(self)@, SchedulerEvent::AnimationFrame).1,
    {
        let mut acts: Vec<SchedulerAction> = Vec::new();
        acts.push(SchedulerAction::InvokeCallback(false));
        acts.push(SchedulerAction::RequestAnimationFrame);
        proof {
            assert(acts@
                =~= scheduler_step(SchedulerState::Running, SchedulerEvent::AnimationFrame).1);
        }
        acts
    }

    /// The output surface was resized: one extra layout pass, never coalesced
    /// with a running animation frame.
    pub fn on_resize(&mut self) -> (acts: Vec<SchedulerAction>)
        requires
            old(self)@ == SchedulerState::Running,
        ensures
            final(self)@ == scheduler_step(old(self)@, SchedulerEvent::Resize).0,
            acts@ == scheduler_step(old(self)@, SchedulerEvent::Resize).1,
    {
        let mut acts: Vec<SchedulerAction> = Vec::new();
        acts.push(SchedulerAction::InvokeCallback(true));
        proof {
            assert(acts@ =~= scheduler_step(SchedulerState::Running, SchedulerEvent::Resize).1);
        }
        acts
    }

    /// The host refused to register an event source: the scheduler cannot
    /// run headless, so the failure is fatal.
    pub fn on_init_failure(&mut self) -> (e: Error)
        ensures
            final(self)@ == SchedulerState::Failed,
            e is SchedulerInit,
    {
        self.state = SchedulerState::Failed;
        Error::SchedulerInit
    }
}

} // verus!
