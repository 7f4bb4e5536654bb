use render_core::error::Error;
use render_core::scheduler::{FrameScheduler, SchedulerAction, SchedulerState};

fn invocations(acts: &[SchedulerAction], flag: bool) -> usize {
    acts.iter().filter(|a| **a == SchedulerAction::InvokeCallback(flag)).count()
}

fn requests(acts: &[SchedulerAction]) -> usize {
    acts.iter().filter(|a| **a == SchedulerAction::RequestAnimationFrame).count()
}

#[test]
fn start_invokes_layout_pass_once_and_first() {
    let mut s = FrameScheduler::new();
    assert_eq!(s.state(), SchedulerState::Idle);
    let acts = s.start();
    assert_eq!(
        acts,
        vec![
            SchedulerAction::InvokeCallback(true),
            SchedulerAction::RegisterResizeListener,
            SchedulerAction::RequestAnimationFrame,
        ]
    );
    // Exactly one layout invocation, and it comes before anything else is
    // registered or requested.
    assert_eq!(invocations(&acts, true), 1);
    assert_eq!(acts[0], SchedulerAction::InvokeCallback(true));
    assert_eq!(s.state(), SchedulerState::Running);
}

#[test]
fn each_frame_invokes_callback_and_rerequests() {
    let mut s = FrameScheduler::new();
    s.start();
    let acts = s.on_animation_frame();
    assert_eq!(
        acts,
        vec![
            SchedulerAction::InvokeCallback(false),
            SchedulerAction::RequestAnimationFrame,
        ]
    );
}

#[test]
fn resize_between_frames_adds_exactly_one_layout_pass() {
    let mut s = FrameScheduler::new();
    let mut trace: Vec<SchedulerAction> = Vec::new();
    trace.extend(s.start());
    trace.extend(s.on_animation_frame());
    trace.extend(s.on_resize());
    trace.extend(s.on_animation_frame());
    // One layout pass for the start, one extra for the resize; both frames
    // delivered exactly once, each re-requesting the next.
    assert_eq!(invocations(&trace, true), 2);
    assert_eq!(invocations(&trace, false), 2);
    assert_eq!(requests(&trace), 3);
    assert_eq!(s.state(), SchedulerState::Running);
}

#[test]
fn resize_alone_does_not_request_frames() {
    let mut s = FrameScheduler::new();
    s.start();
    let acts = s.on_resize();
    assert_eq!(acts, vec![SchedulerAction::InvokeCallback(true)]);
}

#[test]
fn registration_failure_is_fatal() {
    let mut s = FrameScheduler::new();
    s.start();
    let e = s.on_init_failure();
    assert_eq!(e, Error::SchedulerInit);
    assert_eq!(s.state(), SchedulerState::Failed);
}
