use woodeneye::frame::{Acquisition, FrameState, Plan, Presentation, Previous, Recording};

fn ready() -> FrameState {
    let mut f = FrameState::new();
    f.resumed(100);
    f
}

#[test]
fn without_a_window_nothing_happens() {
    let mut f = FrameState::new();
    assert_eq!(f.begin(5), None);
    f.resized();
    assert_eq!(f, FrameState::new());
}

#[test]
fn frames_account_for_all_time() {
    let mut f = ready();
    assert_eq!(f.begin(100), Some(0));
    assert_eq!(f.begin(350), Some(250));
    assert_eq!(f.begin(351), Some(1));
    assert_eq!(f.begin(300), Some(0));
    assert_eq!(f.begin(301), Some(1));
    assert_eq!(f.begin(301 + (1u128 << 64) + 9), Some(9));
}

#[test]
fn first_frame_without_a_start_takes_no_time() {
    let mut f = FrameState {
        ready: true,
        recreate_swapchain: false,
        last_frame: None,
    };
    assert_eq!(f.begin(77), Some(0));
    assert_eq!(f.last_frame, Some(77));
}

#[test]
fn minimized_window_is_not_drawn() {
    let mut f = ready();
    f.resized();
    assert_eq!(f.plan(0, 600), Plan::Skip);
    assert_eq!(f.plan(800, 0), Plan::Skip);
    assert!(f.recreate_swapchain);
    assert_eq!(f.plan(800, 600), Plan::RecreateAndDraw);
    assert!(!f.recreate_swapchain);
    assert_eq!(f.plan(800, 600), Plan::Draw);
}

#[test]
fn misfit_swapchain_is_replaced_in_the_next_frame() {
    let mut f = ready();
    assert_eq!(f.acquired(Acquisition::Optimal), Recording::Record);
    assert!(!f.recreate_swapchain);
    assert_eq!(f.acquired(Acquisition::Suboptimal), Recording::Record);
    assert!(f.recreate_swapchain);
    assert_eq!(f.presented(Presentation::Done), Previous::ThisFrame);
    assert_eq!(f.begin(200), Some(100));
    assert!(f.recreate_swapchain);
    assert_eq!(f.plan(1, 1), Plan::RecreateAndDraw);
    assert_eq!(f.acquired(Acquisition::OutOfDate), Recording::Abandon);
    assert_eq!(f.plan(1, 1), Plan::RecreateAndDraw);
    assert_eq!(f.presented(Presentation::OutOfDate), Previous::Nothing);
    assert_eq!(f.plan(1, 1), Plan::RecreateAndDraw);
}

#[test]
fn failures_are_told_apart() {
    let mut f = ready();
    assert_eq!(f.acquired(Acquisition::Failed), Recording::Fail);
    assert_eq!(f.presented(Presentation::Failed), Previous::ReportedFailure);
    assert!(!f.recreate_swapchain);
}

#[test]
fn new_window_starts_afresh() {
    let mut f = ready();
    f.resized();
    f.resumed(500);
    assert_eq!(f.plan(1, 1), Plan::Draw);
    assert_eq!(f.begin(510), Some(10));
}
