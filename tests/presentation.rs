use livesplit_gpu::frame::Frame;
use livesplit_gpu::surface::{
    AcquireOutcome, AfterAcquire, FatalError, FrameStart, SurfaceState, TargetAction, TargetConfig,
    SAMPLES,
};

#[test]
fn new_surface_configures_both_targets() {
    let (surface, action) = SurfaceState::new(300, 500);
    let config = TargetConfig { width: 300, height: 500, sample_count: SAMPLES };
    assert_eq!(action, TargetAction::Build(config));
    assert_eq!(surface.config, config);
    assert_eq!(surface.begin_frame(), FrameStart::Acquire);
}

#[test]
fn zero_size_skips_then_restores() {
    let (mut surface, _) = SurfaceState::new(300, 500);
    assert_eq!(surface.resize(0, 0), TargetAction::Release);
    assert_eq!(surface.begin_frame(), FrameStart::Skip);
    let mut frame: Frame<(), (u32, u32)> = Frame::new();
    assert_eq!(frame.take_resize_hint(), None);
    let config = TargetConfig { width: 300, height: 500, sample_count: SAMPLES };
    assert_eq!(surface.resize(300, 500), TargetAction::Build(config));
    assert_eq!(surface.begin_frame(), FrameStart::Acquire);
    assert_eq!(surface.after_acquire(AcquireOutcome::Acquired), AfterAcquire::Draw);
}

#[test]
fn one_zero_side_skips() {
    let (mut surface, _) = SurfaceState::new(300, 500);
    assert_eq!(surface.resize(0, 500), TargetAction::Release);
    assert!(!surface.is_drawable());
    assert_eq!(surface.begin_frame(), FrameStart::Skip);
    assert_eq!(surface.resize(300, 0), TargetAction::Release);
    assert_eq!(surface.begin_frame(), FrameStart::Skip);
}

#[test]
fn resize_cycles_leave_one_configuration() {
    let (mut cycled, _) = SurfaceState::new(300, 500);
    for _ in 0..100 {
        cycled.resize(0, 0);
        cycled.resize(640, 480);
    }
    let (fresh, _) = SurfaceState::new(640, 480);
    assert_eq!(cycled, fresh);
}

#[test]
fn lost_surface_rebuilds_at_last_size() {
    let (mut surface, _) = SurfaceState::new(300, 500);
    surface.resize(320, 240);
    let expected = TargetConfig { width: 320, height: 240, sample_count: SAMPLES };
    assert_eq!(surface.after_acquire(AcquireOutcome::Lost), AfterAcquire::Rebuild(expected));
    assert_eq!(surface.after_acquire(AcquireOutcome::Outdated), AfterAcquire::Rebuild(expected));
    assert_eq!(surface.after_acquire(AcquireOutcome::Timeout), AfterAcquire::Retry);
    assert_eq!(
        surface.after_acquire(AcquireOutcome::OutOfMemory),
        AfterAcquire::Fail(FatalError::OutOfMemory)
    );
}

#[test]
fn zero_sized_window_starts_without_targets() {
    let (surface, action) = SurfaceState::new(0, 500);
    assert_eq!(action, TargetAction::Release);
    assert_eq!(surface.begin_frame(), FrameStart::Skip);
}
