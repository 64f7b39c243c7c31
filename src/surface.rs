//! The presentation surface: the swapchain and the multisampled target that is
//! resolved into it. This module decides what happens to both on a resize and
//! at the start of each frame; the caller builds and acquires the GPU objects.

use vstd::prelude::*;

verus! {

/// The number of samples per pixel of the intermediate target.
pub const SAMPLES: u32 = 8;

/// The configuration that the swapchain and the intermediate target are both
/// built with. One value configures both, so they cannot disagree.
#[derive(Clone, Copy, Debug, PartialEq, Eq, Structural)]
pub struct TargetConfig {
    pub width: u32,
    pub height: u32,
    pub sample_count: u32,
}

/// The targets' configuration after a (re)build at `width` × `height`.
pub open spec fn config_at(width: u32, height: u32) -> TargetConfig {
    TargetConfig { width, height, sample_count: SAMPLES }
}

/// Whether a target of this size can be drawn to.
pub open spec fn drawable(config: TargetConfig) -> bool {
    config.width != 0 && config.height != 0
}

/// What to do with the swapchain and the intermediate target after the size
/// changed.
#[derive(Clone, Copy, Debug, PartialEq, Eq, Structural)]
pub enum TargetAction {
    /// Build both with this configuration, replacing the previous ones.
    Build(TargetConfig),
    /// Release both: the size has no pixels to draw.
    Release,
}

/// The action for targets that are to be configured as `config`.
pub open spec fn target_action(config: TargetConfig) -> TargetAction {
    if drawable(config) {
        TargetAction::Build(config)
    } else {
        TargetAction::Release
    }
}

/// What to do at the start of a frame.
#[derive(Clone, Copy, Debug, PartialEq, Eq, Structural)]
pub enum FrameStart {
    /// The target has no pixels: render nothing and leave the swapchain alone.
    Skip,
    /// Acquire the next swapchain image.
    Acquire,
}

/// What acquiring the next swapchain image gave.
#[derive(Clone, Copy, Debug, PartialEq, Eq, Structural)]
pub enum AcquireOutcome {
    Acquired,
    Timeout,
    Outdated,
    Lost,
    OutOfMemory,
}

/// A failure that ends rendering, for the caller to report.
#[derive(Clone, Copy, Debug, PartialEq, Eq, Structural)]
pub enum FatalError {
    OutOfMemory,
}

/// What to do once acquisition has answered.
#[derive(Clone, Copy, Debug, PartialEq, Eq, Structural)]
pub enum AfterAcquire {
    /// Draw the frame into the acquired image.
    Draw,
    /// Skip this frame; the next one tries again.
    Retry,
    /// Rebuild both targets with this configuration and skip this frame.
    Rebuild(TargetConfig),
    /// Stop rendering.
    Fail(FatalError),
}

/// The decision on an acquisition outcome, for targets configured as `config`.
pub open spec fn after_acquire_spec(config: TargetConfig, outcome: AcquireOutcome) -> AfterAcquire {
    match outcome {
        AcquireOutcome::Acquired => AfterAcquire::Draw,
        AcquireOutcome::Timeout => AfterAcquire::Retry,
        AcquireOutcome::Outdated => AfterAcquire::Rebuild(config),
        AcquireOutcome::Lost => AfterAcquire::Rebuild(config),
        AcquireOutcome::OutOfMemory => AfterAcquire::Fail(FatalError::OutOfMemory),
    }
}

/// The surface after a resize to `width` × `height`.
pub open spec fn resized(surface: SurfaceState, width: u32, height: u32) -> SurfaceState {
    SurfaceState { config: config_at(width, height) }
}

/// The first step of a frame on `surface`.
pub open spec fn frame_start(surface: SurfaceState) -> FrameStart {
    if drawable(surface.config) {
        FrameStart::Acquire
    } else {
        FrameStart::Skip
    }
}

/// The state of the presentation surface: the configuration its current
/// targets were built with.
#[derive(Clone, Copy, Debug, PartialEq, Eq, Structural)]
pub struct SurfaceState {
    pub config: TargetConfig,
}

impl SurfaceState {
    /// Targets are built with the fixed sample count.
    pub open spec fn wf(&self) -> bool {
        self.config.sample_count == SAMPLES
    }

    /// The surface of a window of `width` × `height` pixels, with what to do
    /// for its first targets.
    pub fn new(width: u32, height: u32) -> (r: (SurfaceState, TargetAction))
        ensures
            r.0.wf(),
            r.0.config == config_at(width, height),
            r.1 == target_action(config_at(width, height)),
    {
        let config = TargetConfig { width, height, sample_count: SAMPLES };
        let surface = SurfaceState { config };
        let action = surface.target_action();
        (surface, action)
    }

    fn target_action(&self) -> (r: TargetAction)
        ensures
            r == target_action(self.config),
    {
        if self.is_drawable() {
            TargetAction::Build(self.config)
        } else {
            TargetAction::Release
        }
    }

    /// Whether frames can be drawn at the current size.
    pub fn is_drawable(&self) -> (r: bool)
        ensures
            r == drawable(self.config),
    {
        self.config.width != 0 && self.config.height != 0
    }

    /// Takes a new window size. Both targets are rebuilt at that size, in
    /// place of the previous ones, or released where the size has no pixels.
    pub fn resize(&mut self, width: u32, height: u32) -> (r: TargetAction)
        ensures
            final(self).wf(),
            *final(self) == resized(*old(self), width, height),
            r == target_action(config_at(width, height)),
    {
        self.config = TargetConfig { width, height, sample_count: SAMPLES };
        self.target_action()
    }

    /// The first step of a frame: a surface without pixels is skipped before
    /// the swapchain is touched.
    pub fn begin_frame(&self) -> (r: FrameStart)
        ensures
            r == frame_start(*self),
    {
        if self.is_drawable() {
            FrameStart::Acquire
        } else {
            FrameStart::Skip
        }
    }

    /// The step after acquisition. A lost or outdated surface is rebuilt at the
    /// last known size and the frame skipped; a timeout skips the frame alone;
    /// running out of memory is fatal.
    pub fn after_acquire(&self, outcome: AcquireOutcome) -> (r: AfterAcquire)
        ensures
            r == after_acquire_spec(self.config, outcome),
    {
        match outcome {
            AcquireOutcome::Acquired => AfterAcquire::Draw,
            AcquireOutcome::Timeout => AfterAcquire::Retry,
            AcquireOutcome::Outdated => AfterAcquire::Rebuild(self.config),
            AcquireOutcome::Lost => AfterAcquire::Rebuild(self.config),
            AcquireOutcome::OutOfMemory => AfterAcquire::Fail(FatalError::OutOfMemory),
        }
    }
}

/// A resize to a size with no pixels releases the targets and makes the next
/// frame skip without touching the swapchain; a resize back to a size with pixels restores
/// drawing. What a resize leaves depends on the new size alone, whatever came
/// before it, so resize cycles build up nothing: after any number of cycles the
/// surface is the one that a single resize to the last size gives.
pub proof fn law_resize_cycle(surface: SurfaceState, other: SurfaceState, width: u32, height: u32)
    requires
        width != 0,
        height != 0,
    ensures
        frame_start(resized(surface, 0, height)) == FrameStart::Skip,
        target_action(config_at(0, height)) == TargetAction::Release,
        target_action(config_at(width, 0)) == TargetAction::Release,
        target_action(config_at(width, height)) == TargetAction::Build(config_at(width, height)),
        frame_start(resized(surface, width, 0)) == FrameStart::Skip,
        frame_start(resized(resized(surface, 0, 0), width, height)) == FrameStart::Acquire,
        resized(resized(surface, 0, 0), width, height) == resized(other, width, height),
        resized(surface, width, height).wf(),
{
}

} // verus!
