//! Frame pacing and thermal state.
use vstd::prelude::*;

verus! {

/// Thermal state of the device.
#[derive(Debug, Clone, Copy, PartialEq, Eq, Structural)]
pub enum ThermalState {
    Nominal,
    Warm,
    Hot,
    Critical,
}

/// The frame rate a thermal policy allows in each thermal state.
#[derive(Debug, Clone, Copy, PartialEq, Eq, Structural)]
pub struct FpsLimits {
    pub nominal_fps: u32,
    pub warm_fps: u32,
    pub hot_fps: u32,
    pub critical_fps: u32,
}

impl FpsLimits {
    /// The limit that stands for `state`.
    pub open spec fn limit_for(self, state: ThermalState) -> u32 {
        match state {
            ThermalState::Nominal => self.nominal_fps,
            ThermalState::Warm => self.warm_fps,
            ThermalState::Hot => self.hot_fps,
            ThermalState::Critical => self.critical_fps,
        }
    }

    /// The frame rate recommended in `state`.
    pub fn recommended_fps(&self, state: ThermalState) -> (r: u32)
        ensures
            r == self.limit_for(state),
    {
        match state {
            ThermalState::Nominal => self.nominal_fps,
            ThermalState::Warm => self.warm_fps,
            ThermalState::Hot => self.hot_fps,
            ThermalState::Critical => self.critical_fps,
        }
    }
}

/// The instruction budget per frame once the device is critically hot: half
/// the current budget, but never below 10 000 instructions.
pub fn critical_instruction_budget(budget: u32) -> (r: u32)
    ensures
        r == (if budget / 2 >= 10_000 { budget / 2 } else { 10_000 }),
{
    let half = budget / 2;
    if half >= 10_000 {
        half
    } else {
        10_000
    }
}

/// Frame pacing helper to compute frame budgets.
#[derive(Debug, Clone, Copy)]
pub struct FramePacer {
    target_fps: u32,
}

/// A target rate of zero frames per second is raised to one.
pub open spec fn clamp_fps(fps: u32) -> u32 {
    if fps == 0 { 1 } else { fps }
}

impl FramePacer {
    /// The target rate this pacer holds.
    pub closed spec fn spec_target_fps(self) -> u32 {
        self.target_fps
    }

    /// A pacer always targets at least one frame per second.
    pub closed spec fn wf(self) -> bool {
        self.target_fps >= 1
    }

    pub fn new(target_fps: u32) -> (r: Self)
        ensures
            r.wf(),
            r.spec_target_fps() == clamp_fps(target_fps),
    {
        FramePacer { target_fps: if target_fps == 0 { 1 } else { target_fps } }
    }

    pub fn update_target_fps(&mut self, target_fps: u32)
        ensures
            final(self).wf(),
            final(self).spec_target_fps() == clamp_fps(target_fps),
    {
        self.target_fps = if target_fps == 0 { 1 } else { target_fps };
    }

    pub fn target_fps(&self) -> (r: u32)
        ensures
            r == self.spec_target_fps(),
    {
        self.target_fps
    }

    /// Milliseconds available to one frame, rounded down.
    pub fn frame_budget_ms(&self) -> (r: u32)
        requires
            self.wf(),
        ensures
            r == 1000int / (self.spec_target_fps() as int),
    {
        1000 / self.target_fps
    }
}

} // verus!
