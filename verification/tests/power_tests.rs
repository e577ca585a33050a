use steam_mobile::power::{critical_instruction_budget, FpsLimits, FramePacer, ThermalState};

#[test]
fn frame_pacer_clamps_to_one() {
    let pacer = FramePacer::new(0);
    assert_eq!(pacer.target_fps(), 1);
    assert_eq!(pacer.frame_budget_ms(), 1000);
}

#[test]
fn frame_pacer_budget() {
    let mut pacer = FramePacer::new(60);
    assert_eq!(pacer.target_fps(), 60);
    assert_eq!(pacer.frame_budget_ms(), 16);
    pacer.update_target_fps(30);
    assert_eq!(pacer.frame_budget_ms(), 33);
    pacer.update_target_fps(0);
    assert_eq!(pacer.target_fps(), 1);
    pacer.update_target_fps(2000);
    assert_eq!(pacer.frame_budget_ms(), 0);
}

#[test]
fn fps_limits_follow_thermal_state() {
    let limits = FpsLimits { nominal_fps: 60, warm_fps: 45, hot_fps: 30, critical_fps: 15 };
    assert_eq!(limits.recommended_fps(ThermalState::Nominal), 60);
    assert_eq!(limits.recommended_fps(ThermalState::Warm), 45);
    assert_eq!(limits.recommended_fps(ThermalState::Hot), 30);
    assert_eq!(limits.recommended_fps(ThermalState::Critical), 15);
}

#[test]
fn critical_budget_halves_with_floor() {
    assert_eq!(critical_instruction_budget(50_000), 25_000);
    assert_eq!(critical_instruction_budget(20_001), 10_000);
    assert_eq!(critical_instruction_budget(12_000), 10_000);
    assert_eq!(critical_instruction_budget(0), 10_000);
}
