use rust_shadow_dungeon::boss::{
    may_spawn_telegraph, plan_phase_skills, plan_telegraphs, select_ready_skill, skill_priority, BossActivations,
    BossController, PhaseChange,
    SkillPriority,
};
use rust_shadow_dungeon::combat::damage_applies;

#[test]
fn test_boss_encounter_start_flow() {
    let controller = BossController::new(1);
    assert_eq!(controller.current_phase, 0);
    let mut activations = BossActivations::new();
    let boss: u64 = 11;
    let (bx, by): (f32, f32) = (300.0, -60.0);
    let near = (bx * bx + by * by).sqrt() <= 500.0;
    assert!(activations.activate(boss, near));
    assert!(!activations.activate(boss, near));
}

#[test]
fn phases_advance_one_at_a_time_with_health_locked() {
    let mut controller = BossController::new(3);
    assert_eq!(controller.check_phase_threshold(false), None);
    let change = controller.check_phase_threshold(true);
    assert_eq!(change, Some(PhaseChange { from_phase: 0, to_phase: 1 }));
    assert!(controller.health_lock);
    assert!(controller.needs_invulnerability());
    assert!(!damage_applies(false, controller.health_lock));
    // While locked no further change happens.
    assert_eq!(controller.check_phase_threshold(true), None);
    assert!(!controller.finish_transition(false));
    assert!(controller.finish_transition(true));
    assert!(!controller.health_lock);
    assert_eq!(controller.check_phase_threshold(true), Some(PhaseChange { from_phase: 1, to_phase: 2 }));
    controller.finish_transition(true);
    // The last phase has no next phase.
    assert_eq!(controller.check_phase_threshold(true), None);
    assert_eq!(controller.phase_indicator(), (3, 3));
}

#[test]
fn reset_returns_boss_to_first_phase() {
    let mut controller = BossController::new(2);
    controller.check_phase_threshold(true);
    controller.reset();
    assert_eq!(controller, BossController::new(2));
}

#[test]
fn skills_are_matched_against_the_phase() {
    let phase = vec!["slam".to_string(), "roar".to_string(), "charge".to_string()];
    let known = vec!["charge".to_string(), "slam".to_string()];
    let plan = plan_phase_skills(&phase, &known);
    assert_eq!(plan.available, vec![(0, 1), (2, 0)]);
    assert_eq!(plan.missing, vec![1]);
    assert_eq!(skill_priority(1), SkillPriority::Low);
    assert_eq!(skill_priority(3), SkillPriority::High);
    assert_eq!(skill_priority(4), SkillPriority::Critical);
    assert_eq!(skill_priority(9), SkillPriority::Medium);
    assert!(may_spawn_telegraph(1));
    assert!(!may_spawn_telegraph(2));
}

#[test]
fn at_most_two_skill_warnings_are_on_screen() {
    // Three bosses want a warning: with none up, the first two get one.
    assert_eq!(plan_telegraphs(0, &vec![true, true, true]), vec![true, true, false]);
    // With one up, only the first boss that wants one gets it.
    assert_eq!(plan_telegraphs(1, &vec![false, true, true]), vec![false, true, false]);
    // With two up, none.
    assert_eq!(plan_telegraphs(2, &vec![true, true]), vec![false, false]);
    assert_eq!(plan_telegraphs(0, &vec![false, true]), vec![false, true]);
    assert!(plan_telegraphs(0, &vec![]).is_empty());
}

#[test]
fn the_ready_skill_of_highest_priority_is_chosen() {
    // Priority levels: 1 low, 2 medium, 3 high, 4 critical, others medium.
    assert_eq!(select_ready_skill(&vec![true, true, true], &vec![1, 3, 2]), Some(1));
    assert_eq!(select_ready_skill(&vec![true, false, true], &vec![1, 4, 2]), Some(2));
    assert_eq!(select_ready_skill(&vec![true, true], &vec![2, 9]), Some(0));
    assert_eq!(select_ready_skill(&vec![false, false], &vec![4, 4]), None);
    assert_eq!(select_ready_skill(&vec![], &vec![]), None);
}
