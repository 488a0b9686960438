use rust_shadow_dungeon::enemy_ai::{
    attack_cooldown_restarts, attack_lands, line_of_sight, next_patrol_target, perceive, target_loss_reason, AiSenses,
    AiState, EnemyAi, ObstacleRect, PatrolTarget, PerceptionUpdate, TargetLossReason,
};

fn senses() -> AiSenses {
    AiSenses {
        has_target_position: false,
        target_in_detection_range: false,
        has_attack_config: true,
        attack_ready_in_range: false,
        has_aggro_target: false,
        return_time_elapsed: false,
    }
}

#[test]
fn patrol_chase_attack_cycle() {
    let mut ai = EnemyAi::new();
    assert_eq!(ai.state, AiState::Patrol);
    // Player detected within range: chase.
    let seen = AiSenses { has_target_position: true, target_in_detection_range: true, has_aggro_target: true, ..senses() };
    assert!(ai.step(seen));
    assert_eq!(ai.state, AiState::Chase);
    assert_eq!(ai.previous_state, AiState::Patrol);
    // Close enough with cooldown ready: attack.
    assert!(ai.step(AiSenses { attack_ready_in_range: true, ..seen }));
    assert_eq!(ai.state, AiState::Attack);
    // Attack state holds until the animation ends.
    assert!(!ai.step(seen));
    assert_eq!(ai.state, AiState::Attack);
    ai.finish_attack(true);
    assert_eq!(ai.state, AiState::Chase);
    assert_eq!(ai.previous_state, AiState::Attack);
}

#[test]
fn lost_target_returns_then_patrols() {
    let mut ai = EnemyAi { state: AiState::Chase, previous_state: AiState::Patrol };
    ai.step(senses());
    assert_eq!(ai.state, AiState::Return);
    ai.step(senses());
    assert_eq!(ai.state, AiState::Return);
    ai.step(AiSenses { return_time_elapsed: true, ..senses() });
    assert_eq!(ai.state, AiState::Patrol);
    let mut attacker = EnemyAi { state: AiState::Attack, previous_state: AiState::Chase };
    attacker.finish_attack(false);
    assert_eq!(attacker.state, AiState::Return);
}

#[test]
fn enemy_behind_obstacle_keeps_patrolling() {
    let mut ai = EnemyAi::new();
    assert!(!ai.step(AiSenses { has_target_position: true, target_in_detection_range: false, ..senses() }));
    assert_eq!(ai.state, AiState::Patrol);
}

#[test]
fn chase_without_attack_config_never_attacks() {
    let mut ai = EnemyAi { state: AiState::Chase, previous_state: AiState::Patrol };
    ai.step(AiSenses { has_attack_config: false, has_target_position: true, attack_ready_in_range: true, ..senses() });
    assert_eq!(ai.state, AiState::Chase);
}

#[test]
fn perception_detects_and_refreshes_targets() {
    assert_eq!(perceive(None, Some(4), true), PerceptionUpdate::Target { player: 4, newly_detected: true });
    assert_eq!(perceive(Some(4), Some(4), true), PerceptionUpdate::Target { player: 4, newly_detected: false });
    assert_eq!(perceive(Some(4), Some(5), true), PerceptionUpdate::Target { player: 5, newly_detected: true });
    assert_eq!(perceive(Some(4), Some(4), false), PerceptionUpdate::OutOfRange);
    assert_eq!(perceive(Some(4), None, true), PerceptionUpdate::NothingSeen);
    assert_eq!(target_loss_reason(true), TargetLossReason::OutOfRange);
    assert_eq!(target_loss_reason(false), TargetLossReason::LostSight);
}

#[test]
fn attacks_land_in_the_hit_window() {
    assert!(attack_lands(AiState::Attack, true, true));
    assert!(!attack_lands(AiState::Attack, true, false));
    assert!(!attack_lands(AiState::Chase, true, true));
    assert!(attack_cooldown_restarts(AiState::Attack, true));
    assert!(!attack_cooldown_restarts(AiState::Attack, false));
}

#[test]
fn waypoints_wrap_around() {
    assert_eq!(next_patrol_target(true, 3, 0), PatrolTarget::Waypoint(1));
    assert_eq!(next_patrol_target(true, 3, 2), PatrolTarget::Waypoint(0));
    assert_eq!(next_patrol_target(true, 0, 0), PatrolTarget::Stay);
    assert_eq!(next_patrol_target(false, 3, 0), PatrolTarget::RandomPoint);
}

/// What an enemy with detection range 200 and attack range 32 perceives of a
/// player `distance` away, with or without a clear line of sight.
fn perceived(distance: f32, line_of_sight: bool, cooldown_ready: bool, has_target: bool) -> AiSenses {
    AiSenses {
        has_target_position: line_of_sight && distance <= 200.0,
        target_in_detection_range: line_of_sight && distance <= 200.0,
        has_attack_config: true,
        attack_ready_in_range: line_of_sight && distance <= 32.0 && cooldown_ready,
        has_aggro_target: has_target,
        return_time_elapsed: false,
    }
}

#[test]
fn test_ai_state_machine_flow() {
    // Enemy at (200, 0), player at (100, 0): 100 pixels away, in sight.
    let player: u64 = 11;
    let distance = (200.0f32 - 100.0).abs();
    assert!(line_of_sight(200, 0, 100, 0, &vec![]));
    let update = perceive(None, Some(player), distance <= 200.0);
    let target = match update {
        PerceptionUpdate::Target { player: p, newly_detected } => {
            assert!(newly_detected);
            Some(p)
        },
        _ => None,
    };
    assert!(target.is_some(), "Enemy should have detected player");
    assert_eq!(target, Some(player), "Enemy should target the player");
    let mut ai = EnemyAi::new();
    ai.step(perceived(distance, true, true, true));
    assert_eq!(ai.state, AiState::Chase, "Enemy should transition to Chase state");
}

#[test]
fn test_patrol_to_chase_to_attack_cycle() {
    // Enemy at (200, 0), player at (220, 0): 20 pixels away.
    let player: u64 = 12;
    let distance = (220.0f32 - 200.0).abs();
    let update = perceive(None, Some(player), distance <= 200.0);
    assert!(matches!(update, PerceptionUpdate::Target { .. }), "Enemy should have detected player");
    let mut ai = EnemyAi::new();
    ai.step(perceived(distance, true, true, true));
    ai.step(perceived(distance, true, true, true));
    assert!(ai.state == AiState::Attack || ai.state == AiState::Chase, "Enemy should be in Attack or Chase state");
}

#[test]
fn test_line_of_sight_with_obstacles() {
    // Enemy at (0, 0), player at (100, 0), a 20 by 20 obstacle centred at (50, 0).
    let player: u64 = 15;
    let obstacle = ObstacleRect { x: 40, y: -10, width: 20, height: 20 };
    let visible = line_of_sight(0, 0, 100, 0, &vec![obstacle]);
    let nearest = if visible { Some(player) } else { None };
    let update = perceive(None, nearest, 100.0f32 <= 200.0);
    assert_eq!(update, PerceptionUpdate::NothingSeen, "Enemy should NOT detect player through obstacle");
    let mut ai = EnemyAi::new();
    ai.step(perceived(100.0, visible, true, false));
    assert_eq!(ai.state, AiState::Patrol, "Enemy should remain in Patrol state when line of sight is blocked");
}

#[test]
fn test_line_of_sight_without_obstacles() {
    let player: u64 = 13;
    let visible = line_of_sight(0, 0, 100, 0, &vec![]);
    let nearest = if visible { Some(player) } else { None };
    let update = perceive(None, nearest, 100.0f32 <= 200.0);
    assert_eq!(
        update,
        PerceptionUpdate::Target { player, newly_detected: true },
        "Enemy should detect player when there are no obstacles"
    );
}

#[test]
fn sight_lines_are_blocked_only_by_obstacles_on_them() {
    let wall = ObstacleRect { x: 40, y: -10, width: 20, height: 20 };
    assert!(!line_of_sight(0, 0, 100, 0, &vec![wall]));
    assert!(line_of_sight(0, 50, 100, 50, &vec![wall]));
    assert!(!line_of_sight(100, 0, 0, 0, &vec![wall]));
    assert!(line_of_sight(-30, 0, 30, 0, &vec![wall]));
    // The ends themselves count: a player standing inside an obstacle is hidden.
    assert!(!line_of_sight(0, 0, 45, 0, &vec![wall]));
    // Samples fall every 20/6 pixels from 0 to 20: a post of no width at 10 is hit,
    // one at 8 (between samples 0, 3.3, 6.7 and 10) is not.
    let post = ObstacleRect { x: 10, y: -100, width: 0, height: 200 };
    assert!(!line_of_sight(0, 0, 20, 0, &vec![post]));
    let between = ObstacleRect { x: 8, ..post };
    assert!(line_of_sight(0, 0, 20, 0, &vec![between]));
    assert!(line_of_sight(5, 5, 5, 5, &vec![]));
}

#[test]
fn test_enemy_loses_target_out_of_range() {
    // Detected at 100 pixels; then the player moves to 500, beyond the aggro drop
    // range of 400.
    let player: u64 = 14;
    let mut ai = EnemyAi::new();
    assert!(matches!(perceive(None, Some(player), 100.0f32 <= 200.0), PerceptionUpdate::Target { .. }));
    ai.step(perceived(100.0, true, false, true));
    assert_eq!(ai.state, AiState::Chase);
    let distance: f32 = 500.0;
    assert!(distance > 400.0);
    assert_eq!(target_loss_reason(distance > 400.0), TargetLossReason::OutOfRange);
    assert_eq!(perceive(None, Some(player), distance <= 200.0), PerceptionUpdate::OutOfRange);
    // Target dropped: the enemy returns, then patrols again.
    ai.step(perceived(distance, true, false, false));
    assert_eq!(ai.state, AiState::Return);
    ai.step(AiSenses { return_time_elapsed: true, ..perceived(distance, true, false, false) });
    assert_eq!(ai.state, AiState::Patrol);
}

#[test]
fn test_attack_cooldown() {
    // A fresh attack configuration: range 32, cooldown 1.5 s, nothing used yet.
    let current_cooldown: f32 = 0.0;
    assert_eq!(current_cooldown, 0.0, "Cooldown should start at 0");
    let ready = current_cooldown <= 0.0;
    assert!(ready, "Cooldown should be ready initially");
    // Ready and in range, a chasing enemy attacks; the cooldown restarts only
    // once the attack animation has run.
    let mut ai = EnemyAi { state: AiState::Chase, previous_state: AiState::Patrol };
    ai.step(perceived(20.0, true, ready, true));
    assert_eq!(ai.state, AiState::Attack);
    assert!(!attack_cooldown_restarts(ai.state, false));
    assert!(attack_cooldown_restarts(ai.state, true));
}
