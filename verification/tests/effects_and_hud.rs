use rust_shadow_dungeon::animation::AnimationCursor;
use rust_shadow_dungeon::combat::HitKind;
use rust_shadow_dungeon::effects::{particle_count_range, particle_tint, roll_particle_count, ParticlePool, ParticleTint};
use rust_shadow_dungeon::hud::{cast_decision, displayed_coins, CastDecision, InventoryScreenAction, InventoryUIState};

#[test]
fn particle_pool_reuses_returned_entities() {
    let mut pool = ParticlePool::new();
    assert!(pool.needs_filling());
    for e in 0..200u64 {
        pool.add_entity(e);
    }
    assert_eq!(pool.pool_size(), 200);
    assert_eq!(pool.get(), Some(199));
    assert_eq!(pool.get(), Some(198));
    pool.return_entity(199);
    pool.return_entity(199);
    assert_eq!(pool.get(), Some(199));
    assert_eq!(pool.get(), Some(197));
}

#[test]
fn particle_bursts_stay_near_their_base() {
    assert_eq!(particle_count_range(10), (8, 12));
    assert_eq!(particle_count_range(25), (20, 30));
    // Large bases: the most is held to what a u32 counts.
    assert_eq!(particle_count_range(u32::MAX), (3435973836, u32::MAX));
    assert_eq!(particle_count_range(0), (0, 0));
    for _ in 0..20 {
        let n = roll_particle_count(10);
        assert!(8 <= n && n <= 12);
    }
    assert_eq!(particle_tint(HitKind::Critical), ParticleTint::Gold);
    assert_eq!(particle_tint(HitKind::Heavy), ParticleTint::Orange);
    assert_eq!(particle_tint(HitKind::Light), ParticleTint::White);
}

#[test]
fn animation_restarts_and_wraps() {
    let mut cursor = AnimationCursor::new(0);
    cursor.advance(true, 3);
    cursor.advance(true, 3);
    assert_eq!(cursor.current_frame, 2);
    cursor.advance(true, 3);
    assert_eq!(cursor.current_frame, 0);
    cursor.advance(false, 3);
    assert_eq!(cursor.current_frame, 0);
    cursor.advance(true, 3);
    assert!(cursor.observe_state(1));
    assert_eq!(cursor.current_frame, 0);
    assert!(!cursor.observe_state(1));
    assert_eq!(cursor.frame_to_show(4), Some(0));
    assert_eq!(AnimationCursor { current_state: 1, current_frame: 5 }.frame_to_show(4), None);
}

#[test]
fn hud_counts_and_toggles() {
    assert_eq!(displayed_coins(3), 3);
    assert_eq!(displayed_coins(12), 7);
    let mut screen = InventoryUIState::new();
    assert_eq!(screen.toggle(false), InventoryScreenAction::Nothing);
    assert_eq!(screen.toggle(true), InventoryScreenAction::Open);
    assert!(screen.is_open);
    assert_eq!(screen.toggle(true), InventoryScreenAction::Close);
    assert_eq!(cast_decision(false, true), CastDecision::OnCooldown);
    assert_eq!(cast_decision(true, false), CastDecision::NotEnoughMp);
    assert_eq!(cast_decision(true, true), CastDecision::Cast);
}
