use rust_shadow_dungeon::combat::{
    classify_hit, combo_counter_shown, combo_damage_percent, hit_sound_path, knockback_applies, shakes_screen,
    Combo, ComboState, HitKind,
};

#[test]
fn test_three_hit_combo() {
    let mut combo = Combo::new();

    combo.advance();
    assert_eq!(combo.state, ComboState::FirstHit);
    assert_eq!(combo.hit_count, 1);

    combo.advance();
    assert_eq!(combo.state, ComboState::SecondHit);
    assert_eq!(combo.hit_count, 2);

    combo.advance();
    assert_eq!(combo.state, ComboState::ThirdHit);
    assert_eq!(combo.hit_count, 3);

    assert_eq!(combo_damage_percent(combo.state) as f32 / 100.0, 2.0);
}

#[test]
fn test_combo_timeout_reset() {
    let mut combo = Combo { state: ComboState::FirstHit, hit_count: 1 };
    let window_remaining: f32 = -0.1;
    let expired = window_remaining <= 0.0;
    assert!(expired);
    let ended = combo.expire(expired);
    assert_eq!(ended, Some(1));
    assert_eq!(combo.state, ComboState::Idle);
    assert_eq!(combo.hit_count, 0);
}

#[test]
fn pressing_after_timeout_resets_then_starts_again() {
    let mut combo = Combo { state: ComboState::SecondHit, hit_count: 2 };
    let press = combo.press_attack(true);
    assert_eq!(press.reset_from, Some(2));
    assert_eq!(press.state, ComboState::FirstHit);
    assert_eq!(press.combo_count, 1);
}

#[test]
fn pressing_within_window_continues_combo() {
    let mut combo = Combo::new();
    assert_eq!(combo.press_attack(false).reset_from, None);
    let press = combo.press_attack(false);
    assert_eq!(press.state, ComboState::SecondHit);
    assert_eq!(press.combo_count, 2);
    assert!(!combo.is_heavy());
    combo.press_attack(false);
    assert!(combo.is_heavy());
    let fourth = combo.press_attack(false);
    assert_eq!(fourth.state, ComboState::FirstHit);
    assert_eq!(fourth.combo_count, 4);
}

#[test]
fn idle_combo_does_not_expire() {
    let mut combo = Combo::new();
    assert_eq!(combo.expire(true), None);
    assert_eq!(combo, Combo::new());
}

#[test]
fn combo_counter_from_two_hits() {
    assert!(!combo_counter_shown(1));
    assert!(combo_counter_shown(2));
    assert!(combo_counter_shown(3));
}

#[test]
fn hits_are_classified_for_feedback() {
    assert_eq!(classify_hit(true, true), HitKind::Critical);
    assert_eq!(classify_hit(false, true), HitKind::Heavy);
    assert_eq!(classify_hit(false, false), HitKind::Light);
    assert_eq!(hit_sound_path(HitKind::Critical), "audio/combat/hit_critical.ogg");
    assert_eq!(hit_sound_path(HitKind::Heavy), "audio/combat/hit_heavy.ogg");
    assert_eq!(hit_sound_path(HitKind::Light), "audio/combat/hit_light.ogg");
    assert!(shakes_screen(HitKind::Heavy));
    assert!(!shakes_screen(HitKind::Light));
    assert!(knockback_applies(true, true));
    assert!(!knockback_applies(false, true));
    assert_eq!(combo_damage_percent(ComboState::FirstHit), 100);
}
