//! Combat bookkeeping: the three-hit combo, hit boxes that strike each target
//! once, how a hit is classified for feedback, when damage is taken, and what a
//! death leads to.
use vstd::prelude::*;

use std::collections::HashSet;

verus! {

broadcast use vstd::std_specs::hash::group_hash_axioms;

/// How far into the combo the player is.
#[derive(Clone, Copy, PartialEq, Eq, Structural, Debug)]
pub enum ComboState {
    Idle,
    FirstHit,
    SecondHit,
    ThirdHit,
}

/// The player's combo: its stage and how many hits it has counted.
#[derive(Clone, Copy, PartialEq, Eq, Structural, Debug)]
pub struct Combo {
    pub state: ComboState,
    pub hit_count: u32,
}

/// What pressing the attack key did to the combo.
#[derive(Clone, Copy, PartialEq, Eq, Structural, Debug)]
pub struct AttackPress {
    /// The combo had timed out and was reset first, having counted this many hits.
    pub reset_from: Option<u32>,
    /// The combo's stage after the press.
    pub state: ComboState,
    /// The combo's hit count after the press.
    pub combo_count: u32,
}

/// How heavy a hit feels: it selects the sound, the particles and the freeze.
#[derive(Clone, Copy, PartialEq, Eq, Structural, Debug)]
pub enum HitKind {
    Light,
    Heavy,
    Critical,
}

/// What a death leads to.
#[derive(Clone, Copy, PartialEq, Eq, Structural, Debug)]
pub enum DeathOutcome {
    /// An enemy is defeated (its death animation removes it later).
    EnemyDefeated,
    /// The player died in a dungeon room and will respawn there.
    PlayerDeathInRoom,
    /// The player died outside a dungeon: nothing is announced, the player stays.
    PlayerDeathUnrecorded,
    /// Anything else is removed at once.
    Despawn,
}

/// A hit box of an attack: how many frames it lives, whether it can hit a target
/// more than once, and which targets it has hit.
#[derive(Debug)]
pub struct HitBox {
    pub lifetime_frames: u32,
    pub can_pierce: bool,
    pub hit_entities: HashSet<u64>,
}

/// The game pauses for a moment on impact ("hit-freeze"): the milliseconds of
/// pause left.
#[derive(Clone, Copy, PartialEq, Eq, Structural, Debug)]
pub struct Hitfreeze {
    pub remaining_ms: u32,
}

/// The next stage of the combo: idle to first hit to second to third, and after
/// the third hit a new combo starts with a first hit.
pub open spec fn next_combo_state(s: ComboState) -> ComboState {
    match s {
        ComboState::Idle => ComboState::FirstHit,
        ComboState::FirstHit => ComboState::SecondHit,
        ComboState::SecondHit => ComboState::ThirdHit,
        ComboState::ThirdHit => ComboState::FirstHit,
    }
}

/// The combo after an attack press; `window_expired` says whether the combo
/// window ran out since the last hit.
pub open spec fn combo_after_press(c: Combo, window_expired: bool) -> Combo {
    let base = if window_expired && c.state != ComboState::Idle {
        Combo { state: ComboState::Idle, hit_count: 0 }
    } else {
        c
    };
    Combo { state: next_combo_state(base.state), hit_count: (base.hit_count + 1) as u32 }
}

/// The kind of a hit: a critical hit counts as critical even when heavy.
pub open spec fn hit_kind(is_critical: bool, is_heavy: bool) -> HitKind {
    if is_critical {
        HitKind::Critical
    } else if is_heavy {
        HitKind::Heavy
    } else {
        HitKind::Light
    }
}

/// Damage is taken: the target is neither invincible nor a boss with locked health.
pub open spec fn takes_damage(invincible_active: bool, boss_health_locked: bool) -> bool {
    !invincible_active && !boss_health_locked
}

/// A hit box may strike `target`: the target is not invincible, and the box
/// either has not hit it yet or can pierce.
pub open spec fn may_strike(hit: Set<u64>, can_pierce: bool, target: u64, target_invincible: bool) -> bool {
    !target_invincible && (!hit.contains(target) || can_pierce)
}

impl Combo {
    /// No combo.
    pub fn new() -> (c: Combo)
        ensures
            c == (Combo { state: ComboState::Idle, hit_count: 0 }),
    {
        Combo { state: ComboState::Idle, hit_count: 0 }
    }

    /// Ends the combo.
    pub fn reset(&mut self)
        ensures
            *final(self) == (Combo { state: ComboState::Idle, hit_count: 0 }),
    {
        self.state = ComboState::Idle;
        self.hit_count = 0;
    }

    /// One more hit: the next stage, one more in the count.
    pub fn advance(&mut self)
        requires
            old(self).hit_count < u32::MAX,
        ensures
            final(self).state == next_combo_state(old(self).state),
            final(self).hit_count == old(self).hit_count + 1,
    {
        self.state = match self.state {
            ComboState::Idle => ComboState::FirstHit,
            ComboState::FirstHit => ComboState::SecondHit,
            ComboState::SecondHit => ComboState::ThirdHit,
            ComboState::ThirdHit => ComboState::FirstHit,
        };
        self.hit_count = self.hit_count + 1;
    }

    /// The player pressed attack: a combo whose window ran out is reset first
    /// (reported with its hit count), then the combo advances.
    pub fn press_attack(&mut self, window_expired: bool) -> (p: AttackPress)
        requires
            old(self).hit_count < u32::MAX,
        ensures
            *final(self) == combo_after_press(*old(self), window_expired),
            p.reset_from == (if window_expired && old(self).state != ComboState::Idle {
                Some(old(self).hit_count)
            } else {
                None
            }),
            p.state == final(self).state,
            p.combo_count == final(self).hit_count,
    {
        let mut reset_from: Option<u32> = None;
        if window_expired && self.state != ComboState::Idle {
            reset_from = Some(self.hit_count);
            self.reset();
        }
        self.advance();
        AttackPress { reset_from, state: self.state, combo_count: self.hit_count }
    }

    /// Time passes: an active combo whose window ran out ends; its hit count is
    /// reported.
    pub fn expire(&mut self, window_expired: bool) -> (ended_with: Option<u32>)
        ensures
            old(self).state != ComboState::Idle && window_expired ==> ended_with == Some(old(self).hit_count)
                && *final(self) == (Combo { state: ComboState::Idle, hit_count: 0 }),
            !(old(self).state != ComboState::Idle && window_expired) ==> ended_with is None && *final(self)
                == *old(self),
    {
        if self.state != ComboState::Idle && window_expired {
            let count = self.hit_count;
            self.reset();
            Some(count)
        } else {
            None
        }
    }

    /// The third hit of the combo is the heavy one.
    pub fn is_heavy(&self) -> (r: bool)
        ensures
            r == (self.state == ComboState::ThirdHit),
    {
        self.state == ComboState::ThirdHit
    }
}

/// The damage of a combo stage's hit, in percent of the base damage: the third
/// hit deals double damage, the others the base damage.
pub fn combo_damage_percent(state: ComboState) -> (percent: u32)
    ensures
        percent == (if state == ComboState::ThirdHit {
            200u32
        } else {
            100u32
        }),
{
    match state {
        ComboState::ThirdHit => 200,
        _ => 100,
    }
}

/// The combo counter is shown from a two-hit combo on.
pub fn combo_counter_shown(combo_count: u32) -> (r: bool)
    ensures
        r == (combo_count >= 2),
{
    combo_count >= 2
}

/// Knockback is applied by a heavy-damage hit while the player is on the third
/// hit of a combo.
pub fn knockback_applies(player_on_third_hit: bool, heavy_damage: bool) -> (r: bool)
    ensures
        r == (player_on_third_hit && heavy_damage),
{
    player_on_third_hit && heavy_damage
}

/// Classifies a hit for feedback.
pub fn classify_hit(is_critical: bool, is_heavy: bool) -> (k: HitKind)
    ensures
        k == hit_kind(is_critical, is_heavy),
{
    if is_critical {
        HitKind::Critical
    } else if is_heavy {
        HitKind::Heavy
    } else {
        HitKind::Light
    }
}

/// The sound effect of a hit.
pub fn hit_sound_path(kind: HitKind) -> (path: &'static str)
    ensures
        kind == HitKind::Critical ==> path@ == "audio/combat/hit_critical.ogg"@,
        kind == HitKind::Heavy ==> path@ == "audio/combat/hit_heavy.ogg"@,
        kind == HitKind::Light ==> path@ == "audio/combat/hit_light.ogg"@,
{
    match kind {
        HitKind::Critical => "audio/combat/hit_critical.ogg",
        HitKind::Heavy => "audio/combat/hit_heavy.ogg",
        HitKind::Light => "audio/combat/hit_light.ogg",
    }
}

/// Heavy and critical hits shake the screen; light hits do not.
pub fn shakes_screen(kind: HitKind) -> (r: bool)
    ensures
        r == (kind != HitKind::Light),
{
    match kind {
        HitKind::Light => false,
        _ => true,
    }
}

/// Damage is taken unless the target is invincible or is a boss whose health is
/// locked during a phase change.
pub fn damage_applies(invincible_active: bool, boss_health_locked: bool) -> (r: bool)
    ensures
        r == takes_damage(invincible_active, boss_health_locked),
{
    if invincible_active {
        return false;
    }
    if boss_health_locked {
        return false;
    }
    true
}

/// What the death of an entity whose health ran out leads to.
pub fn death_outcome(is_enemy: bool, is_player: bool, in_dungeon: bool) -> (o: DeathOutcome)
    ensures
        o == (if is_enemy {
            DeathOutcome::EnemyDefeated
        } else if is_player {
            if in_dungeon {
                DeathOutcome::PlayerDeathInRoom
            } else {
                DeathOutcome::PlayerDeathUnrecorded
            }
        } else {
            DeathOutcome::Despawn
        }),
{
    if is_enemy {
        DeathOutcome::EnemyDefeated
    } else if is_player {
        if in_dungeon {
            DeathOutcome::PlayerDeathInRoom
        } else {
            DeathOutcome::PlayerDeathUnrecorded
        }
    } else {
        DeathOutcome::Despawn
    }
}

impl HitBox {
    /// A hit box living `lifetime_frames` more frames that has hit nothing yet.
    pub fn new(lifetime_frames: u32, can_pierce: bool) -> (h: HitBox)
        ensures
            h.lifetime_frames == lifetime_frames,
            h.can_pierce == can_pierce,
            h.hit_entities@ == Set::<u64>::empty(),
    {
        HitBox { lifetime_frames, can_pierce, hit_entities: HashSet::new() }
    }

    /// The box has already hit `target`.
    pub fn has_hit(&self, target: u64) -> (r: bool)
        ensures
            r == self.hit_entities@.contains(target),
    {
        self.hit_entities.contains(&target)
    }

    /// Remembers that the box hit `target`.
    pub fn mark_hit(&mut self, target: u64)
        ensures
            final(self).hit_entities@ == old(self).hit_entities@.insert(target),
            final(self).lifetime_frames == old(self).lifetime_frames,
            final(self).can_pierce == old(self).can_pierce,
    {
        self.hit_entities.insert(target);
    }

    /// Checks the box against one target that `overlaps` it: when the box may
    /// strike the target, the target is remembered and a hit (a damage event) is
    /// reported.
    pub fn strike(&mut self, target: u64, target_invincible: bool, overlaps: bool) -> (hit: bool)
        ensures
            hit == (may_strike(old(self).hit_entities@, old(self).can_pierce, target, target_invincible)
                && overlaps),
            hit ==> final(self).hit_entities@ == old(self).hit_entities@.insert(target),
            !hit ==> final(self).hit_entities@ == old(self).hit_entities@,
            final(self).lifetime_frames == old(self).lifetime_frames,
            final(self).can_pierce == old(self).can_pierce,
            target_invincible ==> !hit && final(self).hit_entities@ == old(self).hit_entities@,
            !overlaps ==> !hit,
            !target_invincible && overlaps && !old(self).hit_entities@.contains(target) ==> hit,
    {
        proof {
            lemma_invincible_targets_are_never_struck(old(self).hit_entities@, target);
        }
        if self.has_hit(target) && !self.can_pierce {
            return false;
        }
        if target_invincible {
            return false;
        }
        if overlaps {
            self.mark_hit(target);
            true
        } else {
            false
        }
    }

    /// One frame of the box's life passes: a box with `n` frames of lifetime is
    /// removed at the end of its `n`-th frame (a box with none left at once);
    /// otherwise it has one frame less.
    pub fn tick(&mut self) -> (expired: bool)
        ensures
            expired == (old(self).lifetime_frames <= 1),
            final(self).lifetime_frames == (if expired {
                0
            } else {
                old(self).lifetime_frames - 1
            }),
            final(self).hit_entities@ == old(self).hit_entities@,
            final(self).can_pierce == old(self).can_pierce,
    {
        if self.lifetime_frames <= 1 {
            self.lifetime_frames = 0;
            true
        } else {
            self.lifetime_frames = self.lifetime_frames - 1;
            false
        }
    }
}

/// The hit-freeze a hit triggers, by its kind: the configured length for light,
/// heavy or critical hits, in milliseconds.
pub fn hitfreeze_duration(kind: HitKind, light_ms: u32, heavy_ms: u32, critical_ms: u32) -> (ms: u32)
    ensures
        ms == match kind {
            HitKind::Light => light_ms,
            HitKind::Heavy => heavy_ms,
            HitKind::Critical => critical_ms,
        },
{
    match kind {
        HitKind::Light => light_ms,
        HitKind::Heavy => heavy_ms,
        HitKind::Critical => critical_ms,
    }
}

impl Hitfreeze {
    /// No pause.
    pub fn new() -> (h: Hitfreeze)
        ensures
            h.remaining_ms == 0,
    {
        Hitfreeze { remaining_ms: 0 }
    }

    /// The game is paused.
    pub fn is_active(&self) -> (r: bool)
        ensures
            r == (self.remaining_ms > 0),
    {
        self.remaining_ms > 0
    }

    /// A hit asks for a pause of `duration_ms`: the longer of that and what is
    /// left is kept.
    pub fn trigger(&mut self, duration_ms: u32)
        ensures
            final(self).remaining_ms == (if duration_ms > old(self).remaining_ms {
                duration_ms
            } else {
                old(self).remaining_ms
            }),
    {
        if duration_ms > self.remaining_ms {
            self.remaining_ms = duration_ms;
        }
    }

    /// `elapsed_ms` of real time passed: the pause shortens by that much, down to
    /// none. Returns whether a pause ended just now.
    pub fn update(&mut self, elapsed_ms: u32) -> (just_ended: bool)
        ensures
            final(self).remaining_ms == (if old(self).remaining_ms > elapsed_ms {
                old(self).remaining_ms - elapsed_ms
            } else {
                0
            }),
            just_ended == (old(self).remaining_ms > 0 && final(self).remaining_ms == 0),
    {
        let was_active = self.remaining_ms > 0;
        self.remaining_ms = if self.remaining_ms > elapsed_ms { self.remaining_ms - elapsed_ms } else { 0 };
        was_active && self.remaining_ms == 0
    }
}

/// A hit box that cannot pierce damages each target at most once: once it struck
/// a target, it never may strike that target again.
pub proof fn lemma_hit_box_strikes_once(hit: Set<u64>, target: u64, target_invincible: bool)
    ensures
        !may_strike(hit.insert(target), false, target, target_invincible),
{
}

/// Three presses within the combo window run an idle combo through its three
/// hits, the third being the heavy one, each press counting one hit.
pub proof fn lemma_three_hit_combo(c: Combo)
    requires
        c.state == ComboState::Idle,
        c.hit_count + 3 <= u32::MAX,
    ensures
        ({
            let c1 = combo_after_press(c, false);
            let c2 = combo_after_press(c1, false);
            let c3 = combo_after_press(c2, false);
            &&& c1 == Combo { state: ComboState::FirstHit, hit_count: (c.hit_count + 1) as u32 }
            &&& c2 == Combo { state: ComboState::SecondHit, hit_count: (c.hit_count + 2) as u32 }
            &&& c3 == Combo { state: ComboState::ThirdHit, hit_count: (c.hit_count + 3) as u32 }
        }),
{
}

/// A press after the combo window ran out always starts a new combo at its first
/// hit, with a count of one.
pub proof fn lemma_timed_out_combo_restarts(c: Combo)
    requires
        c.state != ComboState::Idle,
    ensures
        combo_after_press(c, true) == (Combo { state: ComboState::FirstHit, hit_count: 1 }),
{
}

/// A hit box never strikes an invincible target, piercing or not, whatever it
/// hit before; a target that is not invincible and that the box has not hit yet
/// can always be struck; and only a piercing box strikes a target twice.
pub proof fn lemma_invincible_targets_are_never_struck(hit: Set<u64>, target: u64)
    ensures
        forall|can_pierce: bool| !#[trigger] may_strike(hit, can_pierce, target, true),
        !hit.contains(target) ==> may_strike(hit, false, target, false) && may_strike(hit, true, target, false),
        hit.contains(target) ==> !may_strike(hit, false, target, false) && may_strike(hit, true, target, false),
{
}

} // verus!
