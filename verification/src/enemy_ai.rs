//! Enemy AI decisions: the Patrol / Chase / Attack / Return state machine, target
//! acquisition and loss, attack timing and patrol waypoints. Distances, timers
//! and line of sight are measured by the caller and handed in as facts.
use vstd::prelude::*;

verus! {

/// What an enemy is doing.
#[derive(Clone, Copy, PartialEq, Eq, Structural, Debug)]
pub enum AiState {
    Patrol,
    Chase,
    Attack,
    Return,
}

/// What an enemy perceives this frame, as measured by the caller.
#[derive(Clone, Copy, PartialEq, Eq, Structural, Debug)]
pub struct AiSenses {
    /// The enemy knows a target position.
    pub has_target_position: bool,
    /// That position is within detection range and in line of sight.
    pub target_in_detection_range: bool,
    /// The enemy has an attack configuration.
    pub has_attack_config: bool,
    /// The target position is within attack range and the attack cooldown is over.
    pub attack_ready_in_range: bool,
    /// The enemy holds an aggro target.
    pub has_aggro_target: bool,
    /// More than a second has passed since the enemy started returning.
    pub return_time_elapsed: bool,
}

/// An enemy's AI state and the state it came from.
#[derive(Clone, Copy, PartialEq, Eq, Structural, Debug)]
pub struct EnemyAi {
    pub state: AiState,
    pub previous_state: AiState,
}

/// Why an enemy dropped its target.
#[derive(Clone, Copy, PartialEq, Eq, Structural, Debug)]
pub enum TargetLossReason {
    OutOfRange,
    LostSight,
}

/// What a perception check concluded.
#[derive(Clone, Copy, PartialEq, Eq, Structural, Debug)]
pub enum PerceptionUpdate {
    /// `player` is the target now; `newly_detected` when it was not the target
    /// before (a detection is announced).
    Target { player: u64, newly_detected: bool },
    /// The nearest visible player is beyond detection range: the target position
    /// is forgotten.
    OutOfRange,
    /// No player is visible: line of sight is lost and the time since the target
    /// was last seen grows.
    NothingSeen,
}

/// Where a patrolling enemy heads next.
#[derive(Clone, Copy, PartialEq, Eq, Structural, Debug)]
pub enum PatrolTarget {
    /// The waypoint at this index.
    Waypoint(usize),
    /// A random point around the spawn position.
    RandomPoint,
    /// Waypoint mode without waypoints: nowhere.
    Stay,
}

/// An obstacle that blocks sight, in whole pixels: its lower left corner and its
/// size.
#[derive(Clone, Copy, PartialEq, Eq, Structural, Debug)]
pub struct ObstacleRect {
    pub x: i32,
    pub y: i32,
    pub width: i32,
    pub height: i32,
}

/// The absolute value of `v`.
pub open spec fn abs_int(v: int) -> int {
    if v < 0 {
        -v
    } else {
        v
    }
}

/// How many steps the sight line from `(fx, fy)` to `(tx, ty)` is sampled in:
/// one per four pixels along its longer axis, plus one.
pub open spec fn sight_steps(fx: int, fy: int, tx: int, ty: int) -> int {
    let ax = abs_int(tx - fx);
    let ay = abs_int(ty - fy);
    (if ax < ay {
        ay
    } else {
        ax
    }) / 4 + 1
}

/// Sample `k` of the sight line (the point `k / steps` of the way along it) lies
/// in obstacle `o`, edges included. Coordinates are scaled by the step count so
/// that the test is exact.
pub open spec fn sample_blocked(o: ObstacleRect, fx: int, fy: int, tx: int, ty: int, k: int) -> bool {
    let n = sight_steps(fx, fy, tx, ty);
    let px = fx * n + (tx - fx) * k;
    let py = fy * n + (ty - fy) * k;
    &&& o.x * n <= px
    &&& px <= (o.x + o.width) * n
    &&& o.y * n <= py
    &&& py <= (o.y + o.height) * n
}

/// The line from `(fx, fy)` to `(tx, ty)` is clear: none of its samples, ends
/// included, lies in an obstacle.
pub open spec fn sight_clear(fx: int, fy: int, tx: int, ty: int, obstacles: Seq<ObstacleRect>) -> bool {
    forall|k: int, j: int|
        0 <= k <= sight_steps(fx, fy, tx, ty) && 0 <= j < obstacles.len() ==> !#[trigger] sample_blocked(
            obstacles[j],
            fx,
            fy,
            tx,
            ty,
            k,
        )
}

/// A bound on a product.
proof fn lemma_product_bound(a: int, b: int, bound_a: int, bound_b: int)
    by (nonlinear_arith)
    requires
        -bound_a <= a <= bound_a,
        -bound_b <= b <= bound_b,
    ensures
        -(bound_a * bound_b) <= a * b <= bound_a * bound_b,
{
}

/// The state an enemy moves to, given what it perceives.
pub open spec fn next_state(state: AiState, senses: AiSenses) -> AiState {
    match state {
        AiState::Patrol => if senses.has_target_position && senses.target_in_detection_range {
            AiState::Chase
        } else {
            AiState::Patrol
        },
        AiState::Chase => if !senses.has_attack_config {
            AiState::Chase
        } else if senses.has_target_position {
            if senses.attack_ready_in_range {
                AiState::Attack
            } else {
                AiState::Chase
            }
        } else if !senses.has_aggro_target {
            AiState::Return
        } else {
            AiState::Chase
        },
        AiState::Attack => AiState::Attack,
        AiState::Return => if senses.return_time_elapsed {
            AiState::Patrol
        } else {
            AiState::Return
        },
    }
}

/// The moves the state machine makes: patrol to chase, chase to attack or return,
/// attack back to chase or return, return to patrol, or staying put.
pub open spec fn allowed_transition(from: AiState, to: AiState) -> bool {
    ||| from == to
    ||| from == AiState::Patrol && to == AiState::Chase
    ||| from == AiState::Chase && (to == AiState::Attack || to == AiState::Return)
    ||| from == AiState::Attack && (to == AiState::Chase || to == AiState::Return)
    ||| from == AiState::Return && to == AiState::Patrol
}

/// The state after a finished attack: back to chasing while a target is held,
/// else returning.
pub open spec fn after_attack(has_aggro_target: bool) -> AiState {
    if has_aggro_target {
        AiState::Chase
    } else {
        AiState::Return
    }
}

impl EnemyAi {
    /// A new enemy patrols.
    pub fn new() -> (ai: EnemyAi)
        ensures
            ai.state == AiState::Patrol,
            ai.previous_state == AiState::Patrol,
    {
        EnemyAi { state: AiState::Patrol, previous_state: AiState::Patrol }
    }

    /// One step of the state machine; returns whether the state changed (the
    /// caller then restarts the state timer). On a change the old state becomes
    /// the previous state.
    pub fn step(&mut self, senses: AiSenses) -> (changed: bool)
        ensures
            final(self).state == next_state(old(self).state, senses),
            changed == (next_state(old(self).state, senses) != old(self).state),
            changed ==> final(self).previous_state == old(self).state,
            !changed ==> final(self).previous_state == old(self).previous_state,
            old(self).state == AiState::Chase && senses.has_attack_config && senses.has_target_position
                && !senses.attack_ready_in_range ==> final(self).state == AiState::Chase && !changed,
            old(self).state == AiState::Chase && final(self).state == AiState::Return ==> !senses.has_target_position
                && !senses.has_aggro_target,
            old(self).state == AiState::Chase && final(self).state == AiState::Attack ==> senses.has_target_position
                && senses.attack_ready_in_range,
    {
        proof {
            lemma_chase_goes_on_until_attack_or_loss(senses);
        }
        let new_state = match self.state {
            AiState::Patrol => {
                if senses.has_target_position && senses.target_in_detection_range {
                    AiState::Chase
                } else {
                    AiState::Patrol
                }
            },
            AiState::Chase => {
                if senses.has_attack_config {
                    if senses.has_target_position {
                        if senses.attack_ready_in_range {
                            AiState::Attack
                        } else {
                            AiState::Chase
                        }
                    } else if !senses.has_aggro_target {
                        AiState::Return
                    } else {
                        AiState::Chase
                    }
                } else {
                    AiState::Chase
                }
            },
            AiState::Attack => AiState::Attack,
            AiState::Return => {
                if senses.return_time_elapsed {
                    AiState::Patrol
                } else {
                    AiState::Return
                }
            },
        };
        if new_state != self.state {
            self.previous_state = self.state;
            self.state = new_state;
            true
        } else {
            false
        }
    }

    /// The attack animation is over: the enemy chases again while it holds a
    /// target, and returns otherwise.
    pub fn finish_attack(&mut self, has_aggro_target: bool)
        requires
            old(self).state == AiState::Attack,
        ensures
            final(self).previous_state == AiState::Attack,
            final(self).state == after_attack(has_aggro_target),
    {
        self.previous_state = self.state;
        self.state = if has_aggro_target { AiState::Chase } else { AiState::Return };
    }
}

/// The attack lands this frame: the enemy is attacking, the animation is in its
/// hit window, and the enemy has a target to hit.
pub fn attack_lands(state: AiState, in_hit_window: bool, has_aggro_target: bool) -> (r: bool)
    ensures
        r == (state == AiState::Attack && in_hit_window && has_aggro_target),
{
    state == AiState::Attack && in_hit_window && has_aggro_target
}

/// The attack cooldown restarts when an attack animation has run its course.
pub fn attack_cooldown_restarts(state: AiState, animation_done: bool) -> (r: bool)
    ensures
        r == (state == AiState::Attack && animation_done),
{
    state == AiState::Attack && animation_done
}

/// Why a target was dropped: out of range when it is beyond the aggro drop range,
/// else because it was out of sight too long.
pub fn target_loss_reason(beyond_drop_range: bool) -> (r: TargetLossReason)
    ensures
        r == (if beyond_drop_range {
            TargetLossReason::OutOfRange
        } else {
            TargetLossReason::LostSight
        }),
{
    if beyond_drop_range {
        TargetLossReason::OutOfRange
    } else {
        TargetLossReason::LostSight
    }
}

/// A throttled perception check. `nearest_visible` is the nearest player in line
/// of sight, if any, and `in_detection_range` whether it is within detection
/// range. A player in range becomes the target (a detection when it was not the
/// target already); a visible player out of range clears the target position; no
/// visible player counts as not seeing the target.
pub fn perceive(current_target: Option<u64>, nearest_visible: Option<u64>, in_detection_range: bool) -> (u: PerceptionUpdate)
    ensures
        u == match nearest_visible {
            Some(p) => if in_detection_range {
                PerceptionUpdate::Target { player: p, newly_detected: current_target != Some(p) }
            } else {
                PerceptionUpdate::OutOfRange
            },
            None => PerceptionUpdate::NothingSeen,
        },
{
    match nearest_visible {
        Some(p) => {
            if in_detection_range {
                let newly_detected = match current_target {
                    Some(t) => t != p,
                    None => true,
                };
                PerceptionUpdate::Target { player: p, newly_detected }
            } else {
                PerceptionUpdate::OutOfRange
            }
        },
        None => PerceptionUpdate::NothingSeen,
    }
}

/// Where a patrolling enemy that reached its target heads next: in waypoint mode
/// the waypoint after the current one, wrapping around; otherwise a random point
/// around its spawn.
pub fn next_patrol_target(use_waypoints: bool, waypoint_count: usize, current_index: usize) -> (t: PatrolTarget)
    requires
        current_index < usize::MAX,
    ensures
        t == (if !use_waypoints {
            PatrolTarget::RandomPoint
        } else if waypoint_count == 0 {
            PatrolTarget::Stay
        } else {
            PatrolTarget::Waypoint(((current_index + 1) % (waypoint_count as int)) as usize)
        }),
{
    if use_waypoints {
        if waypoint_count > 0 {
            PatrolTarget::Waypoint((current_index + 1) % waypoint_count)
        } else {
            PatrolTarget::Stay
        }
    } else {
        PatrolTarget::RandomPoint
    }
}

/// Whether an enemy at `(from_x, from_y)` sees a player at `(to_x, to_y)`: the
/// line between them is sampled every four pixels along its longer axis, ends
/// included, and no sample may lie in an obstacle.
pub fn line_of_sight(from_x: i32, from_y: i32, to_x: i32, to_y: i32, obstacles: &Vec<ObstacleRect>) -> (clear: bool)
    ensures
        clear == sight_clear(from_x as int, from_y as int, to_x as int, to_y as int, obstacles@),
{
    let fx = from_x as i128;
    let fy = from_y as i128;
    let dx = to_x as i128 - fx;
    let dy = to_y as i128 - fy;
    let ax = if dx < 0 { -dx } else { dx };
    let ay = if dy < 0 { -dy } else { dy };
    let longer = if ax < ay { ay } else { ax };
    let n: i128 = longer / 4 + 1;
    let ghost sx = from_x as int;
    let ghost sy = from_y as int;
    let ghost ex = to_x as int;
    let ghost ey = to_y as int;
    assert(n == sight_steps(sx, sy, ex, ey));
    assert(0 < n <= 0x1_0000_0000);
    let mut k: i128 = 0;
    while k <= n
        invariant
            0 <= k <= n + 1,
            n == sight_steps(sx, sy, ex, ey),
            0 < n <= 0x1_0000_0000,
            fx == sx,
            fy == sy,
            dx == ex - sx,
            dy == ey - sy,
            sx == from_x,
            sy == from_y,
            ex == to_x,
            ey == to_y,
            forall|k2: int, j: int|
                0 <= k2 < k && 0 <= j < obstacles@.len() ==> !#[trigger] sample_blocked(obstacles@[j], sx, sy, ex, ey, k2),
        decreases n + 1 - k,
    {
        proof {
            lemma_product_bound(fx as int, n as int, 0x8000_0000, 0x1_0000_0000);
            lemma_product_bound(fy as int, n as int, 0x8000_0000, 0x1_0000_0000);
            lemma_product_bound(dx as int, k as int, 0x1_0000_0000, 0x1_0000_0000);
            lemma_product_bound(dy as int, k as int, 0x1_0000_0000, 0x1_0000_0000);
        }
        let px = fx * n + dx * k;
        let py = fy * n + dy * k;
        let mut j: usize = 0;
        while j < obstacles.len()
            invariant
                j <= obstacles@.len(),
                0 <= k <= n,
                sx == from_x,
                sy == from_y,
                ex == to_x,
                ey == to_y,
                n == sight_steps(sx, sy, ex, ey),
                0 < n <= 0x1_0000_0000,
                px == sx * n + (ex - sx) * k,
                py == sy * n + (ey - sy) * k,
                -0x4_0000_0000_0000_0000 <= px <= 0x4_0000_0000_0000_0000,
                -0x4_0000_0000_0000_0000 <= py <= 0x4_0000_0000_0000_0000,
                forall|j2: int| 0 <= j2 < j ==> !#[trigger] sample_blocked(obstacles@[j2], sx, sy, ex, ey, k as int),
            decreases obstacles.len() - j,
        {
            let o = obstacles[j];
            let left = o.x as i128;
            let right = o.x as i128 + o.width as i128;
            let bottom = o.y as i128;
            let top = o.y as i128 + o.height as i128;
            proof {
                lemma_product_bound(left as int, n as int, 0x1_0000_0000, 0x1_0000_0000);
                lemma_product_bound(right as int, n as int, 0x1_0000_0000, 0x1_0000_0000);
                lemma_product_bound(bottom as int, n as int, 0x1_0000_0000, 0x1_0000_0000);
                lemma_product_bound(top as int, n as int, 0x1_0000_0000, 0x1_0000_0000);
            }
            if left * n <= px && px <= right * n && bottom * n <= py && py <= top * n {
                assert(sample_blocked(obstacles@[j as int], sx, sy, ex, ey, k as int));
                return false;
            }
            j += 1;
        }
        k += 1;
    }
    true
}

/// The state machine only makes the moves of its diagram: patrol to chase, chase
/// to attack or return, attack back to chase or return, return to patrol. In
/// particular an enemy attacks only out of a chase, and only when it knows where
/// its target is.
pub proof fn lemma_ai_moves_follow_diagram(state: AiState, senses: AiSenses, has_aggro_target: bool)
    ensures
        allowed_transition(state, next_state(state, senses)),
        allowed_transition(AiState::Attack, after_attack(has_aggro_target)),
        next_state(state, senses) == AiState::Attack ==> state == AiState::Chase || state == AiState::Attack,
        state == AiState::Chase && next_state(state, senses) == AiState::Attack ==> senses.has_target_position,
        state == AiState::Patrol ==> next_state(state, senses) != AiState::Attack && next_state(state, senses)
            != AiState::Return,
{
}

/// A chase goes on until the enemy can attack or has lost its target: an enemy
/// with an attack configuration that knows where its target is but is not ready
/// and in range keeps chasing; it attacks only when it knows where the target
/// is and is ready and in range; it gives the chase up (returns) only when it
/// knows no target position and holds no aggro target; and an enemy without an
/// attack configuration keeps chasing whatever it perceives.
pub proof fn lemma_chase_goes_on_until_attack_or_loss(senses: AiSenses)
    ensures
        senses.has_attack_config && senses.has_target_position && !senses.attack_ready_in_range ==> next_state(
            AiState::Chase,
            senses,
        ) == AiState::Chase,
        next_state(AiState::Chase, senses) == AiState::Attack <==> (senses.has_attack_config
            && senses.has_target_position && senses.attack_ready_in_range),
        next_state(AiState::Chase, senses) == AiState::Return <==> (senses.has_attack_config
            && !senses.has_target_position && !senses.has_aggro_target),
        !senses.has_attack_config ==> next_state(AiState::Chase, senses) == AiState::Chase,
{
}

} // verus!
