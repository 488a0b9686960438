//! Boss encounters: phases that advance as the boss loses health, with the
//! boss's health locked while a phase change plays out; encounters that start
//! once per boss; and which of the phase's skills are ready to be chosen from.
use vstd::prelude::*;

use std::collections::HashSet;

verus! {

broadcast use vstd::std_specs::hash::group_hash_axioms;

/// At most this many skill warnings are on screen at once.
pub const MAX_ACTIVE_TELEGRAPHS: usize = 2;

/// The priority level a boss skill gets when the boss first learns it.
pub const DEFAULT_SKILL_PRIORITY_LEVEL: u8 = 2;

/// A boss's progress through its phases.
#[derive(Clone, Copy, PartialEq, Eq, Structural, Debug)]
pub struct BossController {
    /// How many phases the boss has.
    pub phase_count: usize,
    /// The phase the boss is in.
    pub current_phase: usize,
    /// Damage is ignored while this is set.
    pub health_lock: bool,
    /// A phase change is playing out.
    pub is_transitioning: bool,
    /// The phase change has a start time (kept by the caller).
    pub transition_started: bool,
}

/// The boss moved from one phase to the next.
#[derive(Clone, Copy, PartialEq, Eq, Structural, Debug)]
pub struct PhaseChange {
    pub from_phase: usize,
    pub to_phase: usize,
}

/// How urgently the boss wants to use a skill.
#[derive(Clone, Copy, PartialEq, Eq, Structural, Debug)]
pub enum SkillPriority {
    Low,
    Medium,
    High,
    Critical,
}

/// The skills of the current phase, matched against the skills the boss has:
/// `available` pairs a phase skill index with the index of the boss's skill of
/// that id; `missing` lists the phase skills the boss does not have yet.
#[derive(Clone, Debug)]
pub struct SkillPlan {
    pub available: Vec<(usize, usize)>,
    pub missing: Vec<usize>,
}

/// The bosses whose encounter has started.
#[derive(Debug)]
pub struct BossActivations {
    pub activated: HashSet<u64>,
}

/// The phase change due when the boss's health has fallen to the next phase's
/// threshold: one phase on, unless health is locked or this is the last phase.
pub open spec fn due_phase_change(c: BossController, below_next_threshold: bool) -> Option<PhaseChange> {
    if !c.health_lock && c.current_phase + 1 < c.phase_count && below_next_threshold {
        Some(PhaseChange { from_phase: c.current_phase, to_phase: (c.current_phase + 1) as usize })
    } else {
        None
    }
}

/// The controller of a boss back in its first phase, with nothing in progress.
pub open spec fn reset_controller(c: BossController) -> BossController {
    BossController {
        current_phase: 0,
        health_lock: false,
        is_transitioning: false,
        transition_started: false,
        ..c
    }
}

/// The encounter of `boss` starts now: the player is near and it has not started
/// before.
pub open spec fn encounter_starts(activated: Set<u64>, boss: u64, near: bool) -> bool {
    near && !activated.contains(boss)
}

/// The started encounters after the activation checks `later`, in order, each a
/// boss and whether the player is near it.
pub open spec fn activated_after(activated: Set<u64>, later: Seq<(u64, bool)>) -> Set<u64>
    decreases later.len(),
{
    if later.len() == 0 {
        activated
    } else {
        let before = activated_after(activated, later.drop_last());
        let (boss, near) = later.last();
        if encounter_starts(before, boss, near) {
            before.insert(boss)
        } else {
            before
        }
    }
}

/// The priority of a skill's level: 1 low, 2 medium, 3 high, 4 critical, any
/// other medium.
pub open spec fn priority_of(level: u8) -> SkillPriority {
    if level == 1 {
        SkillPriority::Low
    } else if level == 3 {
        SkillPriority::High
    } else if level == 4 {
        SkillPriority::Critical
    } else {
        SkillPriority::Medium
    }
}

/// How many entries of `s` are set.
pub open spec fn count_set(s: Seq<bool>) -> nat
    decreases s.len(),
{
    if s.len() == 0 {
        0
    } else {
        count_set(s.drop_last()) + if s.last() {
            1nat
        } else {
            0nat
        }
    }
}

/// Which bosses show a skill warning, when `active` warnings are on screen and
/// `wants[i]` says whether boss `i` has a skill to warn of: in boss order, each
/// that wants one gets one while fewer than the maximum are on screen.
pub open spec fn telegraph_plan(active: nat, wants: Seq<bool>) -> Seq<bool>
    decreases wants.len(),
{
    if wants.len() == 0 {
        Seq::empty()
    } else {
        let before = telegraph_plan(active, wants.drop_last());
        before.push(wants.last() && active + count_set(before) < MAX_ACTIVE_TELEGRAPHS)
    }
}

/// The rank of a skill's priority level: low 0, medium 1, high 2, critical 3.
pub open spec fn priority_rank(level: u8) -> int {
    match priority_of(level) {
        SkillPriority::Low => 0,
        SkillPriority::Medium => 1,
        SkillPriority::High => 2,
        SkillPriority::Critical => 3,
    }
}

/// The index of the first skill, at or after `from`, whose id is `id`.
pub open spec fn first_skill(skills: Seq<String>, id: Seq<char>, from: int) -> Option<int>
    decreases skills.len() - from,
{
    if from < 0 || from >= skills.len() {
        None
    } else if skills[from]@ == id {
        Some(from)
    } else {
        first_skill(skills, id, from + 1)
    }
}

/// The skill plan of the first `n` phase skills.
pub open spec fn skill_plan_of(phase: Seq<String>, boss: Seq<String>, n: int) -> (Seq<(usize, usize)>, Seq<usize>)
    decreases n,
{
    if n <= 0 {
        (Seq::empty(), Seq::empty())
    } else {
        let (available, missing) = skill_plan_of(phase, boss, n - 1);
        match first_skill(boss, phase[n - 1]@, 0) {
            Some(k) => (available.push(((n - 1) as usize, k as usize)), missing),
            None => (available, missing.push((n - 1) as usize)),
        }
    }
}

/// Where `first_skill` points: a skill of that id with none before it.
pub proof fn lemma_first_skill(skills: Seq<String>, id: Seq<char>, from: int)
    requires
        0 <= from,
    ensures
        match first_skill(skills, id, from) {
            Some(k) => from <= k < skills.len() && skills[k]@ == id && forall|j: int|
                from <= j < k ==> (#[trigger] skills[j])@ != id,
            None => forall|j: int| from <= j < skills.len() ==> (#[trigger] skills[j])@ != id,
        },
    decreases skills.len() - from,
{
    if from < skills.len() && skills[from]@ != id {
        lemma_first_skill(skills, id, from + 1);
    }
}

impl BossController {
    /// A boss with `phase_count` phases, in its first phase.
    pub fn new(phase_count: usize) -> (c: BossController)
        ensures
            c == (BossController {
                phase_count,
                current_phase: 0,
                health_lock: false,
                is_transitioning: false,
                transition_started: false,
            }),
    {
        BossController {
            phase_count,
            current_phase: 0,
            health_lock: false,
            is_transitioning: false,
            transition_started: false,
        }
    }

    /// The phase the boss is in exists (its settings can be read).
    pub fn has_current_phase(&self) -> (r: bool)
        ensures
            r == (self.current_phase < self.phase_count),
    {
        self.current_phase < self.phase_count
    }

    /// Checks the boss's health against the next phase: when a phase change is
    /// due the boss moves to the next phase, its health locks and the change
    /// starts playing out.
    pub fn check_phase_threshold(&mut self, below_next_threshold: bool) -> (change: Option<PhaseChange>)
        ensures
            change == due_phase_change(*old(self), below_next_threshold),
            change matches Some(ch) ==> *final(self) == (BossController {
                current_phase: ch.to_phase,
                health_lock: true,
                is_transitioning: true,
                transition_started: true,
                ..*old(self)
            }),
            change is None ==> *final(self) == *old(self),
    {
        if self.health_lock {
            return None;
        }
        if self.phase_count > 0 && self.current_phase < self.phase_count - 1 && below_next_threshold {
            let from_phase = self.current_phase;
            let to_phase = self.current_phase + 1;
            self.health_lock = true;
            self.is_transitioning = true;
            self.transition_started = true;
            self.current_phase = to_phase;
            Some(PhaseChange { from_phase, to_phase })
        } else {
            None
        }
    }

    /// The boss is made invulnerable while a phase change of an existing phase
    /// plays out with its health locked.
    pub fn needs_invulnerability(&self) -> (r: bool)
        ensures
            r == (self.health_lock && self.is_transitioning && self.current_phase < self.phase_count),
    {
        self.health_lock && self.is_transitioning && self.has_current_phase()
    }

    /// Ends a started phase change once the phase's invulnerability time is over:
    /// the health unlocks; returns whether it did.
    pub fn finish_transition(&mut self, invulnerability_over: bool) -> (unlocked: bool)
        ensures
            unlocked == (old(self).transition_started && old(self).current_phase < old(self).phase_count
                && invulnerability_over),
            unlocked ==> *final(self) == (BossController {
                health_lock: false,
                is_transitioning: false,
                transition_started: false,
                ..*old(self)
            }),
            !unlocked ==> *final(self) == *old(self),
    {
        if self.transition_started && self.has_current_phase() && invulnerability_over {
            self.health_lock = false;
            self.is_transitioning = false;
            self.transition_started = false;
            true
        } else {
            false
        }
    }

    /// Puts the boss back into its first phase with nothing in progress (the
    /// player died, or left the fight).
    pub fn reset(&mut self)
        ensures
            *final(self) == reset_controller(*old(self)),
    {
        self.current_phase = 0;
        self.health_lock = false;
        self.is_transitioning = false;
        self.transition_started = false;
    }

    /// The phase indicator: the phase number counted from one, and the number of
    /// phases.
    pub fn phase_indicator(&self) -> (r: (usize, usize))
        requires
            self.current_phase < usize::MAX,
        ensures
            r == ((self.current_phase + 1) as usize, self.phase_count),
    {
        (self.current_phase + 1, self.phase_count)
    }
}

impl BossActivations {
    /// No encounter has started.
    pub fn new() -> (a: BossActivations)
        ensures
            a.activated@ == Set::<u64>::empty(),
    {
        BossActivations { activated: HashSet::new() }
    }

    /// The player is `near` the boss: its encounter starts, unless it started
    /// before. Returns whether the encounter started now.
    pub fn activate(&mut self, boss: u64, near: bool) -> (started: bool)
        ensures
            started == encounter_starts(old(self).activated@, boss, near),
            started ==> final(self).activated@ == old(self).activated@.insert(boss),
            !started ==> final(self).activated@ == old(self).activated@,
            !near ==> !started && final(self).activated@ == old(self).activated@,
            near && !old(self).activated@.contains(boss) ==> started,
            final(self).activated@.contains(boss) == (old(self).activated@.contains(boss) || near),
    {
        proof {
            lemma_encounter_starts_only_near(old(self).activated@, boss);
        }
        if self.activated.contains(&boss) {
            return false;
        }
        if near {
            self.activated.insert(boss);
            true
        } else {
            false
        }
    }
}

/// Decides which bosses show a skill warning this frame: bosses are taken in
/// order, and each that has a skill to warn of (`wants[i]`) gets a warning while
/// fewer than two warnings are on screen, counting the ones just decided.
pub fn plan_telegraphs(active_telegraphs: usize, wants: &Vec<bool>) -> (spawn: Vec<bool>)
    ensures
        spawn@ == telegraph_plan(active_telegraphs as nat, wants@),
{
    let mut spawn: Vec<bool> = Vec::new();
    let mut spawned: usize = 0;
    let mut i: usize = 0;
    while i < wants.len()
        invariant
            i <= wants@.len(),
            spawn@ == telegraph_plan(active_telegraphs as nat, wants@.take(i as int)),
            spawned == count_set(spawn@),
            spawned <= i,
        decreases wants.len() - i,
    {
        let ghost before = spawn@;
        let room = active_telegraphs < MAX_ACTIVE_TELEGRAPHS && spawned < MAX_ACTIVE_TELEGRAPHS - active_telegraphs;
        let s = wants[i] && room;
        spawn.push(s);
        if s {
            spawned += 1;
        }
        i += 1;
        assert(wants@.take(i as int).drop_last() =~= wants@.take(i - 1));
        assert(spawn@.drop_last() =~= before);
    }
    assert(wants@.take(i as int) =~= wants@);
    spawn
}

/// The skill to use among `ready[i]` (skill `i` is ready) with priority levels
/// `levels[i]`: a ready skill of the highest priority, the first such one; none
/// when no skill is ready.
pub fn select_ready_skill(ready: &Vec<bool>, levels: &Vec<u8>) -> (r: Option<usize>)
    requires
        levels@.len() == ready@.len(),
    ensures
        match r {
            Some(k) => {
                &&& k < ready@.len()
                &&& ready@[k as int]
                &&& forall|j: int| 0 <= j < ready@.len() && #[trigger] ready@[j] ==> priority_rank(levels@[j])
                    <= priority_rank(levels@[k as int])
                &&& forall|j: int| 0 <= j < k && #[trigger] ready@[j] ==> priority_rank(levels@[j]) < priority_rank(
                    levels@[k as int],
                )
            },
            None => forall|j: int| 0 <= j < ready@.len() ==> !#[trigger] ready@[j],
        },
{
    let mut best: Option<usize> = None;
    let mut best_rank: u8 = 0;
    let mut i: usize = 0;
    while i < ready.len()
        invariant
            i <= ready@.len(),
            levels@.len() == ready@.len(),
            match best {
                Some(k) => {
                    &&& k < i
                    &&& ready@[k as int]
                    &&& best_rank as int == priority_rank(levels@[k as int])
                    &&& forall|j: int| 0 <= j < i && #[trigger] ready@[j] ==> priority_rank(levels@[j])
                        <= priority_rank(levels@[k as int])
                    &&& forall|j: int| 0 <= j < k && #[trigger] ready@[j] ==> priority_rank(levels@[j])
                        < priority_rank(levels@[k as int])
                },
                None => forall|j: int| 0 <= j < i ==> !#[trigger] ready@[j],
            },
        decreases ready.len() - i,
    {
        if ready[i] {
            let rank: u8 = match skill_priority(levels[i]) {
                SkillPriority::Low => 0,
                SkillPriority::Medium => 1,
                SkillPriority::High => 2,
                SkillPriority::Critical => 3,
            };
            let better = match best {
                Some(_) => rank > best_rank,
                None => true,
            };
            if better {
                best = Some(i);
                best_rank = rank;
            }
        }
        i += 1;
    }
    best
}

/// At most two skill warnings are on screen: with no more than two up, the
/// warnings decided for a frame never bring the count above two; with two or
/// more up, none is added. Within that limit every boss that wants a warning
/// gets one, in boss order, and only bosses that want one get one.
pub proof fn lemma_telegraph_limit(active: nat, wants: Seq<bool>)
    ensures
        telegraph_plan(active, wants).len() == wants.len(),
        forall|i: int| 0 <= i < wants.len() && #[trigger] telegraph_plan(active, wants)[i] ==> wants[i],
        active >= MAX_ACTIVE_TELEGRAPHS ==> count_set(telegraph_plan(active, wants)) == 0,
        active <= MAX_ACTIVE_TELEGRAPHS ==> active + count_set(telegraph_plan(active, wants)) <= MAX_ACTIVE_TELEGRAPHS,
        active <= MAX_ACTIVE_TELEGRAPHS ==> count_set(telegraph_plan(active, wants)) == if count_set(wants) + active
            <= MAX_ACTIVE_TELEGRAPHS {
            count_set(wants)
        } else {
            (MAX_ACTIVE_TELEGRAPHS - active) as nat
        },
    decreases wants.len(),
{
    if wants.len() > 0 {
        lemma_telegraph_limit(active, wants.drop_last());
        let before = telegraph_plan(active, wants.drop_last());
        let plan = telegraph_plan(active, wants);
        assert(plan.drop_last() =~= before);
        assert forall|i: int| 0 <= i < wants.len() && #[trigger] plan[i] implies wants[i] by {
            if i < wants.len() - 1 {
                assert(plan[i] == before[i]);
            }
        }
    }
}

/// The priority of a skill's level.
pub fn skill_priority(level: u8) -> (p: SkillPriority)
    ensures
        p == priority_of(level),
        level == 1 ==> p == SkillPriority::Low,
        level == 2 ==> p == SkillPriority::Medium,
        level == 3 ==> p == SkillPriority::High,
        level == 4 ==> p == SkillPriority::Critical,
        !(1 <= level <= 4) ==> p == SkillPriority::Medium,
{
    proof {
        lemma_priority_levels_ordered();
    }
    match level {
        1 => SkillPriority::Low,
        2 => SkillPriority::Medium,
        3 => SkillPriority::High,
        4 => SkillPriority::Critical,
        _ => SkillPriority::Medium,
    }
}

/// Another skill warning may be shown: fewer than two are on screen.
pub fn may_spawn_telegraph(active_telegraphs: usize) -> (r: bool)
    ensures
        r == (active_telegraphs < MAX_ACTIVE_TELEGRAPHS),
{
    active_telegraphs < MAX_ACTIVE_TELEGRAPHS
}

/// The index of the first skill whose id is `id`.
pub fn find_skill(skill_ids: &Vec<String>, id: &String) -> (r: Option<usize>)
    ensures
        match r {
            Some(k) => first_skill(skill_ids@, id@, 0) == Some(k as int),
            None => first_skill(skill_ids@, id@, 0) is None,
        },
        r matches Some(k) ==> k < skill_ids@.len() && skill_ids@[k as int]@ == id@,
        r is None ==> forall|j: int| 0 <= j < skill_ids@.len() ==> (#[trigger] skill_ids@[j])@ != id@,
{
    proof {
        lemma_first_skill(skill_ids@, id@, 0);
    }
    let mut k: usize = 0;
    while k < skill_ids.len()
        invariant
            k <= skill_ids@.len(),
            first_skill(skill_ids@, id@, 0) == first_skill(skill_ids@, id@, k as int),
        decreases skill_ids.len() - k,
    {
        if skill_ids[k] == *id {
            return Some(k);
        }
        k += 1;
    }
    None
}

/// Matches the current phase's skill ids against the skills the boss has: each
/// phase skill pairs with the boss's first skill of the same id, or is missing.
pub fn plan_phase_skills(phase_skill_ids: &Vec<String>, boss_skill_ids: &Vec<String>) -> (plan: SkillPlan)
    ensures
        (plan.available@, plan.missing@) == skill_plan_of(phase_skill_ids@, boss_skill_ids@, phase_skill_ids@.len() as int),
{
    let mut available: Vec<(usize, usize)> = Vec::new();
    let mut missing: Vec<usize> = Vec::new();
    let mut i: usize = 0;
    while i < phase_skill_ids.len()
        invariant
            i <= phase_skill_ids@.len(),
            (available@, missing@) == skill_plan_of(phase_skill_ids@, boss_skill_ids@, i as int),
        decreases phase_skill_ids.len() - i,
    {
        let found = find_skill(boss_skill_ids, &phase_skill_ids[i]);
        match found {
            Some(k) => available.push((i, k)),
            None => missing.push(i),
        }
        i += 1;
    }
    SkillPlan { available, missing }
}

/// A boss's health cannot be lowered while a phase change plays out: right after
/// a phase change begins, the health is locked, and damage stays ignored until the
/// change is finished; and a boss is never moved on by more than one phase at a
/// time.
pub proof fn lemma_phase_change_locks_health(c: BossController, below_next_threshold: bool, invincible: bool)
    ensures
        due_phase_change(c, below_next_threshold) matches Some(ch) ==> {
            &&& ch.to_phase == ch.from_phase + 1
            &&& ch.from_phase == c.current_phase
            &&& ch.to_phase < c.phase_count
            &&& !crate::combat::takes_damage(invincible, true)
        },
        c.health_lock ==> due_phase_change(c, below_next_threshold) is None,
{
}

/// A reset always brings a boss back to its first phase, unlocked and with no
/// phase change under way, whatever state it was in.
pub proof fn lemma_reset_restores_first_phase(c: BossController)
    ensures
        reset_controller(c).current_phase == 0,
        !reset_controller(c).health_lock,
        !reset_controller(c).is_transitioning,
        reset_controller(c).phase_count == c.phase_count,
        due_phase_change(reset_controller(c), true) == (if 1 < c.phase_count {
            Some(PhaseChange { from_phase: 0, to_phase: 1 })
        } else {
            None
        }),
{
}

/// A boss encounter starts once: after it started, no later activation check,
/// near or not and whatever other bosses are checked in between, starts it again.
pub proof fn lemma_encounter_starts_once(activated: Set<u64>, boss: u64, later: Seq<(u64, bool)>, near: bool)
    requires
        activated.contains(boss),
    ensures
        activated_after(activated, later).contains(boss),
        !encounter_starts(activated_after(activated, later), boss, near),
    decreases later.len(),
{
    if later.len() > 0 {
        lemma_encounter_starts_once(activated, boss, later.drop_last(), near);
    }
}

/// An encounter starts only while the player is near the boss, and then only
/// the first time: far away, no encounter starts, whatever has started before;
/// near a boss whose encounter has not started, it starts.
pub proof fn lemma_encounter_starts_only_near(activated: Set<u64>, boss: u64)
    ensures
        !encounter_starts(activated, boss, false),
        !activated.contains(boss) ==> encounter_starts(activated, boss, true),
        activated.contains(boss) ==> !encounter_starts(activated, boss, true),
{
}

/// Skill priority levels are ordered as documented: 1 low, 2 medium (the
/// default), 3 high, 4 critical, any other level medium; so each level ranks
/// strictly above the one below it, and a ready skill of a higher level is
/// always chosen over a ready skill of a lower level.
pub proof fn lemma_priority_levels_ordered()
    ensures
        priority_of(1) == SkillPriority::Low,
        priority_of(2) == SkillPriority::Medium,
        priority_of(3) == SkillPriority::High,
        priority_of(4) == SkillPriority::Critical,
        forall|level: u8| !(1 <= level <= 4) ==> priority_of(level) == SkillPriority::Medium,
        priority_rank(1) < priority_rank(2) < priority_rank(3) < priority_rank(4),
        forall|a: u8, b: u8| 1 <= a < b <= 4 ==> #[trigger] priority_rank(a) < #[trigger] priority_rank(b),
        forall|level: u8| !(1 <= level <= 4) ==> #[trigger] priority_rank(level) == priority_rank(
            DEFAULT_SKILL_PRIORITY_LEVEL,
        ),
{
}

} // verus!
