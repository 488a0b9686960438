//! Pooled hit particles: a fixed pool of particle entities that are handed out
//! for a burst and taken back when they fade, and the size of a burst.
use vstd::prelude::*;

use crate::chance::random_in_range;
use crate::combat::HitKind;

verus! {

/// The number of particle entities created up front.
pub const PARTICLE_POOL_SIZE: usize = 200;

/// The particle entities of the pool (by entity id), and those free to hand out;
/// the free list is a stack and never holds an entity twice.
#[derive(Clone, Debug)]
pub struct ParticlePool {
    pub entities: Vec<u64>,
    pub available: Vec<u64>,
}

/// The colour family of a hit's particles.
#[derive(Clone, Copy, PartialEq, Eq, Structural, Debug)]
pub enum ParticleTint {
    /// Critical hits.
    Gold,
    /// Heavy hits.
    Orange,
    /// Light hits.
    White,
}

impl ParticlePool {
    /// The free list holds no entity twice.
    pub open spec fn wf(&self) -> bool {
        self.available@.no_duplicates()
    }

    /// An empty pool.
    pub fn new() -> (p: ParticlePool)
        ensures
            p.wf(),
            p.entities@.len() == 0,
            p.available@.len() == 0,
    {
        ParticlePool { entities: Vec::new(), available: Vec::new() }
    }

    /// How many entities belong to the pool.
    pub fn pool_size(&self) -> (n: usize)
        ensures
            n == self.entities@.len(),
    {
        self.entities.len()
    }

    /// The pool still has to be filled: no entity belongs to it yet.
    pub fn needs_filling(&self) -> (r: bool)
        ensures
            r == (self.entities@.len() == 0),
    {
        self.entities.len() == 0
    }

    /// Takes a newly created particle entity into the pool, free to hand out.
    pub fn add_entity(&mut self, entity: u64)
        requires
            old(self).wf(),
            !old(self).available@.contains(entity),
        ensures
            final(self).wf(),
            final(self).entities@ == old(self).entities@.push(entity),
            final(self).available@ == old(self).available@.push(entity),
    {
        self.entities.push(entity);
        self.available.push(entity);
    }

    /// Hands out the most recently freed entity, if any is free.
    pub fn get(&mut self) -> (e: Option<u64>)
        requires
            old(self).wf(),
        ensures
            final(self).wf(),
            final(self).entities@ == old(self).entities@,
            old(self).available@.len() == 0 ==> e is None && final(self).available@ == old(self).available@,
            old(self).available@.len() > 0 ==> e == Some(old(self).available@.last()) && final(self).available@
                == old(self).available@.drop_last(),
    {
        let e = self.available.pop();
        proof {
            if old(self).available@.len() > 0 {
                assert(self.available@ =~= old(self).available@.drop_last());
            }
        }
        e
    }

    /// Takes back a faded particle entity; one that is already free stays free
    /// once.
    pub fn return_entity(&mut self, entity: u64)
        requires
            old(self).wf(),
        ensures
            final(self).wf(),
            final(self).entities@ == old(self).entities@,
            old(self).available@.contains(entity) ==> final(self).available@ == old(self).available@,
            !old(self).available@.contains(entity) ==> final(self).available@ == old(self).available@.push(entity),
    {
        let mut i: usize = 0;
        while i < self.available.len()
            invariant
                i <= self.available@.len(),
                *self == *old(self),
                old(self).wf(),
                forall|j: int| 0 <= j < i ==> self.available@[j] != entity,
            decreases self.available.len() - i,
        {
            if self.available[i] == entity {
                return;
            }
            i += 1;
        }
        self.available.push(entity);
    }
}

impl ParticlePool {
    /// A faded particle: with a pool set up it goes back to the pool (`true`),
    /// otherwise the caller removes it (`false`).
    pub fn retire(&mut self, entity: u64) -> (pooled: bool)
        requires
            old(self).wf(),
        ensures
            final(self).wf(),
            final(self).entities@ == old(self).entities@,
            pooled == (old(self).entities@.len() > 0),
            pooled && !old(self).available@.contains(entity) ==> final(self).available@ == old(self).available@.push(entity),
            !(pooled && !old(self).available@.contains(entity)) ==> final(self).available@ == old(self).available@,
    {
        if self.pool_size() > 0 {
            self.return_entity(entity);
            true
        } else {
            false
        }
    }
}

/// The fewest and most particles of a burst around `base`: four fifths and six
/// fifths of it, rounded down, the most held to what a `u32` can count.
pub fn particle_count_range(base: u32) -> (r: (u32, u32))
    ensures
        r.0 == base * 4 / 5,
        r.1 == (if base * 6 / 5 <= u32::MAX {
            base * 6 / 5
        } else {
            u32::MAX as int
        }),
        r.0 <= r.1,
{
    let wide = base as u64;
    let low = wide * 4 / 5;
    let high = wide * 6 / 5;
    let high = if high <= u32::MAX as u64 { high } else { u32::MAX as u64 };
    (low as u32, high as u32)
}

/// The size of a burst of hit particles: random, within a fifth of `base`.
pub fn roll_particle_count(base: u32) -> (n: u32)
    ensures
        base * 4 / 5 <= n <= base * 6 / 5,
{
    let (low, high) = particle_count_range(base);
    random_in_range(low, high)
}

/// The particle colour of a hit: gold for critical, orange for heavy, white for
/// light hits.
pub fn particle_tint(kind: HitKind) -> (t: ParticleTint)
    ensures
        t == match kind {
            HitKind::Critical => ParticleTint::Gold,
            HitKind::Heavy => ParticleTint::Orange,
            HitKind::Light => ParticleTint::White,
        },
{
    match kind {
        HitKind::Critical => ParticleTint::Gold,
        HitKind::Heavy => ParticleTint::Orange,
        HitKind::Light => ParticleTint::White,
    }
}

/// A freed particle entity is the next to be handed out, and the free list
/// never holds an entity twice, so no entity serves two particles at once.
pub proof fn lemma_returned_particle_is_reused(available: Seq<u64>, entity: u64)
    requires
        available.no_duplicates(),
        !available.contains(entity),
    ensures
        available.push(entity).no_duplicates(),
        available.push(entity).last() == entity,
        available.push(entity).drop_last() == available,
{
    assert(available.push(entity).drop_last() =~= available);
}

} // verus!
