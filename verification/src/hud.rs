//! Heads-up display rules: the coin counter, the inventory screen toggle and
//! whether a skill can be cast.
use vstd::prelude::*;

verus! {

/// The number of coins the coin counter counts up to.
pub const TOTAL_COINS: u32 = 7;

/// What pressing the inventory key does to the inventory screen.
#[derive(Clone, Copy, PartialEq, Eq, Structural, Debug)]
pub enum InventoryScreenAction {
    Open,
    Close,
    Nothing,
}

/// Whether the inventory screen is open.
#[derive(Clone, Copy, PartialEq, Eq, Structural, Debug)]
pub struct InventoryUIState {
    pub is_open: bool,
}

/// Whether a skill is cast when its key is pressed.
#[derive(Clone, Copy, PartialEq, Eq, Structural, Debug)]
pub enum CastDecision {
    Cast,
    OnCooldown,
    NotEnoughMp,
}

/// The player's score: points, and how many coins were collected.
#[derive(Clone, Copy, PartialEq, Eq, Structural, Debug)]
pub struct Score {
    pub points: u32,
    pub coins_collected: u32,
}

impl Score {
    /// Nothing collected yet.
    pub fn new() -> (s: Score)
        ensures
            s == (Score { points: 0, coins_collected: 0 }),
    {
        Score { points: 0, coins_collected: 0 }
    }

    /// A coin worth `value` points was collected.
    pub fn collect_coin(&mut self, value: u32)
        requires
            old(self).points + value <= u32::MAX,
            old(self).coins_collected < u32::MAX,
        ensures
            final(self).points == old(self).points + value,
            final(self).coins_collected == old(self).coins_collected + 1,
    {
        self.points = self.points + value;
        self.coins_collected = self.coins_collected + 1;
    }
}

/// The coin counter shows the coins collected, at most the total.
pub fn displayed_coins(collected: u32) -> (n: u32)
    ensures
        n == (if collected < TOTAL_COINS {
            collected
        } else {
            TOTAL_COINS
        }),
{
    if collected < TOTAL_COINS {
        collected
    } else {
        TOTAL_COINS
    }
}

/// The inventory screen after the inventory key was or was not pressed.
pub open spec fn after_toggle(s: InventoryUIState, key_pressed: bool) -> InventoryUIState {
    if key_pressed {
        InventoryUIState { is_open: !s.is_open }
    } else {
        s
    }
}

impl InventoryUIState {
    /// The screen starts closed.
    pub fn new() -> (s: InventoryUIState)
        ensures
            !s.is_open,
    {
        InventoryUIState { is_open: false }
    }

    /// The inventory key toggles the screen: a closed screen opens, an open one
    /// closes; without the key nothing happens.
    pub fn toggle(&mut self, key_pressed: bool) -> (a: InventoryScreenAction)
        ensures
            *final(self) == after_toggle(*old(self), key_pressed),
            !key_pressed ==> a == InventoryScreenAction::Nothing,
            key_pressed && final(self).is_open ==> a == InventoryScreenAction::Open,
            key_pressed && !final(self).is_open ==> a == InventoryScreenAction::Close,
    {
        if !key_pressed {
            return InventoryScreenAction::Nothing;
        }
        self.is_open = !self.is_open;
        if self.is_open {
            InventoryScreenAction::Open
        } else {
            InventoryScreenAction::Close
        }
    }
}

/// A skill is cast only once its cooldown is over and the player has the MP it
/// costs; the cooldown is checked first.
pub fn cast_decision(ready: bool, enough_mp: bool) -> (d: CastDecision)
    ensures
        d == (if !ready {
            CastDecision::OnCooldown
        } else if !enough_mp {
            CastDecision::NotEnoughMp
        } else {
            CastDecision::Cast
        }),
{
    if !ready {
        return CastDecision::OnCooldown;
    }
    if !enough_mp {
        return CastDecision::NotEnoughMp;
    }
    CastDecision::Cast
}

/// Pressing the inventory key twice brings the screen back to how it was, and a
/// frame without the key changes nothing.
pub proof fn lemma_toggle_twice_restores(s: InventoryUIState)
    ensures
        after_toggle(after_toggle(s, true), true) == s,
        after_toggle(s, false) == s,
        after_toggle(s, true).is_open != s.is_open,
{
}

} // verus!
