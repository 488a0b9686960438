//! Game rules of Rust Shadow Dungeon, a side-scrolling action RPG: inventory and
//! stacking, dungeon progression, enemy AI decisions, combat bookkeeping, boss
//! encounters and pooled effects. Every rule here is stated as a contract and
//! proved; the engine glue that reads positions, timers and input lives outside.
pub mod inventory;
pub mod text;
pub mod chance;
pub mod dungeon;
pub mod enemy_ai;
pub mod combat;
pub mod boss;
pub mod effects;
pub mod loot;
pub mod animation;
pub mod hud;
