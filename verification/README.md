# Rust Shadow Dungeon

A side-scrolling action RPG built on Bevy. The game's rules live in a library
whose every function carries a Verus contract and is proved against it; the
engine side (rendering, input, physics, timers and positions in floating
point) is a thin program around it.

## Layout

- `src/` — the verified library:
  - `inventory` — slots, stacking with limits, what the inventory screen shows;
    proofs that picking up loses no item and keeps stacks within their limit.
  - `dungeon` — room graph, room loading, enemy spawn planning, room clearing,
    door locking and unlocking, door interaction; proofs that the session keeps every cleared room, that
    cleared rooms stay cleared and that their doors open.
  - `enemy_ai` — the Patrol / Chase / Attack / Return state machine, sight
    lines, perception and patrol decisions; a proof that it only makes the moves of its diagram.
  - `combat` — the three-hit combo, hit boxes that strike each target once,
    hit classification, hit-freeze, when damage applies, what a death leads to.
  - `boss` — phases, health locking during phase changes, encounters that start
    once, matching a phase's skills, choosing a ready skill, and at most two
    skill warnings on screen.
  - `loot` — loot tables, drops, manual and automatic pickup; a proof that an
    item is picked up at most once.
  - `effects`, `animation`, `hud` — the particle pool, animation frames, the
    coin counter, the inventory screen toggle and skill casting.
  - `text` — numbers written in decimal, for item labels.
  - `chance` — random draws, the one place where the library calls `rand`.
- `tests/` — tests of the library on concrete values.
- `app/` — the Bevy program: components, resources and systems that measure
  the world and hand the library plain values, and the readers of the RON data
  files under `assets/data/`.
