# rustrl

The rules of a small roguelike, verified with Verus.

- `src/ecs.rs`: entities and component storages (deletion takes effect at
  `World::maintain`).
- `src/components.rs`, `src/map.rs`, `src/world.rs`: the data.
- `src/map_indexing_system.rs`, `src/melee_combat_system.rs`,
  `src/inventory_system.rs`, `src/mob_ai_system.rs`, `src/player.rs`: the
  systems and the player's moves.
- `src/state.rs`: the turn machine and the order in which systems run.
- `src/laws.rs`: properties spanning several steps.
- `src/text.rs`: the messages shown to the player.
- `app/main.rs`: the window, drawing, key reading and monster path-finding
  (through `rltk`).
