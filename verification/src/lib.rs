//! A small roguelike's rules: entities and their components, the map index,
//! melee combat, items, monster moves and the player's moves, and the turn
//! state machine.
pub mod components;
pub mod ecs;
pub mod inventory_system;
pub mod laws;
pub mod map;
pub mod map_indexing_system;
pub mod melee_combat_system;
pub mod mob_ai_system;
pub mod player;
pub mod render;
pub mod state;
pub mod text;
pub mod world;
