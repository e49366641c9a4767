//! The game state and its turn machine.
//!
//! A frame of the game draws the screen, reads the input, and then moves the
//! turn machine on. Drawing and reading are done outside the library; the
//! turn machine is `State::tick`, which says what happens with the input and
//! whether the systems run this frame, and `State::end_tick`, which records
//! the next phase once they have run (the monsters' system reads the phase
//! the frame started in).
use crate::components::{WantsToDrop, WantsToMelee, WantsToPickup, WantsToUse};
use crate::ecs::{Entity, EntitySlot};
use crate::inventory_system::{
    backpacks_after_drops, backpacks_after_pickups, drop_ready, herb_eaten,
    lemma_drop_ready_follows_liveness, lemma_drops_follow_liveness, log_after_drops,
    log_after_pickups, log_after_use, pickup_ready, positions_after_drops,
    positions_after_pickups, stats_after_use, use_ready, ItemCollectionSystem, ItemDropSystem,
    ItemUseSystem,
};
use crate::map::TileType;
use crate::map_indexing_system::{
    blocked_by_entity, positions_on_map, tile_entities, MapIndexingSystem,
};
use crate::melee_combat_system::{combat_lines, damage_after, melee_ready, MeleeCombatSystem};
use crate::player::{
    can_move_player, key_delta, key_move_ready, move_after, move_ready, player_input, same_but_moves, Key,
};
use crate::world::{RunState, World};
use vstd::prelude::*;

verus! {

/// The game: its world.
pub struct State {
    pub ecs: World,
}

/// What a menu reported this frame.
#[derive(Clone, Copy, PartialEq, Eq, Structural, Debug)]
pub enum MenuResult {
    Cancel,
    NoResponse,
    Selected,
}

/// The outcome of a frame's decision: the phase to move to, and whether the
/// systems run before it is entered.
#[derive(Clone, Copy, PartialEq, Eq, Structural, Debug)]
pub struct TickStep {
    pub next: RunState,
    pub run_systems: bool,
}

/// The phase after a menu frame: cancelling goes back to waiting for input,
/// choosing an item ends the player's turn, no answer keeps the menu open.
pub open spec fn menu_next(current: RunState, menu: MenuResult) -> RunState {
    match menu {
        MenuResult::Cancel => RunState::AwaitInput,
        MenuResult::NoResponse => current,
        MenuResult::Selected => RunState::PlayerTurn,
    }
}

/// The phase the turn machine moves to, given the key read while waiting
/// for input and the menu's answer.
pub open spec fn next_run_state(current: RunState, key: Option<Key>, menu: MenuResult) -> RunState {
    match current {
        RunState::Init => RunState::AwaitInput,
        RunState::AwaitInput => match key {
            Some(k) => if key_delta(k) is Some {
                RunState::PlayerTurn
            } else {
                RunState::AwaitInput
            },
            None => RunState::AwaitInput,
        },
        RunState::PlayerTurn => RunState::AITurn,
        RunState::AITurn => RunState::AwaitInput,
        RunState::ShowCharacter => if menu == MenuResult::Cancel {
            RunState::AwaitInput
        } else {
            RunState::ShowCharacter
        },
        RunState::InventoryUse => menu_next(current, menu),
        RunState::InventoryDrop => menu_next(current, menu),
    }
}

/// The systems run in the frames of the setup phase and of both turns.
pub open spec fn runs_systems(current: RunState) -> bool {
    current == RunState::Init || current == RunState::PlayerTurn || current == RunState::AITurn
}

/// What `tick` needs: a direction key read while waiting for input leads to a
/// well-formed move, and choosing from the inventory names an item for a
/// live player.
pub open spec fn tick_ready(w: &World, key: Option<Key>, menu: MenuResult, selected: Option<Entity>) -> bool {
    &&& w.run_state == RunState::AwaitInput ==> key_move_ready(w, key)
    &&& ((w.run_state == RunState::InventoryUse || w.run_state == RunState::InventoryDrop) && menu
        == MenuResult::Selected) ==> selected is Some && w.entities.alive(w.player_entity)
}

impl State {
    /// Whether `tick` may be called with this input.
    pub fn can_tick(&self, key: Option<Key>, menu: MenuResult, selected: Option<Entity>) -> (r: bool)
        ensures
            r == tick_ready(&self.ecs, key, menu, selected),
    {
        let rs = self.ecs.run_state;
        if rs == RunState::AwaitInput {
            if let Some(k) = key {
                let step: Option<(i32, i32)> = match k {
                    Key::H => Some((-1, 0)),
                    Key::L => Some((1, 0)),
                    Key::K => Some((0, -1)),
                    Key::J => Some((0, 1)),
                    Key::Y => Some((-1, -1)),
                    Key::U => Some((1, -1)),
                    Key::B => Some((-1, 1)),
                    Key::N => Some((1, 1)),
                    Key::Other => None,
                };
                assert(step == key_delta(k));
                if let Some(d) = step {
                    if !can_move_player(&self.ecs, d.0, d.1) {
                        return false;
                    }
                    assert(move_ready(&self.ecs, d.0, d.1));
                }
            }
        }
        if (rs == RunState::InventoryUse || rs == RunState::InventoryDrop) && menu
            == MenuResult::Selected {
            return selected.is_some() && self.ecs.entities.is_alive(self.ecs.player_entity);
        }
        true
    }

    /// Whether `run_systems` may be called.
    pub fn can_run_systems(&self) -> (r: bool)
        ensures
            r == systems_ready(&self.ecs),
    {
        let w = &self.ecs;
        let idx = MapIndexingSystem {};
        let mel = MeleeCombatSystem {};
        let pck = ItemCollectionSystem {};
        let itm = ItemUseSystem {};
        let drp = ItemDropSystem {};
        idx.can_run(&w.map, &w.positions, &w.entities) && mel.can_run(
            &w.entities,
            &w.wants_melee,
            &w.names,
            &w.combat_stats,
        ) && pck.can_run(w.player_entity, &w.wants_pickup, &w.items, &w.names, &w.entities)
            && itm.can_run(
            w.player_entity,
            &w.entities,
            &w.wants_use,
            &w.names,
            &w.moongrass,
            &w.combat_stats,
        ) && drp.can_run_after_pickups(
            w.player_entity,
            &w.entities,
            &w.wants_drop,
            &w.names,
            &w.positions,
            &w.wants_pickup,
        )
    }

    /// Decides a frame: the next phase and whether the systems run first.
    /// While waiting for input the key is applied (a move or an attack order);
    /// when an item is chosen from the inventory, the player's intent to use
    /// (or drop) it is recorded. The phase itself is not changed here.
    pub fn tick(&mut self, key: Option<Key>, menu: MenuResult, selected: Option<Entity>) -> (step:
        TickStep)
        requires
            tick_ready(&old(self).ecs, key, menu, selected),
        ensures
            step.next == next_run_state(old(self).ecs.run_state, key, menu),
            step.run_systems == runs_systems(old(self).ecs.run_state),
            old(self).ecs.run_state == RunState::AwaitInput ==> match key {
                Some(k) => match key_delta(k) {
                    Some(d) => {
                        let m = move_after(&old(self).ecs, d.0, d.1, old(self).ecs.entities@.len() as int);
                        &&& same_but_moves(&final(self).ecs, &old(self).ecs)
                        &&& final(self).ecs.positions@ == m.positions
                        &&& final(self).ecs.viewsheds@ == m.viewsheds
                        &&& final(self).ecs.wants_melee@ == m.wants_melee
                        &&& final(self).ecs.player_pos == m.player_pos
                    },
                    None => *final(self) == *old(self),
                },
                None => *final(self) == *old(self),
            },
            old(self).ecs.run_state == RunState::InventoryUse && menu == MenuResult::Selected ==> {
                &&& final(self).ecs.wants_use@ == old(self).ecs.wants_use@.insert(
                    old(self).ecs.player_entity.id as int,
                    WantsToUse { item: selected->Some_0 },
                )
                &&& final(self).ecs.wants_use.slots() >= old(self).ecs.wants_use.slots()
                &&& same_but_wants_use(&final(self).ecs, &old(self).ecs)
            },
            old(self).ecs.run_state == RunState::InventoryDrop && menu == MenuResult::Selected ==> {
                &&& final(self).ecs.wants_drop@ == old(self).ecs.wants_drop@.insert(
                    old(self).ecs.player_entity.id as int,
                    WantsToDrop { item: selected->Some_0 },
                )
                &&& final(self).ecs.wants_drop.slots() >= old(self).ecs.wants_drop.slots()
                &&& same_but_wants_drop(&final(self).ecs, &old(self).ecs)
            },
            (old(self).ecs.run_state != RunState::AwaitInput && !((old(self).ecs.run_state
                == RunState::InventoryUse || old(self).ecs.run_state == RunState::InventoryDrop)
                && menu == MenuResult::Selected)) ==> *final(self) == *old(self),
    {
        let current = self.ecs.run_state;
        match current {
            RunState::Init => TickStep { next: RunState::AwaitInput, run_systems: true },
            RunState::AwaitInput => {
                let next = player_input(self, key);
                TickStep { next, run_systems: false }
            },
            RunState::PlayerTurn => TickStep { next: RunState::AITurn, run_systems: true },
            RunState::AITurn => TickStep { next: RunState::AwaitInput, run_systems: true },
            RunState::ShowCharacter => {
                if menu == MenuResult::Cancel {
                    TickStep { next: RunState::AwaitInput, run_systems: false }
                } else {
                    TickStep { next: RunState::ShowCharacter, run_systems: false }
                }
            },
            RunState::InventoryUse => match menu {
                MenuResult::Cancel => TickStep { next: RunState::AwaitInput, run_systems: false },
                MenuResult::NoResponse => TickStep { next: current, run_systems: false },
                MenuResult::Selected => {
                    let item = selected.unwrap();
                    let player = self.ecs.player_entity;
                    let inserted = self.ecs.wants_use.insert(
                        &self.ecs.entities,
                        player,
                        WantsToUse { item },
                    );
                    assert(inserted is Ok);
                    TickStep { next: RunState::PlayerTurn, run_systems: false }
                },
            },
            RunState::InventoryDrop => match menu {
                MenuResult::Cancel => TickStep { next: RunState::AwaitInput, run_systems: false },
                MenuResult::NoResponse => TickStep { next: current, run_systems: false },
                MenuResult::Selected => {
                    let item = selected.unwrap();
                    let player = self.ecs.player_entity;
                    let inserted = self.ecs.wants_drop.insert(
                        &self.ecs.entities,
                        player,
                        WantsToDrop { item },
                    );
                    assert(inserted is Ok);
                    TickStep { next: RunState::PlayerTurn, run_systems: false }
                },
            },
        }
    }

    /// Enters the phase the frame decided on.
    pub fn end_tick(&mut self, step: TickStep)
        ensures
            final(self).ecs.run_state == step.next,
            same_but_run_state(&final(self).ecs, &old(self).ecs),
    {
        self.ecs.run_state = step.next;
    }
}

/// What the systems run by `State::run_systems` need: a well-formed map with
/// every live entity on it, targets fit to be fought, pickups, uses and
/// drops fit to be carried out (drops as they stand once the pickups are
/// done).
pub open spec fn systems_ready(w: &World) -> bool {
    &&& w.map.wf()
    &&& positions_on_map(&w.map, &w.entities, &w.positions)
    &&& melee_ready(&w.entities, &w.wants_melee, &w.names, &w.combat_stats)
    &&& pickup_ready(w.player_entity, &w.wants_pickup, &w.items, &w.names, &w.entities)
    &&& use_ready(
        w.player_entity,
        &w.entities,
        &w.wants_use,
        &w.names,
        &w.moongrass,
        &w.combat_stats,
    )
    &&& drop_ready(
        w.player_entity,
        &w.entities,
        &w.wants_drop,
        &w.names,
        positions_after_pickups(&w.wants_pickup, w.positions@, w.wants_pickup.slots() as int),
    )
}

/// The slots whose entities are gone once the systems have run: those
/// deleted before, and the herbs eaten.
pub open spec fn removed_by_systems(w: &World) -> Set<int> {
    Set::new(
        |i: int|
            0 <= i < w.entities@.len() && (w.entities@[i].killed || herb_eaten(
                &w.entities,
                &w.wants_use,
                &w.moongrass,
                &w.combat_stats,
                i,
            )),
    )
}

impl State {
    /// Runs, in order, the map index, melee combat, pickup, use and drop
    /// systems, then removes the deleted entities and their components.
    /// Gives back the console lines of the fights. In a turn the monsters
    /// move first (see `mob_ai_system`); the caller drives that part, since
    /// it needs a path search.
    pub fn run_systems(&mut self) -> (console: Vec<String>)
        requires
            systems_ready(&old(self).ecs),
        ensures
            ({
                let w = old(self).ecs;
                let f = final(self).ecs;
                let n = w.entities@.len() as int;
                let gone = removed_by_systems(&w);
                let picked = w.wants_pickup.slots() as int;
                &&& console@.map_values(|s: String| s@) == combat_lines(
                    &w.entities,
                    &w.wants_melee,
                    &w.names,
                    &w.combat_stats,
                    n,
                )
                &&& f.map.wf()
                &&& f.map.tiles == w.map.tiles
                &&& f.map.width == w.map.width
                &&& f.map.height == w.map.height
                &&& f.map.visible_tiles == w.map.visible_tiles
                &&& forall|i: int|
                    0 <= i < f.map.size() ==> #[trigger] f.map.blocked@[i] == (f.map.tiles@[i]
                        == TileType::Wall || blocked_by_entity(
                        w.map.width as int,
                        &w.entities,
                        &w.positions,
                        &w.blockers,
                        n,
                        i,
                    ))
                &&& forall|i: int|
                    0 <= i < f.map.size() ==> #[trigger] f.map.tile_content@[i]@ == tile_entities(
                        w.map.width as int,
                        &w.entities,
                        &w.positions,
                        n,
                        i,
                    )
                &&& f.wants_melee@ == Map::<int, WantsToMelee>::empty()
                &&& f.wants_pickup@ == Map::<int, WantsToPickup>::empty()
                &&& f.wants_use@ == Map::<int, WantsToUse>::empty()
                &&& f.wants_drop@ == Map::<int, WantsToDrop>::empty()
                &&& f.suffer_damage@ == damage_after(
                    &w.entities,
                    &w.wants_melee,
                    &w.names,
                    &w.combat_stats,
                    w.suffer_damage@,
                    n,
                ).remove_keys(gone)
                &&& f.positions@ == positions_after_drops(
                    &w.entities,
                    &w.wants_drop,
                    positions_after_pickups(&w.wants_pickup, w.positions@, picked),
                    n,
                ).remove_keys(gone)
                &&& f.backpacks@ == backpacks_after_drops(
                    &w.entities,
                    &w.wants_drop,
                    backpacks_after_pickups(&w.wants_pickup, w.backpacks@, picked),
                    n,
                ).remove_keys(gone)
                &&& f.combat_stats@.dom() == w.combat_stats@.dom().difference(gone)
                &&& forall|k: int|
                    #[trigger] f.combat_stats@.contains_key(k) ==> f.combat_stats@[k]
                        == stats_after_use(&w.entities, &w.wants_use, &w.moongrass, &w.combat_stats, k)
                &&& f.gamelog.lines() == log_after_drops(
                    w.player_entity,
                    &w.entities,
                    &w.wants_drop,
                    &w.names,
                    log_after_use(
                        w.player_entity,
                        &w.entities,
                        &w.wants_use,
                        &w.names,
                        &w.moongrass,
                        &w.combat_stats,
                        log_after_pickups(
                            w.player_entity,
                            &w.wants_pickup,
                            &w.names,
                            w.gamelog.lines(),
                            picked,
                        ),
                        n,
                    ),
                    n,
                )
                &&& f.entities@.len() == n
                &&& forall|i: int|
                    0 <= i < n ==> #[trigger] f.entities@[i] == (if gone.contains(i) {
                        EntitySlot { alive: false, killed: false }
                    } else {
                        w.entities@[i]
                    })
                &&& f.names@ == w.names@.remove_keys(gone)
                &&& f.viewsheds@ == w.viewsheds@.remove_keys(gone)
                &&& f.players@ == w.players@.remove_keys(gone)
                &&& f.mobs@ == w.mobs@.remove_keys(gone)
                &&& f.blockers@ == w.blockers@.remove_keys(gone)
                &&& f.items@ == w.items@.remove_keys(gone)
                &&& f.moongrass@ == w.moongrass@.remove_keys(gone)
                &&& f.player_entity == w.player_entity
                &&& f.player_pos == w.player_pos
                &&& f.run_state == w.run_state
            }),
    {
        let ghost w = self.ecs;
        let player = self.ecs.player_entity;
        let mut idx = MapIndexingSystem {};
        idx.run(&mut self.ecs.map, &self.ecs.positions, &self.ecs.blockers, &self.ecs.entities);
        let mut mel = MeleeCombatSystem {};
        let console = mel.run(
            &self.ecs.entities,
            &mut self.ecs.wants_melee,
            &self.ecs.names,
            &self.ecs.combat_stats,
            &mut self.ecs.suffer_damage,
        );
        let mut pck = ItemCollectionSystem {};
        pck.run(
            player,
            &mut self.ecs.gamelog,
            &mut self.ecs.wants_pickup,
            &self.ecs.items,
            &mut self.ecs.positions,
            &self.ecs.names,
            &mut self.ecs.backpacks,
            &self.ecs.entities,
        );
        let mut itm = ItemUseSystem {};
        itm.run(
            player,
            &mut self.ecs.gamelog,
            &mut self.ecs.entities,
            &mut self.ecs.wants_use,
            &self.ecs.names,
            &self.ecs.moongrass,
            &mut self.ecs.combat_stats,
        );
        let ghost used = self.ecs.entities;
        proof {
            let picked = w.wants_pickup.slots() as int;
            let ppos = positions_after_pickups(&w.wants_pickup, w.positions@, picked);
            lemma_drop_ready_follows_liveness(&w.entities, &used, player, &w.wants_drop, &w.names, ppos);
        }
        let mut drp = ItemDropSystem {};
        drp.run(
            player,
            &mut self.ecs.gamelog,
            &self.ecs.entities,
            &mut self.ecs.wants_drop,
            &self.ecs.names,
            &mut self.ecs.positions,
            &mut self.ecs.backpacks,
        );
        proof {
            let n = w.entities@.len() as int;
            let picked = w.wants_pickup.slots() as int;
            lemma_drops_follow_liveness(
                &used,
                &w.entities,
                player,
                &w.wants_drop,
                &w.names,
                positions_after_pickups(&w.wants_pickup, w.positions@, picked),
                backpacks_after_pickups(&w.wants_pickup, w.backpacks@, picked),
                log_after_use(
                    w.player_entity,
                    &w.entities,
                    &w.wants_use,
                    &w.names,
                    &w.moongrass,
                    &w.combat_stats,
                    log_after_pickups(w.player_entity, &w.wants_pickup, &w.names, w.gamelog.lines(), picked),
                    n,
                ),
                n,
            );
            assert(used.killed_set() =~= removed_by_systems(&w));
        }
        self.ecs.maintain();
        proof {
            let gone = removed_by_systems(&w);
            assert(self.ecs.wants_melee@ =~= Map::<int, WantsToMelee>::empty());
            assert(self.ecs.wants_pickup@ =~= Map::<int, WantsToPickup>::empty());
            assert(self.ecs.wants_use@ =~= Map::<int, WantsToUse>::empty());
            assert(self.ecs.wants_drop@ =~= Map::<int, WantsToDrop>::empty());
            assert(self.ecs.combat_stats@.dom() =~= w.combat_stats@.dom().difference(gone));
        }
        console
    }
}

/// `a` and `b` agree on everything but the intents to use.
pub open spec fn same_but_wants_use(a: &World, b: &World) -> bool {
    &&& a.entities == b.entities
    &&& a.names == b.names
    &&& a.positions == b.positions
    &&& a.viewsheds == b.viewsheds
    &&& a.players == b.players
    &&& a.mobs == b.mobs
    &&& a.blockers == b.blockers
    &&& a.combat_stats == b.combat_stats
    &&& a.wants_melee == b.wants_melee
    &&& a.suffer_damage == b.suffer_damage
    &&& a.items == b.items
    &&& a.backpacks == b.backpacks
    &&& a.wants_pickup == b.wants_pickup
    &&& a.wants_drop == b.wants_drop
    &&& a.moongrass == b.moongrass
    &&& a.map == b.map
    &&& a.player_entity == b.player_entity
    &&& a.player_pos == b.player_pos
    &&& a.run_state == b.run_state
    &&& a.gamelog == b.gamelog
}

/// `a` and `b` agree on everything but the intents to drop.
pub open spec fn same_but_wants_drop(a: &World, b: &World) -> bool {
    &&& a.entities == b.entities
    &&& a.names == b.names
    &&& a.positions == b.positions
    &&& a.viewsheds == b.viewsheds
    &&& a.players == b.players
    &&& a.mobs == b.mobs
    &&& a.blockers == b.blockers
    &&& a.combat_stats == b.combat_stats
    &&& a.wants_melee == b.wants_melee
    &&& a.suffer_damage == b.suffer_damage
    &&& a.items == b.items
    &&& a.backpacks == b.backpacks
    &&& a.wants_pickup == b.wants_pickup
    &&& a.wants_use == b.wants_use
    &&& a.moongrass == b.moongrass
    &&& a.map == b.map
    &&& a.player_entity == b.player_entity
    &&& a.player_pos == b.player_pos
    &&& a.run_state == b.run_state
    &&& a.gamelog == b.gamelog
}

/// `a` and `b` agree on everything but the phase.
pub open spec fn same_but_run_state(a: &World, b: &World) -> bool {
    &&& a.entities == b.entities
    &&& a.names == b.names
    &&& a.positions == b.positions
    &&& a.viewsheds == b.viewsheds
    &&& a.players == b.players
    &&& a.mobs == b.mobs
    &&& a.blockers == b.blockers
    &&& a.combat_stats == b.combat_stats
    &&& a.wants_melee == b.wants_melee
    &&& a.suffer_damage == b.suffer_damage
    &&& a.items == b.items
    &&& a.backpacks == b.backpacks
    &&& a.wants_pickup == b.wants_pickup
    &&& a.wants_drop == b.wants_drop
    &&& a.wants_use == b.wants_use
    &&& a.moongrass == b.moongrass
    &&& a.map == b.map
    &&& a.player_entity == b.player_entity
    &&& a.player_pos == b.player_pos
    &&& a.gamelog == b.gamelog
}

} // verus!
