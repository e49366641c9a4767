//! The world: its entities, their components, and the shared resources.
use crate::components::{
    BackpackOf, Blocker, CombatStats, GameLog, Item, Mob, Moongrass, Name, Player, Point, Position,
    SufferDamage, Viewshed, WantsToDrop, WantsToMelee, WantsToPickup, WantsToUse,
};
use crate::ecs::{Entities, Entity, EntitySlot, Storage};
use crate::map::GameMap;
use vstd::prelude::*;

verus! {

/// The phase of the game loop.
#[derive(Clone, Copy, PartialEq, Eq, Structural, Debug)]
pub enum RunState {
    Init,
    AwaitInput,
    PlayerTurn,
    AITurn,
    ShowCharacter,
    InventoryUse,
    InventoryDrop,
}

/// All entities, their components, and the resources the systems share.
pub struct World {
    pub entities: Entities,
    pub names: Storage<Name>,
    pub positions: Storage<Position>,
    pub viewsheds: Storage<Viewshed>,
    pub players: Storage<Player>,
    pub mobs: Storage<Mob>,
    pub blockers: Storage<Blocker>,
    pub combat_stats: Storage<CombatStats>,
    pub wants_melee: Storage<WantsToMelee>,
    pub suffer_damage: Storage<SufferDamage>,
    pub items: Storage<Item>,
    pub backpacks: Storage<BackpackOf>,
    pub wants_pickup: Storage<WantsToPickup>,
    pub wants_drop: Storage<WantsToDrop>,
    pub wants_use: Storage<WantsToUse>,
    pub moongrass: Storage<Moongrass>,
    /// The map resource.
    pub map: GameMap,
    /// The entity the player controls.
    pub player_entity: Entity,
    /// Where the player stands.
    pub player_pos: Point,
    /// The phase of the game loop.
    pub run_state: RunState,
    /// The messages shown to the player.
    pub gamelog: GameLog,
}

impl World {
    /// A world on `map` with no entities, in the `Init` phase, with an empty
    /// log; the player handle and position are placeholders until the player
    /// is spawned.
    pub fn new(map: GameMap) -> (w: World)
        ensures
            w.map == map,
            w.entities@ == Seq::<EntitySlot>::empty(),
            w.run_state == RunState::Init,
            w.player_entity == (Entity { id: 0 }),
            w.player_pos == (Point { x: 0, y: 0 }),
            w.gamelog.entries@.len() == 0,
            w.names@ == Map::<int, Name>::empty(),
            w.positions@ == Map::<int, Position>::empty(),
            w.viewsheds@ == Map::<int, Viewshed>::empty(),
            w.players@ == Map::<int, Player>::empty(),
            w.mobs@ == Map::<int, Mob>::empty(),
            w.blockers@ == Map::<int, Blocker>::empty(),
            w.combat_stats@ == Map::<int, CombatStats>::empty(),
            w.wants_melee@ == Map::<int, WantsToMelee>::empty(),
            w.suffer_damage@ == Map::<int, SufferDamage>::empty(),
            w.items@ == Map::<int, Item>::empty(),
            w.backpacks@ == Map::<int, BackpackOf>::empty(),
            w.wants_pickup@ == Map::<int, WantsToPickup>::empty(),
            w.wants_drop@ == Map::<int, WantsToDrop>::empty(),
            w.wants_use@ == Map::<int, WantsToUse>::empty(),
            w.moongrass@ == Map::<int, Moongrass>::empty(),
    {
        World {
            entities: Entities::new(),
            names: Storage::new(),
            positions: Storage::new(),
            viewsheds: Storage::new(),
            players: Storage::new(),
            mobs: Storage::new(),
            blockers: Storage::new(),
            combat_stats: Storage::new(),
            wants_melee: Storage::new(),
            suffer_damage: Storage::new(),
            items: Storage::new(),
            backpacks: Storage::new(),
            wants_pickup: Storage::new(),
            wants_drop: Storage::new(),
            wants_use: Storage::new(),
            moongrass: Storage::new(),
            map,
            player_entity: Entity { id: 0 },
            player_pos: Point { x: 0, y: 0 },
            run_state: RunState::Init,
            gamelog: GameLog { entries: Vec::new() },
        }
    }

    /// Removes the entities marked for deletion together with all their
    /// components; resources are untouched.
    pub fn maintain(&mut self)
        ensures
            final(self).entities@.len() == old(self).entities@.len(),
            forall|i: int|
                0 <= i < old(self).entities@.len() ==> #[trigger] final(self).entities@[i] == (
                if old(self).entities@[i].killed {
                    EntitySlot { alive: false, killed: false }
                } else {
                    old(self).entities@[i]
                }),
            final(self).names@ == old(self).names@.remove_keys(old(self).entities.killed_set()),
            final(self).positions@ == old(self).positions@.remove_keys(
                old(self).entities.killed_set(),
            ),
            final(self).viewsheds@ == old(self).viewsheds@.remove_keys(
                old(self).entities.killed_set(),
            ),
            final(self).players@ == old(self).players@.remove_keys(old(self).entities.killed_set()),
            final(self).mobs@ == old(self).mobs@.remove_keys(old(self).entities.killed_set()),
            final(self).blockers@ == old(self).blockers@.remove_keys(
                old(self).entities.killed_set(),
            ),
            final(self).combat_stats@ == old(self).combat_stats@.remove_keys(
                old(self).entities.killed_set(),
            ),
            final(self).wants_melee@ == old(self).wants_melee@.remove_keys(
                old(self).entities.killed_set(),
            ),
            final(self).suffer_damage@ == old(self).suffer_damage@.remove_keys(
                old(self).entities.killed_set(),
            ),
            final(self).items@ == old(self).items@.remove_keys(old(self).entities.killed_set()),
            final(self).backpacks@ == old(self).backpacks@.remove_keys(
                old(self).entities.killed_set(),
            ),
            final(self).wants_pickup@ == old(self).wants_pickup@.remove_keys(
                old(self).entities.killed_set(),
            ),
            final(self).wants_drop@ == old(self).wants_drop@.remove_keys(
                old(self).entities.killed_set(),
            ),
            final(self).wants_use@ == old(self).wants_use@.remove_keys(
                old(self).entities.killed_set(),
            ),
            final(self).moongrass@ == old(self).moongrass@.remove_keys(
                old(self).entities.killed_set(),
            ),
            final(self).map == old(self).map,
            final(self).player_entity == old(self).player_entity,
            final(self).player_pos == old(self).player_pos,
            final(self).run_state == old(self).run_state,
            final(self).gamelog == old(self).gamelog,
    {
        self.names.remove_killed(&self.entities);
        self.positions.remove_killed(&self.entities);
        self.viewsheds.remove_killed(&self.entities);
        self.players.remove_killed(&self.entities);
        self.mobs.remove_killed(&self.entities);
        self.blockers.remove_killed(&self.entities);
        self.combat_stats.remove_killed(&self.entities);
        self.wants_melee.remove_killed(&self.entities);
        self.suffer_damage.remove_killed(&self.entities);
        self.items.remove_killed(&self.entities);
        self.backpacks.remove_killed(&self.entities);
        self.wants_pickup.remove_killed(&self.entities);
        self.wants_drop.remove_killed(&self.entities);
        self.wants_use.remove_killed(&self.entities);
        self.moongrass.remove_killed(&self.entities);
        self.entities.merge();
    }
}

} // verus!
