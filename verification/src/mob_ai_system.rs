//! The monsters' turn: attack the player when next to it, else walk towards
//! it when it is in view.
//!
//! The path a monster walks and whether it is within reach come from outside
//! the library (a path search over the map, and a Euclidean distance); this
//! module decides what each monster does with them.
use crate::components::{Mob, Point, Position, Viewshed, WantsToMelee};
use crate::ecs::{Entities, Entity, Storage};
use crate::map::GameMap;
use crate::world::RunState;
use vstd::prelude::*;

verus! {

/// The system that moves the monsters.
pub struct MobAI {}

/// What a monster does this turn.
#[derive(Clone, Copy, PartialEq, Eq, Structural, Debug)]
pub enum MobPlan {
    /// Attack the player.
    Attack,
    /// Walk towards the player along a path.
    Chase,
    /// Nothing.
    Wait,
}

/// The live entity of slot `k` is a monster with a viewshed and a position.
pub open spec fn acting_mob(
    entities: &Entities,
    viewsheds: &Storage<Viewshed>,
    mobs: &Storage<Mob>,
    positions: &Storage<Position>,
    k: int,
) -> bool {
    &&& entities.alive_at(k)
    &&& viewsheds@.contains_key(k)
    &&& mobs@.contains_key(k)
    &&& positions@.contains_key(k)
}

/// The acting monsters among slots `0..k`, in slot order.
pub open spec fn acting_mobs(
    entities: &Entities,
    viewsheds: &Storage<Viewshed>,
    mobs: &Storage<Mob>,
    positions: &Storage<Position>,
    k: int,
) -> Seq<Entity>
    decreases k,
{
    if k <= 0 {
        Seq::empty()
    } else {
        acting_mobs(entities, viewsheds, mobs, positions, k - 1) + if acting_mob(
            entities,
            viewsheds,
            mobs,
            positions,
            k - 1,
        ) {
            seq![Entity { id: (k - 1) as usize }]
        } else {
            Seq::empty()
        }
    }
}

/// What a monster does: attack when within reach of the player, else chase
/// when the player's tile is among the tiles it sees, else wait.
pub open spec fn mob_plan(in_reach: bool, visible: Seq<Point>, player_pos: Point) -> MobPlan {
    if in_reach {
        MobPlan::Attack
    } else if visible.contains(player_pos) {
        MobPlan::Chase
    } else {
        MobPlan::Wait
    }
}

/// The tile `step` of a map `width` tiles wide, as a position.
pub open spec fn step_position(step: int, width: int) -> Position {
    Position { x: (step % width) as i32, y: (step / width) as i32 }
}

/// The path is usable: it was found and has a step past the start.
pub open spec fn path_usable(found: bool, steps: Seq<usize>) -> bool {
    found && steps.len() > 1
}

impl MobAI {
    /// The monsters act on the monsters' turn only.
    pub fn acts(&self, run_state: RunState) -> (r: bool)
        ensures
            r == (run_state == RunState::AITurn),
    {
        run_state == RunState::AITurn
    }

    /// The live monsters with a viewshed and a position, in slot order: the
    /// ones that act this turn.
    pub fn actors(
        &self,
        entities: &Entities,
        viewsheds: &Storage<Viewshed>,
        mobs: &Storage<Mob>,
        positions: &Storage<Position>,
    ) -> (r: Vec<Entity>)
        ensures
            r@ == acting_mobs(entities, viewsheds, mobs, positions, entities@.len() as int),
    {
        let mut r: Vec<Entity> = Vec::new();
        let n = entities.len();
        for k in 0..n
            invariant
                n == entities@.len(),
                r@ == acting_mobs(entities, viewsheds, mobs, positions, k as int),
        {
            let e = entities.entity(k);
            if entities.is_alive(e) && viewsheds.get(entities, e).is_some() && mobs.get(
                entities,
                e,
            ).is_some() && positions.get(entities, e).is_some() {
                r.push(e);
            }
            assert(r@ =~= acting_mobs(entities, viewsheds, mobs, positions, k + 1));
        }
        r
    }

    /// What the monster `mob` does, given whether it is within reach of the
    /// player (the Euclidean distance between them is below 1.5).
    pub fn plan(
        &self,
        viewsheds: &Storage<Viewshed>,
        mob: Entity,
        in_reach: bool,
        player_pos: Point,
    ) -> (p: MobPlan)
        requires
            viewsheds@.contains_key(mob.id as int),
        ensures
            p == mob_plan(in_reach, viewsheds@[mob.id as int].visible_tiles@, player_pos),
    {
        if in_reach {
            return MobPlan::Attack;
        }
        let viewshed = viewsheds.slot(mob.id).unwrap();
        let visible = &viewshed.visible_tiles;
        let count = visible.len();
        for j in 0..count
            invariant
                !in_reach,
                count == visible@.len(),
                visible@ == viewsheds@[mob.id as int].visible_tiles@,
                forall|i: int| 0 <= i < j ==> visible@[i] != player_pos,
        {
            if visible[j] == player_pos {
                assert(visible@[j as int] == player_pos);
                return MobPlan::Chase;
            }
        }
        assert(!visible@.contains(player_pos));
        MobPlan::Wait
    }

    /// The monster `mob` orders an attack on the player, replacing any attack
    /// it had ordered.
    pub fn attack(
        &self,
        entities: &Entities,
        wants_melee: &mut Storage<WantsToMelee>,
        mob: Entity,
        player: Entity,
    )
        requires
            entities.alive(mob),
        ensures
            final(wants_melee)@ == old(wants_melee)@.insert(
                mob.id as int,
                WantsToMelee { target: player },
            ),
    {
        let inserted = wants_melee.insert(entities, mob, WantsToMelee { target: player });
        assert(inserted is Ok);
    }

    /// Whether `follow_path` may be called with these arguments.
    pub fn can_follow_path(
        &self,
        map: &GameMap,
        positions: &Storage<Position>,
        viewsheds: &Storage<Viewshed>,
        mob: Entity,
        found: bool,
        steps: &Vec<usize>,
    ) -> (r: bool)
        ensures
            r == ({
                &&& map.wf()
                &&& positions@.contains_key(mob.id as int)
                &&& viewsheds@.contains_key(mob.id as int)
                &&& path_usable(found, steps@) ==> {
                    &&& map.in_bounds(
                        positions@[mob.id as int].x as int,
                        positions@[mob.id as int].y as int,
                    )
                    &&& steps@[1] < map.size()
                }
            }),
    {
        if !map.is_wf() || viewsheds.slot(mob.id).is_none() {
            return false;
        }
        match positions.slot(mob.id) {
            None => false,
            Some(p) => {
                if found && steps.len() > 1 {
                    0 <= p.x && p.x < map.width && 0 <= p.y && p.y < map.height && steps[1]
                        < map.tiles.len()
                } else {
                    true
                }
            },
        }
    }

    /// The monster `mob` walks one step along a path towards the player: if
    /// the path was found and has a step past its start, the monster leaves
    /// its tile (which stops being blocked), stands on the path's second tile
    /// (which becomes blocked), and its view is marked for recomputing.
    /// Otherwise nothing changes.
    pub fn follow_path(
        &self,
        map: &mut GameMap,
        positions: &mut Storage<Position>,
        viewsheds: &mut Storage<Viewshed>,
        mob: Entity,
        found: bool,
        steps: &Vec<usize>,
    )
        requires
            old(map).wf(),
            old(positions)@.contains_key(mob.id as int),
            old(viewsheds)@.contains_key(mob.id as int),
            path_usable(found, steps@) ==> {
                &&& old(map).in_bounds(
                    old(positions)@[mob.id as int].x as int,
                    old(positions)@[mob.id as int].y as int,
                )
                &&& steps@[1] < old(map).size()
            },
        ensures
            !path_usable(found, steps@) ==> *final(map) == *old(map) && final(positions)@ == old(
                positions,
            )@ && final(viewsheds)@ == old(viewsheds)@,
            path_usable(found, steps@) ==> {
                let p = old(positions)@[mob.id as int];
                let v = old(viewsheds)@[mob.id as int];
                let np = step_position(steps@[1] as int, old(map).width as int);
                &&& final(map).wf()
                &&& final(map).tiles == old(map).tiles
                &&& final(map).width == old(map).width
                &&& final(map).height == old(map).height
                &&& final(map).tile_content == old(map).tile_content
                &&& final(map).visible_tiles == old(map).visible_tiles
                &&& final(map).blocked@ == old(map).blocked@.update(
                    old(map).idx(p.x as int, p.y as int),
                    false,
                ).update(old(map).idx(np.x as int, np.y as int), true)
                &&& final(positions)@ == old(positions)@.insert(mob.id as int, np)
                &&& final(viewsheds)@ == old(viewsheds)@.insert(
                    mob.id as int,
                    Viewshed { visible_tiles: v.visible_tiles, range: v.range, dirty: true },
                )
            },
    {
        if found && steps.len() > 1 {
            let pos = *positions.slot(mob.id).unwrap();
            let mut idx = map.xy_idx(pos.x, pos.y);
            map.blocked.set(idx, false);
            let step = steps[1];
            let width = map.width as usize;
            let _tile_count = map.tiles.len();
            proof {
                assert(step / width < map.height) by (nonlinear_arith)
                    requires
                        step < width * map.height,
                        0 < width,
                ;
                assert(step % width < width) by (nonlinear_arith)
                    requires
                        0 < width,
                ;
            }
            let new_pos = Position { x: (step % width) as i32, y: (step / width) as i32 };
            positions.put(mob.id, new_pos);
            idx = map.xy_idx(new_pos.x, new_pos.y);
            map.blocked.set(idx, true);
            let mut viewshed = viewsheds.take(mob.id).unwrap();
            viewshed.dirty = true;
            viewsheds.put(mob.id, viewshed);
            assert(viewsheds@ =~= old(viewsheds)@.insert(
                mob.id as int,
                Viewshed {
                    visible_tiles: old(viewsheds)@[mob.id as int].visible_tiles,
                    range: old(viewsheds)@[mob.id as int].range,
                    dirty: true,
                },
            ));
        }
    }
}

} // verus!
