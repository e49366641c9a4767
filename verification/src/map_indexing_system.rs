//! Rebuilds the map's record of what blocks each tile and who stands on it.
use crate::components::{Blocker, Position};
use crate::ecs::{Entities, Entity, Storage};
use crate::map::{GameMap, TileType};
use vstd::prelude::*;

verus! {

/// The system that indexes entities by the tile they stand on.
pub struct MapIndexingSystem {}

/// The live entity of slot `e` has a position, and on a map `width` tiles
/// wide that position is tile `i`.
pub open spec fn stands_on(
    width: int,
    entities: &Entities,
    positions: &Storage<Position>,
    e: int,
    i: int,
) -> bool {
    &&& entities.alive_at(e)
    &&& positions@.contains_key(e)
    &&& positions@[e].y * width + positions@[e].x == i
}

/// The entities among slots `0..k` that stand on tile `i`, in slot order.
pub open spec fn tile_entities(
    width: int,
    entities: &Entities,
    positions: &Storage<Position>,
    k: int,
    i: int,
) -> Seq<Entity>
    decreases k,
{
    if k <= 0 {
        Seq::empty()
    } else {
        tile_entities(width, entities, positions, k - 1, i) + if stands_on(
            width,
            entities,
            positions,
            k - 1,
            i,
        ) {
            seq![Entity { id: (k - 1) as usize }]
        } else {
            Seq::empty()
        }
    }
}

/// Some blocking entity among slots `0..k` stands on tile `i`.
pub open spec fn blocked_by_entity(
    width: int,
    entities: &Entities,
    positions: &Storage<Position>,
    blockers: &Storage<Blocker>,
    k: int,
    i: int,
) -> bool {
    exists|e: int|
        0 <= e < k && #[trigger] stands_on(width, entities, positions, e, i)
            && blockers@.contains_key(e)
}

/// Every live entity with a position stands on a tile of the map.
pub open spec fn positions_on_map(
    map: &GameMap,
    entities: &Entities,
    positions: &Storage<Position>,
) -> bool {
    forall|e: int|
        entities.alive_at(e) && #[trigger] positions@.contains_key(e) ==> map.in_bounds(
            positions@[e].x as int,
            positions@[e].y as int,
        )
}

impl MapIndexingSystem {
    /// Whether `run` may be called: the map is well formed and every live
    /// entity with a position stands on it.
    pub fn can_run(&self, map: &GameMap, positions: &Storage<Position>, entities: &Entities) -> (r:
        bool)
        ensures
            r == (map.wf() && positions_on_map(map, entities, positions)),
    {
        if !map.is_wf() {
            return false;
        }
        let n = entities.len();
        for k in 0..n
            invariant
                n == entities@.len(),
                forall|e: int|
                    0 <= e < k && entities.alive_at(e) && #[trigger] positions@.contains_key(e)
                        ==> map.in_bounds(positions@[e].x as int, positions@[e].y as int),
        {
            let e = entities.entity(k);
            if let Some(p) = positions.get(entities, e) {
                if !(0 <= p.x && p.x < map.width && 0 <= p.y && p.y < map.height) {
                    return false;
                }
            }
        }
        true
    }

    /// Marks the walls, and the tiles where a live blocking entity stands, as
    /// blocked; lists on each tile the live entities standing there, in slot
    /// order.
    pub fn run(
        &mut self,
        map: &mut GameMap,
        positions: &Storage<Position>,
        blockers: &Storage<Blocker>,
        entities: &Entities,
    )
        requires
            old(map).wf(),
            positions_on_map(&*old(map), entities, positions),
        ensures
            final(map).wf(),
            final(map).tiles == old(map).tiles,
            final(map).width == old(map).width,
            final(map).height == old(map).height,
            final(map).visible_tiles == old(map).visible_tiles,
            forall|i: int|
                0 <= i < final(map).size() ==> #[trigger] final(map).blocked@[i] == (
                final(map).tiles@[i] == TileType::Wall || blocked_by_entity(
                    old(map).width as int,
                    entities,
                    positions,
                    blockers,
                    entities@.len() as int,
                    i,
                )),
            forall|i: int|
                0 <= i < final(map).size() ==> #[trigger] final(map).tile_content@[i]@
                    == tile_entities(
                    old(map).width as int,
                    entities,
                    positions,
                    entities@.len() as int,
                    i,
                ),
    {
        map.block_terrain();
        map.clear_tile_content();
        let n = entities.len();
        let ghost width = map.width as int;
        for k in 0..n
            invariant
                n == entities@.len(),
                width == old(map).width,
                map.wf(),
                map.tiles == old(map).tiles,
                map.width == old(map).width,
                map.height == old(map).height,
                map.visible_tiles == old(map).visible_tiles,
                positions_on_map(&*old(map), entities, positions),
                forall|i: int|
                    0 <= i < map.size() ==> #[trigger] map.blocked@[i] == (map.tiles@[i]
                        == TileType::Wall || blocked_by_entity(
                        width,
                        entities,
                        positions,
                        blockers,
                        k as int,
                        i,
                    )),
                forall|i: int|
                    0 <= i < map.size() ==> #[trigger] map.tile_content@[i]@ == tile_entities(
                        width,
                        entities,
                        positions,
                        k as int,
                        i,
                    ),
        {
            let entity = entities.entity(k);
            let ghost old_blocked = map.blocked@;
            let ghost old_content = map.tile_content@;
            let ghost mut target: int = -1;
            if entities.is_alive(entity) {
                if let Some(position) = positions.get(entities, entity) {
                    let idx = map.xy_idx(position.x, position.y);
                    if blockers.get(entities, entity).is_some() {
                        map.blocked.set(idx, true);
                    }
                    map.tile_content[idx].push(entity);
                    proof { target = idx as int; }
                }
            }
            proof {
                assert forall|i: int| 0 <= i < map.size() implies #[trigger] map.blocked@[i] == (
                map.tiles@[i] == TileType::Wall || blocked_by_entity(
                    width,
                    entities,
                    positions,
                    blockers,
                    k + 1,
                    i,
                )) by {
                    let here = stands_on(width, entities, positions, k as int, i);
                    assert(here <==> target == i);
                    if blocked_by_entity(width, entities, positions, blockers, k + 1, i) {
                        let e = choose|e: int|
                            0 <= e < k + 1 && #[trigger] stands_on(width, entities, positions, e, i)
                                && blockers@.contains_key(e);
                        if e < k {
                            assert(blocked_by_entity(width, entities, positions, blockers, k as int, i));
                        }
                    }
                    if blocked_by_entity(width, entities, positions, blockers, k as int, i) {
                        let e = choose|e: int|
                            0 <= e < k && #[trigger] stands_on(width, entities, positions, e, i)
                                && blockers@.contains_key(e);
                        assert(blocked_by_entity(width, entities, positions, blockers, k + 1, i));
                    }
                    if here && blockers@.contains_key(k as int) {
                        assert(blocked_by_entity(width, entities, positions, blockers, k + 1, i));
                    }
                }
                assert forall|i: int| 0 <= i < map.size() implies #[trigger] map.tile_content@[i]@
                    == tile_entities(width, entities, positions, k + 1, i) by {
                    let here = stands_on(width, entities, positions, k as int, i);
                    assert(here <==> target == i);
                    if !here {
                        assert(tile_entities(width, entities, positions, k + 1, i) =~= tile_entities(
                            width,
                            entities,
                            positions,
                            k as int,
                            i,
                        ));
                    }
                }
            }
        }
    }
}

} // verus!
