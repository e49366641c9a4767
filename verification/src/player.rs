//! The player's moves and attacks, and the keys that steer them.
use crate::components::{CombatStats, Point, Position, Viewshed, WantsToMelee};
use crate::ecs::{Entities, Entity, Storage};
use crate::state::State;
use crate::world::{RunState, World};
use vstd::prelude::*;

verus! {

/// The keys the game reads. `Other` stands for every key it ignores.
#[derive(Clone, Copy, PartialEq, Eq, Structural, Debug)]
pub enum Key {
    H,
    J,
    K,
    L,
    Y,
    U,
    B,
    N,
    Other,
}

/// The step a key asks for: vi keys for the four directions, `y u b n` for
/// the diagonals.
pub open spec fn key_delta(key: Key) -> Option<(i32, i32)> {
    match key {
        Key::H => Some((-1i32, 0i32)),
        Key::L => Some((1i32, 0i32)),
        Key::K => Some((0i32, -1i32)),
        Key::J => Some((0i32, 1i32)),
        Key::Y => Some((-1i32, -1i32)),
        Key::U => Some((1i32, -1i32)),
        Key::B => Some((-1i32, 1i32)),
        Key::N => Some((1i32, 1i32)),
        Key::Other => None,
    }
}

/// What a move of the player changes.
pub struct MoveState {
    pub positions: Map<int, Position>,
    pub viewsheds: Map<int, Viewshed>,
    pub wants_melee: Map<int, WantsToMelee>,
    pub player_pos: Point,
    /// An attack was ordered and the move stopped there.
    pub done: bool,
}

/// `v` clamped into `0..=hi`.
pub open spec fn clamp(v: int, hi: int) -> int {
    if v < 0 {
        0
    } else if v > hi {
        hi
    } else {
        v
    }
}

/// The first live entity with stats in `content`, from index `j` on.
pub open spec fn first_fighter(
    content: Seq<Entity>,
    entities: &Entities,
    combat_stats: &Storage<CombatStats>,
    j: int,
) -> Option<Entity>
    decreases content.len() - j,
{
    if j < 0 || j >= content.len() {
        None
    } else if entities.alive(content[j]) && combat_stats@.contains_key(content[j].id as int) {
        Some(content[j])
    } else {
        first_fighter(content, entities, combat_stats, j + 1)
    }
}

/// The live entity of slot `k` is a player with a position and a viewshed.
pub open spec fn mover(w: &World, k: int) -> bool {
    &&& w.entities.alive_at(k)
    &&& w.players@.contains_key(k)
    &&& w.positions@.contains_key(k)
    &&& w.viewsheds@.contains_key(k)
}

/// The map index of the tile the player of slot `k` steps towards.
pub open spec fn move_dest(w: &World, dx: i32, dy: i32, k: int) -> int {
    w.map.idx(w.positions@[k].x + dx, w.positions@[k].y + dy)
}

/// The state once the players of slots `0..k` have tried to step by
/// (`dx`, `dy`): a player whose destination holds a live entity with stats
/// orders an attack on the first such entity and the move stops there;
/// otherwise, if the destination is not blocked, the player steps there
/// (clamped to the 80 by 50 screen), its view is marked for recomputing and
/// the player position follows.
pub open spec fn move_after(w: &World, dx: i32, dy: i32, k: int) -> MoveState
    decreases k,
{
    if k <= 0 {
        MoveState {
            positions: w.positions@,
            viewsheds: w.viewsheds@,
            wants_melee: w.wants_melee@,
            player_pos: w.player_pos,
            done: false,
        }
    } else {
        let s = move_after(w, dx, dy, k - 1);
        let e = k - 1;
        if s.done || !mover(w, e) {
            s
        } else {
            let i = move_dest(w, dx, dy, e);
            match first_fighter(w.map.tile_content@[i]@, &w.entities, &w.combat_stats, 0) {
                Some(t) => MoveState {
                    wants_melee: s.wants_melee.insert(e, WantsToMelee { target: t }),
                    done: true,
                    ..s
                },
                None => if !w.map.blocked@[i] {
                    let p = w.positions@[e];
                    let np = Position {
                        x: clamp(p.x + dx, 79) as i32,
                        y: clamp(p.y + dy, 49) as i32,
                    };
                    let v = s.viewsheds[e];
                    MoveState {
                        positions: s.positions.insert(e, np),
                        viewsheds: s.viewsheds.insert(
                            e,
                            Viewshed { visible_tiles: v.visible_tiles, range: v.range, dirty: true },
                        ),
                        wants_melee: s.wants_melee,
                        player_pos: Point { x: np.x, y: np.y },
                        done: false,
                    }
                } else {
                    s
                },
            }
        }
    }
}

/// The map is well formed, and every player that gets to move steps towards
/// a tile of the map.
pub open spec fn move_ready(w: &World, dx: i32, dy: i32) -> bool {
    &&& w.map.wf()
    &&& forall|k: int|
        #[trigger] mover(w, k) && !move_after(w, dx, dy, k).done ==> w.map.in_bounds(
            w.positions@[k].x + dx,
            w.positions@[k].y + dy,
        )
}

/// A direction key, if one was pressed, leads to a well-formed move.
pub open spec fn key_move_ready(w: &World, key: Option<Key>) -> bool {
    match key {
        Some(k) => match key_delta(k) {
            Some(d) => move_ready(w, d.0, d.1),
            None => true,
        },
        None => true,
    }
}

/// `a` and `b` agree on everything a move of the player leaves alone.
pub open spec fn same_but_moves(a: &World, b: &World) -> bool {
    &&& a.entities == b.entities
    &&& a.names == b.names
    &&& a.players == b.players
    &&& a.mobs == b.mobs
    &&& a.blockers == b.blockers
    &&& a.combat_stats == b.combat_stats
    &&& a.suffer_damage == b.suffer_damage
    &&& a.items == b.items
    &&& a.backpacks == b.backpacks
    &&& a.wants_pickup == b.wants_pickup
    &&& a.wants_drop == b.wants_drop
    &&& a.wants_use == b.wants_use
    &&& a.moongrass == b.moongrass
    &&& a.map == b.map
    &&& a.player_entity == b.player_entity
    &&& a.run_state == b.run_state
    &&& a.gamelog == b.gamelog
}

/// Once a move stopped on an attack, later slots change nothing.
pub proof fn lemma_move_stays_done(w: &World, dx: i32, dy: i32, k: int, m: int)
    requires
        0 <= k <= m,
        move_after(w, dx, dy, k).done,
    ensures
        move_after(w, dx, dy, m) == move_after(w, dx, dy, k),
    decreases m - k,
{
    if m > k {
        lemma_move_stays_done(w, dx, dy, k, m - 1);
    }
}

/// A move only touches the slots of players: other slots keep their position.
pub proof fn lemma_move_keeps_others(w: &World, dx: i32, dy: i32, k: int, e: int)
    requires
        0 <= k <= e,
    ensures
        move_after(w, dx, dy, k).positions.contains_key(e) == w.positions@.contains_key(e),
        move_after(w, dx, dy, k).positions.contains_key(e) ==> move_after(w, dx, dy, k).positions[e]
            == w.positions@[e],
        move_after(w, dx, dy, k).viewsheds.contains_key(e) == w.viewsheds@.contains_key(e),
        move_after(w, dx, dy, k).viewsheds.contains_key(e) ==> move_after(w, dx, dy, k).viewsheds[e]
            == w.viewsheds@[e],
    decreases k,
{
    if k > 0 {
        lemma_move_keeps_others(w, dx, dy, k - 1, e);
    }
}

/// Every player (one live entity with the player marker, a position and a
/// viewshed), in slot order, tries to step by (`dx`, `dy`): if a live entity
/// with stats stands on the destination, the player orders an attack on the
/// first one and the whole move ends; otherwise, if the destination is not
/// blocked, the player steps there, clamped to 0..=79 and 0..=49, its
/// viewshed is marked dirty and the player position follows.
pub fn try_move_player(dx: i32, dy: i32, ecs: &mut World)
    requires
        move_ready(&*old(ecs), dx, dy),
    ensures
        same_but_moves(&*final(ecs), &*old(ecs)),
        final(ecs).positions@ == move_after(&*old(ecs), dx, dy, old(ecs).entities@.len() as int).positions,
        final(ecs).viewsheds@ == move_after(&*old(ecs), dx, dy, old(ecs).entities@.len() as int).viewsheds,
        final(ecs).wants_melee@ == move_after(
            &*old(ecs),
            dx,
            dy,
            old(ecs).entities@.len() as int,
        ).wants_melee,
        final(ecs).player_pos == move_after(&*old(ecs), dx, dy, old(ecs).entities@.len() as int).player_pos,
{
    let ghost w0 = *old(ecs);
    let n = ecs.entities.len();
    for k in 0..n
        invariant
            n == w0.entities@.len(),
            w0 == *old(ecs),
            move_ready(&w0, dx, dy),
            same_but_moves(&*ecs, &w0),
            !move_after(&w0, dx, dy, k as int).done,
            ecs.positions@ == move_after(&w0, dx, dy, k as int).positions,
            ecs.viewsheds@ == move_after(&w0, dx, dy, k as int).viewsheds,
            ecs.wants_melee@ == move_after(&w0, dx, dy, k as int).wants_melee,
            ecs.player_pos == move_after(&w0, dx, dy, k as int).player_pos,
    {
        let entity = ecs.entities.entity(k);
        proof {
            lemma_move_keeps_others(&w0, dx, dy, k as int, k as int);
        }
        if ecs.entities.is_alive(entity) && ecs.players.get(&ecs.entities, entity).is_some()
            && ecs.viewsheds.get(&ecs.entities, entity).is_some() {
            if let Some(pos) = ecs.positions.get(&ecs.entities, entity) {
                assert(mover(&w0, k as int));
                let px = pos.x;
                let py = pos.y;
                let dest_idx = ecs.map.xy_idx(px + dx, py + dy);
                let ghost content = w0.map.tile_content@[dest_idx as int]@;
                let count = ecs.map.tile_content[dest_idx].len();
                for j in 0..count
                    invariant
                        count == content.len(),
                        0 <= k < n,
                        n == w0.entities@.len(),
                        w0 == *old(ecs),
                        entity.id == k,
                        mover(&w0, k as int),
                        dest_idx == move_dest(&w0, dx, dy, k as int),
                        px == w0.positions@[k as int].x,
                        py == w0.positions@[k as int].y,
                        !move_after(&w0, dx, dy, k as int).done,
                        ecs.positions@ == move_after(&w0, dx, dy, k as int).positions,
                        ecs.viewsheds@ == move_after(&w0, dx, dy, k as int).viewsheds,
                        ecs.wants_melee@ == move_after(&w0, dx, dy, k as int).wants_melee,
                        ecs.player_pos == move_after(&w0, dx, dy, k as int).player_pos,
                        content == ecs.map.tile_content@[dest_idx as int]@,
                        same_but_moves(&*ecs, &w0),
                        dest_idx < ecs.map.tile_content@.len(),
                        first_fighter(content, &w0.entities, &w0.combat_stats, 0) == first_fighter(
                            content,
                            &w0.entities,
                            &w0.combat_stats,
                            j as int,
                        ),
                {
                    let potential_target = ecs.map.tile_content[dest_idx][j];
                    if ecs.combat_stats.get(&ecs.entities, potential_target).is_some() {
                        let inserted = ecs.wants_melee.insert(
                            &ecs.entities,
                            entity,
                            WantsToMelee { target: potential_target },
                        );
                        assert(inserted is Ok);
                        proof {
                            assert(move_after(&w0, dx, dy, k + 1).done);
                            lemma_move_stays_done(&w0, dx, dy, k + 1, n as int);
                        }
                        return;
                    }
                }
                if !ecs.map.blocked[dest_idx] {
                    let nx = if px + dx < 0 { 0 } else if px + dx > 79 { 79 } else { px + dx };
                    let ny = if py + dy < 0 { 0 } else if py + dy > 49 { 49 } else { py + dy };
                    ecs.positions.put(k, Position { x: nx, y: ny });
                    let mut viewshed = ecs.viewsheds.take(k).unwrap();
                    viewshed.dirty = true;
                    ecs.viewsheds.put(k, viewshed);
                    ecs.player_pos = Point { x: nx, y: ny };
                }
            }
        }
        assert(ecs.positions@ =~= move_after(&w0, dx, dy, k + 1).positions);
        assert(ecs.viewsheds@ =~= move_after(&w0, dx, dy, k + 1).viewsheds);
    }
}

/// Whether `try_move_player(dx, dy, w)` may be called: the map is well
/// formed and every player that gets to move steps towards a tile of the map.
pub fn can_move_player(w: &World, dx: i32, dy: i32) -> (r: bool)
    ensures
        r == move_ready(w, dx, dy),
{
    if !w.map.is_wf() {
        return false;
    }
    let n = w.entities.len();
    for k in 0..n
        invariant
            n == w.entities@.len(),
            w.map.wf(),
            !move_after(w, dx, dy, k as int).done,
            forall|j: int|
                0 <= j < k && #[trigger] mover(w, j) && !move_after(w, dx, dy, j).done
                    ==> w.map.in_bounds(w.positions@[j].x + dx, w.positions@[j].y + dy),
    {
        let entity = w.entities.entity(k);
        if w.entities.is_alive(entity) && w.players.get(&w.entities, entity).is_some()
            && w.viewsheds.get(&w.entities, entity).is_some() {
            if let Some(pos) = w.positions.get(&w.entities, entity) {
                assert(mover(w, k as int));
                let tx = pos.x as i64 + dx as i64;
                let ty = pos.y as i64 + dy as i64;
                if !(0 <= tx && tx < w.map.width as i64 && 0 <= ty && ty < w.map.height as i64) {
                    return false;
                }
                let dest_idx = w.map.xy_idx(pos.x + dx, pos.y + dy);
                let content = &w.map.tile_content[dest_idx];
                let count = content.len();
                for j in 0..count
                    invariant
                        count == content@.len(),
                        0 <= k < n,
                        n == w.entities@.len(),
                        w.map.wf(),
                        mover(w, k as int),
                        dest_idx == move_dest(w, dx, dy, k as int),
                        content@ == w.map.tile_content@[dest_idx as int]@,
                        !move_after(w, dx, dy, k as int).done,
                        w.map.in_bounds(w.positions@[k as int].x + dx, w.positions@[k as int].y + dy),
                        forall|i: int|
                            0 <= i < k && #[trigger] mover(w, i) && !move_after(w, dx, dy, i).done
                                ==> w.map.in_bounds(w.positions@[i].x + dx, w.positions@[i].y + dy),
                        first_fighter(content@, &w.entities, &w.combat_stats, 0) == first_fighter(
                            content@,
                            &w.entities,
                            &w.combat_stats,
                            j as int,
                        ),
                {
                    if w.combat_stats.get(&w.entities, content[j]).is_some() {
                        proof {
                            assert(move_after(w, dx, dy, k + 1).done);
                            assert forall|i: int| #[trigger] mover(w, i) && !move_after(w, dx, dy, i).done
                                implies w.map.in_bounds(w.positions@[i].x + dx, w.positions@[i].y + dy) by {
                                if i > k {
                                    lemma_move_stays_done(w, dx, dy, k + 1, i);
                                }
                            }
                        }
                        return true;
                    }
                }
            }
        }
    }
    assert forall|i: int| #[trigger] mover(w, i) && !move_after(w, dx, dy, i).done
        implies w.map.in_bounds(w.positions@[i].x + dx, w.positions@[i].y + dy) by {
        assert(0 <= i < n);
    }
    true
}

/// Reads one key press: a direction key moves the player (or orders an
/// attack) and ends the player's turn; no key, or a key the game ignores,
/// leaves the world as it is and keeps waiting for input.
pub fn player_input(gs: &mut State, key: Option<Key>) -> (r: RunState)
    requires
        key_move_ready(&old(gs).ecs, key),
    ensures
        match key {
            None => r == RunState::AwaitInput && *final(gs) == *old(gs),
            Some(k) => match key_delta(k) {
                None => r == RunState::AwaitInput && *final(gs) == *old(gs),
                Some(d) => {
                    let m = move_after(&old(gs).ecs, d.0, d.1, old(gs).ecs.entities@.len() as int);
                    &&& r == RunState::PlayerTurn
                    &&& same_but_moves(&final(gs).ecs, &old(gs).ecs)
                    &&& final(gs).ecs.positions@ == m.positions
                    &&& final(gs).ecs.viewsheds@ == m.viewsheds
                    &&& final(gs).ecs.wants_melee@ == m.wants_melee
                    &&& final(gs).ecs.player_pos == m.player_pos
                },
            },
        },
{
    match key {
        None => RunState::AwaitInput,
        Some(k) => {
            match k {
                Key::H => try_move_player(-1, 0, &mut gs.ecs),
                Key::L => try_move_player(1, 0, &mut gs.ecs),
                Key::K => try_move_player(0, -1, &mut gs.ecs),
                Key::J => try_move_player(0, 1, &mut gs.ecs),
                Key::Y => try_move_player(-1, -1, &mut gs.ecs),
                Key::U => try_move_player(1, -1, &mut gs.ecs),
                Key::B => try_move_player(-1, 1, &mut gs.ecs),
                Key::N => try_move_player(1, 1, &mut gs.ecs),
                Key::Other => {
                    return RunState::AwaitInput;
                },
            }
            RunState::PlayerTurn
        },
    }
}

} // verus!
