//! Properties of the game's rules that span a whole system run or several
//! systems.
use crate::components::{
    BackpackOf, CombatStats, Moongrass, Name, Position, SufferDamage, WantsToDrop, WantsToMelee,
    WantsToPickup, WantsToUse,
};
use crate::ecs::{Entities, Entity, Storage};
use crate::inventory_system::{
    backpacks_after_drops, backpacks_after_pickups, dropper, eats_herb, herb_of,
    lemma_pickup_clears_ground, picked_items, positions_after_drops, positions_after_pickups, stats_after_use,
};
use crate::map_indexing_system::{stands_on, tile_entities};
use crate::melee_combat_system::{
    attacker, combat_lines, damage_after, damage_of, fight_happens, melee_ready, target_slot,
};
use crate::text::{hits_text, unable_to_hurt_text};
use crate::player::{first_fighter, key_delta, lemma_move_stays_done, move_after, move_dest, mover, Key, MoveState};
use crate::mob_ai_system::{mob_plan, MobPlan};
use crate::components::{Point, Viewshed};
use crate::state::{next_run_state, runs_systems, MenuResult};
use crate::world::{RunState, World};
use vstd::prelude::*;

verus! {

/// Every damage a melee run leaves on a slot that had none is positive and
/// comes from a fight between standing combatants aimed at that slot, worth
/// the attacker's attack less the target's defense.
pub proof fn law_damage_comes_from_fights(
    entities: &Entities,
    wants_melee: &Storage<WantsToMelee>,
    names: &Storage<Name>,
    combat_stats: &Storage<CombatStats>,
    suffer_damage: Map<int, SufferDamage>,
    k: int,
    t: int,
)
    requires
        melee_ready(entities, wants_melee, names, combat_stats),
        damage_after(entities, wants_melee, names, combat_stats, suffer_damage, k).contains_key(t),
        !suffer_damage.contains_key(t),
    ensures
        damage_after(entities, wants_melee, names, combat_stats, suffer_damage, k)[t].amount > 0,
        exists|e: int|
            0 <= e < k && #[trigger] fight_happens(entities, wants_melee, names, combat_stats, e)
                && target_slot(wants_melee, e) == t && damage_of(wants_melee, combat_stats, e)
                == damage_after(entities, wants_melee, names, combat_stats, suffer_damage, k)[t].amount,
    decreases k,
{
    if k > 0 {
        let e = k - 1;
        if fight_happens(entities, wants_melee, names, combat_stats, e) {
            assert(attacker(entities, wants_melee, names, combat_stats, e));
        }
        if fight_happens(entities, wants_melee, names, combat_stats, e) && damage_of(
            wants_melee,
            combat_stats,
            e,
        ) > 0 && target_slot(wants_melee, e) == t {
            assert(fight_happens(entities, wants_melee, names, combat_stats, e));
        } else {
            law_damage_comes_from_fights(entities, wants_melee, names, combat_stats, suffer_damage, k - 1, t);
            let e2 = choose|e2: int|
                0 <= e2 < k - 1 && #[trigger] fight_happens(entities, wants_melee, names, combat_stats, e2)
                    && target_slot(wants_melee, e2) == t && damage_of(wants_melee, combat_stats, e2)
                    == damage_after(entities, wants_melee, names, combat_stats, suffer_damage, k - 1)[t].amount;
            assert(fight_happens(entities, wants_melee, names, combat_stats, e2));
        }
    }
}

/// Eating a herb never takes hit points above the maximum, heals at least
/// nothing lost when the herb's amount is not negative and the eater was at
/// or below the maximum, and leaves the other stats alone.
pub proof fn law_healing_is_capped(
    entities: &Entities,
    wants_use: &Storage<WantsToUse>,
    moongrass: &Storage<Moongrass>,
    combat_stats: &Storage<CombatStats>,
    k: int,
)
    requires
        eats_herb(entities, wants_use, moongrass, combat_stats, k),
        i32::MIN <= combat_stats@[k].hp + herb_of(wants_use, moongrass, k).heal_amount <= i32::MAX,
    ensures
        stats_after_use(entities, wants_use, moongrass, combat_stats, k).hp <= combat_stats@[k].max_hp,
        herb_of(wants_use, moongrass, k).heal_amount >= 0 && combat_stats@[k].hp
            <= combat_stats@[k].max_hp ==> stats_after_use(
            entities,
            wants_use,
            moongrass,
            combat_stats,
            k,
        ).hp >= combat_stats@[k].hp,
        stats_after_use(entities, wants_use, moongrass, combat_stats, k).max_hp
            == combat_stats@[k].max_hp,
        stats_after_use(entities, wants_use, moongrass, combat_stats, k).attack
            == combat_stats@[k].attack,
        stats_after_use(entities, wants_use, moongrass, combat_stats, k).defense
            == combat_stats@[k].defense,
{
}

/// Picking an item up and then dropping it puts it back on the ground where
/// its owner stands, out of the backpack: with one pickup of `item` by `who`
/// and then one drop of `item` by `who`, the item leaves the ground and goes
/// into `who`'s backpack, and after the drop it lies at `who`'s position and
/// is in no backpack.
pub proof fn law_pickup_then_drop(
    entities: &Entities,
    wants_pickup: &Storage<WantsToPickup>,
    wants_drop: &Storage<WantsToDrop>,
    positions: Map<int, Position>,
    backpack: Map<int, BackpackOf>,
    slot: int,
    who: Entity,
    item: Entity,
)
    requires
        wants_pickup@ == Map::<int, WantsToPickup>::empty().insert(
            slot,
            WantsToPickup { who, what: item },
        ),
        wants_drop@ == Map::<int, WantsToDrop>::empty().insert(who.id as int, WantsToDrop { item }),
        entities.alive(who),
        who != item,
        positions.contains_key(who.id as int),
        0 <= slot < wants_pickup.slots(),
        who.id < entities@.len(),
    ensures
        ({
            let picked = positions_after_pickups(wants_pickup, positions, wants_pickup.slots() as int);
            let packed = backpacks_after_pickups(wants_pickup, backpack, wants_pickup.slots() as int);
            let n = entities@.len() as int;
            &&& !picked.contains_key(item.id as int)
            &&& packed.contains_key(item.id as int)
            &&& packed[item.id as int] == BackpackOf { owner: who, x: 0, y: 0 }
            &&& positions_after_drops(entities, wants_drop, picked, n).contains_key(item.id as int)
            &&& positions_after_drops(entities, wants_drop, picked, n)[item.id as int] == positions[who.id as int]
            &&& !backpacks_after_drops(entities, wants_drop, packed, n).contains_key(item.id as int)
        }),
{
    let m = wants_pickup.slots() as int;
    let n = entities@.len() as int;
    let picked = positions_after_pickups(wants_pickup, positions, m);
    let packed = backpacks_after_pickups(wants_pickup, backpack, m);
    lemma_pickup_clears_ground(wants_pickup, positions, m);
    assert(picked_items(wants_pickup, m).contains(item.id as int)) by {
        assert(wants_pickup@.contains_key(slot));
    }
    assert(!picked_items(wants_pickup, m).contains(who.id as int)) by {
        if picked_items(wants_pickup, m).contains(who.id as int) {
            let j = choose|j: int|
                0 <= j < m && #[trigger] wants_pickup@.contains_key(j) && wants_pickup@[j].what.id
                    == who.id as int;
            assert(j == slot);
        }
    }
    lemma_pack_single(wants_pickup, backpack, slot, who, item, m);
    lemma_drop_single(entities, wants_drop, picked, packed, who, item, n);
}

/// With one pickup, of `item` by `who` at slot `slot`, the backpacks after
/// slots `0..k` hold the item exactly when `k` is past the pickup.
proof fn lemma_pack_single(
    wants_pickup: &Storage<WantsToPickup>,
    backpack: Map<int, BackpackOf>,
    slot: int,
    who: Entity,
    item: Entity,
    k: int,
)
    requires
        wants_pickup@ == Map::<int, WantsToPickup>::empty().insert(
            slot,
            WantsToPickup { who, what: item },
        ),
        0 <= slot < k,
    ensures
        backpacks_after_pickups(wants_pickup, backpack, k).contains_key(item.id as int),
        backpacks_after_pickups(wants_pickup, backpack, k)[item.id as int] == (BackpackOf {
            owner: who,
            x: 0,
            y: 0,
        }),
    decreases k,
{
    if k - 1 > slot {
        lemma_pack_single(wants_pickup, backpack, slot, who, item, k - 1);
    }
}

/// With one drop, of `item` by `who`, the drops of slots `0..k` put the item
/// at `who`'s position and out of the backpacks once `k` is past `who`.
proof fn lemma_drop_single(
    entities: &Entities,
    wants_drop: &Storage<WantsToDrop>,
    positions: Map<int, Position>,
    backpack: Map<int, BackpackOf>,
    who: Entity,
    item: Entity,
    k: int,
)
    requires
        wants_drop@ == Map::<int, WantsToDrop>::empty().insert(who.id as int, WantsToDrop { item }),
        entities.alive(who),
        who != item,
        positions.contains_key(who.id as int),
        who.id < k,
    ensures
        positions_after_drops(entities, wants_drop, positions, k).contains_key(item.id as int),
        positions_after_drops(entities, wants_drop, positions, k)[item.id as int] == positions[who.id as int],
        !backpacks_after_drops(entities, wants_drop, backpack, k).contains_key(item.id as int),
    decreases k,
{
    if k - 1 > who.id {
        lemma_drop_single(entities, wants_drop, positions, backpack, who, item, k - 1);
    } else {
        lemma_drops_before(entities, wants_drop, positions, who, item, k - 1);
    }
}

/// With one drop, by `who`, nothing changes before slot `who`.
proof fn lemma_drops_before(
    entities: &Entities,
    wants_drop: &Storage<WantsToDrop>,
    positions: Map<int, Position>,
    who: Entity,
    item: Entity,
    k: int,
)
    requires
        wants_drop@ == Map::<int, WantsToDrop>::empty().insert(who.id as int, WantsToDrop { item }),
        k <= who.id,
    ensures
        positions_after_drops(entities, wants_drop, positions, k) == positions,
    decreases k,
{
    if k > 0 {
        lemma_drops_before(entities, wants_drop, positions, who, item, k - 1);
        assert(!dropper(entities, wants_drop, k - 1));
    }
}

/// Wherever a player's move takes it, it stays on the 80 by 50 screen: every
/// position a move changes is within 0..=79 by 0..=49.
pub proof fn law_moves_stay_on_screen(w: &World, dx: i32, dy: i32, k: int, e: int)
    requires
        move_after(w, dx, dy, k).positions.contains_key(e),
        move_after(w, dx, dy, k).positions[e] != w.positions@[e] || !w.positions@.contains_key(e),
    ensures
        0 <= move_after(w, dx, dy, k).positions[e].x <= 79,
        0 <= move_after(w, dx, dy, k).positions[e].y <= 49,
    decreases k,
{
    if k > 0 {
        let s = move_after(w, dx, dy, k - 1);
        if s.positions.contains_key(e) && (s.positions[e] != w.positions@[e] || !w.positions@.contains_key(e)) {
            law_moves_stay_on_screen(w, dx, dy, k - 1, e);
        }
    }
}

/// The map index lists an entity on a tile exactly when it stands there, so
/// each live entity with a position is listed on its own tile and no other.
pub proof fn law_index_lists_who_stands_there(
    width: int,
    entities: &Entities,
    positions: &Storage<Position>,
    k: int,
    e: int,
    i: int,
)
    requires
        0 <= e < k <= usize::MAX,
    ensures
        tile_entities(width, entities, positions, k, i).contains((Entity { id: e as usize }))
            <==> stands_on(width, entities, positions, e, i),
    decreases k,
{
    let x = Entity { id: e as usize };
    let before = tile_entities(width, entities, positions, k - 1, i);
    let extra = if stands_on(width, entities, positions, k - 1, i) {
        seq![Entity { id: (k - 1) as usize }]
    } else {
        Seq::<Entity>::empty()
    };
    let now = tile_entities(width, entities, positions, k, i);
    assert(now == before + extra);
    if now.contains(x) {
        let j = choose|j: int| 0 <= j < now.len() && now[j] == x;
        if j < before.len() {
            assert(now[j] == before[j]);
            assert(before.contains(x));
        } else {
            assert(now[j] == extra[j - before.len()]);
        }
    }
    if k - 1 > e {
        law_index_lists_who_stands_there(width, entities, positions, k - 1, e, i);
        if before.contains(x) {
            let j = choose|j: int| 0 <= j < before.len() && before[j] == x;
            assert(now[j] == before[j]);
        }
    } else {
        lemma_tile_entities_below(width, entities, positions, k - 1, i);
        if before.contains(x) {
            let j = choose|j: int| 0 <= j < before.len() && before[j] == x;
            assert(before[j].id < k - 1);
        }
        if stands_on(width, entities, positions, e, i) {
            assert(now[before.len() as int] == x);
        }
    }
}

/// The entities a tile lists from slots `0..k` all come from those slots.
proof fn lemma_tile_entities_below(
    width: int,
    entities: &Entities,
    positions: &Storage<Position>,
    k: int,
    i: int,
)
    ensures
        forall|j: int|
            0 <= j < tile_entities(width, entities, positions, k, i).len() ==> (#[trigger] tile_entities(
                width,
                entities,
                positions,
                k,
                i,
            )[j]).id < k,
    decreases k,
{
    if k > 0 {
        lemma_tile_entities_below(width, entities, positions, k - 1, i);
        let before = tile_entities(width, entities, positions, k - 1, i);
        let now = tile_entities(width, entities, positions, k, i);
        assert forall|j: int| 0 <= j < now.len() implies (#[trigger] now[j]).id < k by {
            if j < before.len() {
                assert(now[j] == before[j]);
            }
        }
    }
}

/// The turns follow each other: once the player has acted, the monsters act,
/// and then the game waits for input again; the systems run in both turns.
pub proof fn law_turn_cycle(k1: Option<Key>, m1: MenuResult, k2: Option<Key>, m2: MenuResult)
    ensures
        next_run_state(RunState::PlayerTurn, k1, m1) == RunState::AITurn,
        next_run_state(next_run_state(RunState::PlayerTurn, k1, m1), k2, m2) == RunState::AwaitInput,
        runs_systems(RunState::PlayerTurn),
        runs_systems(RunState::AITurn),
        !runs_systems(RunState::AwaitInput),
{
}

/// Without a key the game keeps waiting for one.
pub proof fn law_waiting_without_input(m: MenuResult)
    ensures
        next_run_state(RunState::AwaitInput, None, m) == RunState::AwaitInput,
        next_run_state(RunState::AwaitInput, Some(Key::Other), m) == RunState::AwaitInput,
{
}

} // verus!

verus! {

/// Slot `k` holds the first player (in slot order) that gets to move: a live
/// entity with the player marker, a position and a viewshed, and no lower
/// slot holds one.
pub open spec fn is_first_player(w: &World, k: int) -> bool {
    &&& w.entities.alive_at(k)
    &&& w.players@.contains_key(k)
    &&& w.positions@.contains_key(k)
    &&& w.viewsheds@.contains_key(k)
    &&& forall|i: int|
        0 <= i < k ==> !(w.entities.alive_at(i) && #[trigger] w.players@.contains_key(i)
            && w.positions@.contains_key(i) && w.viewsheds@.contains_key(i))
}

/// The entities standing on tile (`x`, `y`) of the world's map.
pub open spec fn content_at(w: &World, x: int, y: int) -> Seq<Entity> {
    w.map.tile_content@[y * w.map.width + x]@
}

/// `e` is a live entity with stats: something the player can fight.
pub open spec fn can_be_fought(w: &World, e: Entity) -> bool {
    w.entities.alive(e) && w.combat_stats@.contains_key(e.id as int)
}

/// Before the first player's slot nothing moves.
proof fn lemma_nothing_before_first_player(w: &World, dx: i32, dy: i32, k: int, i: int)
    requires
        is_first_player(w, k),
        0 <= i <= k,
    ensures
        move_after(w, dx, dy, i) == (MoveState {
            positions: w.positions@,
            viewsheds: w.viewsheds@,
            wants_melee: w.wants_melee@,
            player_pos: w.player_pos,
            done: false,
        }),
    decreases i,
{
    if i > 0 {
        lemma_nothing_before_first_player(w, dx, dy, k, i - 1);
        assert(!mover(w, i - 1));
    }
}

/// The first fighter from index `i` on is the one at `j` when none comes
/// between.
proof fn lemma_first_fighter_is(
    c: Seq<Entity>,
    entities: &Entities,
    combat_stats: &Storage<CombatStats>,
    i: int,
    j: int,
)
    requires
        0 <= i <= j < c.len(),
        entities.alive(c[j]) && combat_stats@.contains_key(c[j].id as int),
        forall|m: int|
            0 <= m < j ==> !(entities.alive(#[trigger] c[m]) && combat_stats@.contains_key(
                c[m].id as int,
            )),
    ensures
        first_fighter(c, entities, combat_stats, i) == Some(c[j]),
    decreases j - i,
{
    if i < j {
        lemma_first_fighter_is(c, entities, combat_stats, i + 1, j);
    }
}

/// No fighter from index `i` on when no entry is one.
proof fn lemma_no_fighter(c: Seq<Entity>, entities: &Entities, combat_stats: &Storage<CombatStats>, i: int)
    requires
        0 <= i,
        forall|m: int|
            0 <= m < c.len() ==> !(entities.alive(#[trigger] c[m]) && combat_stats@.contains_key(
                c[m].id as int,
            )),
    ensures
        first_fighter(c, entities, combat_stats, i) is None,
    decreases c.len() - i,
{
    if i < c.len() {
        lemma_no_fighter(c, entities, combat_stats, i + 1);
    }
}

/// A player attacks whatever fighter stands on the tile it steps towards,
/// whether or not that tile is blocked: when a live entity with stats
/// stands there, the player's move orders an attack on the first such
/// entity listed on the tile, the player stays where it is, and nothing
/// else moves or attacks.
pub proof fn law_attack_before_blocking(w: &World, dx: i32, dy: i32, k: int, j: int)
    requires
        w.map.wf(),
        is_first_player(w, k),
        w.map.in_bounds(w.positions@[k].x + dx, w.positions@[k].y + dy),
        0 <= j < content_at(w, w.positions@[k].x + dx, w.positions@[k].y + dy).len(),
        can_be_fought(w, content_at(w, w.positions@[k].x + dx, w.positions@[k].y + dy)[j]),
        forall|m: int|
            0 <= m < j ==> !can_be_fought(
                w,
                #[trigger] content_at(w, w.positions@[k].x + dx, w.positions@[k].y + dy)[m],
            ),
    ensures
        ({
            let n = w.entities@.len() as int;
            let t = content_at(w, w.positions@[k].x + dx, w.positions@[k].y + dy)[j];
            &&& move_after(w, dx, dy, n).wants_melee == w.wants_melee@.insert(
                k,
                WantsToMelee { target: t },
            )
            &&& move_after(w, dx, dy, n).positions == w.positions@
            &&& move_after(w, dx, dy, n).viewsheds == w.viewsheds@
            &&& move_after(w, dx, dy, n).player_pos == w.player_pos
        }),
{
    let n = w.entities@.len() as int;
    let c = content_at(w, w.positions@[k].x + dx, w.positions@[k].y + dy);
    lemma_nothing_before_first_player(w, dx, dy, k, k);
    assert(mover(w, k));
    assert(move_dest(w, dx, dy, k) == (w.positions@[k].y + dy) * w.map.width + w.positions@[k].x + dx);
    assert forall|m: int| 0 <= m < j implies !(w.entities.alive(#[trigger] c[m]) && w.combat_stats@.contains_key(
        c[m].id as int,
    )) by {
        assert(!can_be_fought(w, c[m]));
    }
    lemma_first_fighter_is(c, &w.entities, &w.combat_stats, 0, j);
    assert(move_after(w, dx, dy, k + 1).done);
    lemma_move_stays_done(w, dx, dy, k + 1, n);
}

/// A player steps onto a tile that is free: when nothing there can be
/// fought, the tile is not blocked and it lies on the 80 by 50 screen, the
/// player ends up exactly one step of (`dx`, `dy`) away, its view is marked
/// for recomputing, the player position follows, nothing else moves, and no
/// attack is ordered.
pub proof fn law_free_step(w: &World, dx: i32, dy: i32, k: int)
    requires
        w.map.wf(),
        is_first_player(w, k),
        w.map.in_bounds(w.positions@[k].x + dx, w.positions@[k].y + dy),
        0 <= w.positions@[k].x + dx <= 79,
        0 <= w.positions@[k].y + dy <= 49,
        !w.map.blocked@[(w.positions@[k].y + dy) * w.map.width + w.positions@[k].x + dx],
        forall|m: int|
            0 <= m < content_at(w, w.positions@[k].x + dx, w.positions@[k].y + dy).len() ==> !can_be_fought(
                w,
                #[trigger] content_at(w, w.positions@[k].x + dx, w.positions@[k].y + dy)[m],
            ),
    ensures
        ({
            let s = move_after(w, dx, dy, k + 1);
            let p = w.positions@[k];
            let v = w.viewsheds@[k];
            &&& s.positions == w.positions@.insert(
                k,
                Position { x: (p.x + dx) as i32, y: (p.y + dy) as i32 },
            )
            &&& s.positions[k] == (Position { x: (p.x + dx) as i32, y: (p.y + dy) as i32 })
            &&& s.viewsheds == w.viewsheds@.insert(
                k,
                Viewshed { visible_tiles: v.visible_tiles, range: v.range, dirty: true },
            )
            &&& s.player_pos == (Point { x: (p.x + dx) as i32, y: (p.y + dy) as i32 })
            &&& s.wants_melee == w.wants_melee@
            &&& !s.done
        }),
{
    let c = content_at(w, w.positions@[k].x + dx, w.positions@[k].y + dy);
    lemma_nothing_before_first_player(w, dx, dy, k, k);
    assert(mover(w, k));
    assert(move_dest(w, dx, dy, k) == (w.positions@[k].y + dy) * w.map.width + w.positions@[k].x + dx);
    assert forall|m: int| 0 <= m < c.len() implies !(w.entities.alive(#[trigger] c[m]) && w.combat_stats@.contains_key(
        c[m].id as int,
    )) by {
        assert(!can_be_fought(w, c[m]));
    }
    lemma_no_fighter(c, &w.entities, &w.combat_stats, 0);
}

/// A blocked tile with nothing to fight on it stops the player: the player
/// stays where it is, its view and the player position are unchanged, and no
/// attack is ordered.
pub proof fn law_blocked_tile_stops(w: &World, dx: i32, dy: i32, k: int)
    requires
        w.map.wf(),
        is_first_player(w, k),
        w.map.in_bounds(w.positions@[k].x + dx, w.positions@[k].y + dy),
        w.map.blocked@[(w.positions@[k].y + dy) * w.map.width + w.positions@[k].x + dx],
        forall|m: int|
            0 <= m < content_at(w, w.positions@[k].x + dx, w.positions@[k].y + dy).len() ==> !can_be_fought(
                w,
                #[trigger] content_at(w, w.positions@[k].x + dx, w.positions@[k].y + dy)[m],
            ),
    ensures
        ({
            let s = move_after(w, dx, dy, k + 1);
            &&& s.positions == w.positions@
            &&& s.viewsheds == w.viewsheds@
            &&& s.player_pos == w.player_pos
            &&& s.wants_melee == w.wants_melee@
            &&& !s.done
        }),
{
    let c = content_at(w, w.positions@[k].x + dx, w.positions@[k].y + dy);
    lemma_nothing_before_first_player(w, dx, dy, k, k);
    assert(mover(w, k));
    assert(move_dest(w, dx, dy, k) == (w.positions@[k].y + dy) * w.map.width + w.positions@[k].x + dx);
    assert forall|m: int| 0 <= m < c.len() implies !(w.entities.alive(#[trigger] c[m]) && w.combat_stats@.contains_key(
        c[m].id as int,
    )) by {
        assert(!can_be_fought(w, c[m]));
    }
    lemma_no_fighter(c, &w.entities, &w.combat_stats, 0);
}

/// The setup frame runs the systems and then waits for input; waiting for
/// input runs no systems, and any direction key read then ends the player's
/// turn, whatever the menu reported.
pub proof fn law_setup_and_direction_keys(key: Key, m: MenuResult)
    ensures
        next_run_state(RunState::Init, Some(key), m) == RunState::AwaitInput,
        next_run_state(RunState::Init, None, m) == RunState::AwaitInput,
        runs_systems(RunState::Init),
        !runs_systems(RunState::AwaitInput),
        key != Key::Other ==> next_run_state(RunState::AwaitInput, Some(key), m) == RunState::PlayerTurn,
{
}

/// The direction keys: `h`/`l` step left/right along x, `k`/`j` step
/// up/down along y (y grows downwards), each by one tile; `y u b n` are the
/// diagonals, each the sum of a horizontal and a vertical step; opposite keys
/// step in opposite directions; every other key steps nowhere.
pub proof fn law_key_directions()
    ensures
        key_delta(Key::H) == Some((-1i32, 0i32)),
        key_delta(Key::K) == Some((0i32, -1i32)),
        key_delta(Key::L)->Some_0.0 == -key_delta(Key::H)->Some_0.0,
        key_delta(Key::L)->Some_0.1 == key_delta(Key::H)->Some_0.1,
        key_delta(Key::J)->Some_0.1 == -key_delta(Key::K)->Some_0.1,
        key_delta(Key::J)->Some_0.0 == key_delta(Key::K)->Some_0.0,
        key_delta(Key::L) is Some && key_delta(Key::J) is Some,
        key_delta(Key::Y) == Some(((key_delta(Key::H)->Some_0.0 + key_delta(Key::K)->Some_0.0) as i32, (key_delta(Key::H)->Some_0.1 + key_delta(Key::K)->Some_0.1) as i32)),
        key_delta(Key::U) == Some(((key_delta(Key::L)->Some_0.0 + key_delta(Key::K)->Some_0.0) as i32, (key_delta(Key::L)->Some_0.1 + key_delta(Key::K)->Some_0.1) as i32)),
        key_delta(Key::B) == Some(((key_delta(Key::H)->Some_0.0 + key_delta(Key::J)->Some_0.0) as i32, (key_delta(Key::H)->Some_0.1 + key_delta(Key::J)->Some_0.1) as i32)),
        key_delta(Key::N) == Some(((key_delta(Key::L)->Some_0.0 + key_delta(Key::J)->Some_0.0) as i32, (key_delta(Key::L)->Some_0.1 + key_delta(Key::J)->Some_0.1) as i32)),
        key_delta(Key::Other) is None,
{
}

/// Pressing `j` with free floor below the player moves the player one tile
/// down: its y grows by one and its x stays.
pub proof fn law_j_steps_down(w: &World, k: int)
    requires
        w.map.wf(),
        is_first_player(w, k),
        w.map.in_bounds(w.positions@[k].x as int, w.positions@[k].y + 1),
        w.positions@[k].y + 1 <= 49,
        0 <= w.positions@[k].x <= 79,
        !w.map.blocked@[(w.positions@[k].y + 1) * w.map.width + w.positions@[k].x],
        forall|m: int|
            0 <= m < content_at(w, w.positions@[k].x as int, w.positions@[k].y + 1).len() ==> !can_be_fought(
                w,
                #[trigger] content_at(w, w.positions@[k].x as int, w.positions@[k].y + 1)[m],
            ),
    ensures
        ({
            let d = key_delta(Key::J)->Some_0;
            let s = move_after(w, d.0, d.1, k + 1);
            &&& key_delta(Key::J) is Some
            &&& s.positions[k].y == w.positions@[k].y + 1
            &&& s.positions[k].x == w.positions@[k].x
        }),
{
    law_key_directions();
    law_free_step(w, 0, 1, k);
}

/// Cancelling any menu (the character sheet, the use menu, the drop menu)
/// goes back to waiting for input; no answer keeps the menu open, and so
/// does any answer but cancelling on the character sheet; choosing from
/// either inventory menu ends the player's turn. None of these frames
/// runs the systems. This holds whatever key was read.
pub proof fn law_menus(key: Option<Key>)
    ensures
        next_run_state(RunState::ShowCharacter, key, MenuResult::Cancel) == RunState::AwaitInput,
        next_run_state(RunState::InventoryUse, key, MenuResult::Cancel) == RunState::AwaitInput,
        next_run_state(RunState::InventoryDrop, key, MenuResult::Cancel) == RunState::AwaitInput,
        next_run_state(RunState::ShowCharacter, key, MenuResult::NoResponse)
            == RunState::ShowCharacter,
        next_run_state(RunState::InventoryUse, key, MenuResult::NoResponse) == RunState::InventoryUse,
        next_run_state(RunState::InventoryDrop, key, MenuResult::NoResponse)
            == RunState::InventoryDrop,
        next_run_state(RunState::InventoryUse, key, MenuResult::Selected) == RunState::PlayerTurn,
        next_run_state(RunState::InventoryDrop, key, MenuResult::Selected) == RunState::PlayerTurn,
        next_run_state(RunState::ShowCharacter, key, MenuResult::Selected)
            == RunState::ShowCharacter,
        !runs_systems(RunState::ShowCharacter),
        !runs_systems(RunState::InventoryUse),
        !runs_systems(RunState::InventoryDrop),
{
}

/// A monster attacks exactly when it is within reach; out of reach it chases
/// exactly when the player's tile (both coordinates) is one of the tiles it
/// sees, and waits otherwise.
pub proof fn law_mob_plan(in_reach: bool, visible: Seq<Point>, player_pos: Point)
    ensures
        (mob_plan(in_reach, visible, player_pos) == MobPlan::Attack) == in_reach,
        (mob_plan(in_reach, visible, player_pos) == MobPlan::Chase) == (!in_reach && exists|i: int|
            0 <= i < visible.len() && (#[trigger] visible[i]).x == player_pos.x && visible[i].y
                == player_pos.y),
        (mob_plan(in_reach, visible, player_pos) == MobPlan::Wait) == (!in_reach && forall|i: int|
            0 <= i < visible.len() ==> (#[trigger] visible[i]).x != player_pos.x || visible[i].y
                != player_pos.y),
{
    if !in_reach {
        if exists|i: int|
            0 <= i < visible.len() && (#[trigger] visible[i]).x == player_pos.x && visible[i].y
                == player_pos.y {
            let i = choose|i: int|
                0 <= i < visible.len() && (#[trigger] visible[i]).x == player_pos.x && visible[i].y
                    == player_pos.y;
            assert(visible[i] == player_pos);
            assert(visible.contains(player_pos));
        }
        if visible.contains(player_pos) {
            let i = choose|i: int| 0 <= i < visible.len() && visible[i] == player_pos;
            assert(visible[i].x == player_pos.x);
        }
    }
}

/// The live entity of slot `e` wants to attack, has a name and stats, and it
/// and its target both have hit points left.
pub open spec fn standing_fight(
    entities: &Entities,
    wants_melee: &Storage<WantsToMelee>,
    names: &Storage<Name>,
    combat_stats: &Storage<CombatStats>,
    e: int,
) -> bool {
    &&& entities.alive_at(e)
    &&& wants_melee@.contains_key(e)
    &&& names@.contains_key(e)
    &&& combat_stats@.contains_key(e)
    &&& combat_stats@[e].hp > 0
    &&& combat_stats@[wants_melee@[e].target.id as int].hp > 0
}

/// One blow of a melee run, the one of slot `k`. In a standing fight whose
/// attack exceeds the target's defense, the target's pending damage becomes
/// exactly attack less defense and "<attacker> hits <target>, for <damage>
/// hp" is written. In a standing fight whose attack is at most the target's
/// defense, no damage is recorded and "<attacker> is unable to hurt
/// <target>" is written. Without a standing fight, damage and console stay
/// as they were.
pub proof fn law_one_blow(
    entities: &Entities,
    wants_melee: &Storage<WantsToMelee>,
    names: &Storage<Name>,
    combat_stats: &Storage<CombatStats>,
    suffer_damage: Map<int, SufferDamage>,
    k: int,
)
    requires
        0 <= k,
    ensures
        ({
            let a = combat_stats@[k];
            let t = wants_melee@[k].target.id as int;
            let b = combat_stats@[t];
            let before = damage_after(entities, wants_melee, names, combat_stats, suffer_damage, k);
            let after = damage_after(entities, wants_melee, names, combat_stats, suffer_damage, k + 1);
            let lines_before = combat_lines(entities, wants_melee, names, combat_stats, k);
            let lines_after = combat_lines(entities, wants_melee, names, combat_stats, k + 1);
            let fight = standing_fight(entities, wants_melee, names, combat_stats, k);
            &&& fight && a.attack - b.defense > 0 ==> after == before.insert(
                t,
                SufferDamage { amount: (a.attack - b.defense) as i32 },
            ) && lines_after == lines_before.push(
                hits_text(names@[k].name@, names@[t].name@, a.attack - b.defense),
            )
            &&& fight && a.attack <= b.defense ==> after == before && lines_after
                == lines_before.push(unable_to_hurt_text(names@[k].name@, names@[t].name@))
            &&& !fight ==> after == before && lines_after == lines_before
        }),
{
    assert(standing_fight(entities, wants_melee, names, combat_stats, k) == fight_happens(
        entities,
        wants_melee,
        names,
        combat_stats,
        k,
    ));
}

/// Damage that a melee run leaves on a slot, where there was none or a
/// different one before, was dealt by a standing fight aimed at that slot
/// whose attack exceeds the target's defense, and it is exactly attack less
/// defense.
pub proof fn law_damage_is_attack_less_defense(
    entities: &Entities,
    wants_melee: &Storage<WantsToMelee>,
    names: &Storage<Name>,
    combat_stats: &Storage<CombatStats>,
    suffer_damage: Map<int, SufferDamage>,
    k: int,
    t: int,
)
    requires
        melee_ready(entities, wants_melee, names, combat_stats),
        damage_after(entities, wants_melee, names, combat_stats, suffer_damage, k).contains_key(t),
        !suffer_damage.contains_key(t) || damage_after(
            entities,
            wants_melee,
            names,
            combat_stats,
            suffer_damage,
            k,
        )[t] != suffer_damage[t],
    ensures
        exists|e: int|
            0 <= e < k && #[trigger] standing_fight(entities, wants_melee, names, combat_stats, e)
                && wants_melee@[e].target.id == t && combat_stats@[e].attack
                - combat_stats@[t].defense > 0 && damage_after(
                entities,
                wants_melee,
                names,
                combat_stats,
                suffer_damage,
                k,
            )[t].amount == combat_stats@[e].attack - combat_stats@[t].defense,
    decreases k,
{
    if k > 0 {
        let e = k - 1;
        law_one_blow(entities, wants_melee, names, combat_stats, suffer_damage, e);
        let a = combat_stats@[e];
        let b = combat_stats@[wants_melee@[e].target.id as int];
        if standing_fight(entities, wants_melee, names, combat_stats, e) && a.attack - b.defense > 0
            && wants_melee@[e].target.id == t {
            assert(attacker(entities, wants_melee, names, combat_stats, e));
            assert(standing_fight(entities, wants_melee, names, combat_stats, e));
        } else {
            law_damage_is_attack_less_defense(
                entities,
                wants_melee,
                names,
                combat_stats,
                suffer_damage,
                k - 1,
                t,
            );
            let e2 = choose|e2: int|
                0 <= e2 < k - 1 && #[trigger] standing_fight(
                    entities,
                    wants_melee,
                    names,
                    combat_stats,
                    e2,
                ) && wants_melee@[e2].target.id == t && combat_stats@[e2].attack
                    - combat_stats@[t].defense > 0 && damage_after(
                    entities,
                    wants_melee,
                    names,
                    combat_stats,
                    suffer_damage,
                    k - 1,
                )[t].amount == combat_stats@[e2].attack - combat_stats@[t].defense;
            assert(standing_fight(entities, wants_melee, names, combat_stats, e2));
        }
    }
}

/// Blows whose attack is at most the target's defense record nothing: when
/// every standing fight among slots `0..k` aimed at `t` has an attack at
/// most the target's defense, the damage of slot `t` after those slots is
/// what it was before the run.
pub proof fn law_harmless_blows_record_nothing(
    entities: &Entities,
    wants_melee: &Storage<WantsToMelee>,
    names: &Storage<Name>,
    combat_stats: &Storage<CombatStats>,
    suffer_damage: Map<int, SufferDamage>,
    k: int,
    t: int,
)
    requires
        forall|e: int|
            0 <= e < k && #[trigger] standing_fight(entities, wants_melee, names, combat_stats, e)
                && wants_melee@[e].target.id == t ==> combat_stats@[e].attack
                <= combat_stats@[t].defense,
    ensures
        damage_after(entities, wants_melee, names, combat_stats, suffer_damage, k).contains_key(t)
            == suffer_damage.contains_key(t),
        suffer_damage.contains_key(t) ==> damage_after(
            entities,
            wants_melee,
            names,
            combat_stats,
            suffer_damage,
            k,
        )[t] == suffer_damage[t],
    decreases k,
{
    if k > 0 {
        let e = k - 1;
        law_one_blow(entities, wants_melee, names, combat_stats, suffer_damage, e);
        law_harmless_blows_record_nothing(entities, wants_melee, names, combat_stats, suffer_damage, k - 1, t);
        if standing_fight(entities, wants_melee, names, combat_stats, e) && wants_melee@[e].target.id == t {
            assert(combat_stats@[e].attack <= combat_stats@[t].defense);
        }
    }
}

} // verus!
