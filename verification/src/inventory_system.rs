//! Picking up, using and dropping items.
use crate::components::{
    BackpackOf, CombatStats, GameLog, Item, Moongrass, Name, Position, WantsToDrop, WantsToPickup,
    WantsToUse,
};
use crate::ecs::{Entities, Entity, EntitySlot, Storage};
use crate::text::{drop_message, drop_text, invigorates, invigorates_text, pick_up, pick_up_text};
use vstd::prelude::*;

verus! {

/// The system that moves picked-up items into backpacks.
pub struct ItemCollectionSystem {}

/// The system that applies used items.
pub struct ItemUseSystem {}

/// The system that puts dropped items on the ground.
pub struct ItemDropSystem {}

// ---------------------------------------------------------------------------
// Picking up
// ---------------------------------------------------------------------------

/// Every picked-up item is alive; the ones the player picks up are items
/// with a name.
pub open spec fn pickup_ready(
    player: Entity,
    wants_pickup: &Storage<WantsToPickup>,
    items: &Storage<Item>,
    names: &Storage<Name>,
    entities: &Entities,
) -> bool {
    forall|k: int|
        #[trigger] wants_pickup@.contains_key(k) ==> {
            let p = wants_pickup@[k];
            &&& entities.alive(p.what)
            &&& p.who == player ==> items@.contains_key(p.what.id as int) && names@.contains_key(
                p.what.id as int,
            )
        }
}

/// The positions once the pickups of slots `0..k` are done: each picked-up
/// item leaves the ground.
pub open spec fn positions_after_pickups(
    wants_pickup: &Storage<WantsToPickup>,
    positions: Map<int, Position>,
    k: int,
) -> Map<int, Position>
    decreases k,
{
    if k <= 0 {
        positions
    } else {
        let before = positions_after_pickups(wants_pickup, positions, k - 1);
        if wants_pickup@.contains_key(k - 1) {
            before.remove(wants_pickup@[k - 1].what.id as int)
        } else {
            before
        }
    }
}

/// The slots of the items picked up by the pickups of slots `0..k`.
pub open spec fn picked_items(wants_pickup: &Storage<WantsToPickup>, k: int) -> Set<int> {
    Set::new(
        |i: int|
            exists|j: int|
                0 <= j < k && #[trigger] wants_pickup@.contains_key(j) && wants_pickup@[j].what.id
                    == i,
    )
}

/// Whether some pickup picks up the item of slot `e`.
pub fn picked_up(wants_pickup: &Storage<WantsToPickup>, e: usize) -> (r: bool)
    ensures
        r == picked_items(wants_pickup, wants_pickup.slots() as int).contains(e as int),
{
    let n = wants_pickup.len();
    for j in 0..n
        invariant
            n == wants_pickup.slots(),
            forall|i: int|
                0 <= i < j ==> !(#[trigger] wants_pickup@.contains_key(i) && wants_pickup@[i].what.id
                    == e),
    {
        if let Some(p) = wants_pickup.slot(j) {
            if p.what.id == e {
                assert(wants_pickup@.contains_key(j as int));
                return true;
            }
        }
    }
    false
}

/// Picking up takes exactly the picked-up items off the ground.
pub proof fn lemma_pickup_clears_ground(
    wants_pickup: &Storage<WantsToPickup>,
    positions: Map<int, Position>,
    k: int,
)
    requires
        0 <= k,
    ensures
        positions_after_pickups(wants_pickup, positions, k) == positions.remove_keys(
            picked_items(wants_pickup, k),
        ),
    decreases k,
{
    if k > 0 {
        lemma_pickup_clears_ground(wants_pickup, positions, k - 1);
        assert(positions_after_pickups(wants_pickup, positions, k) =~= positions.remove_keys(
            picked_items(wants_pickup, k),
        ));
    } else {
        assert(positions =~= positions.remove_keys(picked_items(wants_pickup, k)));
    }
}

/// The backpacks once the pickups of slots `0..k` are done: each picked-up
/// item goes into the backpack of who picked it up, at cell (0, 0).
pub open spec fn backpacks_after_pickups(
    wants_pickup: &Storage<WantsToPickup>,
    backpack: Map<int, BackpackOf>,
    k: int,
) -> Map<int, BackpackOf>
    decreases k,
{
    if k <= 0 {
        backpack
    } else {
        let before = backpacks_after_pickups(wants_pickup, backpack, k - 1);
        if wants_pickup@.contains_key(k - 1) {
            let p = wants_pickup@[k - 1];
            before.insert(p.what.id as int, BackpackOf { owner: p.who, x: 0, y: 0 })
        } else {
            before
        }
    }
}

/// The game log once the pickups of slots `0..k` are done: each pickup by
/// the player puts a message in front.
pub open spec fn log_after_pickups(
    player: Entity,
    wants_pickup: &Storage<WantsToPickup>,
    names: &Storage<Name>,
    log: Seq<Seq<char>>,
    k: int,
) -> Seq<Seq<char>>
    decreases k,
{
    if k <= 0 {
        log
    } else {
        let before = log_after_pickups(player, wants_pickup, names, log, k - 1);
        if wants_pickup@.contains_key(k - 1) && wants_pickup@[k - 1].who == player {
            before.insert(0, pick_up_text(names@[wants_pickup@[k - 1].what.id as int].name@))
        } else {
            before
        }
    }
}

impl ItemCollectionSystem {
    /// Carries out every intent to pick up, in slot order: the item leaves the
    /// ground and goes into the picker's backpack at cell (0, 0); a pickup by
    /// the player is logged. All intents to pick up are then removed.
    pub fn run(
        &mut self,
        player: Entity,
        gamelog: &mut GameLog,
        wants_pickup: &mut Storage<WantsToPickup>,
        items: &Storage<Item>,
        positions: &mut Storage<Position>,
        names: &Storage<Name>,
        backpack: &mut Storage<BackpackOf>,
        entities: &Entities,
    )
        requires
            pickup_ready(player, &*old(wants_pickup), items, names, entities),
        ensures
            final(wants_pickup)@ == Map::<int, WantsToPickup>::empty(),
            final(positions)@ == positions_after_pickups(
                &*old(wants_pickup),
                old(positions)@,
                old(wants_pickup).slots() as int,
            ),
            final(backpack)@ == backpacks_after_pickups(
                &*old(wants_pickup),
                old(backpack)@,
                old(wants_pickup).slots() as int,
            ),
            final(gamelog).lines() == log_after_pickups(
                player,
                &*old(wants_pickup),
                names,
                old(gamelog).lines(),
                old(wants_pickup).slots() as int,
            ),
    {
        let n = wants_pickup.len();
        for k in 0..n
            invariant
                n == old(wants_pickup).slots(),
                *wants_pickup == *old(wants_pickup),
                pickup_ready(player, &*old(wants_pickup), items, names, entities),
                positions@ == positions_after_pickups(&*old(wants_pickup), old(positions)@, k as int),
                backpack@ == backpacks_after_pickups(&*old(wants_pickup), old(backpack)@, k as int),
                gamelog.lines() == log_after_pickups(
                    player,
                    &*old(wants_pickup),
                    names,
                    old(gamelog).lines(),
                    k as int,
                ),
        {
            if let Some(pickup) = wants_pickup.slot(k) {
                let who = pickup.who;
                let what = pickup.what;
                let x: i32 = 0;
                let y: i32 = 0;
                if who == player {
                    let _shape = items.get(entities, what).unwrap().shape;
                    let name = names.get(entities, what).unwrap();
                    let ghost lines = gamelog.lines();
                    gamelog.entries.insert(0, pick_up(&name.name));
                    assert(gamelog.lines() =~= lines.insert(0, pick_up_text(name.name@)));
                }
                positions.remove(entities, what);
                let inserted = backpack.insert(entities, what, BackpackOf { owner: who, x, y });
                assert(inserted is Ok);
            }
        }
        wants_pickup.clear();
    }
}

// ---------------------------------------------------------------------------
// Using
// ---------------------------------------------------------------------------

/// The live entity of slot `k` wants to use an item and has stats.
pub open spec fn user(
    entities: &Entities,
    wants_use: &Storage<WantsToUse>,
    combat_stats: &Storage<CombatStats>,
    k: int,
) -> bool {
    &&& entities.alive_at(k)
    &&& wants_use@.contains_key(k)
    &&& combat_stats@.contains_key(k)
}

/// The user of slot `k` uses a live healing herb.
pub open spec fn eats_herb(
    entities: &Entities,
    wants_use: &Storage<WantsToUse>,
    moongrass: &Storage<Moongrass>,
    combat_stats: &Storage<CombatStats>,
    k: int,
) -> bool {
    &&& user(entities, wants_use, combat_stats, k)
    &&& entities.alive(wants_use@[k].item)
    &&& moongrass@.contains_key(wants_use@[k].item.id as int)
}

/// The hit points after healing by `heal`: never above `max_hp`.
pub open spec fn healed_hp(stats: CombatStats, heal: int) -> int {
    if stats.max_hp < stats.hp + heal {
        stats.max_hp as int
    } else {
        stats.hp + heal
    }
}

/// The herb eaten by the user of slot `k`.
pub open spec fn herb_of(wants_use: &Storage<WantsToUse>, moongrass: &Storage<Moongrass>, k: int) -> Moongrass {
    moongrass@[wants_use@[k].item.id as int]
}

/// Each herb's healing keeps its eater's hit points within an `i32`, and the
/// herbs the player eats have names.
pub open spec fn use_ready(
    player: Entity,
    entities: &Entities,
    wants_use: &Storage<WantsToUse>,
    names: &Storage<Name>,
    moongrass: &Storage<Moongrass>,
    combat_stats: &Storage<CombatStats>,
) -> bool {
    forall|k: int|
        #[trigger] eats_herb(entities, wants_use, moongrass, combat_stats, k) ==> {
            &&& i32::MIN <= combat_stats@[k].hp + herb_of(wants_use, moongrass, k).heal_amount
                <= i32::MAX
            &&& k == player.id ==> names@.contains_key(wants_use@[k].item.id as int)
        }
}

/// The stats of a herb eater after eating it.
pub open spec fn stats_after_use(
    entities: &Entities,
    wants_use: &Storage<WantsToUse>,
    moongrass: &Storage<Moongrass>,
    combat_stats: &Storage<CombatStats>,
    k: int,
) -> CombatStats {
    let s = combat_stats@[k];
    if eats_herb(entities, wants_use, moongrass, combat_stats, k) {
        CombatStats {
            hp: healed_hp(s, herb_of(wants_use, moongrass, k).heal_amount as int) as i32,
            ..s
        }
    } else {
        s
    }
}

/// The herb of slot `i` is eaten by some user.
pub open spec fn herb_eaten(
    entities: &Entities,
    wants_use: &Storage<WantsToUse>,
    moongrass: &Storage<Moongrass>,
    combat_stats: &Storage<CombatStats>,
    i: int,
) -> bool {
    exists|k: int|
        #[trigger] eats_herb(entities, wants_use, moongrass, combat_stats, k)
            && wants_use@[k].item.id == i
}

/// The game log once the users of slots `0..k` are done: each herb the
/// player eats puts a message in front.
pub open spec fn log_after_use(
    player: Entity,
    entities: &Entities,
    wants_use: &Storage<WantsToUse>,
    names: &Storage<Name>,
    moongrass: &Storage<Moongrass>,
    combat_stats: &Storage<CombatStats>,
    log: Seq<Seq<char>>,
    k: int,
) -> Seq<Seq<char>>
    decreases k,
{
    if k <= 0 {
        log
    } else {
        let before = log_after_use(
            player,
            entities,
            wants_use,
            names,
            moongrass,
            combat_stats,
            log,
            k - 1,
        );
        if eats_herb(entities, wants_use, moongrass, combat_stats, k - 1) && k - 1 == player.id {
            let item = wants_use@[k - 1].item.id as int;
            before.insert(
                0,
                invigorates_text(
                    names@[item].name@,
                    herb_of(wants_use, moongrass, k - 1).heal_amount as int,
                ),
            )
        } else {
            before
        }
    }
}

impl ItemUseSystem {
    /// Every live entity with stats that uses a live healing herb, in slot
    /// order, heals by the herb's amount up to its maximum hit points, and the
    /// herb is deleted (it leaves at the next maintain); the player's use is
    /// logged. Other uses do nothing. All intents to use are then removed.
    pub fn run(
        &mut self,
        player: Entity,
        gamelog: &mut GameLog,
        entities: &mut Entities,
        wants_use: &mut Storage<WantsToUse>,
        names: &Storage<Name>,
        moongrass: &Storage<Moongrass>,
        combat_stats: &mut Storage<CombatStats>,
    )
        requires
            use_ready(player, &*old(entities), &*old(wants_use), names, moongrass, &*old(combat_stats)),
        ensures
            final(wants_use)@ == Map::<int, WantsToUse>::empty(),
            final(combat_stats)@.dom() == old(combat_stats)@.dom(),
            forall|k: int|
                #[trigger] final(combat_stats)@.contains_key(k) ==> final(combat_stats)@[k]
                    == stats_after_use(&*old(entities), &*old(wants_use), moongrass, &*old(combat_stats), k),
            final(entities)@.len() == old(entities)@.len(),
            forall|i: int|
                0 <= i < old(entities)@.len() ==> #[trigger] final(entities)@[i] == (if herb_eaten(
                    &*old(entities),
                    &*old(wants_use),
                    moongrass,
                    &*old(combat_stats),
                    i,
                ) {
                    EntitySlot { alive: true, killed: true }
                } else {
                    old(entities)@[i]
                }),
            final(gamelog).lines() == log_after_use(
                player,
                &*old(entities),
                &*old(wants_use),
                names,
                moongrass,
                &*old(combat_stats),
                old(gamelog).lines(),
                old(entities)@.len() as int,
            ),
    {
        let ghost ents = *old(entities);
        let ghost stats0 = *old(combat_stats);
        let n = entities.len();
        for k in 0..n
            invariant
                n == ents@.len(),
                ents == *old(entities),
                stats0 == *old(combat_stats),
                *wants_use == *old(wants_use),
                use_ready(player, &ents, &*old(wants_use), names, moongrass, &stats0),
                entities@.len() == n,
                forall|i: int| 0 <= i < n ==> #[trigger] entities@[i].alive == ents@[i].alive,
                forall|i: int|
                    0 <= i < n ==> #[trigger] entities@[i] == (if exists|j: int|
                        0 <= j < k && #[trigger] eats_herb(&ents, &*old(wants_use), moongrass, &stats0, j)
                            && wants_use@[j].item.id == i {
                        EntitySlot { alive: true, killed: true }
                    } else {
                        ents@[i]
                    }),
                combat_stats@.dom() == stats0@.dom(),
                forall|j: int|
                    #[trigger] combat_stats@.contains_key(j) ==> combat_stats@[j] == (if j < k {
                        stats_after_use(&ents, &*old(wants_use), moongrass, &stats0, j)
                    } else {
                        stats0@[j]
                    }),
                gamelog.lines() == log_after_use(
                    player,
                    &ents,
                    &*old(wants_use),
                    names,
                    moongrass,
                    &stats0,
                    old(gamelog).lines(),
                    k as int,
                ),
        {
            let ghost before = entities@;
            let ghost lines = gamelog.lines();
            let e = entities.entity(k);
            if entities.is_alive(e) {
                if let Some(usable) = wants_use.get(entities, e) {
                    if let Some(stats) = combat_stats.get(entities, e) {
                        let item = usable.item;
                        match moongrass.get(entities, item) {
                            None => {},
                            Some(herb) => {
                                assert(eats_herb(&ents, &*old(wants_use), moongrass, &stats0, k as int));
                                let heal = herb.heal_amount;
                                let raised = stats.hp + heal;
                                let hp = if stats.max_hp < raised { stats.max_hp } else { raised };
                                let updated = CombatStats { hp, ..*stats };
                                combat_stats.put(k, updated);
                                if e == player {
                                    let name = names.get(entities, item).unwrap();
                                    gamelog.entries.insert(0, invigorates(&name.name, heal));
                                    assert(gamelog.lines() =~= lines.insert(
                                        0,
                                        invigorates_text(name.name@, heal as int),
                                    ));
                                }
                                let deleted = entities.delete(item);
                                assert(deleted is Ok);
                            },
                        }
                    }
                }
            }
            proof {
                assert forall|i: int| 0 <= i < n implies #[trigger] entities@[i] == (if exists|j: int|
                    0 <= j < k + 1 && #[trigger] eats_herb(&ents, &*old(wants_use), moongrass, &stats0, j)
                        && wants_use@[j].item.id == i {
                    EntitySlot { alive: true, killed: true }
                } else {
                    ents@[i]
                }) by {
                    if exists|j: int|
                        0 <= j < k + 1 && #[trigger] eats_herb(&ents, &*old(wants_use), moongrass, &stats0, j)
                            && wants_use@[j].item.id == i {
                        let j = choose|j: int|
                            0 <= j < k + 1 && #[trigger] eats_herb(&ents, &*old(wants_use), moongrass, &stats0, j)
                                && wants_use@[j].item.id == i;
                        if j < k {
                            assert(before[i] == EntitySlot { alive: true, killed: true });
                        }
                    } else {
                        assert(!exists|j: int|
                            0 <= j < k && #[trigger] eats_herb(&ents, &*old(wants_use), moongrass, &stats0, j)
                                && wants_use@[j].item.id == i);
                    }
                }
            }
        }
        proof {
            assert forall|i: int| 0 <= i < n implies #[trigger] entities@[i] == (if herb_eaten(
                &ents,
                &*old(wants_use),
                moongrass,
                &stats0,
                i,
            ) {
                EntitySlot { alive: true, killed: true }
            } else {
                ents@[i]
            }) by {
                if herb_eaten(&ents, &*old(wants_use), moongrass, &stats0, i) {
                    let j = choose|j: int|
                        #[trigger] eats_herb(&ents, &*old(wants_use), moongrass, &stats0, j)
                            && wants_use@[j].item.id == i;
                    assert(0 <= j < n);
                }
            }
        }
        wants_use.clear();
    }
}

// ---------------------------------------------------------------------------
// Dropping
// ---------------------------------------------------------------------------

/// The live entity of slot `k` wants to drop an item.
pub open spec fn dropper(entities: &Entities, wants_drop: &Storage<WantsToDrop>, k: int) -> bool {
    entities.alive_at(k) && wants_drop@.contains_key(k)
}

/// The positions once the drops of slots `0..k` are done: each dropped item
/// lands where its dropper stands.
pub open spec fn positions_after_drops(
    entities: &Entities,
    wants_drop: &Storage<WantsToDrop>,
    positions: Map<int, Position>,
    k: int,
) -> Map<int, Position>
    decreases k,
{
    if k <= 0 {
        positions
    } else {
        let before = positions_after_drops(entities, wants_drop, positions, k - 1);
        if dropper(entities, wants_drop, k - 1) {
            before.insert(wants_drop@[k - 1].item.id as int, before[k - 1])
        } else {
            before
        }
    }
}

/// The backpacks once the drops are done: every dropped item leaves its
/// backpack.
pub open spec fn backpacks_after_drops(
    entities: &Entities,
    wants_drop: &Storage<WantsToDrop>,
    backpack: Map<int, BackpackOf>,
    k: int,
) -> Map<int, BackpackOf>
    decreases k,
{
    if k <= 0 {
        backpack
    } else {
        let before = backpacks_after_drops(entities, wants_drop, backpack, k - 1);
        if dropper(entities, wants_drop, k - 1) {
            before.remove(wants_drop@[k - 1].item.id as int)
        } else {
            before
        }
    }
}

/// The game log once the drops of slots `0..k` are done: each drop by the
/// player puts a message in front.
pub open spec fn log_after_drops(
    player: Entity,
    entities: &Entities,
    wants_drop: &Storage<WantsToDrop>,
    names: &Storage<Name>,
    log: Seq<Seq<char>>,
    k: int,
) -> Seq<Seq<char>>
    decreases k,
{
    if k <= 0 {
        log
    } else {
        let before = log_after_drops(player, entities, wants_drop, names, log, k - 1);
        if dropper(entities, wants_drop, k - 1) && k - 1 == player.id {
            before.insert(0, drop_text(names@[wants_drop@[k - 1].item.id as int].name@))
        } else {
            before
        }
    }
}

/// Every dropped item is alive, every dropper has a position when its turn
/// comes, and the items the player drops have names.
pub open spec fn drop_ready(
    player: Entity,
    entities: &Entities,
    wants_drop: &Storage<WantsToDrop>,
    names: &Storage<Name>,
    positions: Map<int, Position>,
) -> bool {
    forall|k: int|
        #[trigger] dropper(entities, wants_drop, k) ==> {
            &&& entities.alive(wants_drop@[k].item)
            &&& positions_after_drops(entities, wants_drop, positions, k).contains_key(k)
            &&& k == player.id ==> names@.contains_key(wants_drop@[k].item.id as int)
        }
}

impl ItemDropSystem {
    /// Every live entity with an intent to drop, in slot order, puts the item
    /// where it stands and takes it out of the backpack; the player's drop is
    /// logged. All intents to drop are then removed.
    pub fn run(
        &mut self,
        player: Entity,
        gamelog: &mut GameLog,
        entities: &Entities,
        wants_drop: &mut Storage<WantsToDrop>,
        names: &Storage<Name>,
        positions: &mut Storage<Position>,
        backpack: &mut Storage<BackpackOf>,
    )
        requires
            drop_ready(player, entities, &*old(wants_drop), names, old(positions)@),
        ensures
            final(wants_drop)@ == Map::<int, WantsToDrop>::empty(),
            final(positions)@ == positions_after_drops(
                entities,
                &*old(wants_drop),
                old(positions)@,
                entities@.len() as int,
            ),
            final(backpack)@ == backpacks_after_drops(
                entities,
                &*old(wants_drop),
                old(backpack)@,
                entities@.len() as int,
            ),
            final(gamelog).lines() == log_after_drops(
                player,
                entities,
                &*old(wants_drop),
                names,
                old(gamelog).lines(),
                entities@.len() as int,
            ),
    {
        let n = entities.len();
        for k in 0..n
            invariant
                n == entities@.len(),
                *wants_drop == *old(wants_drop),
                drop_ready(player, entities, &*old(wants_drop), names, old(positions)@),
                positions@ == positions_after_drops(
                    entities,
                    &*old(wants_drop),
                    old(positions)@,
                    k as int,
                ),
                backpack@ == backpacks_after_drops(
                    entities,
                    &*old(wants_drop),
                    old(backpack)@,
                    k as int,
                ),
                gamelog.lines() == log_after_drops(
                    player,
                    entities,
                    &*old(wants_drop),
                    names,
                    old(gamelog).lines(),
                    k as int,
                ),
        {
            let e = entities.entity(k);
            if entities.is_alive(e) {
                if let Some(to_drop) = wants_drop.get(entities, e) {
                    assert(dropper(entities, &*old(wants_drop), k as int));
                    let item = to_drop.item;
                    let dropped_pos = positions.get(entities, e).unwrap();
                    let dropper_pos = Position { x: dropped_pos.x, y: dropped_pos.y };
                    let inserted = positions.insert(entities, item, dropper_pos);
                    assert(inserted is Ok);
                    backpack.remove(entities, item);
                    if e == player {
                        let ghost lines = gamelog.lines();
                        let name = names.get(entities, item).unwrap();
                        gamelog.entries.insert(0, drop_message(&name.name));
                        assert(gamelog.lines() =~= lines.insert(0, drop_text(name.name@)));
                    }
                }
            }
        }
        wants_drop.clear();
    }
}

} // verus!

verus! {

/// The drop system reads entities only through which slots are alive, so two
/// sets of entities with the same live slots give the same drops.
pub proof fn lemma_drops_follow_liveness(
    e1: &Entities,
    e2: &Entities,
    player: Entity,
    wants_drop: &Storage<WantsToDrop>,
    names: &Storage<Name>,
    positions: Map<int, Position>,
    backpack: Map<int, BackpackOf>,
    log: Seq<Seq<char>>,
    k: int,
)
    requires
        e1@.len() == e2@.len(),
        forall|i: int| 0 <= i < e1@.len() ==> #[trigger] e1@[i].alive == e2@[i].alive,
    ensures
        positions_after_drops(e1, wants_drop, positions, k) == positions_after_drops(
            e2,
            wants_drop,
            positions,
            k,
        ),
        backpacks_after_drops(e1, wants_drop, backpack, k) == backpacks_after_drops(
            e2,
            wants_drop,
            backpack,
            k,
        ),
        log_after_drops(player, e1, wants_drop, names, log, k) == log_after_drops(
            player,
            e2,
            wants_drop,
            names,
            log,
            k,
        ),
    decreases k,
{
    if k > 0 {
        lemma_drops_follow_liveness(e1, e2, player, wants_drop, names, positions, backpack, log, k - 1);
        assert(dropper(e1, wants_drop, k - 1) == dropper(e2, wants_drop, k - 1));
    }
}

/// Readiness for dropping depends on entities only through which slots are
/// alive.
pub proof fn lemma_drop_ready_follows_liveness(
    e1: &Entities,
    e2: &Entities,
    player: Entity,
    wants_drop: &Storage<WantsToDrop>,
    names: &Storage<Name>,
    positions: Map<int, Position>,
)
    requires
        e1@.len() == e2@.len(),
        forall|i: int| 0 <= i < e1@.len() ==> #[trigger] e1@[i].alive == e2@[i].alive,
        drop_ready(player, e1, wants_drop, names, positions),
    ensures
        drop_ready(player, e2, wants_drop, names, positions),
{
    assert forall|k: int| #[trigger] dropper(e2, wants_drop, k) implies {
        &&& e2.alive(wants_drop@[k].item)
        &&& positions_after_drops(e2, wants_drop, positions, k).contains_key(k)
        &&& k == player.id ==> names@.contains_key(wants_drop@[k].item.id as int)
    } by {
        assert(dropper(e1, wants_drop, k));
        lemma_drops_follow_liveness(e1, e2, player, wants_drop, names, positions, Map::empty(), Seq::empty(), k);
    }
}

} // verus!

verus! {

/// The slot `e` has a position once the drops of slots `0..k` are done
/// exactly when it had one before or an earlier dropper dropped it.
pub proof fn lemma_dropped_positions(
    entities: &Entities,
    wants_drop: &Storage<WantsToDrop>,
    positions: Map<int, Position>,
    k: int,
    e: int,
)
    ensures
        positions_after_drops(entities, wants_drop, positions, k).contains_key(e) <==> (
        positions.contains_key(e) || exists|j: int|
            0 <= j < k && #[trigger] dropper(entities, wants_drop, j) && wants_drop@[j].item.id == e),
    decreases k,
{
    if k > 0 {
        lemma_dropped_positions(entities, wants_drop, positions, k - 1, e);
        if exists|j: int|
            0 <= j < k && #[trigger] dropper(entities, wants_drop, j) && wants_drop@[j].item.id == e {
            let j = choose|j: int|
                0 <= j < k && #[trigger] dropper(entities, wants_drop, j) && wants_drop@[j].item.id == e;
            if j < k - 1 {
                assert(dropper(entities, wants_drop, j));
            }
        }
    }
}

impl ItemCollectionSystem {
    /// Whether `run` may be called on these storages.
    pub fn can_run(
        &self,
        player: Entity,
        wants_pickup: &Storage<WantsToPickup>,
        items: &Storage<Item>,
        names: &Storage<Name>,
        entities: &Entities,
    ) -> (r: bool)
        ensures
            r == pickup_ready(player, wants_pickup, items, names, entities),
    {
        let n = wants_pickup.len();
        proof {
            wants_pickup.lemma_keys_below_slots();
        }
        for k in 0..n
            invariant
                n == wants_pickup.slots(),
                forall|j: int|
                    0 <= j < k && #[trigger] wants_pickup@.contains_key(j) ==> {
                        let p = wants_pickup@[j];
                        &&& entities.alive(p.what)
                        &&& p.who == player ==> items@.contains_key(p.what.id as int)
                            && names@.contains_key(p.what.id as int)
                    },
        {
            if let Some(p) = wants_pickup.slot(k) {
                if !entities.is_alive(p.what) {
                    return false;
                }
                if p.who == player {
                    if items.slot(p.what.id).is_none() || names.slot(p.what.id).is_none() {
                        return false;
                    }
                }
            }
        }
        true
    }
}

impl ItemUseSystem {
    /// Whether `run` may be called on these storages.
    pub fn can_run(
        &self,
        player: Entity,
        entities: &Entities,
        wants_use: &Storage<WantsToUse>,
        names: &Storage<Name>,
        moongrass: &Storage<Moongrass>,
        combat_stats: &Storage<CombatStats>,
    ) -> (r: bool)
        ensures
            r == use_ready(player, entities, wants_use, names, moongrass, combat_stats),
    {
        let n = entities.len();
        for k in 0..n
            invariant
                n == entities@.len(),
                forall|j: int|
                    0 <= j < k && #[trigger] eats_herb(entities, wants_use, moongrass, combat_stats, j)
                        ==> {
                        &&& i32::MIN <= combat_stats@[j].hp + herb_of(wants_use, moongrass, j).heal_amount
                            <= i32::MAX
                        &&& j == player.id ==> names@.contains_key(wants_use@[j].item.id as int)
                    },
        {
            let e = entities.entity(k);
            if entities.is_alive(e) {
                if let Some(u) = wants_use.get(entities, e) {
                    if let Some(stats) = combat_stats.get(entities, e) {
                        if let Some(herb) = moongrass.get(entities, u.item) {
                            assert(eats_herb(entities, wants_use, moongrass, combat_stats, k as int));
                            let raised = stats.hp as i64 + herb.heal_amount as i64;
                            if raised < i32::MIN as i64 || raised > i32::MAX as i64 {
                                return false;
                            }
                            if e == player && names.slot(u.item.id).is_none() {
                                return false;
                            }
                        }
                    }
                }
            }
        }
        assert forall|j: int| #[trigger] eats_herb(entities, wants_use, moongrass, combat_stats, j) implies {
            &&& i32::MIN <= combat_stats@[j].hp + herb_of(wants_use, moongrass, j).heal_amount <= i32::MAX
            &&& j == player.id ==> names@.contains_key(wants_use@[j].item.id as int)
        } by {
            assert(0 <= j < n);
        }
        true
    }
}

/// Whether a dropper among slots `0..k` drops the item of slot `e`.
pub fn dropped_before(entities: &Entities, wants_drop: &Storage<WantsToDrop>, k: usize, e: usize) -> (r:
    bool)
    ensures
        r == exists|j: int|
            0 <= j < k && #[trigger] dropper(entities, wants_drop, j) && wants_drop@[j].item.id == e,
{
    for j in 0..k
        invariant
            forall|i: int|
                0 <= i < j ==> !(#[trigger] dropper(entities, wants_drop, i) && wants_drop@[i].item.id
                    == e),
    {
        let d = entities.entity(j);
        if entities.is_alive(d) {
            if let Some(w) = wants_drop.get(entities, d) {
                if w.item.id == e {
                    assert(dropper(entities, wants_drop, j as int));
                    return true;
                }
            }
        }
    }
    false
}

impl ItemDropSystem {
    /// Whether `run` may be called once the pickups of `wants_pickup` are
    /// done on `positions` (as `State::run_systems` does).
    pub fn can_run_after_pickups(
        &self,
        player: Entity,
        entities: &Entities,
        wants_drop: &Storage<WantsToDrop>,
        names: &Storage<Name>,
        positions: &Storage<Position>,
        wants_pickup: &Storage<WantsToPickup>,
    ) -> (r: bool)
        ensures
            r == drop_ready(
                player,
                entities,
                wants_drop,
                names,
                positions_after_pickups(wants_pickup, positions@, wants_pickup.slots() as int),
            ),
    {
        let ghost ground = positions_after_pickups(wants_pickup, positions@, wants_pickup.slots() as int);
        proof {
            lemma_pickup_clears_ground(wants_pickup, positions@, wants_pickup.slots() as int);
        }
        let n = entities.len();
        for k in 0..n
            invariant
                n == entities@.len(),
                ground == positions_after_pickups(wants_pickup, positions@, wants_pickup.slots() as int),
                ground == positions@.remove_keys(picked_items(wants_pickup, wants_pickup.slots() as int)),
                forall|j: int|
                    0 <= j < k && #[trigger] dropper(entities, wants_drop, j) ==> {
                        &&& entities.alive(wants_drop@[j].item)
                        &&& positions_after_drops(entities, wants_drop, ground, j).contains_key(j)
                        &&& j == player.id ==> names@.contains_key(wants_drop@[j].item.id as int)
                    },
        {
            let e = entities.entity(k);
            if entities.is_alive(e) {
                if let Some(w) = wants_drop.get(entities, e) {
                    assert(dropper(entities, wants_drop, k as int));
                    proof {
                        lemma_dropped_positions(entities, wants_drop, ground, k as int, k as int);
                    }
                    if !entities.is_alive(w.item) {
                        return false;
                    }
                    let on_ground = positions.slot(k).is_some() && !picked_up(wants_pickup, k);
                    if !on_ground && !dropped_before(entities, wants_drop, k, k) {
                        return false;
                    }
                    if e == player && names.slot(w.item.id).is_none() {
                        return false;
                    }
                }
            }
        }
        assert forall|j: int| #[trigger] dropper(entities, wants_drop, j) implies {
            &&& entities.alive(wants_drop@[j].item)
            &&& positions_after_drops(entities, wants_drop, ground, j).contains_key(j)
            &&& j == player.id ==> names@.contains_key(wants_drop@[j].item.id as int)
        } by {
            assert(0 <= j < n);
        }
        true
    }

    /// Whether `run` may be called on these storages.
    pub fn can_run(
        &self,
        player: Entity,
        entities: &Entities,
        wants_drop: &Storage<WantsToDrop>,
        names: &Storage<Name>,
        positions: &Storage<Position>,
    ) -> (r: bool)
        ensures
            r == drop_ready(player, entities, wants_drop, names, positions@),
    {
        let n = entities.len();
        for k in 0..n
            invariant
                n == entities@.len(),
                forall|j: int|
                    0 <= j < k && #[trigger] dropper(entities, wants_drop, j) ==> {
                        &&& entities.alive(wants_drop@[j].item)
                        &&& positions_after_drops(entities, wants_drop, positions@, j).contains_key(j)
                        &&& j == player.id ==> names@.contains_key(wants_drop@[j].item.id as int)
                    },
        {
            let e = entities.entity(k);
            if entities.is_alive(e) {
                if let Some(w) = wants_drop.get(entities, e) {
                    assert(dropper(entities, wants_drop, k as int));
                    proof {
                        lemma_dropped_positions(entities, wants_drop, positions@, k as int, k as int);
                    }
                    if !entities.is_alive(w.item) {
                        return false;
                    }
                    if positions.slot(k).is_none() && !dropped_before(entities, wants_drop, k, k) {
                        return false;
                    }
                    if e == player && names.slot(w.item.id).is_none() {
                        return false;
                    }
                }
            }
        }
        assert forall|j: int| #[trigger] dropper(entities, wants_drop, j) implies {
            &&& entities.alive(wants_drop@[j].item)
            &&& positions_after_drops(entities, wants_drop, positions@, j).contains_key(j)
            &&& j == player.id ==> names@.contains_key(wants_drop@[j].item.id as int)
        } by {
            assert(0 <= j < n);
        }
        true
    }
}

} // verus!
