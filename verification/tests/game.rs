use rustrl::components::{
    BackpackOf, Blocker, CombatStats, Item, Mob, Moongrass, Name, Player, Point, Position, Shape,
    SufferDamage, Viewshed, WantsToDrop, WantsToMelee, WantsToPickup, WantsToUse,
};
use rustrl::ecs::{Entities, Entity, Storage, WrongGeneration};
use rustrl::inventory_system::{ItemCollectionSystem, ItemDropSystem, ItemUseSystem};
use rustrl::map::{GameMap, TileType};
use rustrl::map_indexing_system::MapIndexingSystem;
use rustrl::melee_combat_system::MeleeCombatSystem;
use rustrl::mob_ai_system::{MobAI, MobPlan};
use rustrl::player::{can_move_player, player_input, try_move_player, Key};
use rustrl::render::draw_order;
use rustrl::state::{MenuResult, State, TickStep};
use rustrl::world::{RunState, World};

/// A map with walls around the border and floor inside.
fn walled_map(width: i32, height: i32) -> GameMap {
    let mut tiles = Vec::new();
    for y in 0..height {
        for x in 0..width {
            if x == 0 || y == 0 || x == width - 1 || y == height - 1 {
                tiles.push(TileType::Wall);
            } else {
                tiles.push(TileType::Floor);
            }
        }
    }
    GameMap::new(width, height, tiles)
}

fn name(s: &str) -> Name {
    Name { name: s.to_string() }
}

fn stats(hp: i32, attack: i32, defense: i32) -> CombatStats {
    CombatStats { max_hp: 30, hp, attack, defense }
}

/// A world with a player at (5, 5) and the map indexed.
fn world_with_player() -> State {
    let mut w = World::new(walled_map(80, 50));
    let p = w.entities.create();
    w.players.insert(&w.entities, p, Player {}).unwrap();
    w.positions.insert(&w.entities, p, Position { x: 5, y: 5 }).unwrap();
    w.viewsheds
        .insert(&w.entities, p, Viewshed { visible_tiles: Vec::new(), range: 8, dirty: false })
        .unwrap();
    w.names.insert(&w.entities, p, name("Player")).unwrap();
    w.combat_stats.insert(&w.entities, p, stats(30, 5, 2)).unwrap();
    w.blockers.insert(&w.entities, p, Blocker {}).unwrap();
    w.player_entity = p;
    w.player_pos = Point { x: 5, y: 5 };
    State { ecs: w }
}

fn index(gs: &mut State) {
    let w = &mut gs.ecs;
    let mut idx = MapIndexingSystem {};
    assert!(idx.can_run(&w.map, &w.positions, &w.entities));
    idx.run(&mut w.map, &w.positions, &w.blockers, &w.entities);
}

#[test]
fn xy_idx_is_row_major() {
    let map = walled_map(80, 50);
    assert_eq!(map.xy_idx(0, 0), 0);
    assert_eq!(map.xy_idx(3, 2), 163);
    assert_eq!(map.xy_idx(79, 49), 3999);
}

#[test]
fn new_map_is_well_formed_and_empty() {
    let map = walled_map(4, 3);
    assert!(map.is_wf());
    assert_eq!(map.tiles.len(), 12);
    assert!(map.blocked.iter().all(|b| !b));
    assert!(map.tile_content.iter().all(|c| c.is_empty()));
    let broken = GameMap { width: 5, ..walled_map(4, 3) };
    assert!(!broken.is_wf());
}

#[test]
fn indexing_blocks_walls_and_blockers_and_lists_occupants() {
    let mut gs = world_with_player();
    let w = &mut gs.ecs;
    let herb = w.entities.create();
    w.positions.insert(&w.entities, herb, Position { x: 5, y: 5 }).unwrap();
    let rock = w.entities.create();
    w.positions.insert(&w.entities, rock, Position { x: 7, y: 3 }).unwrap();
    index(&mut gs);
    let w = &gs.ecs;
    let here = w.map.xy_idx(5, 5);
    assert_eq!(w.map.tile_content[here], vec![Entity { id: 0 }, herb]);
    assert!(w.map.blocked[here]);
    let rock_tile = w.map.xy_idx(7, 3);
    assert_eq!(w.map.tile_content[rock_tile], vec![rock]);
    assert!(!w.map.blocked[rock_tile]);
    assert!(w.map.blocked[w.map.xy_idx(0, 0)]);
    assert!(!w.map.blocked[w.map.xy_idx(1, 1)]);
}

#[test]
fn indexing_refuses_entities_off_the_map() {
    let mut gs = world_with_player();
    let w = &mut gs.ecs;
    let lost = w.entities.create();
    w.positions.insert(&w.entities, lost, Position { x: 80, y: 3 }).unwrap();
    let idx = MapIndexingSystem {};
    assert!(!idx.can_run(&w.map, &w.positions, &w.entities));
}

#[test]
fn indexing_forgets_the_previous_index() {
    let mut gs = world_with_player();
    index(&mut gs);
    gs.ecs.positions.insert(&gs.ecs.entities, Entity { id: 0 }, Position { x: 6, y: 5 }).unwrap();
    index(&mut gs);
    let w = &gs.ecs;
    assert!(w.map.tile_content[w.map.xy_idx(5, 5)].is_empty());
    assert!(!w.map.blocked[w.map.xy_idx(5, 5)]);
    assert_eq!(w.map.tile_content[w.map.xy_idx(6, 5)], vec![Entity { id: 0 }]);
}

fn fighters() -> (Entities, Storage<Name>, Storage<CombatStats>, Entity, Entity) {
    let mut entities = Entities::new();
    let mut names = Storage::new();
    let mut cs = Storage::new();
    let a = entities.create();
    let b = entities.create();
    names.insert(&entities, a, name("Orc")).unwrap();
    names.insert(&entities, b, name("Player")).unwrap();
    cs.insert(&entities, a, stats(10, 7, 1)).unwrap();
    cs.insert(&entities, b, stats(30, 5, 2)).unwrap();
    (entities, names, cs, a, b)
}

#[test]
fn melee_deals_attack_less_defense() {
    let (entities, names, cs, orc, player) = fighters();
    let mut wants = Storage::new();
    wants.insert(&entities, orc, WantsToMelee { target: player }).unwrap();
    let mut damage = Storage::new();
    let mut mel = MeleeCombatSystem {};
    assert!(mel.can_run(&entities, &wants, &names, &cs));
    let log = mel.run(&entities, &mut wants, &names, &cs, &mut damage);
    assert_eq!(log, vec!["Orc hits Player, for 5 hp".to_string()]);
    assert_eq!(damage.get(&entities, player), Some(&SufferDamage { amount: 5 }));
    assert!(damage.get(&entities, orc).is_none());
    assert!(wants.get(&entities, orc).is_none());
}

#[test]
fn melee_without_harm_writes_a_line_and_no_damage() {
    let (entities, names, mut cs, orc, player) = fighters();
    cs.insert(&entities, orc, stats(10, 2, 1)).unwrap();
    let mut wants = Storage::new();
    wants.insert(&entities, orc, WantsToMelee { target: player }).unwrap();
    let mut damage = Storage::new();
    let mut mel = MeleeCombatSystem {};
    let log = mel.run(&entities, &mut wants, &names, &cs, &mut damage);
    assert_eq!(log, vec!["Orc is unable to hurt Player".to_string()]);
    assert!(damage.get(&entities, player).is_none());
}

#[test]
fn melee_needs_both_standing() {
    let (entities, names, mut cs, orc, player) = fighters();
    cs.insert(&entities, player, stats(0, 5, 2)).unwrap();
    let mut wants = Storage::new();
    wants.insert(&entities, orc, WantsToMelee { target: player }).unwrap();
    wants.insert(&entities, player, WantsToMelee { target: orc }).unwrap();
    let mut damage = Storage::new();
    let mut mel = MeleeCombatSystem {};
    let log = mel.run(&entities, &mut wants, &names, &cs, &mut damage);
    assert!(log.is_empty());
    assert!(damage.get(&entities, orc).is_none());
    assert!(damage.get(&entities, player).is_none());
    assert!(wants.get(&entities, player).is_none());
}

#[test]
fn melee_later_blow_replaces_earlier_one() {
    let (mut entities, mut names, mut cs, orc, player) = fighters();
    let goblin = entities.create();
    names.insert(&entities, goblin, name("Goblin")).unwrap();
    cs.insert(&entities, goblin, stats(8, 4, 0)).unwrap();
    let mut wants = Storage::new();
    wants.insert(&entities, orc, WantsToMelee { target: player }).unwrap();
    wants.insert(&entities, goblin, WantsToMelee { target: player }).unwrap();
    let mut damage = Storage::new();
    let mut mel = MeleeCombatSystem {};
    let log = mel.run(&entities, &mut wants, &names, &cs, &mut damage);
    assert_eq!(log.len(), 2);
    assert_eq!(log[1], "Goblin hits Player, for 2 hp");
    assert_eq!(damage.get(&entities, player), Some(&SufferDamage { amount: 2 }));
}

#[test]
fn melee_refuses_a_target_without_stats() {
    let (mut entities, names, cs, orc, _player) = fighters();
    let ghost = entities.create();
    let mut wants = Storage::new();
    wants.insert(&entities, orc, WantsToMelee { target: ghost }).unwrap();
    let mel = MeleeCombatSystem {};
    assert!(!mel.can_run(&entities, &wants, &names, &cs));
}

/// A world with the player and a healing herb lying at (6, 5).
fn world_with_herb(heal: i32) -> (State, Entity) {
    let mut gs = world_with_player();
    let w = &mut gs.ecs;
    let herb = w.entities.create();
    w.positions.insert(&w.entities, herb, Position { x: 6, y: 5 }).unwrap();
    w.names.insert(&w.entities, herb, name("Moongrass")).unwrap();
    w.items.insert(&w.entities, herb, Item { shape: Shape::One, image: '"' }).unwrap();
    w.moongrass.insert(&w.entities, herb, Moongrass { heal_amount: heal }).unwrap();
    (gs, herb)
}

fn pick_up(gs: &mut State) {
    let w = &mut gs.ecs;
    let mut pck = ItemCollectionSystem {};
    assert!(pck.can_run(w.player_entity, &w.wants_pickup, &w.items, &w.names, &w.entities));
    pck.run(
        w.player_entity,
        &mut w.gamelog,
        &mut w.wants_pickup,
        &w.items,
        &mut w.positions,
        &w.names,
        &mut w.backpacks,
        &w.entities,
    );
}

fn drop_items(gs: &mut State) {
    let w = &mut gs.ecs;
    let mut drp = ItemDropSystem {};
    assert!(drp.can_run(w.player_entity, &w.entities, &w.wants_drop, &w.names, &w.positions));
    drp.run(
        w.player_entity,
        &mut w.gamelog,
        &w.entities,
        &mut w.wants_drop,
        &w.names,
        &mut w.positions,
        &mut w.backpacks,
    );
}

fn use_items(gs: &mut State) {
    let w = &mut gs.ecs;
    let mut itm = ItemUseSystem {};
    assert!(itm.can_run(
        w.player_entity,
        &w.entities,
        &w.wants_use,
        &w.names,
        &w.moongrass,
        &w.combat_stats
    ));
    itm.run(
        w.player_entity,
        &mut w.gamelog,
        &mut w.entities,
        &mut w.wants_use,
        &w.names,
        &w.moongrass,
        &mut w.combat_stats,
    );
}

#[test]
fn pickup_moves_item_into_backpack() {
    let (mut gs, herb) = world_with_herb(5);
    let p = gs.ecs.player_entity;
    gs.ecs.wants_pickup.insert(&gs.ecs.entities, p, WantsToPickup { who: p, what: herb }).unwrap();
    pick_up(&mut gs);
    let w = &gs.ecs;
    assert!(w.positions.get(&w.entities, herb).is_none());
    assert_eq!(w.backpacks.get(&w.entities, herb), Some(&BackpackOf { owner: p, x: 0, y: 0 }));
    assert_eq!(w.gamelog.entries, vec!["You pick up the Moongrass.".to_string()]);
    assert!(w.wants_pickup.get(&w.entities, p).is_none());
}

#[test]
fn pickup_by_a_monster_is_not_logged() {
    let (mut gs, herb) = world_with_herb(5);
    let w = &mut gs.ecs;
    let orc = w.entities.create();
    w.wants_pickup.insert(&w.entities, orc, WantsToPickup { who: orc, what: herb }).unwrap();
    pick_up(&mut gs);
    let w = &gs.ecs;
    assert_eq!(w.backpacks.get(&w.entities, herb), Some(&BackpackOf { owner: orc, x: 0, y: 0 }));
    assert!(w.gamelog.entries.is_empty());
}

#[test]
fn pickup_refuses_a_nameless_item_for_the_player() {
    let (mut gs, _herb) = world_with_herb(5);
    let w = &mut gs.ecs;
    let thing = w.entities.create();
    let p = w.player_entity;
    w.wants_pickup.insert(&w.entities, p, WantsToPickup { who: p, what: thing }).unwrap();
    let pck = ItemCollectionSystem {};
    assert!(!pck.can_run(p, &w.wants_pickup, &w.items, &w.names, &w.entities));
}

#[test]
fn using_a_herb_heals_up_to_the_maximum_and_deletes_it() {
    let (mut gs, herb) = world_with_herb(5);
    let p = gs.ecs.player_entity;
    gs.ecs.combat_stats.insert(&gs.ecs.entities, p, stats(28, 5, 2)).unwrap();
    gs.ecs.wants_use.insert(&gs.ecs.entities, p, WantsToUse { item: herb }).unwrap();
    use_items(&mut gs);
    let w = &mut gs.ecs;
    assert_eq!(w.combat_stats.get(&w.entities, p).unwrap().hp, 30);
    assert_eq!(
        w.gamelog.entries,
        vec!["The Moongrass invigorates you, healing 5 health.".to_string()]
    );
    assert!(w.entities.is_killed(herb));
    assert!(w.entities.is_alive(herb));
    w.maintain();
    assert!(!w.entities.is_alive(herb));
    assert!(w.moongrass.slot(herb.id).is_none());
    assert!(w.names.slot(herb.id).is_none());
    assert!(w.entities.is_alive(p));
}

#[test]
fn using_a_herb_below_the_maximum_adds_its_amount() {
    let (mut gs, herb) = world_with_herb(5);
    let p = gs.ecs.player_entity;
    gs.ecs.combat_stats.insert(&gs.ecs.entities, p, stats(10, 5, 2)).unwrap();
    gs.ecs.wants_use.insert(&gs.ecs.entities, p, WantsToUse { item: herb }).unwrap();
    use_items(&mut gs);
    assert_eq!(gs.ecs.combat_stats.get(&gs.ecs.entities, p).unwrap().hp, 15);
}

#[test]
fn using_a_plain_item_does_nothing() {
    let (mut gs, _herb) = world_with_herb(5);
    let w = &mut gs.ecs;
    let stone = w.entities.create();
    w.items.insert(&w.entities, stone, Item { shape: Shape::Square, image: '*' }).unwrap();
    let p = w.player_entity;
    w.combat_stats.insert(&w.entities, p, stats(10, 5, 2)).unwrap();
    w.wants_use.insert(&w.entities, p, WantsToUse { item: stone }).unwrap();
    use_items(&mut gs);
    let w = &gs.ecs;
    assert_eq!(w.combat_stats.get(&w.entities, p).unwrap().hp, 10);
    assert!(!w.entities.is_killed(stone));
    assert!(w.gamelog.entries.is_empty());
    assert!(w.wants_use.get(&w.entities, p).is_none());
}

#[test]
fn healing_that_would_overflow_is_refused() {
    let (mut gs, herb) = world_with_herb(i32::MAX);
    let p = gs.ecs.player_entity;
    gs.ecs.wants_use.insert(&gs.ecs.entities, p, WantsToUse { item: herb }).unwrap();
    let w = &gs.ecs;
    let itm = ItemUseSystem {};
    assert!(!itm.can_run(p, &w.entities, &w.wants_use, &w.names, &w.moongrass, &w.combat_stats));
}

#[test]
fn drop_puts_item_where_the_dropper_stands() {
    let (mut gs, herb) = world_with_herb(5);
    let p = gs.ecs.player_entity;
    gs.ecs.wants_pickup.insert(&gs.ecs.entities, p, WantsToPickup { who: p, what: herb }).unwrap();
    pick_up(&mut gs);
    gs.ecs.wants_drop.insert(&gs.ecs.entities, p, WantsToDrop { item: herb }).unwrap();
    drop_items(&mut gs);
    let w = &gs.ecs;
    assert_eq!(w.positions.get(&w.entities, herb), Some(&Position { x: 5, y: 5 }));
    assert!(w.backpacks.get(&w.entities, herb).is_none());
    assert_eq!(
        w.gamelog.entries,
        vec!["You drop the Moongrass.".to_string(), "You pick up the Moongrass.".to_string()]
    );
    assert!(w.wants_drop.get(&w.entities, p).is_none());
}

#[test]
fn drop_needs_a_dropper_with_a_position() {
    let (mut gs, herb) = world_with_herb(5);
    let w = &mut gs.ecs;
    let orc = w.entities.create();
    w.wants_drop.insert(&w.entities, orc, WantsToDrop { item: herb }).unwrap();
    let drp = ItemDropSystem {};
    assert!(!drp.can_run(w.player_entity, &w.entities, &w.wants_drop, &w.names, &w.positions));
}

#[test]
fn deleting_twice_in_a_frame_is_allowed_but_not_after_maintain() {
    let mut entities = Entities::new();
    let e = entities.create();
    assert_eq!(entities.delete(e), Ok(()));
    assert_eq!(entities.delete(e), Ok(()));
    entities.merge();
    assert_eq!(entities.delete(e), Err(WrongGeneration { entity: e }));
    let mut s: Storage<Position> = Storage::new();
    assert_eq!(
        s.insert(&entities, e, Position { x: 1, y: 1 }),
        Err(WrongGeneration { entity: e })
    );
    assert!(s.remove(&entities, e).is_none());
}

#[test]
fn storage_insert_gives_back_the_replaced_component() {
    let mut entities = Entities::new();
    let e = entities.create();
    let mut s = Storage::new();
    assert_eq!(s.insert(&entities, e, SufferDamage { amount: 1 }), Ok(None));
    assert_eq!(
        s.insert(&entities, e, SufferDamage { amount: 2 }),
        Ok(Some(SufferDamage { amount: 1 }))
    );
    assert_eq!(s.remove(&entities, e), Some(SufferDamage { amount: 2 }));
    assert!(s.get(&entities, e).is_none());
}

#[test]
fn player_steps_onto_free_floor() {
    let mut gs = world_with_player();
    index(&mut gs);
    assert!(can_move_player(&gs.ecs, 1, 0));
    try_move_player(1, 0, &mut gs.ecs);
    let w = &gs.ecs;
    let p = w.player_entity;
    assert_eq!(w.positions.get(&w.entities, p), Some(&Position { x: 6, y: 5 }));
    assert_eq!(w.player_pos, Point { x: 6, y: 5 });
    assert!(w.viewsheds.get(&w.entities, p).unwrap().dirty);
}

#[test]
fn player_does_not_walk_into_walls() {
    let mut gs = world_with_player();
    gs.ecs.positions.insert(&gs.ecs.entities, Entity { id: 0 }, Position { x: 1, y: 1 }).unwrap();
    index(&mut gs);
    try_move_player(-1, 0, &mut gs.ecs);
    let w = &gs.ecs;
    assert_eq!(w.positions.get(&w.entities, w.player_entity), Some(&Position { x: 1, y: 1 }));
    assert!(!w.viewsheds.get(&w.entities, w.player_entity).unwrap().dirty);
}

#[test]
fn player_attacks_what_stands_in_the_way() {
    let mut gs = world_with_player();
    let w = &mut gs.ecs;
    let orc = w.entities.create();
    w.positions.insert(&w.entities, orc, Position { x: 5, y: 4 }).unwrap();
    w.combat_stats.insert(&w.entities, orc, stats(10, 3, 1)).unwrap();
    index(&mut gs);
    try_move_player(0, -1, &mut gs.ecs);
    let w = &gs.ecs;
    let p = w.player_entity;
    assert_eq!(w.wants_melee.get(&w.entities, p), Some(&WantsToMelee { target: orc }));
    assert_eq!(w.positions.get(&w.entities, p), Some(&Position { x: 5, y: 5 }));
}

#[test]
fn player_moves_are_clamped_to_the_screen() {
    let mut tiles = vec![TileType::Floor; 100 * 60];
    tiles[0] = TileType::Floor;
    let mut w = World::new(GameMap::new(100, 60, tiles));
    let p = w.entities.create();
    w.players.insert(&w.entities, p, Player {}).unwrap();
    w.positions.insert(&w.entities, p, Position { x: 79, y: 49 }).unwrap();
    w.viewsheds
        .insert(&w.entities, p, Viewshed { visible_tiles: Vec::new(), range: 8, dirty: false })
        .unwrap();
    w.player_entity = p;
    assert!(can_move_player(&w, 1, 1));
    try_move_player(1, 1, &mut w);
    assert_eq!(w.positions.get(&w.entities, p), Some(&Position { x: 79, y: 49 }));
    assert_eq!(w.player_pos, Point { x: 79, y: 49 });
}

#[test]
fn moving_off_the_map_is_refused() {
    let mut gs = world_with_player();
    gs.ecs.positions.insert(&gs.ecs.entities, Entity { id: 0 }, Position { x: 0, y: 5 }).unwrap();
    assert!(!can_move_player(&gs.ecs, -1, 0));
    assert!(can_move_player(&gs.ecs, 1, 0));
}

#[test]
fn input_keys_steer_the_player() {
    let mut gs = world_with_player();
    index(&mut gs);
    assert_eq!(player_input(&mut gs, None), RunState::AwaitInput);
    assert_eq!(player_input(&mut gs, Some(Key::Other)), RunState::AwaitInput);
    assert_eq!(gs.ecs.player_pos, Point { x: 5, y: 5 });
    assert_eq!(player_input(&mut gs, Some(Key::N)), RunState::PlayerTurn);
    assert_eq!(gs.ecs.player_pos, Point { x: 6, y: 6 });
    index(&mut gs);
    assert_eq!(player_input(&mut gs, Some(Key::Y)), RunState::PlayerTurn);
    assert_eq!(gs.ecs.player_pos, Point { x: 5, y: 5 });
    index(&mut gs);
    assert_eq!(player_input(&mut gs, Some(Key::H)), RunState::PlayerTurn);
    assert_eq!(gs.ecs.player_pos, Point { x: 4, y: 5 });
    index(&mut gs);
    assert_eq!(player_input(&mut gs, Some(Key::K)), RunState::PlayerTurn);
    assert_eq!(gs.ecs.player_pos, Point { x: 4, y: 4 });
}

#[test]
fn turn_machine_cycles_through_the_turns() {
    let mut gs = world_with_player();
    assert_eq!(gs.ecs.run_state, RunState::Init);
    let step = gs.tick(None, MenuResult::NoResponse, None);
    assert_eq!(step, TickStep { next: RunState::AwaitInput, run_systems: true });
    gs.end_tick(step);
    index(&mut gs);
    let step = gs.tick(None, MenuResult::NoResponse, None);
    assert_eq!(step, TickStep { next: RunState::AwaitInput, run_systems: false });
    assert!(gs.can_tick(Some(Key::L), MenuResult::NoResponse, None));
    let step = gs.tick(Some(Key::L), MenuResult::NoResponse, None);
    assert_eq!(step, TickStep { next: RunState::PlayerTurn, run_systems: false });
    gs.end_tick(step);
    let step = gs.tick(None, MenuResult::NoResponse, None);
    assert_eq!(step, TickStep { next: RunState::AITurn, run_systems: true });
    gs.end_tick(step);
    let step = gs.tick(None, MenuResult::NoResponse, None);
    assert_eq!(step, TickStep { next: RunState::AwaitInput, run_systems: true });
}

#[test]
fn inventory_menus_record_the_choice() {
    let (mut gs, herb) = world_with_herb(5);
    gs.ecs.run_state = RunState::InventoryUse;
    let step = gs.tick(None, MenuResult::NoResponse, None);
    assert_eq!(step.next, RunState::InventoryUse);
    assert!(!gs.can_tick(None, MenuResult::Selected, None));
    let step = gs.tick(None, MenuResult::Selected, Some(herb));
    assert_eq!(step, TickStep { next: RunState::PlayerTurn, run_systems: false });
    let p = gs.ecs.player_entity;
    assert_eq!(gs.ecs.wants_use.get(&gs.ecs.entities, p), Some(&WantsToUse { item: herb }));
    gs.ecs.run_state = RunState::InventoryDrop;
    let step = gs.tick(None, MenuResult::Selected, Some(herb));
    assert_eq!(step.next, RunState::PlayerTurn);
    assert_eq!(gs.ecs.wants_drop.get(&gs.ecs.entities, p), Some(&WantsToDrop { item: herb }));
    let step = gs.tick(None, MenuResult::Cancel, None);
    assert_eq!(step.next, RunState::AwaitInput);
    gs.ecs.run_state = RunState::ShowCharacter;
    assert_eq!(gs.tick(None, MenuResult::NoResponse, None).next, RunState::ShowCharacter);
    assert_eq!(gs.tick(None, MenuResult::Cancel, None).next, RunState::AwaitInput);
}

#[test]
fn run_systems_fights_uses_and_cleans_up() {
    let (mut gs, herb) = world_with_herb(5);
    let w = &mut gs.ecs;
    let p = w.player_entity;
    let orc = w.entities.create();
    w.positions.insert(&w.entities, orc, Position { x: 5, y: 4 }).unwrap();
    w.names.insert(&w.entities, orc, name("Orc")).unwrap();
    w.combat_stats.insert(&w.entities, orc, stats(10, 3, 1)).unwrap();
    w.wants_melee.insert(&w.entities, p, WantsToMelee { target: orc }).unwrap();
    w.combat_stats.insert(&w.entities, p, stats(20, 5, 2)).unwrap();
    w.wants_use.insert(&w.entities, p, WantsToUse { item: herb }).unwrap();
    assert!(gs.can_run_systems());
    let console = gs.run_systems();
    assert_eq!(console, vec!["Player hits Orc, for 4 hp".to_string()]);
    let w = &gs.ecs;
    assert_eq!(w.suffer_damage.get(&w.entities, orc), Some(&SufferDamage { amount: 4 }));
    assert_eq!(w.combat_stats.get(&w.entities, p).unwrap().hp, 25);
    assert!(!w.entities.is_alive(herb));
    assert!(w.positions.slot(herb.id).is_none());
    assert!(w.map.blocked[w.map.xy_idx(5, 5)]);
    assert_eq!(w.map.tile_content[w.map.xy_idx(6, 5)], vec![herb]);
}

fn mob_world() -> (State, Entity) {
    let mut gs = world_with_player();
    let w = &mut gs.ecs;
    let orc = w.entities.create();
    w.mobs.insert(&w.entities, orc, Mob {}).unwrap();
    w.positions.insert(&w.entities, orc, Position { x: 8, y: 5 }).unwrap();
    w.blockers.insert(&w.entities, orc, Blocker {}).unwrap();
    w.viewsheds
        .insert(
            &w.entities,
            orc,
            Viewshed { visible_tiles: vec![Point { x: 5, y: 5 }], range: 8, dirty: false },
        )
        .unwrap();
    index(&mut gs);
    (gs, orc)
}

#[test]
fn monsters_act_only_on_their_turn() {
    let ai = MobAI {};
    assert!(ai.acts(RunState::AITurn));
    assert!(!ai.acts(RunState::PlayerTurn));
    assert!(!ai.acts(RunState::AwaitInput));
}

#[test]
fn monsters_that_act_are_listed_in_slot_order() {
    let (gs, orc) = mob_world();
    let w = &gs.ecs;
    let ai = MobAI {};
    assert_eq!(ai.actors(&w.entities, &w.viewsheds, &w.mobs, &w.positions), vec![orc]);
}

#[test]
fn monsters_attack_chase_or_wait() {
    let (mut gs, orc) = mob_world();
    let ai = MobAI {};
    let w = &gs.ecs;
    assert_eq!(ai.plan(&w.viewsheds, orc, true, w.player_pos), MobPlan::Attack);
    assert_eq!(ai.plan(&w.viewsheds, orc, false, w.player_pos), MobPlan::Chase);
    assert_eq!(ai.plan(&w.viewsheds, orc, false, Point { x: 1, y: 1 }), MobPlan::Wait);
    let w = &mut gs.ecs;
    let p = w.player_entity;
    ai.attack(&w.entities, &mut w.wants_melee, orc, p);
    assert_eq!(w.wants_melee.get(&w.entities, orc), Some(&WantsToMelee { target: p }));
}

#[test]
fn monsters_walk_one_step_along_the_path() {
    let (mut gs, orc) = mob_world();
    let ai = MobAI {};
    let w = &mut gs.ecs;
    let start = w.map.xy_idx(8, 5);
    let next = w.map.xy_idx(7, 5);
    let path = vec![start, next, w.map.xy_idx(6, 5)];
    assert!(w.map.blocked[start]);
    assert!(ai.can_follow_path(&w.map, &w.positions, &w.viewsheds, orc, true, &path));
    ai.follow_path(&mut w.map, &mut w.positions, &mut w.viewsheds, orc, true, &path);
    assert_eq!(w.positions.get(&w.entities, orc), Some(&Position { x: 7, y: 5 }));
    assert!(!w.map.blocked[start]);
    assert!(w.map.blocked[next]);
    assert!(w.viewsheds.get(&w.entities, orc).unwrap().dirty);
}

#[test]
fn monsters_stay_without_a_usable_path() {
    let (mut gs, orc) = mob_world();
    let ai = MobAI {};
    let w = &mut gs.ecs;
    let start = w.map.xy_idx(8, 5);
    ai.follow_path(&mut w.map, &mut w.positions, &mut w.viewsheds, orc, false, &vec![start, start - 1]);
    ai.follow_path(&mut w.map, &mut w.positions, &mut w.viewsheds, orc, true, &vec![start]);
    assert_eq!(w.positions.get(&w.entities, orc), Some(&Position { x: 8, y: 5 }));
    assert!(w.map.blocked[start]);
    assert!(!w.viewsheds.get(&w.entities, orc).unwrap().dirty);
    assert!(!ai.can_follow_path(&w.map, &w.positions, &w.viewsheds, orc, true, &vec![start, 999_999]));
}

#[test]
fn a_bitter_herb_hurts_and_says_so() {
    let (mut gs, herb) = world_with_herb(-3);
    let p = gs.ecs.player_entity;
    gs.ecs.combat_stats.insert(&gs.ecs.entities, p, stats(10, 5, 2)).unwrap();
    gs.ecs.wants_use.insert(&gs.ecs.entities, p, WantsToUse { item: herb }).unwrap();
    use_items(&mut gs);
    assert_eq!(gs.ecs.combat_stats.get(&gs.ecs.entities, p).unwrap().hp, 7);
    assert_eq!(
        gs.ecs.gamelog.entries,
        vec!["The Moongrass invigorates you, healing -3 health.".to_string()]
    );
}

#[test]
fn two_eaters_of_one_herb_both_heal_in_the_frame() {
    let (mut gs, herb) = world_with_herb(4);
    let w = &mut gs.ecs;
    let p = w.player_entity;
    let orc = w.entities.create();
    w.combat_stats.insert(&w.entities, p, stats(10, 5, 2)).unwrap();
    w.combat_stats.insert(&w.entities, orc, stats(3, 5, 2)).unwrap();
    w.wants_use.insert(&w.entities, p, WantsToUse { item: herb }).unwrap();
    w.wants_use.insert(&w.entities, orc, WantsToUse { item: herb }).unwrap();
    use_items(&mut gs);
    let w = &gs.ecs;
    assert_eq!(w.combat_stats.get(&w.entities, p).unwrap().hp, 14);
    assert_eq!(w.combat_stats.get(&w.entities, orc).unwrap().hp, 7);
    assert_eq!(w.gamelog.entries.len(), 1);
}

#[test]
fn drawing_goes_by_priority_then_listing_order() {
    assert_eq!(draw_order(&vec![0, 2, 1, 2, 0]), vec![1, 3, 2, 0, 4]);
    assert_eq!(draw_order(&vec![]), Vec::<usize>::new());
    assert_eq!(draw_order(&vec![-1, -1, 5]), vec![2, 0, 1]);
}
