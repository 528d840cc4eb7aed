use poirogue_core::commands::GameplayContext;
use poirogue_core::entity::{EntityId, Glyph, HasPosition, IsDirty, IsDoor, Player, Point, Rgb};
use poirogue_core::game::FlagExit;
use poirogue_core::game_systems::bump::on_bump_move_if_empty;
use poirogue_core::game_systems::directives::{
    resolve_move_directives, resolve_unlock_directive, MoveDirective, UnlockDirective,
};
use poirogue_core::game_systems::doors::on_bump_interpret_as_door_unlock_intent;
use poirogue_core::game_systems::input::{
    on_input_keyboard_exit, on_input_keyboard_generate_level,
};
use poirogue_core::game_systems::intents::{
    delete_intents, BumpIntent, CollectIntent, Identifiable, ResolvedIntents, UnlockIntent,
};
use poirogue_core::game_systems::inventory::{
    interpret_player_input_as_inventory_access, interpret_player_input_as_pickup, Entities,
    IsItem,
};
use poirogue_core::input::{InputSnapshotState, InputSnapshots, KeyboardSnapshot, MouseSnapshot};
use poirogue_core::map::TileMap;
use poirogue_core::maybe::Maybe;
use poirogue_core::store::Storage;
use poirogue_core::tiles::{DebugMapTile, MapTile};
use poirogue_core::time::Time;
use std::collections::VecDeque;

const A: EntityId = EntityId(1);
const B: EntityId = EntityId(2);
const C: EntityId = EntityId(3);

#[test]
fn storage_keeps_order_of_arrival() {
    let mut s: Storage<HasPosition> = Storage::new();
    assert_eq!(s.len(), 0);
    s.insert(B, HasPosition(Point::new(2, 2)));
    s.insert(A, HasPosition(Point::new(1, 1)));
    s.insert(C, HasPosition(Point::new(3, 3)));
    assert_eq!(s.len(), 3);
    assert_eq!(s.id_at(0), B);
    assert_eq!(s.id_at(1), A);
    assert_eq!(s.find(C), Some(2));
    assert_eq!(s.find(EntityId(9)), None);
    assert!(s.contains(A));
    assert_eq!(s.value_at(1).0, Point::new(1, 1));
}

#[test]
fn storage_insert_replaces_in_place() {
    let mut s: Storage<HasPosition> = Storage::new();
    s.insert(A, HasPosition(Point::new(1, 1)));
    s.insert(B, HasPosition(Point::new(2, 2)));
    s.insert(A, HasPosition(Point::new(5, 5)));
    assert_eq!(s.len(), 2);
    assert_eq!(s.id_at(0), A);
    assert_eq!(s.get(A).unwrap().0, Point::new(5, 5));
    s.set_value_at(1, HasPosition(Point::new(7, 7)));
    assert_eq!(s.get(B).unwrap().0, Point::new(7, 7));
}

#[test]
fn storage_remove_keeps_the_others_in_order() {
    let mut s: Storage<HasPosition> = Storage::new();
    s.insert(A, HasPosition(Point::new(1, 1)));
    s.insert(B, HasPosition(Point::new(2, 2)));
    s.insert(C, HasPosition(Point::new(3, 3)));
    assert_eq!(s.remove(A).unwrap().0, Point::new(1, 1));
    assert!(s.remove(A).is_none());
    assert_eq!(s.len(), 2);
    assert_eq!(s.id_at(0), B);
    assert_eq!(s.id_at(1), C);
    assert!(s.get(A).is_none());
}

#[test]
fn position_can_be_changed_in_place() {
    let mut p = HasPosition(Point::new(1, 2));
    p.get_mut().x = 7;
    assert_eq!(p.0, Point::new(7, 2));
}

#[test]
fn entities_hand_out_ascending_ids() {
    let mut e = Entities { next_id: 5 };
    assert_eq!(e.add_entity(), EntityId(5));
    assert_eq!(e.add_entity(), EntityId(6));
    assert_eq!(e.next_id, 7);
}

#[test]
fn glyph_is_white_on_black() {
    let g = Glyph::new('@');
    assert_eq!(g.ch, '@');
    assert_eq!(g.fg, Rgb { r: 255, g: 255, b: 255 });
    assert_eq!(g.bg, Rgb { r: 0, g: 0, b: 0 });
    assert_eq!(Rgb::white(), g.fg);
    assert_eq!(Rgb::black(), g.bg);
    assert_eq!(Rgb::dark_gray(), Rgb { r: 169, g: 169, b: 169 });
}

#[test]
fn blocking_tiles() {
    assert!(MapTile::Obscured.is_blocking());
    assert!(MapTile::Door.is_blocking());
    assert!(MapTile::Debug(DebugMapTile::RectCenter).is_blocking());
    assert!(MapTile::Debug(DebugMapTile::Construction(3)).is_blocking());
    assert!(!MapTile::Floor(0).is_blocking());
    assert!(!MapTile::Corridor.is_blocking());
    assert!(!MapTile::Stairs.is_blocking());
    assert!(MapTile::Obscured.is_obscured());
    assert!(!MapTile::Door.is_obscured());
    assert_eq!(MapTile::default(), MapTile::Obscured);
}

#[test]
fn map_indices() {
    let mut map = TileMap::new(4, 3);
    assert_eq!(map.tiles.len(), 12);
    assert!(map.tiles.iter().all(|t| *t == MapTile::Obscured));
    assert_eq!(map.get_tile_index(0, 0), Some(0));
    assert_eq!(map.get_tile_index(3, 2), Some(11));
    assert_eq!(map.get_tile_index(1, 2), Some(9));
    assert_eq!(map.get_tile_index(4, 0), None);
    assert_eq!(map.get_tile_index(0, 3), None);
    assert_eq!(map.get_tile_index(-1, 0), None);
    assert_eq!(map.get_tile_index_from_point(Point::new(2, 1)), Some(6));
    assert_eq!(map.point2d_to_index(Point::new(2, 1)), 6);
    assert_eq!(map.point2d_to_index(Point::new(9, 9)), 0);
    assert_eq!(map.get_tile_coords(6), (2, 1));
    assert_eq!(map.index_to_point2d(11), Point::new(3, 2));
    assert_eq!(map.dimensions(), Point::new(4, 3));
    map.set(2, 1, MapTile::Door);
    map.set(9, 9, MapTile::Door);
    map.set_at_tile_index(11, MapTile::Door);
    map.set(1, 1, MapTile::Floor(2));
    assert_eq!(*map.get_tile_at(6), MapTile::Door);
    assert_eq!(map.get_all_doors(), vec![6, 11]);
    assert!(map.is_tile(6, MapTile::Door));
    assert!(!map.is_tile(5, MapTile::Door));
    assert!(!map.is_tile(12, MapTile::Obscured));
    assert!(map.is_tile_blocked(6));
    assert!(!map.is_tile_blocked(5));
    assert!(map.is_exit_valid(1, 1));
    assert!(!map.is_exit_valid(2, 1));
    assert!(!map.is_exit_valid(0, 1));
    assert!(!map.is_exit_valid(1, 0));
    assert!(!map.is_exit_valid(4, 1));
    assert!(!map.is_exit_valid(1, 3));
}

#[test]
fn registry_claims_and_forgets() {
    let mut handled = ResolvedIntents::default();
    let bump = BumpIntent { id: 4, bumper: A, pos: Point::new(0, 0) };
    let unlock = UnlockIntent { id: 5, entity: A, target: B };
    let collect = CollectIntent { id: 6, collector: A, item: C };
    assert_eq!(bump.id(), 4);
    assert_eq!(unlock.id(), 5);
    assert_eq!(collect.id(), 6);
    assert!(handled.not_handled(bump));
    assert!(!handled.is_claimed(4));
    handled.claim(4);
    assert!(!handled.not_handled(bump));
    assert!(handled.not_handled(unlock));
    handled.claim_all(&vec![5, 6, 5]);
    assert!(handled.is_claimed(5));
    assert!(!handled.not_handled(collect));
    assert_eq!(handled.0.len(), 3);
    handled.clear();
    assert!(handled.not_handled(bump));
    assert!(handled.0.is_empty());
}

#[test]
fn delete_intents_empties_queues_and_registry() {
    let mut bumps = VecDeque::new();
    let mut unlocks = VecDeque::new();
    let mut collects = VecDeque::new();
    let mut handled = ResolvedIntents::default();
    bumps.push_back(BumpIntent { id: 4, bumper: A, pos: Point::new(0, 0) });
    unlocks.push_back(UnlockIntent { id: 5, entity: A, target: B });
    collects.push_back(CollectIntent { id: 6, collector: A, item: C });
    handled.claim(4);
    delete_intents(&mut bumps, &mut unlocks, &mut collects, &mut handled);
    assert!(bumps.is_empty() && unlocks.is_empty() && collects.is_empty());
    assert!(!handled.is_claimed(4));
}

#[test]
fn moves_are_applied_newest_first() {
    let mut positions: Storage<HasPosition> = Storage::new();
    positions.insert(A, HasPosition(Point::new(0, 0)));
    let mut dirs = VecDeque::new();
    dirs.push_back(MoveDirective(A, Point::new(1, 1)));
    dirs.push_back(MoveDirective(A, Point::new(2, 2)));
    let mut dirty = IsDirty(false);
    resolve_move_directives(&mut dirs, &mut positions, &mut dirty);
    // The newest directive is applied first, so the oldest has the last word.
    assert_eq!(positions.get(A).unwrap().0, Point::new(1, 1));
    assert!(dirty.0);
    assert!(dirs.is_empty());
}

#[test]
fn move_of_entity_without_position_is_dropped() {
    let mut positions: Storage<HasPosition> = Storage::new();
    positions.insert(A, HasPosition(Point::new(0, 0)));
    let mut dirs = VecDeque::new();
    dirs.push_back(MoveDirective(B, Point::new(1, 1)));
    let mut dirty = IsDirty(false);
    resolve_move_directives(&mut dirs, &mut positions, &mut dirty);
    assert_eq!(positions.len(), 1);
    assert_eq!(positions.get(A).unwrap().0, Point::new(0, 0));
    assert!(!dirty.0);
    assert!(dirs.is_empty());
}

#[test]
fn unlock_directive_clears_the_lock() {
    let mut doors: Storage<IsDoor> = Storage::new();
    doors.insert(A, IsDoor { sign: String::from("ONE"), is_closed: true, is_locked: Some(C) });
    doors.insert(B, IsDoor { sign: String::from("TWO"), is_closed: true, is_locked: Some(C) });
    let mut dirs = VecDeque::new();
    dirs.push_back(UnlockDirective(B));
    let mut dirty = IsDirty(false);
    resolve_unlock_directive(&mut dirs, &mut doors, &mut dirty);
    assert_eq!(doors.get(A).unwrap().is_locked, Some(C));
    assert_eq!(doors.get(B).unwrap().is_locked, None);
    assert_eq!(doors.get(B).unwrap().sign, "TWO");
    assert!(doors.get(B).unwrap().is_closed);
    assert!(dirty.0);
    let mut clean = IsDirty(false);
    resolve_unlock_directive(&mut dirs, &mut doors, &mut clean);
    assert!(!clean.0);
}

#[test]
fn bump_into_locked_door_becomes_unlock_intent() {
    let mut doors: Storage<IsDoor> = Storage::new();
    let mut positions: Storage<HasPosition> = Storage::new();
    doors.insert(A, IsDoor { sign: String::from("ONE"), is_closed: true, is_locked: Some(C) });
    doors.insert(B, IsDoor { sign: String::from("TWO"), is_closed: true, is_locked: None });
    positions.insert(A, HasPosition(Point::new(1, 0)));
    positions.insert(B, HasPosition(Point::new(2, 0)));
    let mut bumps = VecDeque::new();
    bumps.push_back(BumpIntent { id: 1, bumper: C, pos: Point::new(2, 0) });
    bumps.push_back(BumpIntent { id: 2, bumper: C, pos: Point::new(1, 0) });
    bumps.push_back(BumpIntent { id: 3, bumper: C, pos: Point::new(1, 0) });
    let mut handled = ResolvedIntents::default();
    handled.claim(3);
    let mut unlocks = VecDeque::new();
    on_bump_interpret_as_door_unlock_intent(&doors, &positions, &bumps, &mut unlocks, &handled);
    assert_eq!(
        unlocks.into_iter().collect::<Vec<_>>(),
        vec![UnlockIntent { id: 2, entity: C, target: A }]
    );
    assert!(!handled.is_claimed(2));
}

#[test]
fn move_rule_emits_one_move_per_free_bump() {
    let mut map = TileMap::new(3, 3);
    map.set(1, 1, MapTile::Corridor);
    let mut bumps = VecDeque::new();
    bumps.push_back(BumpIntent { id: 1, bumper: A, pos: Point::new(1, 1) });
    bumps.push_back(BumpIntent { id: 2, bumper: B, pos: Point::new(2, 2) });
    bumps.push_back(BumpIntent { id: 3, bumper: C, pos: Point::new(1, 1) });
    let mut handled = ResolvedIntents::default();
    handled.claim(3);
    let mut time = Time::new();
    time.enqueue(A);
    time.enqueue(B);
    let mut moves = VecDeque::new();
    on_bump_move_if_empty(&map, &bumps, &mut moves, &handled, &mut time);
    assert_eq!(
        moves.into_iter().collect::<Vec<_>>(),
        vec![MoveDirective(A, Point::new(1, 1))]
    );
    assert_eq!(time.wait_queue.iter().cloned().collect::<Vec<_>>(), vec![(A, 16u16)]);
    assert!(!handled.is_claimed(1));
}

#[test]
fn pickup_key_collects_what_lies_underfoot() {
    let mut items: Storage<IsItem> = Storage::new();
    let mut positions: Storage<HasPosition> = Storage::new();
    positions.insert(A, HasPosition(Point::new(1, 1)));
    items.insert(B, IsItem { item: String::from("key"), is_collected: false });
    items.insert(C, IsItem { item: String::from("coin"), is_collected: false });
    items.insert(EntityId(4), IsItem { item: String::from("gem"), is_collected: true });
    positions.insert(B, HasPosition(Point::new(1, 1)));
    positions.insert(C, HasPosition(Point::new(2, 1)));
    let player = Player { entity: Some(A), cached_position: Point::new(0, 0) };
    let mut time = Time::new();
    time.tick();
    let mut collects = VecDeque::new();
    // Not the player's turn: the key does nothing.
    interpret_player_input_as_pickup(true, &player, &items, &positions, &mut collects, &time);
    assert!(collects.is_empty());
    time.enqueue(A);
    interpret_player_input_as_pickup(false, &player, &items, &positions, &mut collects, &time);
    assert!(collects.is_empty());
    interpret_player_input_as_pickup(true, &player, &items, &positions, &mut collects, &time);
    assert_eq!(
        collects.into_iter().collect::<Vec<_>>(),
        vec![CollectIntent { id: 1, collector: A, item: B }]
    );
}

#[test]
fn inventory_opens_and_closes() {
    let mut dirty = IsDirty(false);
    let mut context = GameplayContext::MainGame;
    assert!(!interpret_player_input_as_inventory_access(false, true, &mut dirty, &mut context));
    assert_eq!(context, GameplayContext::MainGame);
    assert!(!dirty.0);
    assert!(!interpret_player_input_as_inventory_access(true, false, &mut dirty, &mut context));
    assert_eq!(context, GameplayContext::Inventory);
    assert!(dirty.0);
    dirty.0 = false;
    assert!(!interpret_player_input_as_inventory_access(true, false, &mut dirty, &mut context));
    assert_eq!(context, GameplayContext::Inventory);
    assert!(!dirty.0);
    assert!(interpret_player_input_as_inventory_access(false, true, &mut dirty, &mut context));
    assert_eq!(context, GameplayContext::MainGame);
    assert!(dirty.0);
}

#[test]
fn exit_and_generate_level_keys() {
    let mut exit = FlagExit(false);
    on_input_keyboard_exit(true, &GameplayContext::Inventory, &mut exit);
    assert!(!exit.0);
    on_input_keyboard_exit(false, &GameplayContext::MainGame, &mut exit);
    assert!(!exit.0);
    on_input_keyboard_exit(true, &GameplayContext::MainGame, &mut exit);
    assert!(exit.0);
    let mut commands = VecDeque::new();
    on_input_keyboard_generate_level(false, &mut commands);
    assert!(commands.is_empty());
    on_input_keyboard_generate_level(true, &mut commands);
    assert_eq!(commands.len(), 1);
}

#[test]
fn then_maybe() {
    assert_eq!(true.then_maybe(3), Some(3));
    assert_eq!(false.then_maybe(3), None);
}

#[test]
fn snapshot_tracks_pressed_held_released() {
    let mut s = InputSnapshotState::default();
    assert!(!s.is_pressed(3) && !s.is_held(3) && !s.is_released(3));
    s.update(&vec![3, 70]);
    assert!(s.is_pressed(3) && s.is_held(3) && !s.is_released(3));
    assert!(s.is_pressed(70) && s.is_held(70));
    assert!(!s.is_pressed(4) && !s.is_held(4));
    s.update(&vec![3, 5, 5]);
    assert!(!s.is_pressed(3) && s.is_held(3));
    assert!(s.is_pressed(5) && s.is_held(5));
    assert!(s.is_released(70) && !s.is_held(70) && !s.is_pressed(70));
    s.update(&vec![]);
    assert!(s.is_released(3) && s.is_released(5) && !s.is_released(70));
    assert!(!s.is_held(3) && !s.is_held(5));
    s.update(&vec![]);
    assert!(!s.is_released(3) && !s.is_released(5));
}

#[test]
fn consumed_key_is_hidden_until_next_frame() {
    let mut s = InputSnapshotState::default();
    s.update(&vec![1, 2]);
    s.consume(1);
    assert!(!s.is_pressed(1) && !s.is_held(1));
    assert!(s.is_pressed(2) && s.is_held(2));
    assert!(!s.is_pressed_or_held_with_mod(1, 2));
    s.update(&vec![1, 2]);
    assert!(s.is_held(1) && !s.is_pressed(1));
    assert!(s.is_pressed_or_held_with_mod(1, 2));
    s.consume(2);
    assert!(!s.is_pressed_or_held_with_mod(1, 2));
    s.update(&vec![1, 9]);
    assert!(s.is_pressed_or_held_with_mod(9, 2));
    assert!(!s.is_pressed_or_held_with_mod(1, 2));
    assert!(s.is_released(2));
}

#[test]
fn both_devices_are_updated() {
    let mut snaps = InputSnapshots {
        keyboard: KeyboardSnapshot(InputSnapshotState::default()),
        mouse: MouseSnapshot(InputSnapshotState::default()),
    };
    snaps.make_new_snapshots(&vec![30], &vec![0]);
    assert!(snaps.keyboard.0.is_pressed(30));
    assert!(!snaps.keyboard.0.is_pressed(0));
    assert!(snaps.mouse.0.is_pressed(0));
    assert!(!snaps.mouse.0.is_pressed(30));
}
