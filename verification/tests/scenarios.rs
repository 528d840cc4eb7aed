use poirogue_core::entity::{
    EntityId, Glyph, HasCooldown, HasGlyph, HasPosition, IsDirty, IsDoor, Point, Rgb,
};
use poirogue_core::game_systems::directives::{MoveDirective, NotifyDirective, UnlockDirective};
use poirogue_core::game_systems::intents::{
    BumpIntent, CollectIntent, ResolvedIntents, UnlockIntent,
};
use poirogue_core::game_systems::inventory::{CarriesItem, Entities, IsItem};
use poirogue_core::game_systems::notifications::NotificationLog;
use poirogue_core::map::TileMap;
use poirogue_core::simulation::Simulation;
use poirogue_core::store::Storage;
use poirogue_core::tiles::MapTile;
use poirogue_core::time::Time;
use std::collections::VecDeque;

const ACTOR: EntityId = EntityId(1);
const DOOR: EntityId = EntityId(2);
const KEY: EntityId = EntityId(3);

fn door_site() -> Point {
    Point::new(2, 1)
}

/// A 5 x 5 map of rock with floor at (1, 1) and a door tile at (2, 1); an
/// actor on the floor whose turn it is, and a closed door on the door tile.
fn world(lock: Option<EntityId>) -> Simulation {
    let mut map = TileMap::new(5, 5);
    map.set(1, 1, MapTile::Floor(0));
    map.set(2, 1, MapTile::Door);
    let mut sim = Simulation {
        map,
        time: Time::new(),
        handled: ResolvedIntents::default(),
        bump_intents: VecDeque::<BumpIntent>::new(),
        unlock_intents: VecDeque::<UnlockIntent>::new(),
        collect_intents: VecDeque::<CollectIntent>::new(),
        move_directives: VecDeque::<MoveDirective>::new(),
        unlock_directives: VecDeque::<UnlockDirective>::new(),
        notify_directives: VecDeque::<NotifyDirective>::new(),
        log: NotificationLog::new(3, 360),
        dirty: IsDirty(false),
        entities: Entities { next_id: 100 },
        positions: Storage::new(),
        doors: Storage::new(),
        glyphs: Storage::new(),
        items: Storage::new(),
        carries: Storage::new(),
        cooldowns: Storage::new(),
    };
    sim.positions.insert(ACTOR, HasPosition(Point::new(1, 1)));
    sim.cooldowns.insert(ACTOR, HasCooldown::default());
    sim.positions.insert(DOOR, HasPosition(door_site()));
    sim.glyphs.insert(DOOR, HasGlyph(Glyph::new('+')));
    sim.doors.insert(
        DOOR,
        IsDoor { sign: String::from("OAK"), is_closed: true, is_locked: lock },
    );
    sim.items.insert(
        KEY,
        IsItem { item: String::from("key marked 'OAK'"), is_collected: false },
    );
    sim.positions.insert(KEY, HasPosition(Point::new(1, 1)));
    sim.time.enqueue(ACTOR);
    sim
}

fn messages(sim: &Simulation) -> Vec<String> {
    sim.log.log.iter().cloned().collect()
}

#[test]
fn bump_opens_closed_unlocked_door() {
    let mut sim = world(None);
    let id = sim.time.current_time;
    sim.bump_intents.push_back(BumpIntent { id, bumper: ACTOR, pos: door_site() });
    assert!(sim.map.is_tile_blocked(sim.map.point2d_to_index(door_site())));

    sim.run_automated_systems();

    let door = sim.doors.get(DOOR).unwrap();
    assert!(!door.is_closed);
    assert_eq!(door.is_locked, None);
    let tile = sim.map.point2d_to_index(door_site());
    assert_eq!(*sim.map.get_tile_at(tile), MapTile::Corridor);
    assert!(!sim.map.is_tile_blocked(tile));
    assert_eq!(
        sim.time.wait_queue.iter().cloned().collect::<Vec<_>>(),
        vec![(ACTOR, 16u16)]
    );
    assert!(sim.time.action_queue.is_empty());
    assert_eq!(sim.time.time_blocked_on_same_entity, 0);
    let glyph = sim.glyphs.get(DOOR).unwrap().0;
    assert_eq!(glyph.ch, '_');
    assert_eq!(glyph.fg, Rgb { r: 169, g: 169, b: 169 });
    assert_eq!(glyph.bg, Rgb { r: 0, g: 0, b: 0 });
    assert!(sim.dirty.0);
    assert!(sim.handled.is_claimed(id));
}

#[test]
fn bump_that_opens_a_door_does_not_also_move() {
    let mut sim = world(None);
    sim.bump_intents.push_back(BumpIntent { id: 0, bumper: ACTOR, pos: door_site() });
    sim.run_automated_systems();
    // The tile is passable by the time the move rule runs, but the bump is
    // claimed: the actor stays where it was.
    assert_eq!(sim.positions.get(ACTOR).unwrap().0, Point::new(1, 1));
    assert!(sim.move_directives.is_empty());
    assert_eq!(sim.time.wait_queue.len(), 1);
}

#[test]
fn bump_into_free_tile_moves_and_claims_nothing() {
    let mut sim = world(None);
    sim.map.set(1, 2, MapTile::Floor(0));
    sim.bump_intents.push_back(BumpIntent { id: 0, bumper: ACTOR, pos: Point::new(1, 2) });
    sim.run_automated_systems();
    assert_eq!(sim.positions.get(ACTOR).unwrap().0, Point::new(1, 2));
    assert!(!sim.handled.is_claimed(0));
    assert_eq!(
        sim.time.wait_queue.iter().cloned().collect::<Vec<_>>(),
        vec![(ACTOR, 16u16)]
    );
    assert!(sim.dirty.0);
    assert!(sim.doors.get(DOOR).unwrap().is_closed);
}

#[test]
fn bump_into_rock_does_nothing() {
    let mut sim = world(None);
    sim.bump_intents.push_back(BumpIntent { id: 0, bumper: ACTOR, pos: Point::new(0, 1) });
    sim.run_automated_systems();
    assert_eq!(sim.positions.get(ACTOR).unwrap().0, Point::new(1, 1));
    assert!(sim.time.wait_queue.is_empty());
    assert_eq!(sim.time.action_queue.len(), 1);
    assert!(!sim.dirty.0);
}

#[test]
fn unlock_with_key_consumes_it() {
    let mut sim = world(Some(KEY));
    sim.carries.insert(EntityId(50), CarriesItem { owner: ACTOR, item: KEY });
    sim.unlock_intents.push_back(UnlockIntent { id: 7, entity: ACTOR, target: DOOR });

    sim.run_automated_systems();

    assert_eq!(sim.doors.get(DOOR).unwrap().is_locked, None);
    assert!(sim.doors.get(DOOR).unwrap().is_closed);
    assert_eq!(sim.carries.len(), 0);
    assert_eq!(
        messages(&sim),
        vec![String::from("You unlocked the door with the key marked 'OAK'")]
    );
    assert!(sim.handled.is_claimed(7));
    assert_eq!(
        sim.time.wait_queue.iter().cloned().collect::<Vec<_>>(),
        vec![(ACTOR, 16u16)]
    );
    assert!(sim.unlock_directives.is_empty());
    assert!(sim.dirty.0);
}

#[test]
fn bump_into_locked_door_with_key_unlocks_but_neither_opens_nor_moves() {
    let mut sim = world(Some(KEY));
    sim.carries.insert(EntityId(50), CarriesItem { owner: ACTOR, item: KEY });
    sim.carries.insert(EntityId(51), CarriesItem { owner: ACTOR, item: EntityId(99) });
    sim.bump_intents.push_back(BumpIntent { id: 4, bumper: ACTOR, pos: door_site() });

    sim.run_automated_systems();

    assert_eq!(
        sim.unlock_intents.iter().cloned().collect::<Vec<_>>(),
        vec![UnlockIntent { id: 4, entity: ACTOR, target: DOOR }]
    );
    let door = sim.doors.get(DOOR).unwrap();
    assert_eq!(door.is_locked, None);
    assert!(door.is_closed);
    assert_eq!(sim.positions.get(ACTOR).unwrap().0, Point::new(1, 1));
    assert_eq!(sim.carries.len(), 1);
    assert!(sim.carries.get(EntityId(51)).is_some());
    assert_eq!(messages(&sim).len(), 1);
    assert_eq!(sim.time.wait_queue.len(), 1);
}

#[test]
fn unlock_without_key_notifies_and_claims_nothing() {
    let mut sim = world(Some(KEY));
    sim.carries.insert(EntityId(50), CarriesItem { owner: EntityId(77), item: KEY });
    sim.unlock_intents.push_back(UnlockIntent { id: 7, entity: ACTOR, target: DOOR });

    sim.run_automated_systems();

    assert_eq!(messages(&sim), vec![String::from("The door marked 'OAK' is locked.")]);
    assert_eq!(sim.doors.get(DOOR).unwrap().is_locked, Some(KEY));
    assert!(!sim.handled.is_claimed(7));
    assert_eq!(sim.carries.len(), 1);
    assert!(sim.time.wait_queue.is_empty());
    assert_eq!(sim.time.action_queue.len(), 1);
}

#[test]
fn locked_notice_is_dropped_when_the_id_gets_claimed() {
    // A collect intent under the same id is honoured after the failed unlock:
    // the id is claimed, so the notice that the door is locked is not written.
    let mut sim = world(Some(KEY));
    sim.unlock_intents.push_back(UnlockIntent { id: 7, entity: ACTOR, target: DOOR });
    sim.collect_intents.push_back(CollectIntent { id: 7, collector: ACTOR, item: KEY });

    sim.run_automated_systems();

    assert_eq!(messages(&sim), vec![String::from("Collected key marked 'OAK'.")]);
    assert!(sim.handled.is_claimed(7));
    assert_eq!(sim.doors.get(DOOR).unwrap().is_locked, Some(KEY));
}

#[test]
fn only_the_first_decisive_unlock_is_decided() {
    let mut sim = world(Some(KEY));
    sim.unlock_intents.push_back(UnlockIntent { id: 1, entity: ACTOR, target: EntityId(404) });
    sim.unlock_intents.push_back(UnlockIntent { id: 2, entity: ACTOR, target: DOOR });
    sim.unlock_intents.push_back(UnlockIntent { id: 3, entity: EntityId(9), target: DOOR });
    sim.carries.insert(EntityId(50), CarriesItem { owner: EntityId(9), item: KEY });

    sim.run_automated_systems();

    // The second attempt is the first on a locked door; its actor has no key.
    assert_eq!(messages(&sim), vec![String::from("The door marked 'OAK' is locked.")]);
    assert_eq!(sim.carries.len(), 1);
    assert_eq!(sim.doors.get(DOOR).unwrap().is_locked, Some(KEY));
}

#[test]
fn collect_picks_up_item() {
    let mut sim = world(None);
    sim.collect_intents.push_back(CollectIntent { id: 5, collector: ACTOR, item: KEY });

    sim.run_automated_systems();

    assert!(sim.items.get(KEY).unwrap().is_collected);
    assert!(sim.positions.get(KEY).is_none());
    assert_eq!(sim.carries.len(), 1);
    assert_eq!(
        *sim.carries.get(EntityId(100)).unwrap(),
        CarriesItem { owner: ACTOR, item: KEY }
    );
    assert_eq!(sim.entities.next_id, 101);
    assert_eq!(messages(&sim), vec![String::from("Collected key marked 'OAK'.")]);
    assert!(sim.handled.is_claimed(5));
    assert!(sim.dirty.0);
    assert_eq!(
        sim.time.wait_queue.iter().cloned().collect::<Vec<_>>(),
        vec![(ACTOR, 16u16)]
    );
}

#[test]
fn collect_of_collected_item_changes_nothing() {
    let mut sim = world(None);
    sim.items.insert(
        KEY,
        IsItem { item: String::from("key marked 'OAK'"), is_collected: true },
    );
    sim.collect_intents.push_back(CollectIntent { id: 5, collector: ACTOR, item: KEY });

    sim.run_automated_systems();

    assert!(sim.items.get(KEY).unwrap().is_collected);
    assert_eq!(sim.positions.get(KEY).unwrap().0, Point::new(1, 1));
    assert_eq!(sim.carries.len(), 0);
    assert_eq!(sim.entities.next_id, 100);
    assert!(messages(&sim).is_empty());
    assert!(!sim.handled.is_claimed(5));
    assert!(!sim.dirty.0);
    assert!(sim.time.wait_queue.is_empty());
}

#[test]
fn collect_of_missing_item_changes_nothing() {
    let mut sim = world(None);
    sim.collect_intents.push_back(CollectIntent { id: 5, collector: ACTOR, item: EntityId(404) });
    sim.run_automated_systems();
    assert_eq!(sim.carries.len(), 0);
    assert!(!sim.handled.is_claimed(5));
}

#[test]
fn second_collect_of_same_item_is_not_honoured() {
    let mut sim = world(None);
    sim.collect_intents.push_back(CollectIntent { id: 5, collector: ACTOR, item: KEY });
    sim.collect_intents.push_back(CollectIntent { id: 5, collector: EntityId(8), item: KEY });
    sim.run_automated_systems();
    assert_eq!(sim.carries.len(), 1);
    assert_eq!(sim.carries.get(EntityId(100)).unwrap().owner, ACTOR);
}

#[test]
fn claimed_intents_are_skipped_by_every_rule() {
    let mut sim = world(None);
    sim.handled.claim(9);
    sim.bump_intents.push_back(BumpIntent { id: 9, bumper: ACTOR, pos: door_site() });
    sim.collect_intents.push_back(CollectIntent { id: 9, collector: ACTOR, item: KEY });
    sim.unlock_intents.push_back(UnlockIntent { id: 9, entity: ACTOR, target: DOOR });

    sim.run_automated_systems();

    assert!(sim.doors.get(DOOR).unwrap().is_closed);
    assert!(!sim.items.get(KEY).unwrap().is_collected);
    assert_eq!(sim.positions.get(ACTOR).unwrap().0, Point::new(1, 1));
    assert!(sim.time.wait_queue.is_empty());
    assert!(messages(&sim).is_empty());
    assert!(!sim.dirty.0);
}

#[test]
fn end_of_turn_forgets_intents_and_claims() {
    let mut sim = world(None);
    sim.bump_intents.push_back(BumpIntent { id: 0, bumper: ACTOR, pos: door_site() });
    sim.collect_intents.push_back(CollectIntent { id: 1, collector: ACTOR, item: KEY });
    sim.unlock_intents.push_back(UnlockIntent { id: 2, entity: ACTOR, target: DOOR });
    sim.run_automated_systems();
    assert!(sim.handled.is_claimed(0));

    sim.end_turn();

    assert!(sim.bump_intents.is_empty());
    assert!(sim.unlock_intents.is_empty());
    assert!(sim.collect_intents.is_empty());
    assert!(!sim.handled.is_claimed(0));
    assert!(!sim.handled.is_claimed(1));
    assert!(sim.handled.0.is_empty());
    assert!(sim.time.wait_queue.is_empty());
    // The door took one tick; the second action found nobody ready.
    assert_eq!(sim.cooldowns.get(ACTOR).unwrap().duration, 16);
}

#[test]
fn id_reused_in_a_later_turn_starts_unclaimed() {
    let mut sim = world(None);
    sim.collect_intents.push_back(CollectIntent { id: 0, collector: ACTOR, item: KEY });
    sim.run_automated_systems();
    assert!(sim.handled.is_claimed(0));
    sim.end_turn();

    // Same id, next turn: the bump is looked at as if the id were fresh.
    sim.time.enqueue(ACTOR);
    sim.bump_intents.push_back(BumpIntent { id: 0, bumper: ACTOR, pos: door_site() });
    sim.run_automated_systems();
    assert!(!sim.doors.get(DOOR).unwrap().is_closed);
    assert!(sim.handled.is_claimed(0));
}

#[test]
fn intents_that_share_an_id_share_its_claim() {
    // Two actors bump under one id. The first bump opens the door and claims
    // the id; the second, at a free tile, is thereby resolved as well.
    let other = EntityId(8);
    let mut sim = world(None);
    sim.map.set(1, 2, MapTile::Floor(0));
    sim.positions.insert(other, HasPosition(Point::new(1, 3)));
    sim.time.enqueue(other);
    sim.bump_intents.push_back(BumpIntent { id: 3, bumper: ACTOR, pos: door_site() });
    sim.bump_intents.push_back(BumpIntent { id: 3, bumper: other, pos: Point::new(1, 2) });

    sim.run_automated_systems();

    assert!(!sim.doors.get(DOOR).unwrap().is_closed);
    assert_eq!(sim.positions.get(other).unwrap().0, Point::new(1, 3));
    assert_eq!(
        sim.time.wait_queue.iter().cloned().collect::<Vec<_>>(),
        vec![(ACTOR, 16u16)]
    );
}

#[test]
fn moves_do_not_claim_so_bumps_under_one_id_all_move() {
    let other = EntityId(8);
    let mut sim = world(None);
    sim.map.set(1, 2, MapTile::Floor(0));
    sim.map.set(3, 3, MapTile::Corridor);
    sim.positions.insert(other, HasPosition(Point::new(3, 2)));
    sim.time.enqueue(other);
    sim.bump_intents.push_back(BumpIntent { id: 3, bumper: ACTOR, pos: Point::new(1, 2) });
    sim.bump_intents.push_back(BumpIntent { id: 3, bumper: other, pos: Point::new(3, 3) });

    sim.run_automated_systems();

    assert_eq!(sim.positions.get(ACTOR).unwrap().0, Point::new(1, 2));
    assert_eq!(sim.positions.get(other).unwrap().0, Point::new(3, 3));
    assert!(!sim.handled.is_claimed(3));
    assert_eq!(
        sim.time.wait_queue.iter().cloned().collect::<Vec<_>>(),
        vec![(ACTOR, 16u16), (other, 16u16)]
    );
}

#[test]
fn door_without_glyph_or_position_is_left_closed() {
    let mut sim = world(None);
    sim.glyphs.remove(DOOR);
    sim.bump_intents.push_back(BumpIntent { id: 0, bumper: ACTOR, pos: door_site() });
    sim.run_automated_systems();
    assert!(sim.doors.get(DOOR).unwrap().is_closed);
    assert!(!sim.handled.is_claimed(0));
    // The door tile still blocks, so the actor does not move either.
    assert_eq!(sim.positions.get(ACTOR).unwrap().0, Point::new(1, 1));
}

#[test]
fn new_world_is_empty_and_dirty() {
    let sim = Simulation::new(TileMap::new(3, 3), NotificationLog::new(3, 10));
    assert_eq!(sim.time.current_time, 0);
    assert!(sim.dirty.0);
    assert_eq!(sim.entities.next_id, 0);
    assert_eq!(sim.positions.len() + sim.doors.len() + sim.items.len(), 0);
    assert!(sim.handled.0.is_empty());
    assert!(sim.bump_intents.is_empty());
}

#[test]
fn spawned_entities_get_new_ids_and_their_components() {
    let mut sim = Simulation::new(TileMap::new(3, 3), NotificationLog::new(3, 10));
    let key = sim.spawn_item(Point::new(1, 1), String::from("key marked 'X'"), '(');
    let door = sim.spawn_door(Point::new(2, 1), String::from("X"), Some(key));
    let actor = sim.spawn_actor(Point::new(0, 1), '@', HasCooldown::with_skip(1));
    assert_eq!((key, door, actor), (EntityId(0), EntityId(1), EntityId(2)));
    assert_eq!(sim.entities.next_id, 3);

    assert_eq!(sim.items.get(key).unwrap().item, "key marked 'X'");
    assert!(!sim.items.get(key).unwrap().is_collected);
    assert_eq!(sim.glyphs.get(key).unwrap().0.ch, '(');
    assert_eq!(sim.positions.get(key).unwrap().0, Point::new(1, 1));

    let d = sim.doors.get(door).unwrap();
    assert!(d.is_closed);
    assert_eq!(d.is_locked, Some(key));
    assert_eq!(d.sign, "X");
    assert_eq!(sim.glyphs.get(door).unwrap().0, Glyph::new('+'));
    assert_eq!(sim.positions.get(door).unwrap().0, Point::new(2, 1));

    assert_eq!(*sim.cooldowns.get(actor).unwrap(), HasCooldown { duration: 0, skip_after: Some(1) });
    assert_eq!(sim.glyphs.get(actor).unwrap().0.ch, '@');
    assert_eq!(sim.positions.get(actor).unwrap().0, Point::new(0, 1));
    assert!(sim.doors.get(actor).is_none());
}
