//! The simulation as one value: the clock, the queues, the registry, the log
//! and the world's components, together with the order in which a turn runs
//! the rule systems over them.
use vstd::prelude::*;
use std::collections::VecDeque;
use crate::core_systems::apply_delays;
use crate::core_systems::delays_fit;
use crate::core_systems::update_cooldowns_after_actions;
use crate::entity::DoorView;
use crate::entity::EntityId;
use crate::entity::Glyph;
use crate::entity::HasCooldown;
use crate::entity::HasGlyph;
use crate::entity::HasPosition;
use crate::entity::IsDirty;
use crate::entity::IsDoor;
use crate::entity::Point;
use crate::entity::Rgb;
use crate::game_systems::bump::bump_moves;
use crate::game_systems::bump::moves_prefix;
use crate::game_systems::bump::on_bump_move_if_empty;
use crate::game_systems::directives::any_move_applies;
use crate::game_systems::directives::apply_moves;
use crate::game_systems::directives::apply_unlocks;
use crate::game_systems::directives::notify_views;
use crate::game_systems::directives::resolve_move_directives;
use crate::game_systems::directives::resolve_notifications;
use crate::game_systems::directives::resolve_notify_if_entity_alive_directives;
use crate::game_systems::directives::resolve_unlock_directive;
use crate::game_systems::directives::MoveDirective;
use crate::game_systems::directives::NotifyDirective;
use crate::game_systems::directives::NotifyView;
use crate::game_systems::directives::UnlockDirective;
use crate::game_systems::doors::bump_unlocks_prefix;
use crate::game_systems::doors::keys_are_items;
use crate::game_systems::doors::on_bump_interpret_as_door_unlock_intent;
use crate::game_systems::doors::on_bump_open_doors;
use crate::game_systems::doors::on_unlock_if_has_key_for_door;
use crate::game_systems::doors::open_doors_for_bumps;
use crate::game_systems::doors::same_doors;
use crate::game_systems::doors::unlock_stage;
use crate::game_systems::doors::DoorStage;
use crate::game_systems::doors::UnlockStage;
use crate::game_systems::intents::delete_intents;
use crate::game_systems::intents::BumpIntent;
use crate::game_systems::intents::CollectIntent;
use crate::game_systems::intents::ResolvedIntents;
use crate::game_systems::intents::UnlockIntent;
use crate::game_systems::inventory::collect_all;
use crate::game_systems::inventory::on_collect_if_possible;
use crate::game_systems::inventory::CarriesItem;
use crate::game_systems::inventory::CollectStage;
use crate::game_systems::inventory::Entities;
use crate::game_systems::inventory::IsItem;
use crate::game_systems::inventory::ItemView;
use crate::game_systems::notifications::LogView;
use crate::game_systems::notifications::NotificationLog;
use crate::map::MapView;
use crate::map::TileMap;
use crate::store::distinct_ids;
use crate::store::has_id;
use crate::store::inserted;
use crate::store::lemma_inserted;
use crate::store::Storage;
use crate::time::Time;
use crate::time::TimeView;

verus! {

/// Everything a turn works on.
pub struct Simulation {
    pub map: TileMap,
    pub time: Time,
    pub handled: ResolvedIntents,
    pub bump_intents: VecDeque<BumpIntent>,
    pub unlock_intents: VecDeque<UnlockIntent>,
    pub collect_intents: VecDeque<CollectIntent>,
    pub move_directives: VecDeque<MoveDirective>,
    pub unlock_directives: VecDeque<UnlockDirective>,
    pub notify_directives: VecDeque<NotifyDirective>,
    pub log: NotificationLog,
    pub dirty: IsDirty,
    pub entities: Entities,
    pub positions: Storage<HasPosition>,
    pub doors: Storage<IsDoor>,
    pub glyphs: Storage<HasGlyph>,
    pub items: Storage<IsItem>,
    pub carries: Storage<CarriesItem>,
    pub cooldowns: Storage<HasCooldown>,
}

/// What contracts say of the simulation.
pub struct SimView {
    pub map: MapView,
    pub time: TimeView,
    pub handled: Set<u64>,
    pub bumps: Seq<BumpIntent>,
    pub unlocks: Seq<UnlockIntent>,
    pub collects: Seq<CollectIntent>,
    pub moves: Seq<MoveDirective>,
    pub unlock_directives: Seq<UnlockDirective>,
    pub notifications: Seq<NotifyView>,
    pub log: LogView,
    pub dirty: bool,
    pub next_id: int,
    pub positions: Seq<(EntityId, Point)>,
    pub doors: Seq<(EntityId, DoorView)>,
    pub glyphs: Seq<(EntityId, Glyph)>,
    pub items: Seq<(EntityId, ItemView)>,
    pub carries: Seq<(EntityId, CarriesItem)>,
    pub cooldowns: Seq<(EntityId, HasCooldown)>,
}

impl View for Simulation {
    type V = SimView;

    open spec fn view(&self) -> SimView {
        SimView {
            map: self.map@,
            time: self.time@,
            handled: self.handled@,
            bumps: self.bump_intents@,
            unlocks: self.unlock_intents@,
            collects: self.collect_intents@,
            moves: self.move_directives@,
            unlock_directives: self.unlock_directives@,
            notifications: notify_views(self.notify_directives@),
            log: self.log@,
            dirty: self.dirty.0,
            next_id: self.entities.next_id as int,
            positions: self.positions@,
            doors: self.doors@,
            glyphs: self.glyphs@,
            items: self.items@,
            carries: self.carries@,
            cooldowns: self.cooldowns@,
        }
    }
}

impl SimView {
    /// The world is consistent: the map has a tile for each of its places and
    /// at least one, no entity has two components of a kind, every lock names
    /// an item, every unlock directive names a door, and the relations' ids
    /// were handed out.
    pub open spec fn wf(self) -> bool {
        &&& self.map.wf()
        &&& self.map.tiles.len() > 0
        &&& distinct_ids(self.positions)
        &&& distinct_ids(self.doors)
        &&& distinct_ids(self.glyphs)
        &&& distinct_ids(self.items)
        &&& distinct_ids(self.carries)
        &&& distinct_ids(self.cooldowns)
        &&& keys_are_items(self.doors, self.items)
        &&& forall|i: int|
            0 <= i < self.unlock_directives.len() ==> has_id(
                self.doors,
                (#[trigger] self.unlock_directives[i]).0,
            )
        &&& forall|i: int| 0 <= i < self.carries.len() ==> (#[trigger] self.carries[i]).0.0
            < self.next_id
        &&& 0 <= self.next_id <= u64::MAX
    }

    /// There is a new id left for every queued collect intent.
    pub open spec fn has_ids_left(self) -> bool {
        self.next_id + self.collects.len() < u64::MAX
    }

    /// First rule: every unclaimed bump into a locked door becomes an attempt
    /// to unlock it.
    pub open spec fn interpret_bumps(self) -> SimView {
        SimView {
            unlocks: self.unlocks + bump_unlocks_prefix(
                self.doors,
                self.positions,
                self.bumps,
                self.handled,
                self.bumps.len() as int,
            ),
            ..self
        }
    }

    /// What the second rule starts from.
    pub open spec fn door_stage(self) -> DoorStage {
        DoorStage {
            doors: self.doors,
            glyphs: self.glyphs,
            tiles: self.map.tiles,
            claims: Seq::empty(),
        }
    }

    /// What the second rule ends with.
    pub open spec fn doors_opened(self) -> DoorStage {
        open_doors_for_bumps(
            self.door_stage(),
            self.map,
            self.positions,
            self.bumps,
            self.handled,
            self.bumps.len() as int,
        )
    }

    /// Second rule: every unclaimed bump into a closed door without a lock
    /// opens it.
    pub open spec fn open_doors(self) -> SimView {
        let after = self.doors_opened();
        SimView {
            doors: after.doors,
            glyphs: after.glyphs,
            map: MapView { tiles: after.tiles, ..self.map },
            handled: self.handled.union(after.claims.to_set()),
            time: self.time.push_back_times(Time::TICK, after.claims.len()),
            dirty: self.dirty || after.claims.len() > 0,
            ..self
        }
    }

    /// What the third rule starts from.
    pub open spec fn unlock_stage(self) -> UnlockStage {
        UnlockStage {
            carries: self.carries,
            unlock_directives: self.unlock_directives,
            notify_directives: self.notifications,
            log: self.log,
            handled: self.handled,
            time: self.time,
        }
    }

    /// Third rule: the first unclaimed attempt to unlock a locked door is
    /// decided.
    pub open spec fn unlock(self) -> SimView {
        let after = unlock_stage(self.unlock_stage(), self.doors, self.items, self.unlocks);
        SimView {
            carries: after.carries,
            unlock_directives: after.unlock_directives,
            notifications: after.notify_directives,
            log: after.log,
            handled: after.handled,
            time: after.time,
            ..self
        }
    }

    /// What the fourth rule starts from.
    pub open spec fn collect_stage(self) -> CollectStage {
        CollectStage {
            items: self.items,
            positions: self.positions,
            carries: self.carries,
            log: self.log,
            next_id: self.next_id,
            claims: Seq::empty(),
        }
    }

    /// Fourth rule: every unclaimed collect intent picks up its item, if the
    /// item is there to be picked up.
    pub open spec fn collect(self) -> SimView {
        let after = collect_all(self.collect_stage(), self.collects, self.handled);
        SimView {
            items: after.items,
            positions: after.positions,
            carries: after.carries,
            log: after.log,
            next_id: after.next_id,
            handled: self.handled.union(after.claims.to_set()),
            time: self.time.push_back_times(Time::TICK, after.claims.len()),
            dirty: self.dirty || after.claims.len() > 0,
            ..self
        }
    }

    /// The moves that the fifth rule emits.
    pub open spec fn new_moves(self) -> Seq<MoveDirective> {
        moves_prefix(self.map, self.bumps, self.handled, self.bumps.len() as int)
    }

    /// Fifth rule: every unclaimed bump at a tile that does not block becomes
    /// a move.
    pub open spec fn move_on_bump(self) -> SimView {
        SimView {
            moves: self.moves + self.new_moves(),
            time: self.time.push_back_times(Time::TICK, self.new_moves().len()),
            ..self
        }
    }

    /// The five rules in their order.
    pub open spec fn run_rules(self) -> SimView {
        self.interpret_bumps().open_doors().unlock().collect().move_on_bump()
    }

    /// The resolvers: moves, then unlocks, then notifications, each queue
    /// from its newest entry to its oldest.
    pub open spec fn resolve(self) -> SimView {
        SimView {
            positions: apply_moves(self.moves, self.positions),
            doors: apply_unlocks(self.unlock_directives, self.doors),
            log: resolve_notifications(self.notifications, self.log, self.handled),
            dirty: self.dirty || any_move_applies(self.moves, self.positions)
                || self.unlock_directives.len() > 0,
            moves: Seq::empty(),
            unlock_directives: Seq::empty(),
            notifications: Seq::empty(),
            ..self
        }
    }

    /// The cleanup at the end of a turn: intents and claims are forgotten,
    /// and the actors whose turn is over are charged for their actions.
    pub open spec fn end_turn(self) -> SimView {
        SimView {
            bumps: Seq::empty(),
            unlocks: Seq::empty(),
            collects: Seq::empty(),
            handled: Set::empty(),
            cooldowns: apply_delays(self.cooldowns, self.time.waiting),
            time: TimeView { waiting: Seq::empty(), ..self.time },
            ..self
        }
    }
}

/// Doors that only differ in being open have the same entities.
pub proof fn lemma_same_doors_same_ids(s: DoorStage, t: DoorStage, e: EntityId)
    requires
        same_doors(s, t),
    ensures
        has_id(t.doors, e) == has_id(s.doors, e),
{
    if has_id(t.doors, e) {
        let k = choose|k: int| 0 <= k < t.doors.len() && (#[trigger] t.doors[k]).0 == e;
        assert(s.doors[k].0 == e);
    }
    if has_id(s.doors, e) {
        let k = choose|k: int| 0 <= k < s.doors.len() && (#[trigger] s.doors[k]).0 == e;
        assert(t.doors[k].0 == e);
    }
}

/// Intents whose ids are all claimed are skipped by every rule: the five
/// rules leave the simulation as it is.
pub proof fn lemma_claimed_intents_are_skipped(s: SimView)
    requires
        forall|i: int| 0 <= i < s.bumps.len() ==> s.handled.contains((#[trigger] s.bumps[i]).id),
        forall|i: int|
            0 <= i < s.unlocks.len() ==> s.handled.contains((#[trigger] s.unlocks[i]).id),
        forall|i: int|
            0 <= i < s.collects.len() ==> s.handled.contains((#[trigger] s.collects[i]).id),
    ensures
        s.run_rules() == s,
{
    let n = s.bumps.len() as int;
    crate::game_systems::doors::lemma_claimed_bumps_unlock_nothing(
        s.doors,
        s.positions,
        s.bumps,
        s.handled,
        n,
    );
    let a = s.interpret_bumps();
    assert(a.unlocks =~= s.unlocks);
    assert(a == s);
    crate::game_systems::doors::lemma_claimed_bumps_open_nothing(
        s.door_stage(),
        s.map,
        s.positions,
        s.bumps,
        s.handled,
        n,
    );
    let d = a.open_doors();
    assert(d.handled =~= s.handled);
    assert(d.map == s.map);
    assert(d == s);
    crate::game_systems::doors::lemma_claimed_unlocks_change_nothing(
        s.unlock_stage(),
        s.doors,
        s.items,
        s.unlocks,
    );
    let u = d.unlock();
    assert(u == s);
    crate::game_systems::inventory::lemma_claimed_collects_change_nothing(
        s.collect_stage(),
        s.collects,
        s.handled,
        s.collects.len() as int,
    );
    let c = u.collect();
    assert(c.handled =~= s.handled);
    assert(c == s);
    crate::game_systems::bump::lemma_claimed_bumps_do_not_move(s.map, s.bumps, s.handled, n);
    let m = c.move_on_bump();
    assert(m.moves =~= s.moves);
    assert(m == s);
}

/// Whether the second rule claimed `id`, for a door it opened.
pub open spec fn door_rule_claimed(s: SimView, id: u64) -> bool {
    s.interpret_bumps().doors_opened().claims.contains(id)
}

/// Whether the third rule claimed `id`, for a key it used.
pub open spec fn unlock_rule_claimed(s: SimView, id: u64) -> bool {
    &&& s.interpret_bumps().open_doors().unlock().handled.contains(id)
    &&& !s.interpret_bumps().open_doors().handled.contains(id)
}

/// Whether the fifth rule moved an actor for a bump with the id `id`.
pub open spec fn move_rule_acted(s: SimView, id: u64) -> bool {
    let c = s.interpret_bumps().open_doors().unlock().collect();
    exists|i: int|
        0 <= i < c.bumps.len() && (#[trigger] c.bumps[i]).id == id && bump_moves(
            c.map,
            c.bumps[i],
            c.handled,
        )
}

/// Claiming is exclusive: under one resolution id at most one of the rules
/// that open a door, use a key and move the actor acts in a turn, whatever is
/// queued.
pub proof fn lemma_rules_exclude_each_other(s: SimView, id: u64)
    ensures
        !(door_rule_claimed(s, id) && unlock_rule_claimed(s, id)),
        !(door_rule_claimed(s, id) && move_rule_acted(s, id)),
        !(unlock_rule_claimed(s, id) && move_rule_acted(s, id)),
{
    let a = s.interpret_bumps();
    let d = a.open_doors();
    let u = d.unlock();
    let c = u.collect();
    if door_rule_claimed(s, id) {
        assert(a.doors_opened().claims.to_set().contains(id));
        assert(d.handled.contains(id));
    }
    if d.handled.contains(id) {
        assert(u.handled.contains(id));
    }
    if u.handled.contains(id) {
        assert(c.handled.contains(id));
        assert(!move_rule_acted(s, id));
    }
}

/// Whether the second rule opened a door.
pub open spec fn door_was_opened(s: SimView) -> bool {
    s.interpret_bumps().doors_opened().claims.len() > 0
}

/// Whether the third rule unlocked a door for an actor with the key.
pub open spec fn key_was_used(s: SimView) -> bool {
    s.interpret_bumps().open_doors().unlock().unlock_directives.len()
        > s.interpret_bumps().open_doors().unlock_directives.len()
}

/// Whether the fifth rule moved an actor.
pub open spec fn actor_was_moved(s: SimView) -> bool {
    s.interpret_bumps().open_doors().unlock().collect().new_moves().len() > 0
}

/// A single bump has at most one outcome: in a turn that starts with one bump
/// and no attempt to unlock, at most one of the rules that open a door, use a
/// key and move the actor acts.
pub proof fn lemma_bump_has_one_outcome(s: SimView, b: BumpIntent)
    requires
        s.bumps == seq![b],
        s.unlocks.len() == 0,
    ensures
        !(door_was_opened(s) && key_was_used(s)),
        !(door_was_opened(s) && actor_was_moved(s)),
        !(key_was_used(s) && actor_was_moved(s)),
{
    let a = s.interpret_bumps();
    let d = a.open_doors();
    let u = d.unlock();
    let c = u.collect();
    // Every attempt to unlock carries the bump's id.
    assert forall|k: int| 0 <= k < a.unlocks.len() implies (#[trigger] a.unlocks[k]).id == b.id by {
        crate::game_systems::doors::lemma_door_unlocks_keep_id(
            s.doors,
            s.positions,
            b,
            s.doors.len() as int,
        );
        assert(bump_unlocks_prefix(s.doors, s.positions, s.bumps, s.handled, 0)
            =~= Seq::<UnlockIntent>::empty());
    }
    // An opened door claims the bump's id.
    if door_was_opened(s) {
        let after = a.doors_opened();
        crate::game_systems::doors::lemma_door_claims_were_unclaimed(
            a.door_stage(),
            a.map,
            a.positions,
            a.bumps,
            a.handled,
            a.bumps.len() as int,
        );
        let id = after.claims[0];
        assert(exists|i: int| 0 <= i < a.bumps.len() && (#[trigger] a.bumps[i]).id == id);
        assert(id == b.id);
        assert(after.claims.to_set().contains(id));
        assert(d.handled.contains(b.id));
        crate::game_systems::doors::lemma_claimed_unlocks_change_nothing(
            d.unlock_stage(),
            d.doors,
            d.items,
            d.unlocks,
        );
        assert(!key_was_used(s));
    }
    // A used key claims the bump's id.
    if key_was_used(s) {
        assert(u.handled.contains(b.id));
    }
    // Whoever claimed the id, the claim is still there when the last rule
    // looks at the bump.
    if u.handled.contains(b.id) {
        assert(c.handled.contains(b.id));
        crate::game_systems::bump::lemma_claimed_bumps_do_not_move(c.map, c.bumps, c.handled, 1);
        assert(!actor_was_moved(s));
    }
}

/// After the cleanup at the end of a turn no intent is queued and no id is
/// claimed, whatever the turn did.
pub proof fn lemma_end_turn_forgets(s: SimView, id: u64)
    ensures
        s.end_turn().bumps.len() == 0,
        s.end_turn().unlocks.len() == 0,
        s.end_turn().collects.len() == 0,
        !s.end_turn().handled.contains(id),
{
}

impl Simulation {
    /// The world is consistent.
    pub open spec fn wf(&self) -> bool {
        self@.wf()
    }

    /// A world without entities on the given map, at moment zero, with
    /// nothing queued and nothing claimed. The map has at least one tile.
    pub fn new(map: TileMap, log: NotificationLog) -> (r: Simulation)
        requires
            map.wf(),
            map.tiles@.len() > 0,
        ensures
            r.wf(),
            r@.has_ids_left(),
            r@.map == map@,
            r@.log == log@,
            r@.time == (TimeView {
                current_time: 0,
                ready: Seq::empty(),
                waiting: Seq::empty(),
                blocked: 0,
            }),
            r@.handled == Set::<u64>::empty(),
            r@.bumps.len() == 0 && r@.unlocks.len() == 0 && r@.collects.len() == 0,
            r@.moves.len() == 0 && r@.unlock_directives.len() == 0 && r@.notifications.len() == 0,
            r@.positions.len() == 0 && r@.doors.len() == 0 && r@.glyphs.len() == 0,
            r@.items.len() == 0 && r@.carries.len() == 0 && r@.cooldowns.len() == 0,
            r@.dirty,
            r@.next_id == 0,
    {
        Simulation {
            map,
            time: Time::new(),
            handled: ResolvedIntents::default(),
            bump_intents: VecDeque::new(),
            unlock_intents: VecDeque::new(),
            collect_intents: VecDeque::new(),
            move_directives: VecDeque::new(),
            unlock_directives: VecDeque::new(),
            notify_directives: VecDeque::new(),
            log,
            dirty: IsDirty(true),
            entities: Entities { next_id: 0 },
            positions: Storage::new(),
            doors: Storage::new(),
            glyphs: Storage::new(),
            items: Storage::new(),
            carries: Storage::new(),
            cooldowns: Storage::new(),
        }
    }

    /// Puts a closed door with the sign `sign` at `at`, drawn as `+`, under
    /// a new id. A lock names an item.
    pub fn spawn_door(&mut self, at: Point, sign: String, lock: Option<EntityId>) -> (id: EntityId)
        requires
            old(self).wf(),
            old(self)@.next_id < u64::MAX,
            lock is Some ==> has_id(old(self)@.items, lock.unwrap()),
        ensures
            final(self).wf(),
            id == EntityId(old(self)@.next_id as u64),
            final(self)@ == (SimView {
                next_id: old(self)@.next_id + 1,
                positions: inserted(old(self)@.positions, id, at),
                glyphs: inserted(
                    old(self)@.glyphs,
                    id,
                    Glyph { ch: '+', fg: Rgb::white(), bg: Rgb::black() },
                ),
                doors: inserted(
                    old(self)@.doors,
                    id,
                    DoorView { sign: sign@, is_closed: true, is_locked: lock },
                ),
                ..old(self)@
            }),
    {
        let id = self.entities.add_entity();
        proof {
            lemma_inserted(self@.positions, id, at);
            lemma_inserted(self@.glyphs, id, Glyph { ch: '+', fg: Rgb::white(), bg: Rgb::black() });
            lemma_inserted(
                self@.doors,
                id,
                DoorView { sign: sign@, is_closed: true, is_locked: lock },
            );
        }
        self.positions.insert(id, HasPosition(at));
        self.glyphs.insert(id, HasGlyph(Glyph::new('+')));
        self.doors.insert(id, IsDoor { sign, is_closed: true, is_locked: lock });
        id
    }

    /// Puts an item called `label` at `at`, drawn as `ch`, under a new id.
    pub fn spawn_item(&mut self, at: Point, label: String, ch: char) -> (id: EntityId)
        requires
            old(self).wf(),
            old(self)@.next_id < u64::MAX,
        ensures
            final(self).wf(),
            id == EntityId(old(self)@.next_id as u64),
            final(self)@ == (SimView {
                next_id: old(self)@.next_id + 1,
                positions: inserted(old(self)@.positions, id, at),
                glyphs: inserted(
                    old(self)@.glyphs,
                    id,
                    Glyph { ch, fg: Rgb::white(), bg: Rgb::black() },
                ),
                items: inserted(
                    old(self)@.items,
                    id,
                    ItemView { item: label@, is_collected: false },
                ),
                ..old(self)@
            }),
    {
        let id = self.entities.add_entity();
        proof {
            lemma_inserted(self@.positions, id, at);
            lemma_inserted(self@.glyphs, id, Glyph { ch, fg: Rgb::white(), bg: Rgb::black() });
            lemma_inserted(self@.items, id, ItemView { item: label@, is_collected: false });
        }
        self.positions.insert(id, HasPosition(at));
        self.glyphs.insert(id, HasGlyph(Glyph::new(ch)));
        self.items.insert(id, IsItem { item: label, is_collected: false });
        id
    }

    /// Puts an actor at `at`, drawn as `ch`, with the given cooldown, under a
    /// new id.
    pub fn spawn_actor(&mut self, at: Point, ch: char, cooldown: HasCooldown) -> (id: EntityId)
        requires
            old(self).wf(),
            old(self)@.next_id < u64::MAX,
        ensures
            final(self).wf(),
            id == EntityId(old(self)@.next_id as u64),
            final(self)@ == (SimView {
                next_id: old(self)@.next_id + 1,
                positions: inserted(old(self)@.positions, id, at),
                glyphs: inserted(
                    old(self)@.glyphs,
                    id,
                    Glyph { ch, fg: Rgb::white(), bg: Rgb::black() },
                ),
                cooldowns: inserted(old(self)@.cooldowns, id, cooldown),
                ..old(self)@
            }),
    {
        let id = self.entities.add_entity();
        proof {
            lemma_inserted(self@.positions, id, at);
            lemma_inserted(self@.glyphs, id, Glyph { ch, fg: Rgb::white(), bg: Rgb::black() });
            lemma_inserted(self@.cooldowns, id, cooldown);
        }
        self.positions.insert(id, HasPosition(at));
        self.glyphs.insert(id, HasGlyph(Glyph::new(ch)));
        self.cooldowns.insert(id, cooldown);
        id
    }

    /// Runs the five rules in their order, then the resolvers.
    pub fn run_automated_systems(&mut self)
        requires
            old(self).wf(),
            old(self)@.has_ids_left(),
        ensures
            final(self)@ == old(self)@.run_rules().resolve(),
            final(self).wf(),
            old(self)@.log.wf() ==> final(self)@.log.wf(),
    {
        let ghost s0 = self@;
        on_bump_interpret_as_door_unlock_intent(
            &self.doors,
            &self.positions,
            &self.bump_intents,
            &mut self.unlock_intents,
            &self.handled,
        );
        let ghost s1 = self@;
        assert(s1 == s0.interpret_bumps());
        on_bump_open_doors(
            &mut self.map,
            &self.positions,
            &mut self.doors,
            &mut self.glyphs,
            &self.bump_intents,
            &mut self.dirty,
            &mut self.handled,
            &mut self.time,
        );
        let ghost s2 = self@;
        proof {
            assert(s2.map =~= (MapView { tiles: s1.doors_opened().tiles, ..s1.map }));
            assert(s2 == s1.open_doors());
            assert(keys_are_items(s2.doors, s2.items)) by {
                assert forall|d: int|
                    0 <= d < s2.doors.len() && (#[trigger] s2.doors[d]).1.is_locked is Some
                    implies has_id(s2.items, s2.doors[d].1.is_locked.unwrap()) by {
                    assert(s1.doors[d].1.is_locked == s2.doors[d].1.is_locked);
                }
            }
            assert forall|i: int| 0 <= i < s2.unlock_directives.len() implies has_id(
                s2.doors,
                (#[trigger] s2.unlock_directives[i]).0,
            ) by {
                lemma_same_doors_same_ids(
                    s1.door_stage(),
                    s1.doors_opened(),
                    s2.unlock_directives[i].0,
                );
            }
        }
        on_unlock_if_has_key_for_door(
            &self.items,
            &mut self.carries,
            &self.doors,
            &self.unlock_intents,
            &mut self.unlock_directives,
            &mut self.notify_directives,
            &mut self.log,
            &mut self.handled,
            &mut self.time,
        );
        let ghost s3 = self@;
        proof {
            assert(s3 == s2.unlock());
            assert forall|i: int| 0 <= i < s3.carries.len() implies (#[trigger] s3.carries[i]).0.0
                < s3.next_id by {
                let e = s3.carries[i].0;
                assert(has_id(s2.carries, e));
                let k = choose|k: int| 0 <= k < s2.carries.len() && (#[trigger] s2.carries[k]).0 == e;
                assert(s2.carries[k].0.0 < s2.next_id);
            }
            assert forall|i: int| 0 <= i < s3.unlock_directives.len() implies has_id(
                s3.doors,
                (#[trigger] s3.unlock_directives[i]).0,
            ) by {
                if i < s2.unlock_directives.len() {
                    assert(s3.unlock_directives[i] == s2.unlock_directives[i]);
                }
            }
        }
        on_collect_if_possible(
            &mut self.items,
            &mut self.positions,
            &mut self.carries,
            &self.collect_intents,
            &mut self.log,
            &mut self.dirty,
            &mut self.entities,
            &mut self.handled,
            &mut self.time,
        );
        let ghost s4 = self@;
        assert(s4 == s3.collect());
        on_bump_move_if_empty(
            &self.map,
            &self.bump_intents,
            &mut self.move_directives,
            &self.handled,
            &mut self.time,
        );
        let ghost s5 = self@;
        assert(s5 == s4.move_on_bump());
        proof {
            crate::game_systems::directives::lemma_apply_unlocks_keeps_doors(
                s5.unlock_directives,
                s5.doors,
            );
            assert(keys_are_items(s3.doors, s3.items));
            assert(forall|e: EntityId| has_id(s5.items, e) == has_id(s3.items, e));
        }
        resolve_move_directives(&mut self.move_directives, &mut self.positions, &mut self.dirty);
        resolve_unlock_directive(&mut self.unlock_directives, &mut self.doors, &mut self.dirty);
        resolve_notify_if_entity_alive_directives(
            &mut self.notify_directives,
            &mut self.log,
            &self.handled,
        );
        proof {
            assert(self@.moves =~= Seq::empty());
            assert(self@.unlock_directives =~= Seq::empty());
            assert(self@.notifications =~= Seq::empty());
            assert(self@ == s5.resolve());
            assert(keys_are_items(self@.doors, self@.items)) by {
                assert forall|d: int|
                    0 <= d < self@.doors.len() && (#[trigger] self@.doors[d]).1.is_locked is Some
                    implies has_id(self@.items, self@.doors[d].1.is_locked.unwrap()) by {
                    assert(s5.doors[d].1.is_locked == self@.doors[d].1.is_locked);
                    assert(s3.doors[d] == s5.doors[d]);
                }
            }
        }
    }

    /// Ends the turn: forgets all intents and claims, and charges the actors
    /// in the wait queue for their actions. No charge takes a cooldown beyond
    /// what its counter holds.
    pub fn end_turn(&mut self)
        requires
            distinct_ids(old(self)@.cooldowns),
            delays_fit(old(self)@.cooldowns, old(self)@.time.waiting),
        ensures
            final(self)@ == old(self)@.end_turn(),
            old(self).wf() ==> final(self).wf(),
            final(self)@.has_ids_left() == (final(self)@.next_id < u64::MAX),
            final(self)@.bumps.len() == 0,
            final(self)@.unlocks.len() == 0,
            final(self)@.collects.len() == 0,
            forall|id: u64| !final(self)@.handled.contains(id),
            final(self)@.time.waiting.len() == 0,
            distinct_ids(final(self)@.cooldowns),
    {
        delete_intents(
            &mut self.bump_intents,
            &mut self.unlock_intents,
            &mut self.collect_intents,
            &mut self.handled,
        );
        update_cooldowns_after_actions(&mut self.time, &mut self.cooldowns);
        proof {
            assert(self@.bumps =~= Seq::empty());
            assert(self@.unlocks =~= Seq::empty());
            assert(self@.collects =~= Seq::empty());
        }
    }
}

} // verus!
