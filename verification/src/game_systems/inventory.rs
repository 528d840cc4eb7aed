//! Items, who carries them, and the rule that picks them up.
use vstd::prelude::*;
use vstd::string::StringExecFns;
use std::collections::VecDeque;
use crate::commands::GameplayContext;
use crate::entity::EntityId;
use crate::entity::HasPosition;
use crate::entity::IsDirty;
use crate::entity::Player;
use crate::entity::Point;
use crate::game_systems::intents::unclaimed_prefix;
use crate::game_systems::intents::CollectIntent;
use crate::game_systems::intents::ResolvedIntents;
use crate::game_systems::notifications::LogView;
use crate::game_systems::notifications::NotificationLog;
use crate::game_systems::notifications::lemma_write_keeps_wf;
use crate::store::distinct_ids;
use crate::store::has_id;
use crate::store::index_of;
use crate::store::lookup;
use crate::store::Storage;
use crate::time::Time;
use crate::time::TimeView;

verus! {

/// What an item is called.
pub type Item = String;

/// An item and whether somebody picked it up.
pub struct IsItem {
    pub item: Item,
    pub is_collected: bool,
}

/// What contracts say of an item.
pub struct ItemView {
    pub item: Seq<char>,
    pub is_collected: bool,
}

impl View for IsItem {
    type V = ItemView;

    open spec fn view(&self) -> ItemView {
        ItemView { item: self.item@, is_collected: self.is_collected }
    }
}

/// The relation "owner possesses item".
#[derive(Clone, Copy, Debug, PartialEq, Eq, Structural)]
pub struct CarriesItem {
    pub owner: EntityId,
    pub item: EntityId,
}

impl View for CarriesItem {
    type V = CarriesItem;

    open spec fn view(&self) -> CarriesItem {
        *self
    }
}

/// Hands out the ids of new entities, in ascending order.
pub struct Entities {
    pub next_id: u64,
}

impl Entities {
    /// Every entity of `s` was handed out before.
    pub open spec fn covers<V>(&self, s: Seq<(EntityId, V)>) -> bool {
        forall|i: int| 0 <= i < s.len() ==> (#[trigger] s[i]).0.0 < self.next_id
    }

    /// The id of a new entity.
    pub fn add_entity(&mut self) -> (id: EntityId)
        requires
            old(self).next_id < u64::MAX,
        ensures
            id == EntityId(old(self).next_id),
            final(self).next_id == old(self).next_id + 1,
    {
        let id = EntityId(self.next_id);
        self.next_id = self.next_id + 1;
        id
    }
}

/// The message written when an item called `label` is picked up.
pub open spec fn collected_message(label: Seq<char>) -> Seq<char> {
    "Collected "@ + label + "."@
}

/// What the collect rule works on, as contracts see it.
pub struct CollectStage {
    pub items: Seq<(EntityId, ItemView)>,
    pub positions: Seq<(EntityId, Point)>,
    pub carries: Seq<(EntityId, CarriesItem)>,
    pub log: LogView,
    /// The id that the next new entity gets.
    pub next_id: int,
    /// The ids that the rule claimed, in the order of claiming; one for
    /// each item picked up.
    pub claims: Seq<u64>,
}

/// The positions without the one of `id`.
pub open spec fn without_id<V>(s: Seq<(EntityId, V)>, id: EntityId) -> Seq<(EntityId, V)> {
    if has_id(s, id) {
        s.remove(index_of(s, id))
    } else {
        s
    }
}

/// Whether the collect intent `c` can be honoured: its item exists and nobody
/// picked it up yet.
pub open spec fn can_collect(s: CollectStage, c: CollectIntent) -> bool {
    has_id(s.items, c.item) && !s.items[index_of(s.items, c.item)].1.is_collected
}

/// The stage after the collect intent `c` was looked at. An item that can be
/// collected is marked so and loses its position, a relation between
/// collector and item comes into being under a new id, the log is told, and
/// the intent's id is claimed. Otherwise nothing changes.
pub open spec fn collect_one(s: CollectStage, c: CollectIntent) -> CollectStage {
    if can_collect(s, c) {
        let i = index_of(s.items, c.item);
        CollectStage {
            items: s.items.update(i, (c.item, ItemView { is_collected: true, ..s.items[i].1 })),
            positions: without_id(s.positions, c.item),
            carries: s.carries.push(
                (EntityId(s.next_id as u64), CarriesItem { owner: c.collector, item: c.item }),
            ),
            log: s.log.write(collected_message(s.items[i].1.item)),
            next_id: s.next_id + 1,
            claims: s.claims.push(c.id),
        }
    } else {
        s
    }
}

/// The stage after the first `n` collect intents were looked at, skipping
/// those whose id was claimed before the stage began.
pub open spec fn collect_prefix(
    s: CollectStage,
    collects: Seq<CollectIntent>,
    handled: Set<u64>,
    n: int,
) -> CollectStage
    decreases n,
{
    if n <= 0 {
        s
    } else {
        let prev = collect_prefix(s, collects, handled, n - 1);
        if handled.contains(collects[n - 1].id) {
            prev
        } else {
            collect_one(prev, collects[n - 1])
        }
    }
}

/// The stage after all collect intents were looked at.
pub open spec fn collect_all(s: CollectStage, collects: Seq<CollectIntent>, handled: Set<u64>)
    -> CollectStage {
    collect_prefix(s, collects, handled, collects.len() as int)
}

/// A collect intent whose id is claimed, or whose item is already collected
/// or gone, changes nothing.
pub proof fn lemma_collected_item_is_left_alone(
    s: CollectStage,
    c: CollectIntent,
    handled: Set<u64>,
)
    requires
        handled.contains(c.id) || !has_id(s.items, c.item) || s.items[index_of(
            s.items,
            c.item,
        )].1.is_collected,
    ensures
        collect_all(s, seq![c], handled) == s,
{
    assert(collect_prefix(s, seq![c], handled, 0) == s);
}

/// What the first `n` collect intents do depends on those intents alone.
proof fn lemma_collects_of_equal_prefixes(
    s: CollectStage,
    a: Seq<CollectIntent>,
    b: Seq<CollectIntent>,
    handled: Set<u64>,
    n: int,
)
    requires
        0 <= n <= a.len(),
        n <= b.len(),
        forall|i: int| 0 <= i < n ==> a[i] == b[i],
    ensures
        collect_prefix(s, a, handled, n) == collect_prefix(s, b, handled, n),
    decreases n,
{
    if n > 0 {
        lemma_collects_of_equal_prefixes(s, a, b, handled, n - 1);
    }
}

/// A collect intent with a claimed id might as well not be queued: the rule
/// does for the queue what it does for the intents with unclaimed ids alone.
pub proof fn lemma_claimed_collects_are_as_absent(
    s: CollectStage,
    collects: Seq<CollectIntent>,
    handled: Set<u64>,
    n: int,
)
    requires
        0 <= n <= collects.len(),
    ensures
        collect_prefix(s, collects, handled, n) == collect_prefix(
            s,
            unclaimed_prefix(collects, handled, n),
            handled,
            unclaimed_prefix(collects, handled, n).len() as int,
        ),
    decreases n,
{
    if n > 0 {
        lemma_claimed_collects_are_as_absent(s, collects, handled, n - 1);
        let rest = unclaimed_prefix(collects, handled, n - 1);
        let all = unclaimed_prefix(collects, handled, n);
        if !handled.contains(collects[n - 1].id) {
            lemma_collects_of_equal_prefixes(s, rest, all, handled, rest.len() as int);
        }
    }
}

/// Intents whose ids are all claimed change nothing.
pub proof fn lemma_claimed_collects_change_nothing(
    s: CollectStage,
    collects: Seq<CollectIntent>,
    handled: Set<u64>,
    n: int,
)
    requires
        0 <= n <= collects.len(),
        forall|i: int| 0 <= i < collects.len() ==> handled.contains((#[trigger] collects[i]).id),
    ensures
        collect_prefix(s, collects, handled, n) == s,
    decreases n,
{
    if n > 0 {
        lemma_claimed_collects_change_nothing(s, collects, handled, n - 1);
    }
}

/// Whether one of the first `n` collect intents has an unclaimed id and
/// names the item `id`.
pub open spec fn is_wanted(collects: Seq<CollectIntent>, handled: Set<u64>, n: int, id: EntityId)
    -> bool {
    exists|i: int| 0 <= i < n && !handled.contains((#[trigger] collects[i]).id) && collects[i].item
        == id
}

/// Which items the rule picks up: after it, an item is collected exactly if
/// it was collected before or a collect intent with an unclaimed id names it.
/// The items, their names and their order are as they were.
pub proof fn lemma_items_collected_exactly(
    s: CollectStage,
    collects: Seq<CollectIntent>,
    handled: Set<u64>,
    n: int,
)
    requires
        0 <= n <= collects.len(),
        distinct_ids(s.items),
    ensures
        collect_prefix(s, collects, handled, n).items.len() == s.items.len(),
        distinct_ids(collect_prefix(s, collects, handled, n).items),
        forall|k: int|
            0 <= k < s.items.len() ==> {
                let after = #[trigger] collect_prefix(s, collects, handled, n).items[k];
                &&& after.0 == s.items[k].0
                &&& after.1.item == s.items[k].1.item
                &&& after.1.is_collected == (s.items[k].1.is_collected || is_wanted(
                    collects,
                    handled,
                    n,
                    s.items[k].0,
                ))
            },
    decreases n,
{
    if n > 0 {
        lemma_items_collected_exactly(s, collects, handled, n - 1);
        let prev = collect_prefix(s, collects, handled, n - 1);
        let cur = collect_prefix(s, collects, handled, n);
        let c = collects[n - 1];
        if !handled.contains(c.id) && can_collect(prev, c) {
            let i = index_of(prev.items, c.item);
            crate::store::lemma_update_keeps_ids(
                prev.items,
                i,
                ItemView { is_collected: true, ..prev.items[i].1 },
            );
        }
        assert forall|k: int| 0 <= k < s.items.len() implies {
            let after = #[trigger] cur.items[k];
            &&& after.0 == s.items[k].0
            &&& after.1.item == s.items[k].1.item
            &&& after.1.is_collected == (s.items[k].1.is_collected || is_wanted(
                collects,
                handled,
                n,
                s.items[k].0,
            ))
        } by {
            let id = s.items[k].0;
            assert(prev.items[k].0 == id);
            let before = is_wanted(collects, handled, n - 1, id);
            let hit = !handled.contains(c.id) && c.item == id;
            assert(is_wanted(collects, handled, n, id) == (before || hit)) by {
                if before {
                    let i = choose|i: int|
                        0 <= i < n - 1 && !handled.contains((#[trigger] collects[i]).id)
                            && collects[i].item == id;
                    assert(!handled.contains(collects[i].id));
                }
                if hit {
                    assert(!handled.contains(collects[n - 1].id));
                }
            }
            if hit {
                crate::store::lemma_lookup_at(prev.items, k);
            }
        }
    }
}

/// The collect rule claims only ids that were unclaimed when it began.
pub proof fn lemma_collect_claims_were_unclaimed(
    s: CollectStage,
    collects: Seq<CollectIntent>,
    handled: Set<u64>,
    n: int,
)
    requires
        0 <= n <= collects.len(),
    ensures
        s.claims.len() <= collect_prefix(s, collects, handled, n).claims.len(),
        forall|k: int|
            0 <= k < s.claims.len() ==> collect_prefix(s, collects, handled, n).claims[k]
                == s.claims[k],
        forall|k: int|
            s.claims.len() <= k < collect_prefix(s, collects, handled, n).claims.len()
                ==> !handled.contains(#[trigger] collect_prefix(s, collects, handled, n).claims[k]),
    decreases n,
{
    if n > 0 {
        lemma_collect_claims_were_unclaimed(s, collects, handled, n - 1);
        let prev = collect_prefix(s, collects, handled, n - 1);
        let cur = collect_prefix(s, collects, handled, n);
        assert forall|k: int| s.claims.len() <= k < cur.claims.len() implies !handled.contains(
            #[trigger] cur.claims[k],
        ) by {
            if k < prev.claims.len() {
                assert(cur.claims[k] == prev.claims[k]);
            }
        }
    }
}

/// Looks at every collect intent that was unclaimed when the rule began. An
/// item that exists and is not collected yet is picked up: it is marked
/// collected, leaves the map, and a new relation records who carries it; the
/// log is told, the intent is claimed, the world is marked dirty and the
/// current actor's turn ends at the price of a tick.
pub fn on_collect_if_possible(
    items: &mut Storage<IsItem>,
    has_position: &mut Storage<HasPosition>,
    carries_item: &mut Storage<CarriesItem>,
    collect_intents: &VecDeque<CollectIntent>,
    log: &mut NotificationLog,
    is_dirty: &mut IsDirty,
    entities: &mut Entities,
    handled: &mut ResolvedIntents,
    time: &mut Time,
)
    requires
        old(items).wf(),
        old(has_position).wf(),
        old(carries_item).wf(),
        old(entities).covers(old(carries_item)@),
        old(entities).next_id + collect_intents@.len() < u64::MAX,
    ensures
        final(items).wf(),
        final(has_position).wf(),
        final(carries_item).wf(),
        final(entities).covers(final(carries_item)@),
        old(log)@.wf() ==> final(log)@.wf(),
        forall|e: EntityId| has_id(final(items)@, e) == has_id(old(items)@, e),
        ({
            let before = CollectStage {
                items: old(items)@,
                positions: old(has_position)@,
                carries: old(carries_item)@,
                log: old(log)@,
                next_id: old(entities).next_id as int,
                claims: Seq::empty(),
            };
            let after = collect_all(before, collect_intents@, old(handled)@);
            &&& final(items)@ == after.items
            &&& final(has_position)@ == after.positions
            &&& final(carries_item)@ == after.carries
            &&& final(log)@ == after.log
            &&& final(entities).next_id == after.next_id
            &&& final(handled)@ == old(handled)@.union(after.claims.to_set())
            &&& final(time)@ == old(time)@.push_back_times(Time::TICK, after.claims.len())
            &&& final(is_dirty).0 == (old(is_dirty).0 || after.claims.len() > 0)
        }),
        final(items)@.len() == old(items)@.len(),
        forall|k: int|
            0 <= k < old(items)@.len() ==> (#[trigger] final(items)@[k]).1.is_collected == (old(
                items,
            )@[k].1.is_collected || is_wanted(
                collect_intents@,
                old(handled)@,
                collect_intents@.len() as int,
                old(items)@[k].0,
            )),
{
    let ghost before = CollectStage {
        items: items@,
        positions: has_position@,
        carries: carries_item@,
        log: log@,
        next_id: entities.next_id as int,
        claims: Seq::empty(),
    };
    let mut resolved: Vec<u64> = Vec::new();
    let n = collect_intents.len();
    let mut k: usize = 0;
    while k < n
        invariant
            n == collect_intents@.len(),
            k <= n,
            items.wf(),
            has_position.wf(),
            carries_item.wf(),
            entities.covers(carries_item@),
            entities.next_id + (n - k) < u64::MAX,
            old(log)@.wf() ==> log@.wf(),
            handled@ == old(handled)@,
            forall|e: EntityId| has_id(items@, e) == has_id(old(items)@, e),
            ({
                let s = collect_prefix(before, collect_intents@, old(handled)@, k as int);
                &&& items@ == s.items
                &&& has_position@ == s.positions
                &&& carries_item@ == s.carries
                &&& log@ == s.log
                &&& entities.next_id == s.next_id
                &&& resolved@ == s.claims
                &&& time@ == old(time)@.push_back_times(Time::TICK, s.claims.len())
                &&& is_dirty.0 == (old(is_dirty).0 || s.claims.len() > 0)
            }),
        decreases n - k,
    {
        let collect = collect_intents[k];
        let ghost s = collect_prefix(before, collect_intents@, old(handled)@, k as int);
        if handled.not_handled(collect) {
            match items.find(collect.item) {
                Some(i) => {
                    let item = items.value_at(i);
                    if !item.is_collected {
                        let label = item.item.clone();
                        let mut msg = String::from_str("Collected ");
                        msg.append(label.as_str());
                        msg.append(".");
                        assert(msg@ =~= collected_message(s.items[i as int].1.item));
                        has_position.remove(collect.item);
                        proof {
                            crate::store::lemma_update_keeps_ids(
                                items@,
                                i as int,
                                ItemView { item: label@, is_collected: true },
                            );
                        }
                        items.set_value_at(i, IsItem { item: label, is_collected: true });
                        proof {
                            lemma_write_keeps_wf_if(log@, msg@);
                        }
                        log.write(msg);
                        let carry = CarriesItem { owner: collect.collector, item: collect.item };
                        let ghost carries_before = carries_item@;
                        let id = entities.add_entity();
                        assert(!has_id(carries_before, id));
                        carries_item.insert(id, carry);
                        resolved.push(collect.id);
                        is_dirty.0 = true;
                        time.push_current_back(Time::TICK);
                        assert(carries_item@ == carries_before.push((id, carry)));
                        assert(forall|j: int|
                            0 <= j < carries_before.len() ==> carries_item@[j]
                                == carries_before[j]);
                    }
                },
                None => {},
            }
        }
        k = k + 1;
    }
    handled.claim_all(&resolved);
    proof {
        lemma_items_collected_exactly(before, collect_intents@, old(handled)@, n as int);
    }
}

/// A write keeps a well-formed log well-formed; of another log nothing is
/// said.
proof fn lemma_write_keeps_wf_if(v: LogView, msg: Seq<char>)
    ensures
        v.wf() ==> v.write(msg).wf(),
{
    if v.wf() {
        lemma_write_keeps_wf(v, msg);
    }
}

/// Among the first `n` items, those that lie at `at`, each as a collect
/// intent of `collector` with the resolution id `id`, in the order of the
/// items.
pub open spec fn pickups_prefix(
    items: Seq<(EntityId, ItemView)>,
    positions: Seq<(EntityId, Point)>,
    at: Point,
    collector: EntityId,
    id: u64,
    n: int,
) -> Seq<CollectIntent>
    decreases n,
{
    if n <= 0 {
        Seq::empty()
    } else {
        let prev = pickups_prefix(items, positions, at, collector, id, n - 1);
        if lookup(positions, items[n - 1].0) == Some(at) {
            prev.push(CollectIntent { id, collector, item: items[n - 1].0 })
        } else {
            prev
        }
    }
}

/// Whether the pick-up key counts: there is a player, it is the player's
/// turn, and the key is pressed.
pub open spec fn player_picks_up(pickup_pressed: bool, player: Player, time: TimeView) -> bool {
    &&& pickup_pressed
    &&& player.entity is Some
    &&& time.ready.len() > 0
    &&& time.ready[0] == player.entity.unwrap()
}

/// Turns the pick-up key into collect intents of the player: one for each
/// item that lies where the player stands, tagged with the current moment.
/// Unless it is the player's turn and the key is pressed, nothing is added.
/// A player whose turn it is has a position.
pub fn interpret_player_input_as_pickup(
    pickup_pressed: bool,
    player: &Player,
    items: &Storage<IsItem>,
    positions: &Storage<HasPosition>,
    collects: &mut VecDeque<CollectIntent>,
    time: &Time,
)
    requires
        positions.wf(),
        player_picks_up(pickup_pressed, *player, time@) ==> has_id(
            positions@,
            player.entity.unwrap(),
        ),
    ensures
        final(collects)@ == if player_picks_up(pickup_pressed, *player, time@) {
            old(collects)@ + pickups_prefix(
                items@,
                positions@,
                positions@[index_of(positions@, player.entity.unwrap())].1,
                player.entity.unwrap(),
                time.current_time,
                items@.len() as int,
            )
        } else {
            old(collects)@
        },
{
    if let Some(entity) = player.entity {
        if pickup_pressed && time.is_current(entity) {
            let player_pos = match positions.get(entity) {
                Some(p) => p.0,
                None => {
                    return ;
                },
            };
            let n = items.len();
            let mut i: usize = 0;
            assert(old(collects)@ + Seq::<CollectIntent>::empty() =~= old(collects)@);
            while i < n
                invariant
                    n == items@.len(),
                    i <= n,
                    positions.wf(),
                    collects@ == old(collects)@ + pickups_prefix(
                        items@,
                        positions@,
                        player_pos,
                        entity,
                        time.current_time,
                        i as int,
                    ),
                decreases n - i,
            {
                let item_id = items.id_at(i);
                let ghost prev = pickups_prefix(
                    items@,
                    positions@,
                    player_pos,
                    entity,
                    time.current_time,
                    i as int,
                );
                match positions.get(item_id) {
                    Some(pos) => {
                        if pos.0 == player_pos {
                            let intent = CollectIntent {
                                id: time.current_time,
                                item: item_id,
                                collector: entity,
                            };
                            collects.push_back(intent);
                            assert(collects@ =~= old(collects)@ + prev.push(intent));
                        }
                    },
                    None => {},
                }
                i = i + 1;
            }
        }
    }
}

/// Opens the inventory on its key in the main game, and closes it again on
/// the escape key; either marks the world dirty. Returns whether the escape
/// key was used up.
pub fn interpret_player_input_as_inventory_access(
    inventory_pressed: bool,
    escape_pressed: bool,
    dirty: &mut IsDirty,
    context: &mut GameplayContext,
) -> (escape_consumed: bool)
    ensures
        *final(context) == match *old(context) {
            GameplayContext::MainGame => if inventory_pressed {
                GameplayContext::Inventory
            } else {
                GameplayContext::MainGame
            },
            GameplayContext::Inventory => if escape_pressed {
                GameplayContext::MainGame
            } else {
                GameplayContext::Inventory
            },
        },
        final(dirty).0 == (old(dirty).0 || *final(context) != *old(context)),
        escape_consumed == (*old(context) == GameplayContext::Inventory && escape_pressed),
{
    match *context {
        GameplayContext::MainGame => {
            if inventory_pressed {
                *context = GameplayContext::Inventory;
                dirty.0 = true;
            }
            false
        },
        GameplayContext::Inventory => {
            if escape_pressed {
                *context = GameplayContext::MainGame;
                dirty.0 = true;
                true
            } else {
                false
            }
        },
    }
}

} // verus!
