//! The scheduler's per-frame work: advancing the clock, readying actors whose
//! cooldown ran out, and charging actors for the time their actions took.
use vstd::prelude::*;
use std::collections::VecDeque;
use crate::entity::EntityId;
use crate::entity::HasCooldown;
use crate::entity::HasPosition;
use crate::entity::IsDirty;
use crate::entity::Player;
use crate::entity::Point;
use crate::game::FlagAnimationDone;
use crate::game_systems::intents::BumpIntent;
use crate::input::MovementKeys;
use crate::store::has_id;
use crate::store::index_of;
use crate::store::Storage;
use crate::time::Interval;
use crate::time::Time;
use crate::time::TimeView;

verus! {

/// A cooldown one moment later: the time left goes down by one, but not below
/// zero.
pub open spec fn cooled(c: HasCooldown) -> HasCooldown {
    HasCooldown {
        duration: if c.duration > 0 {
            (c.duration - 1) as u16
        } else {
            0
        },
        ..c
    }
}

/// Every cooldown one moment later.
pub open spec fn cool_all(s: Seq<(EntityId, HasCooldown)>) -> Seq<(EntityId, HasCooldown)> {
    Seq::new(s.len(), |i: int| (s[i].0, cooled(s[i].1)))
}

/// Among the first `n` entries of `s`, the actors with no time left, in the
/// order of `s`.
pub open spec fn ready_prefix(s: Seq<(EntityId, HasCooldown)>, n: int) -> Seq<EntityId>
    decreases n,
{
    if n <= 0 {
        Seq::empty()
    } else if s[n - 1].1.duration == 0 {
        ready_prefix(s, n - 1).push(s[n - 1].0)
    } else {
        ready_prefix(s, n - 1)
    }
}

/// The actors of `s` with no time left, in the order of `s`.
pub open spec fn ready_actors(s: Seq<(EntityId, HasCooldown)>) -> Seq<EntityId> {
    ready_prefix(s, s.len() as int)
}

/// An actor is among the ready ones exactly if an entry of it has no time
/// left.
pub proof fn lemma_ready_prefix_members(s: Seq<(EntityId, HasCooldown)>, n: int, id: EntityId)
    requires
        0 <= n <= s.len(),
    ensures
        ready_prefix(s, n).contains(id) <==> exists|i: int|
            0 <= i < n && (#[trigger] s[i]).0 == id && s[i].1.duration == 0,
    decreases n,
{
    if n > 0 {
        lemma_ready_prefix_members(s, n - 1, id);
        let prev = ready_prefix(s, n - 1);
        let cur = ready_prefix(s, n);
        if s[n - 1].1.duration == 0 {
            assert(cur == prev.push(s[n - 1].0));
            if cur.contains(id) {
                let k = choose|k: int| 0 <= k < cur.len() && cur[k] == id;
                if k < prev.len() {
                    assert(prev[k] == id);
                    assert(prev.contains(id));
                } else {
                    assert(s[n - 1].0 == id);
                }
            }
            if exists|i: int| 0 <= i < n && (#[trigger] s[i]).0 == id && s[i].1.duration == 0 {
                let i = choose|i: int|
                    0 <= i < n && (#[trigger] s[i]).0 == id && s[i].1.duration == 0;
                if i < n - 1 {
                    assert(prev.contains(id));
                    let k = choose|k: int| 0 <= k < prev.len() && prev[k] == id;
                    assert(cur[k] == id);
                } else {
                    assert(cur[prev.len() as int] == id);
                }
            }
        }
    }
}

/// The clock after a frame of the scheduler, given the cooldowns before it.
///
/// The frame counts as one more frame of waiting. With nobody ready the clock
/// advances by one moment and the ready queue is refilled with every actor
/// whose cooldown is at zero after this pass. Otherwise the clock stands,
/// and the current actor's turn is ended by force, at the price of a tick, if
/// the clock has waited on it for longer than the actor allows.
pub open spec fn clock_after_frame(t: TimeView, c: Seq<(EntityId, HasCooldown)>) -> TimeView {
    let waited = t.tick_blocked_time();
    if t.ready.len() == 0 {
        TimeView { ready: ready_actors(cool_all(c)), ..waited.tick() }
    } else {
        match c[index_of(c, t.ready[0])].1.skip_after {
            Some(limit) => if waited.blocked > limit {
                waited.push_current_back(Time::TICK)
            } else {
                waited
            },
            None => waited,
        }
    }
}

/// The cooldowns after a frame of the scheduler: one moment later if the clock
/// advanced, unchanged if it stood.
pub open spec fn cooldowns_after_frame(t: TimeView, c: Seq<(EntityId, HasCooldown)>) -> Seq<
    (EntityId, HasCooldown),
> {
    if t.ready.len() == 0 {
        cool_all(c)
    } else {
        c
    }
}

/// One frame of the scheduler. The current actor, if there is one, has a
/// cooldown.
pub fn update_time(timeline: &mut Time, cooldowns: &mut Storage<HasCooldown>)
    requires
        old(cooldowns).wf(),
        old(timeline).time_blocked_on_same_entity < u64::MAX,
        old(timeline)@.ready.len() == 0 ==> old(timeline).current_time < u64::MAX,
        old(timeline)@.ready.len() > 0 ==> has_id(old(cooldowns)@, old(timeline)@.ready[0]),
    ensures
        final(cooldowns).wf(),
        final(timeline)@ == clock_after_frame(old(timeline)@, old(cooldowns)@),
        final(cooldowns)@ == cooldowns_after_frame(old(timeline)@, old(cooldowns)@),
        old(timeline)@.ready.len() > 0 ==> final(timeline)@.current_time == old(
            timeline,
        )@.current_time,
        old(timeline)@.ready.len() == 0 ==> {
            &&& final(timeline)@.current_time == old(timeline)@.current_time + 1
            &&& forall|id: EntityId| #[trigger]
                final(timeline)@.ready.contains(id) <==> exists|i: int|
                    0 <= i < final(cooldowns)@.len() && (#[trigger] final(cooldowns)@[i]).0 == id
                        && final(cooldowns)@[i].1.duration == 0
        },
{
    timeline.tick_blocked_time();
    if timeline.action_queue.len() == 0 {
        timeline.tick();
        let n = cooldowns.len();
        let mut i: usize = 0;
        while i < n
            invariant
                n == old(cooldowns)@.len(),
                i <= n,
                cooldowns@.len() == n,
                forall|k: int| 0 <= k < i ==> cooldowns@[k] == cool_all(old(cooldowns)@)[k],
                forall|k: int| i <= k < n ==> cooldowns@[k] == old(cooldowns)@[k],
                timeline@ == (TimeView {
                    ready: ready_prefix(cool_all(old(cooldowns)@), i as int),
                    ..old(timeline)@.tick_blocked_time().tick()
                }),
            decreases n - i,
        {
            let id = cooldowns.id_at(i);
            let c = *cooldowns.value_at(i);
            let left: u16 = if c.duration > 0 {
                c.duration - 1
            } else {
                0
            };
            cooldowns.set_value_at(i, HasCooldown { duration: left, skip_after: c.skip_after });
            if left == 0 {
                timeline.enqueue(id);
            }
            i = i + 1;
        }
        proof {
            assert(cooldowns@ =~= cool_all(old(cooldowns)@));
            assert forall|a: int, b: int|
                0 <= a < cooldowns@.len() && 0 <= b < cooldowns@.len() && (
                #[trigger] cooldowns@[a]).0 == (#[trigger] cooldowns@[b]).0 implies a == b by {
                assert(old(cooldowns)@[a].0 == old(cooldowns)@[b].0);
            }
            assert forall|id: EntityId| #[trigger]
                timeline@.ready.contains(id) <==> exists|i: int|
                    0 <= i < cooldowns@.len() && (#[trigger] cooldowns@[i]).0 == id
                        && cooldowns@[i].1.duration == 0 by {
                lemma_ready_prefix_members(cooldowns@, n as int, id);
            }
        }
    } else {
        let current = timeline.peek_current();
        match cooldowns.get(current) {
            Some(cooldown) => {
                if let Some(skip_after) = cooldown.skip_after {
                    if timeline.is_blocked_for_longer_than(skip_after) {
                        timeline.push_current_back(Time::TICK);
                    }
                }
            },
            None => {},
        }
    }
}

/// The cooldowns after `id` was charged the delay `t`; an entity without a
/// cooldown is charged nothing.
pub open spec fn add_delay(c: Seq<(EntityId, HasCooldown)>, id: EntityId, t: Interval) -> Seq<
    (EntityId, HasCooldown),
> {
    if has_id(c, id) {
        let i = index_of(c, id);
        c.update(i, (id, HasCooldown { duration: (c[i].1.duration + t) as u16, ..c[i].1 }))
    } else {
        c
    }
}

/// The cooldowns after every entry of the wait queue, front first, was
/// charged to its actor.
pub open spec fn apply_delays(c: Seq<(EntityId, HasCooldown)>, w: Seq<(EntityId, Interval)>)
    -> Seq<(EntityId, HasCooldown)>
    decreases w.len(),
{
    if w.len() == 0 {
        c
    } else {
        apply_delays(add_delay(c, w[0].0, w[0].1), w.drop_first())
    }
}

/// Charging the wait queue never takes a cooldown beyond what its counter
/// holds.
pub open spec fn delays_fit(c: Seq<(EntityId, HasCooldown)>, w: Seq<(EntityId, Interval)>) -> bool
    decreases w.len(),
{
    if w.len() == 0 {
        true
    } else {
        &&& has_id(c, w[0].0) ==> c[index_of(c, w[0].0)].1.duration + w[0].1 <= u16::MAX
        &&& delays_fit(add_delay(c, w[0].0, w[0].1), w.drop_first())
    }
}

/// Charging a delay changes no actor's identity.
pub proof fn lemma_add_delay_keeps_ids(c: Seq<(EntityId, HasCooldown)>, id: EntityId, t: Interval)
    requires
        crate::store::distinct_ids(c),
    ensures
        crate::store::distinct_ids(add_delay(c, id, t)),
        add_delay(c, id, t).len() == c.len(),
{
    if has_id(c, id) {
        let i = index_of(c, id);
        crate::store::lemma_update_keeps_ids(
            c,
            i,
            HasCooldown { duration: (c[i].1.duration + t) as u16, ..c[i].1 },
        );
    }
}

/// Empties the wait queue, front first, adding each delay to the cooldown of
/// its actor. The time is spent by later frames of the scheduler.
pub fn update_cooldowns_after_actions(timeline: &mut Time, cooldowns: &mut Storage<HasCooldown>)
    requires
        old(cooldowns).wf(),
        delays_fit(old(cooldowns)@, old(timeline)@.waiting),
    ensures
        final(cooldowns).wf(),
        final(cooldowns)@ == apply_delays(old(cooldowns)@, old(timeline)@.waiting),
        final(timeline)@ == (TimeView { waiting: Seq::empty(), ..old(timeline)@ }),
{
    loop
        invariant
            cooldowns.wf(),
            delays_fit(cooldowns@, timeline@.waiting),
            apply_delays(cooldowns@, timeline@.waiting) == apply_delays(
                old(cooldowns)@,
                old(timeline)@.waiting,
            ),
            timeline@.ready == old(timeline)@.ready,
            timeline@.current_time == old(timeline)@.current_time,
            timeline@.blocked == old(timeline)@.blocked,
        ensures
            timeline@.waiting.len() == 0,
        decreases timeline@.waiting.len(),
    {
        let ghost before = timeline@.waiting;
        let ghost c_before = cooldowns@;
        match timeline.wait_queue.pop_front() {
            Some((id, t)) => {
                assert(timeline@.waiting =~= before.drop_first());
                proof {
                    lemma_add_delay_keeps_ids(c_before, id, t);
                }
                match cooldowns.find(id) {
                    Some(i) => {
                        let c = *cooldowns.value_at(i);
                        cooldowns.set_value_at(
                            i,
                            HasCooldown { duration: c.duration + t, skip_after: c.skip_after },
                        );
                    },
                    None => {},
                }
                assert(cooldowns@ == add_delay(c_before, id, t));
            },
            None => {
                break ;
            },
        }
    }
    assert(timeline@.waiting =~= Seq::empty());
}

/// Where the player's keys take it from `from`; the same point if they take
/// it nowhere.
pub open spec fn bump_target(from: Point, keys: MovementKeys) -> (int, int) {
    (from.x + keys.step_x(), from.y + keys.step_y())
}

/// Turns the movement keys into a bump intent of the player, tagged with the
/// current moment, if it is the player's turn and the keys lead away from
/// where the player stands. A player whose turn it is has a position, at
/// least three tiles away from the end of the numbers.
pub fn interpret_player_input_as_bump_intent(
    keys: &MovementKeys,
    player: &Player,
    positions: &Storage<HasPosition>,
    timeline: &Time,
    bumps: &mut VecDeque<BumpIntent>,
)
    requires
        positions.wf(),
        player.entity.is_some() && timeline@.ready.len() > 0 && timeline@.ready[0]
            == player.entity.unwrap() ==> {
            &&& has_id(positions@, player.entity.unwrap())
            &&& i32::MIN + 3 <= positions@[index_of(positions@, player.entity.unwrap())].1.x
                <= i32::MAX - 3
            &&& i32::MIN + 3 <= positions@[index_of(positions@, player.entity.unwrap())].1.y
                <= i32::MAX - 3
        },
    ensures
        final(bumps)@ == if player.entity.is_some() && timeline@.ready.len() > 0
            && timeline@.ready[0] == player.entity.unwrap() && (keys.step_x() != 0
            || keys.step_y() != 0) {
            let from = positions@[index_of(positions@, player.entity.unwrap())].1;
            old(bumps)@.push(
                BumpIntent {
                    id: timeline.current_time,
                    bumper: player.entity.unwrap(),
                    pos: Point {
                        x: bump_target(from, *keys).0 as i32,
                        y: bump_target(from, *keys).1 as i32,
                    },
                },
            )
        } else {
            old(bumps)@
        },
{
    if let Some(entity) = player.entity {
        if timeline.is_current(entity) {
            let from = match positions.get(entity) {
                Some(pos) => pos.0,
                None => {
                    return ;
                },
            };
            let mut new_pos = from;
            if keys.w {
                new_pos.y -= 1;
            }
            if keys.d {
                new_pos.x += 1;
            }
            if keys.a {
                new_pos.x -= 1;
            }
            if keys.x || keys.s {
                new_pos.y += 1;
            }
            if keys.q {
                new_pos.x -= 1;
                new_pos.y -= 1;
            }
            if keys.e {
                new_pos.x += 1;
                new_pos.y -= 1;
            }
            if keys.z {
                new_pos.x -= 1;
                new_pos.y += 1;
            }
            if keys.c {
                new_pos.x += 1;
                new_pos.y += 1;
            }
            if from != new_pos {
                bumps.push_back(
                    BumpIntent { id: timeline.current_time, bumper: entity, pos: new_pos },
                );
            }
        }
    }
}

/// Remembers where the player stands, if the player has a position.
pub fn update_player_position(player: &mut Player, positions: &Storage<HasPosition>)
    requires
        positions.wf(),
    ensures
        final(player).entity == old(player).entity,
        final(player).cached_position == if old(player).entity.is_some() && has_id(
            positions@,
            old(player).entity.unwrap(),
        ) {
            positions@[index_of(positions@, old(player).entity.unwrap())].1
        } else {
            old(player).cached_position
        },
{
    if let Some(entity) = player.entity {
        match positions.get(entity) {
            Some(pos) => {
                player.cached_position = pos.0;
            },
            None => {},
        }
    }
}

/// Ends a frame: the world is drawn and its animation is done.
pub fn clean_dirty(dirty: &mut IsDirty, anim: &mut FlagAnimationDone)
    ensures
        final(dirty).0 == false,
        final(anim).0 == true,
{
    dirty.0 = false;
    anim.0 = true;
}

} // verus!
