use poirogue_core::core_systems::{
    clean_dirty, interpret_player_input_as_bump_intent, update_cooldowns_after_actions,
    update_player_position, update_time,
};
use poirogue_core::entity::{EntityId, HasCooldown, HasPosition, IsDirty, Player, Point};
use poirogue_core::game::{judge_command_pass, CommandPass, FlagAnimationDone};
use poirogue_core::game_systems::intents::BumpIntent;
use poirogue_core::input::MovementKeys;
use poirogue_core::store::Storage;
use poirogue_core::time::Time;
use std::collections::VecDeque;

const A: EntityId = EntityId(1);
const B: EntityId = EntityId(2);
const C: EntityId = EntityId(3);

fn ready(time: &Time) -> Vec<EntityId> {
    time.action_queue.iter().cloned().collect()
}

fn waiting(time: &Time) -> Vec<(EntityId, u16)> {
    time.wait_queue.iter().cloned().collect()
}

fn cooldowns(list: &[(EntityId, u16, Option<u16>)]) -> Storage<HasCooldown> {
    let mut s = Storage::new();
    for (id, duration, skip_after) in list {
        s.insert(*id, HasCooldown { duration: *duration, skip_after: *skip_after });
    }
    s
}

#[test]
fn units_of_time() {
    assert_eq!(Time::MOMENT, 1);
    assert_eq!(Time::TICK, 16);
    assert_eq!(Time::SECOND, 64);
    assert_eq!(Time::MINUTE, 4096);
}

#[test]
fn new_clock_is_at_zero() {
    let t = Time::new();
    assert_eq!(t.current_time, 0);
    assert!(t.action_queue.is_empty());
    assert!(t.wait_queue.is_empty());
    assert_eq!(t.time_blocked_on_same_entity, 0);
    assert_eq!(t.peek_current(), EntityId::dead());
    assert_eq!(EntityId::dead(), EntityId(u64::MAX));
}

#[test]
fn is_current_names_the_front_only() {
    let mut t = Time::new();
    assert!(!t.is_current(A));
    assert!(!t.is_current(EntityId::dead()));
    t.enqueue(A);
    t.enqueue(B);
    assert!(t.is_current(A));
    assert!(!t.is_current(B));
    assert_eq!(t.peek_current(), A);
}

#[test]
fn push_current_back_moves_front_to_wait_queue() {
    let mut t = Time::new();
    t.enqueue(A);
    t.enqueue(B);
    t.tick_blocked_time();
    t.tick_blocked_time();
    assert!(t.is_blocked_for_longer_than(1));
    assert!(!t.is_blocked_for_longer_than(2));
    t.push_current_back(5);
    assert_eq!(ready(&t), vec![B]);
    assert_eq!(waiting(&t), vec![(A, 5)]);
    assert_eq!(t.time_blocked_on_same_entity, 0);
    t.push_current_back(Time::TICK);
    assert_eq!(ready(&t), vec![]);
    assert_eq!(waiting(&t), vec![(A, 5), (B, 16)]);
}

#[test]
fn push_current_back_on_empty_queue_changes_nothing() {
    let mut t = Time::new();
    t.tick_blocked_time();
    t.push_current_back(16);
    assert!(t.wait_queue.is_empty());
    assert_eq!(t.time_blocked_on_same_entity, 1);
}

#[test]
fn push_current_back_drops_the_dead_id() {
    let mut t = Time::new();
    t.enqueue(EntityId::dead());
    t.enqueue(A);
    t.tick_blocked_time();
    t.push_current_back(16);
    assert_eq!(ready(&t), vec![A]);
    assert!(t.wait_queue.is_empty());
    assert_eq!(t.time_blocked_on_same_entity, 1);
}

#[test]
fn tick_advances_and_empties_queues() {
    let mut t = Time::new();
    t.enqueue(A);
    t.push_current_back(3);
    t.enqueue(B);
    t.tick();
    assert_eq!(t.current_time, 1);
    assert!(t.action_queue.is_empty());
    assert!(t.wait_queue.is_empty());
}

#[test]
fn frame_with_nobody_ready_advances_and_refills() {
    let mut t = Time::new();
    let mut c = cooldowns(&[(A, 0, None), (B, 1, None), (C, 2, Some(4))]);
    update_time(&mut t, &mut c);
    assert_eq!(t.current_time, 1);
    assert_eq!(t.time_blocked_on_same_entity, 1);
    // A was at zero and B reached zero in this pass; C has one moment left.
    assert_eq!(ready(&t), vec![A, B]);
    assert!(t.wait_queue.is_empty());
    assert_eq!(c.get(A).unwrap().duration, 0);
    assert_eq!(c.get(B).unwrap().duration, 0);
    assert_eq!(c.get(C).unwrap().duration, 1);
    assert_eq!(c.get(C).unwrap().skip_after, Some(4));
}

#[test]
fn frame_with_somebody_ready_leaves_the_clock_alone() {
    let mut t = Time::new();
    let mut c = cooldowns(&[(A, 0, None), (B, 5, None)]);
    t.enqueue(A);
    for frame in 1..=40u64 {
        update_time(&mut t, &mut c);
        assert_eq!(t.current_time, 0);
        assert_eq!(ready(&t), vec![A]);
        assert_eq!(t.time_blocked_on_same_entity, frame);
        assert_eq!(c.get(B).unwrap().duration, 5);
    }
}

#[test]
fn stalled_actor_is_skipped_after_its_threshold() {
    let mut t = Time::new();
    let mut c = cooldowns(&[(A, 0, Some(2)), (B, 0, None)]);
    t.enqueue(A);
    t.enqueue(B);
    update_time(&mut t, &mut c);
    update_time(&mut t, &mut c);
    // Blocked for two frames: not longer than the threshold yet.
    assert_eq!(ready(&t), vec![A, B]);
    assert_eq!(t.time_blocked_on_same_entity, 2);
    update_time(&mut t, &mut c);
    assert_eq!(ready(&t), vec![B]);
    assert_eq!(waiting(&t), vec![(A, 16)]);
    assert_eq!(t.time_blocked_on_same_entity, 0);
    assert_eq!(t.current_time, 0);
}

#[test]
fn an_action_of_one_tick_makes_the_actor_ready_sixteen_moments_later() {
    let mut t = Time::new();
    let mut c = cooldowns(&[(A, 0, None)]);
    update_time(&mut t, &mut c);
    assert_eq!(ready(&t), vec![A]);
    t.push_current_back(Time::TICK);
    update_cooldowns_after_actions(&mut t, &mut c);
    assert_eq!(c.get(A).unwrap().duration, 16);
    assert!(t.wait_queue.is_empty());
    for _ in 0..15 {
        update_time(&mut t, &mut c);
        assert!(t.action_queue.is_empty());
    }
    update_time(&mut t, &mut c);
    assert_eq!(ready(&t), vec![A]);
    assert_eq!(t.current_time, 17);
}

#[test]
fn delays_add_up_per_actor_and_skip_strangers() {
    let mut t = Time::new();
    let mut c = cooldowns(&[(A, 1, None), (B, 0, None)]);
    t.wait_queue.push_back((A, 16));
    t.wait_queue.push_back((C, 7));
    t.wait_queue.push_back((A, 2));
    t.wait_queue.push_back((B, 64));
    update_cooldowns_after_actions(&mut t, &mut c);
    assert_eq!(c.get(A).unwrap().duration, 19);
    assert_eq!(c.get(B).unwrap().duration, 64);
    assert!(c.get(C).is_none());
    assert!(t.wait_queue.is_empty());
    assert_eq!(c.len(), 2);
}

#[test]
fn with_skip_and_default_cooldowns() {
    assert_eq!(HasCooldown::with_skip(9), HasCooldown { duration: 0, skip_after: Some(9) });
    assert_eq!(HasCooldown::default(), HasCooldown { duration: 0, skip_after: None });
}

fn keys() -> MovementKeys {
    MovementKeys::none()
}

fn bump_for(k: MovementKeys) -> Vec<BumpIntent> {
    let mut t = Time::new();
    t.enqueue(A);
    t.tick_blocked_time();
    let player = Player { entity: Some(A), cached_position: Point::new(0, 0) };
    let mut positions = Storage::new();
    positions.insert(A, HasPosition(Point::new(10, 20)));
    let mut bumps = VecDeque::new();
    interpret_player_input_as_bump_intent(&k, &player, &positions, &t, &mut bumps);
    bumps.into_iter().collect()
}

#[test]
fn movement_keys_become_a_bump() {
    let at = |x: i32, y: i32| vec![BumpIntent { id: 0, bumper: A, pos: Point::new(x, y) }];
    assert_eq!(bump_for(MovementKeys { w: true, ..keys() }), at(10, 19));
    assert_eq!(bump_for(MovementKeys { d: true, ..keys() }), at(11, 20));
    assert_eq!(bump_for(MovementKeys { a: true, ..keys() }), at(9, 20));
    assert_eq!(bump_for(MovementKeys { x: true, ..keys() }), at(10, 21));
    assert_eq!(bump_for(MovementKeys { s: true, ..keys() }), at(10, 21));
    assert_eq!(bump_for(MovementKeys { x: true, s: true, ..keys() }), at(10, 21));
    assert_eq!(bump_for(MovementKeys { q: true, ..keys() }), at(9, 19));
    assert_eq!(bump_for(MovementKeys { e: true, ..keys() }), at(11, 19));
    assert_eq!(bump_for(MovementKeys { z: true, ..keys() }), at(9, 21));
    assert_eq!(bump_for(MovementKeys { c: true, ..keys() }), at(11, 21));
    assert_eq!(bump_for(MovementKeys { d: true, e: true, c: true, ..keys() }), at(13, 20));
}

#[test]
fn keys_that_cancel_out_become_no_bump() {
    assert_eq!(bump_for(keys()), vec![]);
    assert_eq!(bump_for(MovementKeys { a: true, d: true, ..keys() }), vec![]);
    assert_eq!(bump_for(MovementKeys { q: true, c: true, ..keys() }), vec![]);
}

#[test]
fn only_the_current_actor_may_bump() {
    let mut t = Time::new();
    t.enqueue(B);
    t.enqueue(A);
    let player = Player { entity: Some(A), cached_position: Point::new(0, 0) };
    let mut positions = Storage::new();
    positions.insert(A, HasPosition(Point::new(10, 20)));
    let mut bumps = VecDeque::new();
    let k = MovementKeys { w: true, ..keys() };
    interpret_player_input_as_bump_intent(&k, &player, &positions, &t, &mut bumps);
    assert!(bumps.is_empty());
    let nobody = Player { entity: None, cached_position: Point::new(0, 0) };
    interpret_player_input_as_bump_intent(&k, &nobody, &positions, &t, &mut bumps);
    assert!(bumps.is_empty());
}

#[test]
fn bump_is_tagged_with_the_current_moment() {
    let mut t = Time::new();
    t.tick();
    t.tick();
    t.enqueue(A);
    let player = Player { entity: Some(A), cached_position: Point::new(0, 0) };
    let mut positions = Storage::new();
    positions.insert(A, HasPosition(Point::new(0, 0)));
    let mut bumps = VecDeque::new();
    let k = MovementKeys { d: true, ..keys() };
    interpret_player_input_as_bump_intent(&k, &player, &positions, &t, &mut bumps);
    assert_eq!(bumps[0].id, 2);
}

#[test]
fn player_position_is_cached() {
    let mut player = Player { entity: Some(A), cached_position: Point::new(0, 0) };
    let mut positions = Storage::new();
    update_player_position(&mut player, &positions);
    assert_eq!(player.cached_position, Point::new(0, 0));
    positions.insert(A, HasPosition(Point::new(3, 4)));
    update_player_position(&mut player, &positions);
    assert_eq!(player.cached_position, Point::new(3, 4));
}

#[test]
fn clean_dirty_resets_flags() {
    let mut dirty = IsDirty(true);
    let mut anim = FlagAnimationDone(false);
    clean_dirty(&mut dirty, &mut anim);
    assert!(!dirty.0);
    assert!(anim.0);
}

#[test]
fn uninterpreted_command_is_discarded() {
    assert_eq!(judge_command_pass(2, 2), CommandPass::DiscardFront);
    assert_eq!(judge_command_pass(2, 1), CommandPass::Again);
    assert_eq!(judge_command_pass(1, 0), CommandPass::Done);
    assert_eq!(judge_command_pass(0, 0), CommandPass::Done);
    assert_eq!(judge_command_pass(1, 3), CommandPass::Again);
}
