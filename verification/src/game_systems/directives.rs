//! Directives: effects that a rule system has decided on and that wait to be
//! applied. Each queue is drained from its newest entry to its oldest.
use vstd::prelude::*;
use vstd::string::StringExecFns;
use std::collections::VecDeque;
use crate::entity::EntityId;
use crate::entity::HasPosition;
use crate::entity::IsDirty;
use crate::entity::IsDoor;
use crate::entity::DoorView;
use crate::entity::Point;
use crate::game_systems::intents::ResolvedIntents;
use crate::game_systems::notifications::LogView;
use crate::game_systems::notifications::NotificationLog;
use crate::store::has_id;
use crate::store::index_of;
use crate::store::Storage;

verus! {

/// A message for the log. With `entity_alive` set, the message is only
/// written if the intent with that resolution id is still unclaimed when the
/// directive is applied.
pub struct NotifyDirective {
    pub entity_alive: Option<u64>,
    pub notification: String,
}

/// What contracts say of a notify directive.
pub struct NotifyView {
    pub entity_alive: Option<u64>,
    pub notification: Seq<char>,
}

impl View for NotifyDirective {
    type V = NotifyView;

    open spec fn view(&self) -> NotifyView {
        NotifyView { entity_alive: self.entity_alive, notification: self.notification@ }
    }
}

/// The directives of a queue as contracts see them.
pub open spec fn notify_views(q: Seq<NotifyDirective>) -> Seq<NotifyView> {
    Seq::new(q.len(), |i: int| q[i]@)
}

/// A message that is written only if the intent `id` stays unclaimed.
pub fn notify_if_alive(id: u64, msg: &str) -> (r: NotifyDirective)
    ensures
        r@ == (NotifyView { entity_alive: Some(id), notification: msg@ }),
{
    NotifyDirective { entity_alive: Some(id), notification: String::from_str(msg) }
}

/// A message that is written in any case.
pub fn notify(msg: &str) -> (r: NotifyDirective)
    ensures
        r@ == (NotifyView { entity_alive: None, notification: msg@ }),
{
    NotifyDirective { entity_alive: None, notification: String::from_str(msg) }
}

/// Puts the actor at a new position.
#[derive(Clone, Copy, Debug, PartialEq, Eq, Structural)]
pub struct MoveDirective(pub EntityId, pub Point);

/// Takes the lock off a door.
#[derive(Clone, Copy, Debug, PartialEq, Eq, Structural)]
pub struct UnlockDirective(pub EntityId);

/// Whether a notify directive is written to the log, given the claims made
/// this turn.
pub open spec fn is_written(d: NotifyView, handled: Set<u64>) -> bool {
    d.entity_alive is None || !handled.contains(d.entity_alive.unwrap())
}

/// The log after the directives were applied, newest first.
pub open spec fn resolve_notifications(dirs: Seq<NotifyView>, log: LogView, handled: Set<u64>)
    -> LogView
    decreases dirs.len(),
{
    if dirs.len() == 0 {
        log
    } else {
        let d = dirs.last();
        let next = if is_written(d, handled) {
            log.write(d.notification)
        } else {
            log
        };
        resolve_notifications(dirs.drop_last(), next, handled)
    }
}

/// A notification with a liveness check whose id was claimed is dropped: the
/// log stays as it is.
pub proof fn lemma_claimed_notice_is_dropped(d: NotifyView, log: LogView, handled: Set<u64>)
    requires
        d.entity_alive is Some,
        handled.contains(d.entity_alive.unwrap()),
    ensures
        resolve_notifications(seq![d], log, handled) == log,
{
    assert(seq![d].drop_last().len() == 0);
    assert(resolve_notifications(seq![d].drop_last(), log, handled) == log);
}

/// Applying notify directives keeps a well-formed log well-formed.
pub proof fn lemma_resolve_notifications_wf(dirs: Seq<NotifyView>, log: LogView, handled: Set<u64>)
    requires
        log.wf(),
    ensures
        resolve_notifications(dirs, log, handled).wf(),
    decreases dirs.len(),
{
    if dirs.len() > 0 {
        let d = dirs.last();
        crate::game_systems::notifications::lemma_write_keeps_wf(log, d.notification);
        let next = if is_written(d, handled) {
            log.write(d.notification)
        } else {
            log
        };
        lemma_resolve_notifications_wf(dirs.drop_last(), next, handled);
    }
}

/// Drains the notify directives, newest first, into the log. A directive with
/// a liveness check is dropped if its resolution id was claimed.
pub fn resolve_notify_if_entity_alive_directives(
    notif_dirs: &mut VecDeque<NotifyDirective>,
    log: &mut NotificationLog,
    handled: &ResolvedIntents,
)
    ensures
        final(notif_dirs)@.len() == 0,
        final(log)@ == resolve_notifications(notify_views(old(notif_dirs)@), old(log)@, handled@),
        old(log)@.wf() ==> final(log)@.wf(),
{
    proof {
        if old(log)@.wf() {
            lemma_resolve_notifications_wf(notify_views(old(notif_dirs)@), old(log)@, handled@);
        }
    }
    loop
        invariant
            resolve_notifications(notify_views(notif_dirs@), log@, handled@)
                == resolve_notifications(notify_views(old(notif_dirs)@), old(log)@, handled@),
        ensures
            notif_dirs@.len() == 0,
        decreases notif_dirs@.len(),
    {
        let ghost before = notif_dirs@;
        match notif_dirs.pop_back() {
            Some(notif) => {
                assert(notify_views(notif_dirs@) =~= notify_views(before).drop_last());
                assert(notify_views(before).last() == notif@);
                let write = match notif.entity_alive {
                    None => true,
                    Some(id) => !handled.is_claimed(id),
                };
                if write {
                    log.write(notif.notification);
                }
            },
            None => {
                break ;
            },
        }
    }
}

/// The positions after `id` was put at `p`; an entity without a position gets
/// none.
pub open spec fn move_to(positions: Seq<(EntityId, Point)>, id: EntityId, p: Point) -> Seq<
    (EntityId, Point),
> {
    if has_id(positions, id) {
        positions.update(index_of(positions, id), (id, p))
    } else {
        positions
    }
}

/// The positions after the move directives were applied, newest first.
pub open spec fn apply_moves(dirs: Seq<MoveDirective>, positions: Seq<(EntityId, Point)>) -> Seq<
    (EntityId, Point),
>
    decreases dirs.len(),
{
    if dirs.len() == 0 {
        positions
    } else {
        apply_moves(dirs.drop_last(), move_to(positions, dirs.last().0, dirs.last().1))
    }
}

/// Some directive of `dirs` moves an entity that has a position.
pub open spec fn any_move_applies(dirs: Seq<MoveDirective>, positions: Seq<(EntityId, Point)>)
    -> bool {
    exists|i: int| 0 <= i < dirs.len() && has_id(positions, (#[trigger] dirs[i]).0)
}

/// A move changes no entity's identity: the same entities have a position
/// before and after, in the same order.
pub proof fn lemma_move_to_keeps_ids(positions: Seq<(EntityId, Point)>, id: EntityId, p: Point)
    ensures
        move_to(positions, id, p).len() == positions.len(),
        forall|i: int|
            0 <= i < positions.len() ==> (#[trigger] move_to(positions, id, p)[i]).0
                == positions[i].0,
        forall|e: EntityId| has_id(move_to(positions, id, p), e) == has_id(positions, e),
        crate::store::distinct_ids(positions) ==> crate::store::distinct_ids(
            move_to(positions, id, p),
        ),
{
    if has_id(positions, id) {
        crate::store::lemma_update_keeps_ids(positions, index_of(positions, id), p);
    }
}

/// Drains the move directives, newest first. An actor that still has a
/// position is put at the new one, which marks the world dirty.
pub fn resolve_move_directives(
    move_dirs: &mut VecDeque<MoveDirective>,
    positions: &mut Storage<HasPosition>,
    dirty: &mut IsDirty,
)
    requires
        old(positions).wf(),
    ensures
        final(move_dirs)@.len() == 0,
        final(positions).wf(),
        final(positions)@ == apply_moves(old(move_dirs)@, old(positions)@),
        final(dirty).0 == (old(dirty).0 || any_move_applies(old(move_dirs)@, old(positions)@)),
{
    loop
        invariant
            positions.wf(),
            apply_moves(move_dirs@, positions@) == apply_moves(old(move_dirs)@, old(positions)@),
            forall|e: EntityId| has_id(positions@, e) == has_id(old(positions)@, e),
            move_dirs@.len() <= old(move_dirs)@.len(),
            forall|i: int|
                0 <= i < move_dirs@.len() ==> (#[trigger] move_dirs@[i]) == old(move_dirs)@[i],
            dirty.0 == (old(dirty).0 || exists|i: int|
                move_dirs@.len() <= i < old(move_dirs)@.len() && has_id(
                    old(positions)@,
                    (#[trigger] old(move_dirs)@[i]).0,
                )),
        ensures
            move_dirs@.len() == 0,
        decreases move_dirs@.len(),
    {
        let ghost before = move_dirs@;
        let ghost pos_before = positions@;
        match move_dirs.pop_back() {
            Some(mov) => {
                assert(move_dirs@ =~= before.drop_last());
                assert(before.last() == mov);
                assert(old(move_dirs)@[before.len() - 1] == mov);
                proof {
                    lemma_move_to_keeps_ids(pos_before, mov.0, mov.1);
                }
                match positions.find(mov.0) {
                    Some(i) => {
                        positions.set_value_at(i, HasPosition(mov.1));
                        dirty.0 = true;
                    },
                    None => {},
                }
                assert(positions@ == move_to(pos_before, mov.0, mov.1));
            },
            None => {
                break ;
            },
        }
    }
}

/// The doors after the lock was taken off `id`.
pub open spec fn unlock_door(doors: Seq<(EntityId, DoorView)>, id: EntityId) -> Seq<
    (EntityId, DoorView),
> {
    if has_id(doors, id) {
        let i = index_of(doors, id);
        doors.update(i, (id, DoorView { is_locked: None, ..doors[i].1 }))
    } else {
        doors
    }
}

/// The doors after the unlock directives were applied, newest first.
pub open spec fn apply_unlocks(dirs: Seq<UnlockDirective>, doors: Seq<(EntityId, DoorView)>)
    -> Seq<(EntityId, DoorView)>
    decreases dirs.len(),
{
    if dirs.len() == 0 {
        doors
    } else {
        apply_unlocks(dirs.drop_last(), unlock_door(doors, dirs.last().0))
    }
}

/// Unlocking changes no door's identity.
pub proof fn lemma_unlock_door_keeps_ids(doors: Seq<(EntityId, DoorView)>, id: EntityId)
    ensures
        unlock_door(doors, id).len() == doors.len(),
        forall|i: int|
            0 <= i < doors.len() ==> (#[trigger] unlock_door(doors, id)[i]).0 == doors[i].0,
        forall|e: EntityId| has_id(unlock_door(doors, id), e) == has_id(doors, e),
        crate::store::distinct_ids(doors) ==> crate::store::distinct_ids(unlock_door(doors, id)),
{
    if has_id(doors, id) {
        let i = index_of(doors, id);
        crate::store::lemma_update_keeps_ids(
            doors,
            i,
            DoorView { is_locked: None, ..doors[i].1 },
        );
    }
}

/// Unlock directives change nothing about a door but its lock, which they
/// take off or leave alone: the doors keep their order, their signs and
/// whether they are closed, and a door that has a lock afterwards had the same
/// lock before.
pub proof fn lemma_apply_unlocks_keeps_doors(
    dirs: Seq<UnlockDirective>,
    doors: Seq<(EntityId, DoorView)>,
)
    ensures
        apply_unlocks(dirs, doors).len() == doors.len(),
        forall|i: int|
            0 <= i < doors.len() ==> {
                let after = #[trigger] apply_unlocks(dirs, doors)[i];
                &&& after.0 == doors[i].0
                &&& after.1.sign == doors[i].1.sign
                &&& after.1.is_closed == doors[i].1.is_closed
                &&& after.1.is_locked is Some ==> after.1.is_locked == doors[i].1.is_locked
            },
    decreases dirs.len(),
{
    if dirs.len() > 0 {
        let next = unlock_door(doors, dirs.last().0);
        lemma_apply_unlocks_keeps_doors(dirs.drop_last(), next);
        assert forall|i: int| 0 <= i < doors.len() implies {
            let after = #[trigger] apply_unlocks(dirs, doors)[i];
            &&& after.0 == doors[i].0
            &&& after.1.sign == doors[i].1.sign
            &&& after.1.is_closed == doors[i].1.is_closed
            &&& after.1.is_locked is Some ==> after.1.is_locked == doors[i].1.is_locked
        } by {
            let mid = next[i];
            assert(mid.0 == doors[i].0);
        }
    }
}

/// Drains the unlock directives, newest first: each takes the lock off its
/// door and marks the world dirty. Every directive names a door.
pub fn resolve_unlock_directive(
    unlock_dirs: &mut VecDeque<UnlockDirective>,
    doors: &mut Storage<IsDoor>,
    dirty: &mut IsDirty,
)
    requires
        old(doors).wf(),
        forall|i: int|
            0 <= i < old(unlock_dirs)@.len() ==> has_id(
                old(doors)@,
                (#[trigger] old(unlock_dirs)@[i]).0,
            ),
    ensures
        final(unlock_dirs)@.len() == 0,
        final(doors).wf(),
        final(doors)@ == apply_unlocks(old(unlock_dirs)@, old(doors)@),
        final(dirty).0 == (old(dirty).0 || old(unlock_dirs)@.len() > 0),
{
    loop
        invariant
            doors.wf(),
            apply_unlocks(unlock_dirs@, doors@) == apply_unlocks(old(unlock_dirs)@, old(doors)@),
            forall|e: EntityId| has_id(doors@, e) == has_id(old(doors)@, e),
            unlock_dirs@.len() <= old(unlock_dirs)@.len(),
            forall|i: int|
                0 <= i < unlock_dirs@.len() ==> (#[trigger] unlock_dirs@[i]) == old(
                    unlock_dirs,
                )@[i],
            dirty.0 == (old(dirty).0 || unlock_dirs@.len() < old(unlock_dirs)@.len()),
            forall|i: int|
                0 <= i < old(unlock_dirs)@.len() ==> has_id(
                    old(doors)@,
                    (#[trigger] old(unlock_dirs)@[i]).0,
                ),
        ensures
            unlock_dirs@.len() == 0,
        decreases unlock_dirs@.len(),
    {
        let ghost before = unlock_dirs@;
        let ghost doors_before = doors@;
        match unlock_dirs.pop_back() {
            Some(dir) => {
                assert(unlock_dirs@ =~= before.drop_last());
                assert(before.last() == dir);
                assert(old(unlock_dirs)@[before.len() - 1] == dir);
                proof {
                    lemma_unlock_door_keeps_ids(doors_before, dir.0);
                }
                match doors.find(dir.0) {
                    Some(i) => {
                        let door = doors.value_at(i);
                        let unlocked = IsDoor {
                            sign: door.sign.clone(),
                            is_closed: door.is_closed,
                            is_locked: None,
                        };
                        doors.set_value_at(i, unlocked);
                        dirty.0 = true;
                    },
                    None => {},
                }
                assert(doors@ == unlock_door(doors_before, dir.0));
            },
            None => {
                break ;
            },
        }
    }
}

} // verus!
