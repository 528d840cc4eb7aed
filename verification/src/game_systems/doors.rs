//! The rules about doors: a bump into a locked door becomes an attempt to
//! unlock it, a bump into a closed door without a lock opens it, and an
//! attempt to unlock succeeds for whoever carries the key.
use vstd::prelude::*;
use vstd::string::StringExecFns;
use std::collections::VecDeque;
use crate::entity::DoorView;
use crate::entity::EntityId;
use crate::entity::Glyph;
use crate::entity::HasGlyph;
use crate::entity::HasPosition;
use crate::entity::IsDirty;
use crate::entity::IsDoor;
use crate::entity::Point;
use crate::entity::Rgb;
use crate::game_systems::directives::notify_if_alive;
use crate::game_systems::directives::notify_views;
use crate::game_systems::directives::NotifyDirective;
use crate::game_systems::directives::NotifyView;
use crate::game_systems::directives::UnlockDirective;
use crate::game_systems::intents::lemma_unclaimed_of_equal_prefixes;
use crate::game_systems::intents::unclaimed;
use crate::game_systems::intents::unclaimed_prefix;
use crate::game_systems::intents::BumpIntent;
use crate::game_systems::intents::ResolvedIntents;
use crate::game_systems::intents::UnlockIntent;
use crate::game_systems::inventory::CarriesItem;
use crate::game_systems::inventory::IsItem;
use crate::game_systems::inventory::ItemView;
use crate::game_systems::notifications::NotificationLog;
use crate::map::MapView;
use crate::map::TileMap;
use crate::store::distinct_ids;
use crate::store::has_id;
use crate::store::index_of;
use crate::store::lemma_lookup_at;
use crate::store::lookup;
use crate::store::Storage;
use crate::tiles::MapTile;
use crate::time::Time;

verus! {

/// Among the first `n` doors, those that stand at the place the bump `b` aims
/// at and have a lock, each as an attempt of the bumper to unlock it, in the
/// order of the doors.
pub open spec fn door_unlocks_prefix(
    doors: Seq<(EntityId, DoorView)>,
    positions: Seq<(EntityId, Point)>,
    b: BumpIntent,
    n: int,
) -> Seq<UnlockIntent>
    decreases n,
{
    if n <= 0 {
        Seq::empty()
    } else {
        let prev = door_unlocks_prefix(doors, positions, b, n - 1);
        if lookup(positions, doors[n - 1].0) == Some(b.pos) && doors[n - 1].1.is_locked is Some {
            prev.push(UnlockIntent { id: b.id, entity: b.bumper, target: doors[n - 1].0 })
        } else {
            prev
        }
    }
}

/// The attempts to unlock that the first `n` bumps become, skipping bumps
/// whose id is claimed.
pub open spec fn bump_unlocks_prefix(
    doors: Seq<(EntityId, DoorView)>,
    positions: Seq<(EntityId, Point)>,
    bumps: Seq<BumpIntent>,
    handled: Set<u64>,
    n: int,
) -> Seq<UnlockIntent>
    decreases n,
{
    if n <= 0 {
        Seq::empty()
    } else {
        let prev = bump_unlocks_prefix(doors, positions, bumps, handled, n - 1);
        if handled.contains(bumps[n - 1].id) {
            prev
        } else {
            prev + door_unlocks_prefix(doors, positions, bumps[n - 1], doors.len() as int)
        }
    }
}

/// Bumps whose ids are all claimed become no attempt to unlock.
pub proof fn lemma_claimed_bumps_unlock_nothing(
    doors: Seq<(EntityId, DoorView)>,
    positions: Seq<(EntityId, Point)>,
    bumps: Seq<BumpIntent>,
    handled: Set<u64>,
    n: int,
)
    requires
        0 <= n <= bumps.len(),
        forall|i: int| 0 <= i < bumps.len() ==> handled.contains((#[trigger] bumps[i]).id),
    ensures
        bump_unlocks_prefix(doors, positions, bumps, handled, n).len() == 0,
    decreases n,
{
    if n > 0 {
        lemma_claimed_bumps_unlock_nothing(doors, positions, bumps, handled, n - 1);
    }
}

/// The attempts that the first `n` bumps become depend on those bumps alone.
proof fn lemma_unlocks_of_equal_prefixes(
    doors: Seq<(EntityId, DoorView)>,
    positions: Seq<(EntityId, Point)>,
    a: Seq<BumpIntent>,
    b: Seq<BumpIntent>,
    handled: Set<u64>,
    n: int,
)
    requires
        0 <= n <= a.len(),
        n <= b.len(),
        forall|i: int| 0 <= i < n ==> a[i] == b[i],
    ensures
        bump_unlocks_prefix(doors, positions, a, handled, n) == bump_unlocks_prefix(
            doors,
            positions,
            b,
            handled,
            n,
        ),
    decreases n,
{
    if n > 0 {
        lemma_unlocks_of_equal_prefixes(doors, positions, a, b, handled, n - 1);
    }
}

/// A bump with a claimed id might as well not be queued: the rule that turns
/// bumps into attempts to unlock emits for the queue what it emits for the
/// bumps with unclaimed ids alone.
pub proof fn lemma_claimed_bumps_are_as_absent_to_locks(
    doors: Seq<(EntityId, DoorView)>,
    positions: Seq<(EntityId, Point)>,
    bumps: Seq<BumpIntent>,
    handled: Set<u64>,
    n: int,
)
    requires
        0 <= n <= bumps.len(),
    ensures
        bump_unlocks_prefix(doors, positions, bumps, handled, n) == bump_unlocks_prefix(
            doors,
            positions,
            unclaimed_prefix(bumps, handled, n),
            handled,
            unclaimed_prefix(bumps, handled, n).len() as int,
        ),
    decreases n,
{
    if n > 0 {
        lemma_claimed_bumps_are_as_absent_to_locks(doors, positions, bumps, handled, n - 1);
        let rest = unclaimed_prefix(bumps, handled, n - 1);
        let all = unclaimed_prefix(bumps, handled, n);
        if !handled.contains(bumps[n - 1].id) {
            lemma_unlocks_of_equal_prefixes(
                doors,
                positions,
                rest,
                all,
                handled,
                rest.len() as int,
            );
        }
    }
}

/// Every attempt to unlock that a bump becomes carries the bump's own id.
pub proof fn lemma_door_unlocks_keep_id(
    doors: Seq<(EntityId, DoorView)>,
    positions: Seq<(EntityId, Point)>,
    b: BumpIntent,
    n: int,
)
    requires
        0 <= n <= doors.len(),
    ensures
        forall|k: int|
            0 <= k < door_unlocks_prefix(doors, positions, b, n).len() ==> (
            #[trigger] door_unlocks_prefix(doors, positions, b, n)[k]).id == b.id,
    decreases n,
{
    if n > 0 {
        lemma_door_unlocks_keep_id(doors, positions, b, n - 1);
        let prev = door_unlocks_prefix(doors, positions, b, n - 1);
        let cur = door_unlocks_prefix(doors, positions, b, n);
        assert forall|k: int| 0 <= k < cur.len() implies (#[trigger] cur[k]).id == b.id by {
            if k < prev.len() {
                assert(cur[k] == prev[k]);
            }
        }
    }
}

/// Turns every unclaimed bump into a locked door into an attempt to unlock
/// that door, under the bump's resolution id. The rule claims nothing and
/// costs no time.
pub fn on_bump_interpret_as_door_unlock_intent(
    doors: &Storage<IsDoor>,
    has_position: &Storage<HasPosition>,
    bump_intents: &VecDeque<BumpIntent>,
    unlock_intents: &mut VecDeque<UnlockIntent>,
    handled: &ResolvedIntents,
)
    requires
        has_position.wf(),
    ensures
        final(unlock_intents)@ == old(unlock_intents)@ + bump_unlocks_prefix(
            doors@,
            has_position@,
            bump_intents@,
            handled@,
            bump_intents@.len() as int,
        ),
{
    let n = bump_intents.len();
    let m = doors.len();
    let mut i: usize = 0;
    assert(old(unlock_intents)@ + Seq::<UnlockIntent>::empty() =~= old(unlock_intents)@);
    while i < n
        invariant
            n == bump_intents@.len(),
            m == doors@.len(),
            i <= n,
            has_position.wf(),
            unlock_intents@ == old(unlock_intents)@ + bump_unlocks_prefix(
                doors@,
                has_position@,
                bump_intents@,
                handled@,
                i as int,
            ),
        decreases n - i,
    {
        let bump = bump_intents[i];
        let ghost done = bump_unlocks_prefix(
            doors@,
            has_position@,
            bump_intents@,
            handled@,
            i as int,
        );
        if handled.not_handled(bump) {
            let mut d: usize = 0;
            assert(done + Seq::<UnlockIntent>::empty() =~= done);
            while d < m
                invariant
                    m == doors@.len(),
                    d <= m,
                    has_position.wf(),
                    unlock_intents@ == old(unlock_intents)@ + (done + door_unlocks_prefix(
                        doors@,
                        has_position@,
                        bump,
                        d as int,
                    )),
                decreases m - d,
            {
                let door_id = doors.id_at(d);
                let door = doors.value_at(d);
                let ghost prev = door_unlocks_prefix(doors@, has_position@, bump, d as int);
                match has_position.get(door_id) {
                    Some(pos) => {
                        if pos.0 == bump.pos && door.is_locked.is_some() {
                            let intent = UnlockIntent {
                                id: bump.id,
                                entity: bump.bumper,
                                target: door_id,
                            };
                            unlock_intents.push_back(intent);
                            assert(unlock_intents@ =~= old(unlock_intents)@ + (done + prev.push(
                                intent,
                            )));
                        }
                    },
                    None => {},
                }
                d = d + 1;
            }
        }
        i = i + 1;
    }
}

/// What the rule that opens doors works on, as contracts see it.
pub struct DoorStage {
    pub doors: Seq<(EntityId, DoorView)>,
    pub glyphs: Seq<(EntityId, Glyph)>,
    pub tiles: Seq<MapTile>,
    /// The ids that the rule claimed, in the order of claiming; one for
    /// each door opened.
    pub claims: Seq<u64>,
}

/// Whether a bump at `at` opens the door at `d`: the door is closed, has no
/// lock, is drawn, and stands at `at`.
pub open spec fn door_opens(s: DoorStage, positions: Seq<(EntityId, Point)>, d: int, at: Point)
    -> bool {
    &&& s.doors[d].1.is_closed
    &&& s.doors[d].1.is_locked is None
    &&& has_id(s.glyphs, s.doors[d].0)
    &&& lookup(positions, s.doors[d].0) == Some(at)
}

/// How an open door is drawn: as `_` in dark gray, on the background it had.
pub open spec fn open_door_glyph(g: Glyph) -> Glyph {
    Glyph { ch: '_', fg: Rgb::dark_gray(), bg: g.bg }
}

/// The stage after the bump `b` met the door at `d`. A door that opens is no
/// longer closed, is drawn as an open door, and the tile that stands for the
/// bump's target becomes a corridor; the bump's id is claimed. Any other door
/// is left alone.
pub open spec fn open_door(
    s: DoorStage,
    map: MapView,
    positions: Seq<(EntityId, Point)>,
    d: int,
    b: BumpIntent,
) -> DoorStage {
    if door_opens(s, positions, d, b.pos) {
        let id = s.doors[d].0;
        let g = index_of(s.glyphs, id);
        DoorStage {
            doors: s.doors.update(d, (id, DoorView { is_closed: false, ..s.doors[d].1 })),
            glyphs: s.glyphs.update(g, (id, open_door_glyph(s.glyphs[g].1))),
            tiles: s.tiles.update(map.point2d_to_index(b.pos), MapTile::Corridor),
            claims: s.claims.push(b.id),
        }
    } else {
        s
    }
}

/// The stage after the bump `b` met the first `n` doors.
pub open spec fn open_doors_prefix(
    s: DoorStage,
    map: MapView,
    positions: Seq<(EntityId, Point)>,
    b: BumpIntent,
    n: int,
) -> DoorStage
    decreases n,
{
    if n <= 0 {
        s
    } else {
        open_door(open_doors_prefix(s, map, positions, b, n - 1), map, positions, n - 1, b)
    }
}

/// The stage after the first `n` bumps met all doors, skipping the bumps
/// whose id was claimed before the stage began.
pub open spec fn open_doors_for_bumps(
    s: DoorStage,
    map: MapView,
    positions: Seq<(EntityId, Point)>,
    bumps: Seq<BumpIntent>,
    handled: Set<u64>,
    n: int,
) -> DoorStage
    decreases n,
{
    if n <= 0 {
        s
    } else {
        let prev = open_doors_for_bumps(s, map, positions, bumps, handled, n - 1);
        if handled.contains(bumps[n - 1].id) {
            prev
        } else {
            open_doors_prefix(prev, map, positions, bumps[n - 1], s.doors.len() as int)
        }
    }
}

/// What the first `n` bumps do to the doors depends on those bumps alone.
proof fn lemma_doors_of_equal_prefixes(
    s: DoorStage,
    map: MapView,
    positions: Seq<(EntityId, Point)>,
    a: Seq<BumpIntent>,
    b: Seq<BumpIntent>,
    handled: Set<u64>,
    n: int,
)
    requires
        0 <= n <= a.len(),
        n <= b.len(),
        forall|i: int| 0 <= i < n ==> a[i] == b[i],
    ensures
        open_doors_for_bumps(s, map, positions, a, handled, n) == open_doors_for_bumps(
            s,
            map,
            positions,
            b,
            handled,
            n,
        ),
    decreases n,
{
    if n > 0 {
        lemma_doors_of_equal_prefixes(s, map, positions, a, b, handled, n - 1);
    }
}

/// A bump with a claimed id might as well not be queued: the rule that opens
/// doors does for the queue what it does for the bumps with unclaimed ids
/// alone.
pub proof fn lemma_claimed_bumps_are_as_absent_to_doors(
    s: DoorStage,
    map: MapView,
    positions: Seq<(EntityId, Point)>,
    bumps: Seq<BumpIntent>,
    handled: Set<u64>,
    n: int,
)
    requires
        0 <= n <= bumps.len(),
    ensures
        open_doors_for_bumps(s, map, positions, bumps, handled, n) == open_doors_for_bumps(
            s,
            map,
            positions,
            unclaimed_prefix(bumps, handled, n),
            handled,
            unclaimed_prefix(bumps, handled, n).len() as int,
        ),
    decreases n,
{
    if n > 0 {
        lemma_claimed_bumps_are_as_absent_to_doors(s, map, positions, bumps, handled, n - 1);
        let rest = unclaimed_prefix(bumps, handled, n - 1);
        let all = unclaimed_prefix(bumps, handled, n);
        if !handled.contains(bumps[n - 1].id) {
            lemma_doors_of_equal_prefixes(
                s,
                map,
                positions,
                rest,
                all,
                handled,
                rest.len() as int,
            );
        }
    }
}

/// Bumps whose ids are all claimed open no door.
pub proof fn lemma_claimed_bumps_open_nothing(
    s: DoorStage,
    map: MapView,
    positions: Seq<(EntityId, Point)>,
    bumps: Seq<BumpIntent>,
    handled: Set<u64>,
    n: int,
)
    requires
        0 <= n <= bumps.len(),
        forall|i: int| 0 <= i < bumps.len() ==> handled.contains((#[trigger] bumps[i]).id),
    ensures
        open_doors_for_bumps(s, map, positions, bumps, handled, n) == s,
    decreases n,
{
    if n > 0 {
        lemma_claimed_bumps_open_nothing(s, map, positions, bumps, handled, n - 1);
    }
}

/// Whether the claims of `t` are those of `s`, followed by ids of bumps that
/// were unclaimed according to `handled`.
pub open spec fn claims_extend(
    s: DoorStage,
    t: DoorStage,
    bumps: Seq<BumpIntent>,
    handled: Set<u64>,
) -> bool {
    &&& s.claims.len() <= t.claims.len()
    &&& forall|k: int| 0 <= k < s.claims.len() ==> t.claims[k] == s.claims[k]
    &&& forall|k: int|
        s.claims.len() <= k < t.claims.len() ==> !handled.contains(#[trigger] t.claims[k])
            && exists|i: int| 0 <= i < bumps.len() && (#[trigger] bumps[i]).id == t.claims[k]
}

/// A bump with an unclaimed id claims nothing but its own id, however many
/// doors it opens.
pub proof fn lemma_open_doors_prefix_claims(
    s: DoorStage,
    map: MapView,
    positions: Seq<(EntityId, Point)>,
    bumps: Seq<BumpIntent>,
    handled: Set<u64>,
    i: int,
    n: int,
)
    requires
        0 <= i < bumps.len(),
        !handled.contains(bumps[i].id),
    ensures
        claims_extend(s, open_doors_prefix(s, map, positions, bumps[i], n), bumps, handled),
    decreases n,
{
    if n > 0 {
        lemma_open_doors_prefix_claims(s, map, positions, bumps, handled, i, n - 1);
        let prev = open_doors_prefix(s, map, positions, bumps[i], n - 1);
        let cur = open_door(prev, map, positions, n - 1, bumps[i]);
        assert forall|k: int| s.claims.len() <= k < cur.claims.len() implies !handled.contains(
            #[trigger] cur.claims[k],
        ) && exists|j: int| 0 <= j < bumps.len() && (#[trigger] bumps[j]).id == cur.claims[k] by {
            if k < prev.claims.len() {
                assert(cur.claims[k] == prev.claims[k]);
            } else {
                assert(cur.claims[k] == bumps[i].id);
            }
        }
    }
}

/// The rule that opens doors claims only ids that were unclaimed when it
/// began, each the id of a bump in the queue.
pub proof fn lemma_door_claims_were_unclaimed(
    s: DoorStage,
    map: MapView,
    positions: Seq<(EntityId, Point)>,
    bumps: Seq<BumpIntent>,
    handled: Set<u64>,
    n: int,
)
    requires
        0 <= n <= bumps.len(),
    ensures
        claims_extend(
            s,
            open_doors_for_bumps(s, map, positions, bumps, handled, n),
            bumps,
            handled,
        ),
    decreases n,
{
    if n > 0 {
        lemma_door_claims_were_unclaimed(s, map, positions, bumps, handled, n - 1);
        let prev = open_doors_for_bumps(s, map, positions, bumps, handled, n - 1);
        if !handled.contains(bumps[n - 1].id) {
            lemma_open_doors_prefix_claims(
                prev,
                map,
                positions,
                bumps,
                handled,
                n - 1,
                s.doors.len() as int,
            );
            let cur = open_doors_prefix(prev, map, positions, bumps[n - 1], s.doors.len() as int);
            assert forall|k: int| s.claims.len() <= k < cur.claims.len() implies !handled.contains(
                #[trigger] cur.claims[k],
            ) && exists|j: int| 0 <= j < bumps.len() && (#[trigger] bumps[j]).id == cur.claims[k] by {
                if k < prev.claims.len() {
                    assert(cur.claims[k] == prev.claims[k]);
                }
            }
        }
    }
}

/// Whether `t` is `s` after some doors were opened: the same doors and the
/// same drawn entities in the same order, with locks and signs as they were,
/// and only claims added.
pub open spec fn same_doors(s: DoorStage, t: DoorStage) -> bool {
    &&& t.doors.len() == s.doors.len()
    &&& t.glyphs.len() == s.glyphs.len()
    &&& t.tiles.len() == s.tiles.len()
    &&& forall|i: int|
        0 <= i < s.doors.len() ==> (#[trigger] t.doors[i]).0 == s.doors[i].0 && t.doors[i].1.sign
            == s.doors[i].1.sign && t.doors[i].1.is_locked == s.doors[i].1.is_locked && (
        t.doors[i].1.is_closed ==> s.doors[i].1.is_closed)
    &&& forall|i: int| 0 <= i < s.glyphs.len() ==> (#[trigger] t.glyphs[i]).0 == s.glyphs[i].0
    &&& forall|e: EntityId| has_id(t.glyphs, e) == has_id(s.glyphs, e)
    &&& crate::store::distinct_ids(s.doors) ==> crate::store::distinct_ids(t.doors)
    &&& crate::store::distinct_ids(s.glyphs) ==> crate::store::distinct_ids(t.glyphs)
    &&& s.claims.len() <= t.claims.len()
}

/// Opening a door keeps the doors and drawn entities who they are.
pub proof fn lemma_open_door_same_doors(
    s: DoorStage,
    map: MapView,
    positions: Seq<(EntityId, Point)>,
    d: int,
    b: BumpIntent,
)
    requires
        0 <= d < s.doors.len(),
        0 <= map.point2d_to_index(b.pos) < s.tiles.len(),
    ensures
        same_doors(s, open_door(s, map, positions, d, b)),
{
    let t = open_door(s, map, positions, d, b);
    if door_opens(s, positions, d, b.pos) {
        assert forall|e: EntityId| has_id(t.glyphs, e) == has_id(s.glyphs, e) by {
            if has_id(t.glyphs, e) {
                let k = choose|k: int| 0 <= k < t.glyphs.len() && (#[trigger] t.glyphs[k]).0 == e;
                assert(s.glyphs[k].0 == e);
            }
            if has_id(s.glyphs, e) {
                let k = choose|k: int| 0 <= k < s.glyphs.len() && (#[trigger] s.glyphs[k]).0 == e;
                assert(t.glyphs[k].0 == e);
            }
        }
        if crate::store::distinct_ids(s.doors) {
            assert forall|i: int, j: int|
                0 <= i < t.doors.len() && 0 <= j < t.doors.len() && (#[trigger] t.doors[i]).0 == (
                #[trigger] t.doors[j]).0 implies i == j by {
                assert(s.doors[i].0 == s.doors[j].0);
            }
        }
        if crate::store::distinct_ids(s.glyphs) {
            assert forall|i: int, j: int|
                0 <= i < t.glyphs.len() && 0 <= j < t.glyphs.len() && (#[trigger] t.glyphs[i]).0
                    == (#[trigger] t.glyphs[j]).0 implies i == j by {
                assert(s.glyphs[i].0 == s.glyphs[j].0);
            }
        }
    } else {
        assert(t == s);
    }
}

/// Whether the door at `d` is one that a bump can open: closed, without a
/// lock, and drawn.
pub open spec fn can_open(s: DoorStage, d: int) -> bool {
    &&& s.doors[d].1.is_closed
    &&& s.doors[d].1.is_locked is None
    &&& has_id(s.glyphs, s.doors[d].0)
}

/// Whether one of the first `n` bumps has an unclaimed id and aims at the
/// place where `id` stands.
pub open spec fn is_bumped(
    positions: Seq<(EntityId, Point)>,
    bumps: Seq<BumpIntent>,
    handled: Set<u64>,
    n: int,
    id: EntityId,
) -> bool {
    exists|i: int|
        0 <= i < n && !handled.contains((#[trigger] bumps[i]).id) && lookup(positions, id) == Some(
            bumps[i].pos,
        )
}

/// After a bump met the first `n` doors, a door is closed exactly if it was
/// closed and is not one of those `n` that the bump could open.
pub proof fn lemma_open_doors_prefix_closed(
    s: DoorStage,
    map: MapView,
    positions: Seq<(EntityId, Point)>,
    b: BumpIntent,
    n: int,
)
    requires
        0 <= n <= s.doors.len(),
        0 <= map.point2d_to_index(b.pos) < s.tiles.len(),
    ensures
        same_doors(s, open_doors_prefix(s, map, positions, b, n)),
        forall|d: int|
            0 <= d < s.doors.len() ==> (#[trigger] open_doors_prefix(
                s,
                map,
                positions,
                b,
                n,
            ).doors[d]).1.is_closed == (s.doors[d].1.is_closed && !(d < n && can_open(s, d)
                && lookup(positions, s.doors[d].0) == Some(b.pos))),
    decreases n,
{
    if n > 0 {
        lemma_open_doors_prefix_closed(s, map, positions, b, n - 1);
        let prev = open_doors_prefix(s, map, positions, b, n - 1);
        lemma_open_door_same_doors(prev, map, positions, n - 1, b);
        let cur = open_door(prev, map, positions, n - 1, b);
        assert(prev.doors[n - 1].0 == s.doors[n - 1].0);
        assert(door_opens(prev, positions, n - 1, b.pos) == (can_open(s, n - 1) && lookup(
            positions,
            s.doors[n - 1].0,
        ) == Some(b.pos)));
        assert forall|d: int| 0 <= d < s.doors.len() implies (#[trigger] cur.doors[d]).1.is_closed
            == (s.doors[d].1.is_closed && !(d < n && can_open(s, d) && lookup(
            positions,
            s.doors[d].0,
        ) == Some(b.pos))) by {
            assert(prev.doors[d].1.is_closed == (s.doors[d].1.is_closed && !(d < n - 1
                && can_open(s, d) && lookup(positions, s.doors[d].0) == Some(b.pos))));
        }
        assert(same_doors(s, cur));
    } else {
        assert(same_doors(s, s));
    }
}

/// Which doors the rule opens: after it, a door is closed exactly if it was
/// closed and it is not so that it could be opened and a bump with an
/// unclaimed id aimed at its place. Locks, signs and the doors' order are as
/// they were.
pub proof fn lemma_doors_opened_exactly(
    s: DoorStage,
    map: MapView,
    positions: Seq<(EntityId, Point)>,
    bumps: Seq<BumpIntent>,
    handled: Set<u64>,
    n: int,
)
    requires
        0 <= n <= bumps.len(),
        map.wf(),
        map.tiles.len() > 0,
        s.tiles.len() == map.tiles.len(),
    ensures
        same_doors(s, open_doors_for_bumps(s, map, positions, bumps, handled, n)),
        forall|d: int|
            0 <= d < s.doors.len() ==> (#[trigger] open_doors_for_bumps(
                s,
                map,
                positions,
                bumps,
                handled,
                n,
            ).doors[d]).1.is_closed == (s.doors[d].1.is_closed && !(can_open(s, d) && is_bumped(
                positions,
                bumps,
                handled,
                n,
                s.doors[d].0,
            ))),
    decreases n,
{
    if n > 0 {
        lemma_doors_opened_exactly(s, map, positions, bumps, handled, n - 1);
        let prev = open_doors_for_bumps(s, map, positions, bumps, handled, n - 1);
        let b = bumps[n - 1];
        let cur = open_doors_for_bumps(s, map, positions, bumps, handled, n);
        if !handled.contains(b.id) {
            map.lemma_point_index_in_range(b.pos);
            lemma_open_doors_prefix_closed(prev, map, positions, b, s.doors.len() as int);
            assert(same_doors(s, cur));
        }
        assert forall|d: int| 0 <= d < s.doors.len() implies (#[trigger] cur.doors[d]).1.is_closed
            == (s.doors[d].1.is_closed && !(can_open(s, d) && is_bumped(
            positions,
            bumps,
            handled,
            n,
            s.doors[d].0,
        ))) by {
            let id = s.doors[d].0;
            assert(prev.doors[d].0 == id);
            let before = is_bumped(positions, bumps, handled, n - 1, id);
            let hit = !handled.contains(b.id) && lookup(positions, id) == Some(b.pos);
            assert(is_bumped(positions, bumps, handled, n, id) == (before || hit)) by {
                if before {
                    let i = choose|i: int|
                        0 <= i < n - 1 && !handled.contains((#[trigger] bumps[i]).id) && lookup(
                            positions,
                            id,
                        ) == Some(bumps[i].pos);
                    assert(!handled.contains(bumps[i].id));
                }
                if hit {
                    assert(!handled.contains(bumps[n - 1].id));
                }
            }
            assert(prev.doors[d].1.is_closed == (s.doors[d].1.is_closed && !(can_open(s, d)
                && before)));
            if !handled.contains(b.id) {
                assert(cur.doors[d].1.is_closed == (prev.doors[d].1.is_closed && !(can_open(
                    prev,
                    d,
                ) && lookup(positions, prev.doors[d].0) == Some(b.pos))));
                assert(prev.doors[d].1.is_closed ==> can_open(prev, d) == can_open(s, d));
            }
        }
    } else {
        assert(same_doors(s, s));
    }
}

/// Whether `t` shows on the map and in the glyphs what happened to the doors
/// since `s`: the place of every door that was opened has a corridor tile and
/// the door is drawn open; every other tile and glyph is as it was or, where
/// a bump met a door, a corridor tile or the glyph of an open door.
pub open spec fn opened_doors_show(
    s: DoorStage,
    t: DoorStage,
    map: MapView,
    positions: Seq<(EntityId, Point)>,
) -> bool {
    &&& forall|i: int|
        0 <= i < s.tiles.len() ==> (#[trigger] t.tiles[i]) == s.tiles[i] || t.tiles[i]
            == MapTile::Corridor
    &&& forall|g: int|
        0 <= g < s.glyphs.len() ==> (#[trigger] t.glyphs[g]) == s.glyphs[g] || t.glyphs[g].1
            == open_door_glyph(s.glyphs[g].1)
    &&& forall|d: int|
        0 <= d < s.doors.len() && s.doors[d].1.is_closed && !(#[trigger] t.doors[d]).1.is_closed
            ==> {
            &&& lookup(positions, s.doors[d].0) is Some
            &&& has_id(s.glyphs, s.doors[d].0)
            &&& t.tiles[map.point2d_to_index(lookup(positions, s.doors[d].0).unwrap())]
                == MapTile::Corridor
            &&& distinct_ids(s.glyphs) ==> t.glyphs[index_of(s.glyphs, s.doors[d].0)].1
                == open_door_glyph(s.glyphs[index_of(s.glyphs, s.doors[d].0)].1)
        }
}

/// One door met by one bump keeps the map and the glyphs in step with the
/// doors.
proof fn lemma_open_door_shows(
    s: DoorStage,
    t: DoorStage,
    map: MapView,
    positions: Seq<(EntityId, Point)>,
    d: int,
    b: BumpIntent,
)
    requires
        0 <= d < s.doors.len(),
        map.wf(),
        map.tiles.len() > 0,
        s.tiles.len() == map.tiles.len(),
        same_doors(s, t),
        opened_doors_show(s, t, map, positions),
    ensures
        same_doors(s, open_door(t, map, positions, d, b)),
        opened_doors_show(s, open_door(t, map, positions, d, b), map, positions),
{
    map.lemma_point_index_in_range(b.pos);
    lemma_open_door_same_doors(t, map, positions, d, b);
    let u = open_door(t, map, positions, d, b);
    assert(same_doors(s, u));
    if door_opens(t, positions, d, b.pos) {
        let id = t.doors[d].0;
        let g = index_of(t.glyphs, id);
        assert(0 <= g < t.glyphs.len() && t.glyphs[g].0 == id);
        assert(s.glyphs[g].0 == id);
        assert(open_door_glyph(t.glyphs[g].1) == open_door_glyph(s.glyphs[g].1));
        assert forall|k: int|
            0 <= k < s.doors.len() && s.doors[k].1.is_closed && !(#[trigger] u.doors[k]).1.is_closed
            implies {
            &&& lookup(positions, s.doors[k].0) is Some
            &&& has_id(s.glyphs, s.doors[k].0)
            &&& u.tiles[map.point2d_to_index(lookup(positions, s.doors[k].0).unwrap())]
                == MapTile::Corridor
            &&& distinct_ids(s.glyphs) ==> u.glyphs[index_of(s.glyphs, s.doors[k].0)].1
                == open_door_glyph(s.glyphs[index_of(s.glyphs, s.doors[k].0)].1)
        } by {
            let e = s.doors[k].0;
            assert(t.doors[k].0 == e);
            if k == d {
                assert(lookup(positions, e) == Some(b.pos));
            } else {
                assert(u.doors[k] == t.doors[k]);
                assert(!t.doors[k].1.is_closed);
                map.lemma_point_index_in_range(lookup(positions, e).unwrap());
            }
            if distinct_ids(s.glyphs) {
                assert(distinct_ids(t.glyphs));
                let h = index_of(s.glyphs, e);
                if k == d {
                    lemma_lookup_at(s.glyphs, g);
                    assert(h == g);
                } else {
                    assert(has_id(s.glyphs, e));
                    assert(s.glyphs[h].0 == e);
                    assert(t.glyphs[h].0 == e);
                    if h == g {
                        assert(open_door_glyph(open_door_glyph(s.glyphs[h].1)) == open_door_glyph(
                            s.glyphs[h].1,
                        ));
                    } else {
                        assert(u.glyphs[h] == t.glyphs[h]);
                    }
                }
            }
        }
    }
}

/// A bump that met the first `n` doors keeps the map and the glyphs in step
/// with the doors.
proof fn lemma_open_doors_prefix_shows(
    s: DoorStage,
    t: DoorStage,
    map: MapView,
    positions: Seq<(EntityId, Point)>,
    b: BumpIntent,
    n: int,
)
    requires
        0 <= n <= s.doors.len(),
        map.wf(),
        map.tiles.len() > 0,
        s.tiles.len() == map.tiles.len(),
        same_doors(s, t),
        opened_doors_show(s, t, map, positions),
    ensures
        same_doors(s, open_doors_prefix(t, map, positions, b, n)),
        opened_doors_show(s, open_doors_prefix(t, map, positions, b, n), map, positions),
    decreases n,
{
    if n > 0 {
        lemma_open_doors_prefix_shows(s, t, map, positions, b, n - 1);
        lemma_open_door_shows(
            s,
            open_doors_prefix(t, map, positions, b, n - 1),
            map,
            positions,
            n - 1,
            b,
        );
    }
}

/// What the rule leaves on the map and in the glyphs: where it opened a
/// door, the tile has become a corridor, which does not block, and the door
/// is drawn as an open door; no tile and no glyph changed in any other way.
pub proof fn lemma_opened_doors_show(
    s: DoorStage,
    map: MapView,
    positions: Seq<(EntityId, Point)>,
    bumps: Seq<BumpIntent>,
    handled: Set<u64>,
    n: int,
)
    requires
        0 <= n <= bumps.len(),
        map.wf(),
        map.tiles.len() > 0,
        s.tiles.len() == map.tiles.len(),
    ensures
        same_doors(s, open_doors_for_bumps(s, map, positions, bumps, handled, n)),
        opened_doors_show(
            s,
            open_doors_for_bumps(s, map, positions, bumps, handled, n),
            map,
            positions,
        ),
    decreases n,
{
    if n > 0 {
        lemma_opened_doors_show(s, map, positions, bumps, handled, n - 1);
        let prev = open_doors_for_bumps(s, map, positions, bumps, handled, n - 1);
        if !handled.contains(bumps[n - 1].id) {
            lemma_open_doors_prefix_shows(
                s,
                prev,
                map,
                positions,
                bumps[n - 1],
                s.doors.len() as int,
            );
        }
    } else {
        assert(same_doors(s, s));
    }
}

/// Looks at every bump that was unclaimed when the rule began, and opens each
/// closed door without a lock that stands where the bump aims: the door is
/// open from then on and drawn so, the map's tile for the place becomes a
/// corridor, the world is marked dirty, the bump's id is claimed, and the
/// current actor's turn ends at the price of a tick.
pub fn on_bump_open_doors(
    map: &mut TileMap,
    has_position: &Storage<HasPosition>,
    doors: &mut Storage<IsDoor>,
    has_glyph: &mut Storage<HasGlyph>,
    bump_intents: &VecDeque<BumpIntent>,
    dirty: &mut IsDirty,
    handled: &mut ResolvedIntents,
    time: &mut Time,
)
    requires
        old(map).wf(),
        old(map).tiles@.len() > 0,
        has_position.wf(),
        old(doors).wf(),
        old(has_glyph).wf(),
    ensures
        final(map).wf(),
        final(map).width == old(map).width,
        final(map).height == old(map).height,
        final(doors).wf(),
        final(has_glyph).wf(),
        ({
            let before = DoorStage {
                doors: old(doors)@,
                glyphs: old(has_glyph)@,
                tiles: old(map).tiles@,
                claims: Seq::empty(),
            };
            let after = open_doors_for_bumps(
                before,
                old(map)@,
                has_position@,
                bump_intents@,
                old(handled)@,
                bump_intents@.len() as int,
            );
            &&& final(doors)@ == after.doors
            &&& final(has_glyph)@ == after.glyphs
            &&& final(map).tiles@ == after.tiles
            &&& final(handled)@ == old(handled)@.union(after.claims.to_set())
            &&& final(time)@ == old(time)@.push_back_times(Time::TICK, after.claims.len())
            &&& final(dirty).0 == (old(dirty).0 || after.claims.len() > 0)
            &&& same_doors(before, after)
            &&& opened_doors_show(before, after, old(map)@, has_position@)
            &&& forall|d: int|
                0 <= d < old(doors)@.len() ==> (#[trigger] final(doors)@[d]).1.is_closed == (old(
                    doors,
                )@[d].1.is_closed && !(can_open(before, d) && is_bumped(
                    has_position@,
                    bump_intents@,
                    old(handled)@,
                    bump_intents@.len() as int,
                    old(doors)@[d].0,
                )))
        }),
{
    let ghost before = DoorStage {
        doors: doors@,
        glyphs: has_glyph@,
        tiles: map.tiles@,
        claims: Seq::empty(),
    };
    let ghost map0 = map@;
    let mut resolved: Vec<u64> = Vec::new();
    let n = bump_intents.len();
    let m = doors.len();
    let mut i: usize = 0;
    assert(same_doors(before, before));
    while i < n
        invariant
            n == bump_intents@.len(),
            m == before.doors.len(),
            i <= n,
            map0 == old(map)@,
            map0.wf(),
            map0.tiles.len() > 0,
            map@.width == map0.width,
            map@.height == map0.height,
            map.wf(),
            has_position.wf(),
            doors.wf(),
            has_glyph.wf(),
            handled@ == old(handled)@,
            before.doors == old(doors)@,
            before.glyphs == old(has_glyph)@,
            before.tiles == old(map).tiles@,
            before.claims == Seq::<u64>::empty(),
            ({
                let s = open_doors_for_bumps(
                    before,
                    map0,
                    has_position@,
                    bump_intents@,
                    old(handled)@,
                    i as int,
                );
                &&& doors@ == s.doors
                &&& has_glyph@ == s.glyphs
                &&& map.tiles@ == s.tiles
                &&& resolved@ == s.claims
                &&& time@ == old(time)@.push_back_times(Time::TICK, s.claims.len())
                &&& dirty.0 == (old(dirty).0 || s.claims.len() > 0)
                &&& same_doors(before, s)
            }),
        decreases n - i,
    {
        let bump = bump_intents[i];
        let ghost s0 = open_doors_for_bumps(
            before,
            map0,
            has_position@,
            bump_intents@,
            old(handled)@,
            i as int,
        );
        if handled.not_handled(bump) {
            let mut d: usize = 0;
            while d < m
                invariant
                    m == before.doors.len(),
                    d <= m,
                    map0.wf(),
                    map0.tiles.len() > 0,
                    map@.width == map0.width,
                    map@.height == map0.height,
                    map.wf(),
                    has_position.wf(),
                    doors.wf(),
                    has_glyph.wf(),
                    same_doors(before, s0),
                    before.tiles.len() == map0.tiles.len(),
                    ({
                        let s = open_doors_prefix(s0, map0, has_position@, bump, d as int);
                        &&& doors@ == s.doors
                        &&& has_glyph@ == s.glyphs
                        &&& map.tiles@ == s.tiles
                        &&& resolved@ == s.claims
                        &&& time@ == old(time)@.push_back_times(Time::TICK, s.claims.len())
                        &&& dirty.0 == (old(dirty).0 || s.claims.len() > 0)
                        &&& same_doors(before, s)
                    }),
                decreases m - d,
            {
                let ghost s = open_doors_prefix(s0, map0, has_position@, bump, d as int);
                proof {
                    map0.lemma_point_index_in_range(bump.pos);
                    lemma_open_door_same_doors(s, map0, has_position@, d as int, bump);
                }
                let door_id = doors.id_at(d);
                let door = doors.value_at(d);
                if door.is_closed && door.is_locked.is_none() {
                    match has_glyph.find(door_id) {
                        Some(g) => {
                            match has_position.get(door_id) {
                                Some(pos) => {
                                    if pos.0 == bump.pos {
                                        let opened = IsDoor {
                                            sign: door.sign.clone(),
                                            is_closed: false,
                                            is_locked: door.is_locked,
                                        };
                                        let glyph = has_glyph.value_at(g).0;
                                        let p = pos.0;
                                        doors.set_value_at(d, opened);
                                        has_glyph.set_value_at(
                                            g,
                                            HasGlyph(
                                                Glyph {
                                                    ch: '_',
                                                    fg: Rgb::dark_gray(),
                                                    bg: glyph.bg,
                                                },
                                            ),
                                        );
                                        let tile_index = map.point2d_to_index(p);
                                        map.set_at_tile_index(tile_index, MapTile::Corridor);
                                        resolved.push(bump.id);
                                        time.push_current_back(Time::TICK);
                                        dirty.0 = true;
                                    }
                                },
                                None => {},
                            }
                        },
                        None => {},
                    }
                }
                d = d + 1;
            }
        }
        i = i + 1;
    }
    handled.claim_all(&resolved);
    proof {
        lemma_doors_opened_exactly(
            before,
            map0,
            has_position@,
            bump_intents@,
            old(handled)@,
            n as int,
        );
        lemma_opened_doors_show(
            before,
            map0,
            has_position@,
            bump_intents@,
            old(handled)@,
            n as int,
        );
    }
}

/// The message written when a door is unlocked with the item called `label`.
pub open spec fn unlocked_message(label: Seq<char>) -> Seq<char> {
    "You unlocked the door with the "@ + label
}

/// The message written when a door with the sign `sign` stays locked.
pub open spec fn locked_message(sign: Seq<char>) -> Seq<char> {
    "The door marked '"@ + sign + "' is locked."@
}

/// Whether the attempt `u` is decided by the rule: its id is unclaimed and
/// its target is a door with a lock.
pub open spec fn is_decisive(u: UnlockIntent, doors: Seq<(EntityId, DoorView)>, handled: Set<u64>)
    -> bool {
    &&& !handled.contains(u.id)
    &&& has_id(doors, u.target)
    &&& doors[index_of(doors, u.target)].1.is_locked is Some
}

/// Whether the attempt at `i` is the first that the rule decides.
pub open spec fn is_first_decisive(
    unlocks: Seq<UnlockIntent>,
    doors: Seq<(EntityId, DoorView)>,
    handled: Set<u64>,
    i: int,
) -> bool {
    &&& 0 <= i < unlocks.len()
    &&& is_decisive(unlocks[i], doors, handled)
    &&& forall|j: int| 0 <= j < i ==> !is_decisive(#[trigger] unlocks[j], doors, handled)
}

/// Whether the relation at `c` is the first that says `owner` carries `key`.
pub open spec fn is_first_carry(
    carries: Seq<(EntityId, CarriesItem)>,
    owner: EntityId,
    key: EntityId,
    c: int,
) -> bool {
    &&& 0 <= c < carries.len()
    &&& carries[c].1 == (CarriesItem { owner, item: key })
    &&& forall|j: int|
        0 <= j < c ==> (#[trigger] carries[j]).1 != (CarriesItem { owner, item: key })
}

/// Whether `owner` carries `key`.
pub open spec fn has_key(carries: Seq<(EntityId, CarriesItem)>, owner: EntityId, key: EntityId)
    -> bool {
    exists|c: int|
        0 <= c < carries.len() && (#[trigger] carries[c]).1 == (CarriesItem { owner, item: key })
}

/// Every lock names an item.
pub open spec fn keys_are_items(
    doors: Seq<(EntityId, DoorView)>,
    items: Seq<(EntityId, ItemView)>,
) -> bool {
    forall|d: int|
        0 <= d < doors.len() && (#[trigger] doors[d]).1.is_locked is Some ==> has_id(
            items,
            doors[d].1.is_locked.unwrap(),
        )
}

/// What the unlock rule works on, as contracts see it.
pub struct UnlockStage {
    pub carries: Seq<(EntityId, CarriesItem)>,
    pub unlock_directives: Seq<UnlockDirective>,
    pub notify_directives: Seq<NotifyView>,
    pub log: crate::game_systems::notifications::LogView,
    pub handled: Set<u64>,
    pub time: crate::time::TimeView,
}

/// The stage after the rule decided the attempt `u` on a door with a lock.
///
/// If the actor carries the door's key, the first relation that says so is
/// destroyed, an unlock directive for the door is emitted, the log is told,
/// the attempt's id is claimed and the current actor's turn ends at the price
/// of a tick. If not, a notification that the door is locked is emitted, to
/// be written only if the id is still unclaimed when the directives are
/// applied; nothing is claimed and no time passes.
pub open spec fn decide_unlock(
    s: UnlockStage,
    doors: Seq<(EntityId, DoorView)>,
    items: Seq<(EntityId, ItemView)>,
    u: UnlockIntent,
) -> UnlockStage {
    let door = doors[index_of(doors, u.target)].1;
    let key = door.is_locked.unwrap();
    if has_key(s.carries, u.entity, key) {
        let c = choose|c: int| is_first_carry(s.carries, u.entity, key, c);
        UnlockStage {
            carries: s.carries.remove(c),
            unlock_directives: s.unlock_directives.push(UnlockDirective(u.target)),
            notify_directives: s.notify_directives,
            log: s.log.write(unlocked_message(items[index_of(items, key)].1.item)),
            handled: s.handled.insert(u.id),
            time: s.time.push_current_back(Time::TICK),
        }
    } else {
        UnlockStage {
            notify_directives: s.notify_directives.push(
                NotifyView { entity_alive: Some(u.id), notification: locked_message(door.sign) },
            ),
            ..s
        }
    }
}

/// The stage after the unlock rule: the first attempt with an unclaimed id
/// whose target is a door with a lock is decided, and no other; without such
/// an attempt nothing changes.
pub open spec fn unlock_stage(
    s: UnlockStage,
    doors: Seq<(EntityId, DoorView)>,
    items: Seq<(EntityId, ItemView)>,
    unlocks: Seq<UnlockIntent>,
) -> UnlockStage {
    if exists|i: int| is_first_decisive(unlocks, doors, s.handled, i) {
        let i = choose|i: int| is_first_decisive(unlocks, doors, s.handled, i);
        decide_unlock(s, doors, items, unlocks[i])
    } else {
        s
    }
}

/// Attempts whose ids are all claimed change nothing.
pub proof fn lemma_claimed_unlocks_change_nothing(
    s: UnlockStage,
    doors: Seq<(EntityId, DoorView)>,
    items: Seq<(EntityId, ItemView)>,
    unlocks: Seq<UnlockIntent>,
)
    requires
        forall|i: int| 0 <= i < unlocks.len() ==> s.handled.contains((#[trigger] unlocks[i]).id),
    ensures
        unlock_stage(s, doors, items, unlocks) == s,
{
}

/// Where an attempt is decided by the rule, some attempt is the first such.
proof fn lemma_first_decisive_exists(
    unlocks: Seq<UnlockIntent>,
    doors: Seq<(EntityId, DoorView)>,
    handled: Set<u64>,
    i: int,
)
    requires
        0 <= i < unlocks.len(),
        is_decisive(unlocks[i], doors, handled),
    ensures
        exists|k: int| is_first_decisive(unlocks, doors, handled, k) && k <= i,
    decreases i,
{
    if exists|j: int| 0 <= j < i && is_decisive(#[trigger] unlocks[j], doors, handled) {
        let j = choose|j: int| 0 <= j < i && is_decisive(#[trigger] unlocks[j], doors, handled);
        lemma_first_decisive_exists(unlocks, doors, handled, j);
    } else {
        assert(is_first_decisive(unlocks, doors, handled, i));
    }
}

/// The attempts with unclaimed ids hold the first attempt that the rule
/// decides, and nothing decisive before it; where the queue holds no such
/// attempt, neither do they.
proof fn lemma_unclaimed_keep_first_decisive(
    unlocks: Seq<UnlockIntent>,
    doors: Seq<(EntityId, DoorView)>,
    handled: Set<u64>,
)
    ensures
        (forall|i: int|
            0 <= i < unlocks.len() ==> !is_decisive(#[trigger] unlocks[i], doors, handled))
            ==> forall|k: int|
            0 <= k < unclaimed(unlocks, handled).len() ==> !is_decisive(
                #[trigger] unclaimed(unlocks, handled)[k],
                doors,
                handled,
            ),
        forall|i: int|
            is_first_decisive(unlocks, doors, handled, i) ==> exists|j: int|
                is_first_decisive(unclaimed(unlocks, handled), doors, handled, j) && (
                #[trigger] unclaimed(unlocks, handled)[j]) == unlocks[i],
    decreases unlocks.len(),
{
    let n = unlocks.len() as int;
    if n > 0 {
        let head = unlocks.drop_last();
        let last = unlocks.last();
        lemma_unclaimed_keep_first_decisive(head, doors, handled);
        lemma_unclaimed_of_equal_prefixes(unlocks, head, handled, n - 1);
        let f0 = unclaimed(head, handled);
        let f = unclaimed(unlocks, handled);
        assert(f == if handled.contains(last.id) {
            f0
        } else {
            f0.push(last)
        });
        if forall|i: int|
            0 <= i < unlocks.len() ==> !is_decisive(#[trigger] unlocks[i], doors, handled) {
            assert forall|i: int| 0 <= i < head.len() implies !is_decisive(
                #[trigger] head[i],
                doors,
                handled,
            ) by {
                assert(head[i] == unlocks[i]);
            }
            assert forall|k: int| 0 <= k < f.len() implies !is_decisive(
                #[trigger] f[k],
                doors,
                handled,
            ) by {
                if k < f0.len() {
                    assert(f[k] == f0[k]);
                } else {
                    assert(f[k] == unlocks[n - 1]);
                }
            }
        }
        assert forall|i: int| is_first_decisive(unlocks, doors, handled, i) implies exists|j: int|
            is_first_decisive(f, doors, handled, j) && (#[trigger] f[j]) == unlocks[i] by {
            if i < n - 1 {
                assert(head[i] == unlocks[i]);
                assert forall|k: int| 0 <= k < i implies !is_decisive(
                    #[trigger] head[k],
                    doors,
                    handled,
                ) by {
                    assert(head[k] == unlocks[k]);
                }
                assert(is_first_decisive(head, doors, handled, i));
                let j = choose|j: int|
                    is_first_decisive(f0, doors, handled, j) && (#[trigger] f0[j]) == head[i];
                assert(f[j] == f0[j]);
                assert forall|k: int| 0 <= k < j implies !is_decisive(
                    #[trigger] f[k],
                    doors,
                    handled,
                ) by {
                    assert(f[k] == f0[k]);
                }
                assert(is_first_decisive(f, doors, handled, j));
            } else {
                assert forall|k: int| 0 <= k < head.len() implies !is_decisive(
                    #[trigger] head[k],
                    doors,
                    handled,
                ) by {
                    assert(head[k] == unlocks[k]);
                }
                let j = f0.len() as int;
                assert(f[j] == last);
                assert forall|k: int| 0 <= k < j implies !is_decisive(
                    #[trigger] f[k],
                    doors,
                    handled,
                ) by {
                    assert(f[k] == f0[k]);
                }
                assert(is_first_decisive(f, doors, handled, j));
            }
        }
    }
}

/// An attempt with a claimed id might as well not be queued: the unlock rule
/// does for the queue what it does for the attempts with unclaimed ids alone.
pub proof fn lemma_claimed_unlocks_are_as_absent(
    s: UnlockStage,
    doors: Seq<(EntityId, DoorView)>,
    items: Seq<(EntityId, ItemView)>,
    unlocks: Seq<UnlockIntent>,
)
    ensures
        unlock_stage(s, doors, items, unlocks) == unlock_stage(
            s,
            doors,
            items,
            unclaimed(unlocks, s.handled),
        ),
{
    let f = unclaimed(unlocks, s.handled);
    lemma_unclaimed_keep_first_decisive(unlocks, doors, s.handled);
    if exists|i: int| is_first_decisive(unlocks, doors, s.handled, i) {
        let i = choose|i: int| is_first_decisive(unlocks, doors, s.handled, i);
        let j = choose|j: int|
            is_first_decisive(f, doors, s.handled, j) && (#[trigger] f[j]) == unlocks[i];
        let c = choose|c: int| is_first_decisive(f, doors, s.handled, c);
        assert(c == j);
    } else {
        if exists|k: int| 0 <= k < unlocks.len() && is_decisive(
            #[trigger] unlocks[k],
            doors,
            s.handled,
        ) {
            let k = choose|k: int|
                0 <= k < unlocks.len() && is_decisive(#[trigger] unlocks[k], doors, s.handled);
            lemma_first_decisive_exists(unlocks, doors, s.handled, k);
        }
        assert(forall|k: int|
            0 <= k < f.len() ==> !is_decisive(#[trigger] f[k], doors, s.handled));
    }
}

/// The unlock rule claims at most one id, and only one that was unclaimed
/// when it began: the id of the first attempt it decides.
pub proof fn lemma_unlock_claims_were_unclaimed(
    s: UnlockStage,
    doors: Seq<(EntityId, DoorView)>,
    items: Seq<(EntityId, ItemView)>,
    unlocks: Seq<UnlockIntent>,
    id: u64,
)
    requires
        unlock_stage(s, doors, items, unlocks).handled.contains(id),
        !s.handled.contains(id),
    ensures
        exists|i: int|
            is_first_decisive(unlocks, doors, s.handled, i) && (#[trigger] unlocks[i]).id == id,
        unlock_stage(s, doors, items, unlocks).handled == s.handled.insert(id),
{
    let i = choose|i: int| is_first_decisive(unlocks, doors, s.handled, i);
    assert(unlocks[i].id == id);
}

/// An attempt by an actor without the key claims nothing, leaves the door's
/// key with whoever carries it, and lets no time pass.
pub proof fn lemma_unlock_without_key(
    s: UnlockStage,
    doors: Seq<(EntityId, DoorView)>,
    items: Seq<(EntityId, ItemView)>,
    u: UnlockIntent,
)
    requires
        is_decisive(u, doors, s.handled),
        !has_key(s.carries, u.entity, doors[index_of(doors, u.target)].1.is_locked.unwrap()),
    ensures
        unlock_stage(s, doors, items, seq![u]).handled == s.handled,
        unlock_stage(s, doors, items, seq![u]).carries == s.carries,
        unlock_stage(s, doors, items, seq![u]).time == s.time,
        unlock_stage(s, doors, items, seq![u]).log == s.log,
        unlock_stage(s, doors, items, seq![u]).unlock_directives == s.unlock_directives,
        unlock_stage(s, doors, items, seq![u]).notify_directives == s.notify_directives.push(
            NotifyView {
                entity_alive: Some(u.id),
                notification: locked_message(doors[index_of(doors, u.target)].1.sign),
            },
        ),
{
    let unlocks = seq![u];
    assert(is_first_decisive(unlocks, doors, s.handled, 0));
    let i = choose|i: int| is_first_decisive(unlocks, doors, s.handled, i);
    assert(unlocks[i] == u);
}

fn find_decisive(
    unlocks: &VecDeque<UnlockIntent>,
    doors: &Storage<IsDoor>,
    handled: &ResolvedIntents,
) -> (r: Option<usize>)
    requires
        doors.wf(),
    ensures
        match r {
            Some(i) => is_first_decisive(unlocks@, doors@, handled@, i as int),
            None => forall|i: int|
                0 <= i < unlocks@.len() ==> !is_decisive(#[trigger] unlocks@[i], doors@, handled@),
        },
{
    let n = unlocks.len();
    let mut i: usize = 0;
    while i < n
        invariant
            n == unlocks@.len(),
            i <= n,
            doors.wf(),
            forall|j: int| 0 <= j < i ==> !is_decisive(#[trigger] unlocks@[j], doors@, handled@),
        decreases n - i,
    {
        let unlock = unlocks[i];
        if handled.not_handled(unlock) {
            match doors.get(unlock.target) {
                Some(door) => {
                    if door.is_locked.is_some() {
                        return Some(i);
                    }
                },
                None => {},
            }
        }
        i = i + 1;
    }
    None
}

fn find_carry(carries: &Storage<CarriesItem>, owner: EntityId, key: EntityId) -> (r: Option<usize>)
    ensures
        match r {
            Some(c) => is_first_carry(carries@, owner, key, c as int),
            None => !has_key(carries@, owner, key),
        },
{
    let n = carries.len();
    let mut c: usize = 0;
    while c < n
        invariant
            n == carries@.len(),
            c <= n,
            forall|j: int|
                0 <= j < c ==> (#[trigger] carries@[j]).1 != (CarriesItem { owner, item: key }),
        decreases n - c,
    {
        let carry = *carries.value_at(c);
        if carry.owner == owner && carry.item == key {
            return Some(c);
        }
        c = c + 1;
    }
    None
}

/// Decides the first unclaimed attempt to unlock a door that has a lock, and
/// no other attempt. With the key the door is unlocked by directive, the key
/// is used up, the log is told, the id is claimed and the turn ends; without
/// it a notification that the door is locked is emitted and the id stays
/// unclaimed. Every lock names an item.
pub fn on_unlock_if_has_key_for_door(
    items: &Storage<IsItem>,
    carries: &mut Storage<CarriesItem>,
    doors: &Storage<IsDoor>,
    unlock_intents: &VecDeque<UnlockIntent>,
    unlock_directives: &mut VecDeque<UnlockDirective>,
    notify_directives: &mut VecDeque<NotifyDirective>,
    log: &mut NotificationLog,
    handled: &mut ResolvedIntents,
    time: &mut Time,
)
    requires
        items.wf(),
        old(carries).wf(),
        doors.wf(),
        keys_are_items(doors@, items@),
    ensures
        final(carries).wf(),
        old(log)@.wf() ==> final(log)@.wf(),
        forall|i: int|
            0 <= i < final(carries)@.len() ==> has_id(
                old(carries)@,
                (#[trigger] final(carries)@[i]).0,
            ),
        ({
            let before = UnlockStage {
                carries: old(carries)@,
                unlock_directives: old(unlock_directives)@,
                notify_directives: notify_views(old(notify_directives)@),
                log: old(log)@,
                handled: old(handled)@,
                time: old(time)@,
            };
            let after = unlock_stage(before, doors@, items@, unlock_intents@);
            &&& final(carries)@ == after.carries
            &&& final(unlock_directives)@ == after.unlock_directives
            &&& notify_views(final(notify_directives)@) == after.notify_directives
            &&& final(log)@ == after.log
            &&& final(handled)@ == after.handled
            &&& final(time)@ == after.time
        }),
{
    let ghost before = UnlockStage {
        carries: carries@,
        unlock_directives: unlock_directives@,
        notify_directives: notify_views(notify_directives@),
        log: log@,
        handled: handled@,
        time: time@,
    };
    match find_decisive(unlock_intents, doors, handled) {
        Some(i) => {
            proof {
                let chosen = choose|k: int|
                    is_first_decisive(unlock_intents@, doors@, before.handled, k);
                assert(chosen == i);
            }
            let unlock = unlock_intents[i];
            let found = doors.get(unlock.target);
            let door = match found {
                Some(door) => door,
                None => {
                    return ;
                },
            };
            let ghost at = index_of(doors@, unlock.target);
            assert(door@ == doors@[at].1);
            let key_id = match door.is_locked {
                Some(key_id) => key_id,
                None => {
                    return ;
                },
            };
            match find_carry(carries, unlock.entity, key_id) {
                Some(c) => {
                    proof {
                        let chosen = choose|k: int|
                            is_first_carry(before.carries, unlock.entity, key_id, k);
                        assert(chosen == c);
                        lemma_lookup_at(carries@, c as int);
                        assert(has_id(items@, doors@[at].1.is_locked.unwrap()));
                    }
                    let mut msg = String::from_str("You unlocked the door with the ");
                    match items.get(key_id) {
                        Some(key) => {
                            msg.append(key.item.as_str());
                        },
                        None => {},
                    }
                    proof {
                        if log@.wf() {
                            crate::game_systems::notifications::lemma_write_keeps_wf(
                                log@,
                                msg@,
                            );
                        }
                    }
                    log.write(msg);
                    unlock_directives.push_back(UnlockDirective(unlock.target));
                    handled.claim(unlock.id);
                    let carry_id = carries.id_at(c);
                    carries.remove(carry_id);
                    time.push_current_back(Time::TICK);
                    assert forall|k: int| 0 <= k < carries@.len() implies has_id(
                        old(carries)@,
                        (#[trigger] carries@[k]).0,
                    ) by {
                        if k < c {
                            assert(old(carries)@[k].0 == carries@[k].0);
                        } else {
                            assert(old(carries)@[k + 1].0 == carries@[k].0);
                        }
                    }
                },
                None => {
                    let mut msg = String::from_str("The door marked '");
                    msg.append(door.sign.as_str());
                    msg.append("' is locked.");
                    assert(msg@ =~= locked_message(door@.sign));
                    let directive = notify_if_alive(unlock.id, msg.as_str());
                    let ghost dirs_before = notify_directives@;
                    notify_directives.push_back(directive);
                    assert(notify_views(notify_directives@) =~= notify_views(dirs_before).push(
                        directive@,
                    ));
                    assert forall|k: int| 0 <= k < carries@.len() implies has_id(
                        old(carries)@,
                        (#[trigger] carries@[k]).0,
                    ) by {}
                },
            }
        },
        None => {
            assert forall|k: int| 0 <= k < carries@.len() implies has_id(
                old(carries)@,
                (#[trigger] carries@[k]).0,
            ) by {}
        },
    }
}

} // verus!
