//! The last rule for a bump: where nothing is in the way, the actor moves.
use vstd::prelude::*;
use std::collections::VecDeque;
use crate::game_systems::directives::MoveDirective;
use crate::game_systems::intents::BumpIntent;
use crate::game_systems::intents::unclaimed_prefix;
use crate::game_systems::intents::ResolvedIntents;
use crate::map::MapView;
use crate::map::TileMap;
use crate::time::Time;

verus! {

/// Whether the bump `b` becomes a move: its id is unclaimed and the tile it
/// aims at does not block.
pub open spec fn bump_moves(map: MapView, b: BumpIntent, handled: Set<u64>) -> bool {
    !handled.contains(b.id) && !map.tiles[map.point2d_to_index(b.pos)].is_blocking()
}

/// The moves that the first `n` bumps become, in the order of the bumps.
pub open spec fn moves_prefix(map: MapView, bumps: Seq<BumpIntent>, handled: Set<u64>, n: int)
    -> Seq<MoveDirective>
    decreases n,
{
    if n <= 0 {
        Seq::empty()
    } else {
        let prev = moves_prefix(map, bumps, handled, n - 1);
        if bump_moves(map, bumps[n - 1], handled) {
            prev.push(MoveDirective(bumps[n - 1].bumper, bumps[n - 1].pos))
        } else {
            prev
        }
    }
}

/// Every move comes from a bump with an unclaimed id that aims at a tile
/// which does not block.
pub proof fn lemma_moves_come_from_unclaimed_bumps(
    map: MapView,
    bumps: Seq<BumpIntent>,
    handled: Set<u64>,
    n: int,
    k: int,
)
    requires
        0 <= n <= bumps.len(),
        0 <= k < moves_prefix(map, bumps, handled, n).len(),
    ensures
        exists|i: int|
            0 <= i < n && bump_moves(map, #[trigger] bumps[i], handled) && moves_prefix(
                map,
                bumps,
                handled,
                n,
            )[k] == MoveDirective(bumps[i].bumper, bumps[i].pos),
    decreases n,
{
    let prev = moves_prefix(map, bumps, handled, n - 1);
    if k < prev.len() {
        lemma_moves_come_from_unclaimed_bumps(map, bumps, handled, n - 1, k);
        let i = choose|i: int|
            0 <= i < n - 1 && bump_moves(map, #[trigger] bumps[i], handled) && prev[k]
                == MoveDirective(bumps[i].bumper, bumps[i].pos);
        assert(bump_moves(map, bumps[i], handled));
    } else {
        assert(bump_moves(map, bumps[n - 1], handled));
    }
}

/// Every bump with an unclaimed id that aims at a tile which does not block
/// becomes a move.
pub proof fn lemma_free_bumps_move(
    map: MapView,
    bumps: Seq<BumpIntent>,
    handled: Set<u64>,
    n: int,
    i: int,
)
    requires
        0 <= i < n <= bumps.len(),
        bump_moves(map, bumps[i], handled),
    ensures
        moves_prefix(map, bumps, handled, n).contains(MoveDirective(bumps[i].bumper, bumps[i].pos)),
    decreases n,
{
    let cur = moves_prefix(map, bumps, handled, n);
    let prev = moves_prefix(map, bumps, handled, n - 1);
    let mv = MoveDirective(bumps[i].bumper, bumps[i].pos);
    if i < n - 1 {
        lemma_free_bumps_move(map, bumps, handled, n - 1, i);
        let k = choose|k: int| 0 <= k < prev.len() && prev[k] == mv;
        assert(cur[k] == mv);
    } else {
        assert(cur[prev.len() as int] == mv);
    }
}

/// The moves of the first `n` bumps depend on those bumps alone.
proof fn lemma_moves_of_equal_prefixes(
    map: MapView,
    a: Seq<BumpIntent>,
    b: Seq<BumpIntent>,
    handled: Set<u64>,
    n: int,
)
    requires
        0 <= n <= a.len(),
        n <= b.len(),
        forall|i: int| 0 <= i < n ==> a[i] == b[i],
    ensures
        moves_prefix(map, a, handled, n) == moves_prefix(map, b, handled, n),
    decreases n,
{
    if n > 0 {
        lemma_moves_of_equal_prefixes(map, a, b, handled, n - 1);
    }
}

/// A bump with a claimed id might as well not be queued: the rule emits for
/// the queue what it emits for the bumps with unclaimed ids alone.
pub proof fn lemma_claimed_bumps_are_as_absent(
    map: MapView,
    bumps: Seq<BumpIntent>,
    handled: Set<u64>,
    n: int,
)
    requires
        0 <= n <= bumps.len(),
    ensures
        moves_prefix(map, bumps, handled, n) == moves_prefix(
            map,
            unclaimed_prefix(bumps, handled, n),
            handled,
            unclaimed_prefix(bumps, handled, n).len() as int,
        ),
    decreases n,
{
    if n > 0 {
        lemma_claimed_bumps_are_as_absent(map, bumps, handled, n - 1);
        let rest = unclaimed_prefix(bumps, handled, n - 1);
        let all = unclaimed_prefix(bumps, handled, n);
        if !handled.contains(bumps[n - 1].id) {
            lemma_moves_of_equal_prefixes(map, rest, all, handled, rest.len() as int);
        }
    }
}

/// Bumps whose ids are all claimed become no move.
pub proof fn lemma_claimed_bumps_do_not_move(
    map: MapView,
    bumps: Seq<BumpIntent>,
    handled: Set<u64>,
    n: int,
)
    requires
        0 <= n <= bumps.len(),
        forall|i: int| 0 <= i < bumps.len() ==> handled.contains((#[trigger] bumps[i]).id),
    ensures
        moves_prefix(map, bumps, handled, n).len() == 0,
    decreases n,
{
    if n > 0 {
        lemma_claimed_bumps_do_not_move(map, bumps, handled, n - 1);
    }
}

/// Looks at every unclaimed bump: where the tile aimed at does not block, a
/// move directive is emitted and the current actor's turn ends at the price
/// of a tick. The rule claims nothing.
pub fn on_bump_move_if_empty(
    map: &TileMap,
    bump_intents: &VecDeque<BumpIntent>,
    move_directives: &mut VecDeque<MoveDirective>,
    handled: &ResolvedIntents,
    time: &mut Time,
)
    requires
        map.wf(),
        map.tiles@.len() > 0,
    ensures
        final(move_directives)@ == old(move_directives)@ + moves_prefix(
            map@,
            bump_intents@,
            handled@,
            bump_intents@.len() as int,
        ),
        final(time)@ == old(time)@.push_back_times(
            Time::TICK,
            moves_prefix(map@, bump_intents@, handled@, bump_intents@.len() as int).len(),
        ),
{
    let n = bump_intents.len();
    let mut i: usize = 0;
    assert(old(move_directives)@ + Seq::<MoveDirective>::empty() =~= old(move_directives)@);
    while i < n
        invariant
            n == bump_intents@.len(),
            i <= n,
            map.wf(),
            map.tiles@.len() > 0,
            move_directives@ == old(move_directives)@ + moves_prefix(
                map@,
                bump_intents@,
                handled@,
                i as int,
            ),
            time@ == old(time)@.push_back_times(
                Time::TICK,
                moves_prefix(map@, bump_intents@, handled@, i as int).len(),
            ),
        decreases n - i,
    {
        let bump = bump_intents[i];
        let ghost prev = moves_prefix(map@, bump_intents@, handled@, i as int);
        if handled.not_handled(bump) {
            let tile = map.point2d_to_index(bump.pos);
            proof {
                map@.lemma_point_index_in_range(bump.pos);
            }
            if !map.is_tile_blocked(tile) {
                let mv = MoveDirective(bump.bumper, bump.pos);
                move_directives.push_back(mv);
                time.push_current_back(Time::TICK);
                assert(move_directives@ =~= old(move_directives)@ + prev.push(mv));
            }
        }
        i = i + 1;
    }
}

} // verus!
