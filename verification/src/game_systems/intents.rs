//! Intents: what actors attempt. Each carries a resolution id; the registry
//! records the ids that a rule system has acted upon this turn.
use vstd::prelude::*;
use std::collections::HashSet;
use std::collections::VecDeque;
use crate::entity::EntityId;
use crate::entity::Point;

verus! {

/// Something that carries a resolution id.
pub trait Identifiable {
    spec fn spec_id(&self) -> u64;

    fn id(&self) -> (r: u64)
        ensures
            r == self.spec_id(),
    ;
}

/// An actor walks into the tile at `pos`.
#[derive(Copy, Clone, Debug, Hash, PartialEq, Eq, Structural)]
pub struct BumpIntent {
    pub id: u64,
    pub bumper: EntityId,
    pub pos: Point,
}

impl Identifiable for BumpIntent {
    open spec fn spec_id(&self) -> u64 {
        self.id
    }

    fn id(&self) -> (r: u64) {
        self.id
    }
}

/// An actor tries to unlock the door `target`.
#[derive(Copy, Clone, Debug, Hash, PartialEq, Eq, Structural)]
pub struct UnlockIntent {
    pub id: u64,
    pub entity: EntityId,
    pub target: EntityId,
}

impl Identifiable for UnlockIntent {
    open spec fn spec_id(&self) -> u64 {
        self.id
    }

    fn id(&self) -> (r: u64) {
        self.id
    }
}

/// An actor tries to pick up `item`.
#[derive(Copy, Clone, Debug, Hash, PartialEq, Eq, Structural)]
pub struct CollectIntent {
    pub id: u64,
    pub collector: EntityId,
    pub item: EntityId,
}

impl Identifiable for CollectIntent {
    open spec fn spec_id(&self) -> u64 {
        self.id
    }

    fn id(&self) -> (r: u64) {
        self.id
    }
}

/// An intent of any kind.
#[derive(Copy, Clone, Debug, Hash, PartialEq, Eq, Structural)]
pub enum PlannedIntent {
    Bump(BumpIntent),
    Unlock(UnlockIntent),
    Collect(CollectIntent),
}

/// A planned intent and how fast it is carried out.
#[derive(Copy, Clone, Debug, Hash, PartialEq, Eq, Structural)]
pub struct Intent {
    pub speed: u8,
    pub plan: PlannedIntent,
}

/// Among the first `n` intents of a queue, those whose id is unclaimed, in
/// the order of the queue.
pub open spec fn unclaimed_prefix<I: Identifiable>(s: Seq<I>, handled: Set<u64>, n: int) -> Seq<I>
    decreases n,
{
    if n <= 0 {
        Seq::empty()
    } else if handled.contains(s[n - 1].spec_id()) {
        unclaimed_prefix(s, handled, n - 1)
    } else {
        unclaimed_prefix(s, handled, n - 1).push(s[n - 1])
    }
}

/// The intents of a queue whose id is unclaimed, in the order of the queue.
pub open spec fn unclaimed<I: Identifiable>(s: Seq<I>, handled: Set<u64>) -> Seq<I> {
    unclaimed_prefix(s, handled, s.len() as int)
}

/// The unclaimed intents among the first `n` depend on those `n` alone.
pub proof fn lemma_unclaimed_of_equal_prefixes<I: Identifiable>(
    a: Seq<I>,
    b: Seq<I>,
    handled: Set<u64>,
    n: int,
)
    requires
        0 <= n <= a.len(),
        n <= b.len(),
        forall|i: int| 0 <= i < n ==> a[i] == b[i],
    ensures
        unclaimed_prefix(a, handled, n) == unclaimed_prefix(b, handled, n),
    decreases n,
{
    if n > 0 {
        lemma_unclaimed_of_equal_prefixes(a, b, handled, n - 1);
    }
}

/// The resolution ids that a rule system has acted upon this turn.
pub struct ResolvedIntents(pub HashSet<u64>);

impl View for ResolvedIntents {
    type V = Set<u64>;

    open spec fn view(&self) -> Set<u64> {
        self.0@
    }
}

impl Default for ResolvedIntents {
    fn default() -> (r: ResolvedIntents)
        ensures
            r@ == Set::<u64>::empty(),
    {
        ResolvedIntents(HashSet::new())
    }
}

impl ResolvedIntents {
    /// Whether no rule system has acted upon `i` yet.
    pub fn not_handled<I: Identifiable>(&self, i: I) -> (r: bool)
        ensures
            r == !self@.contains(i.spec_id()),
    {
        broadcast use vstd::std_specs::hash::group_hash_axioms;

        let id = i.id();
        !self.0.contains(&id)
    }

    /// Whether a rule system has acted upon the intent with this id.
    pub fn is_claimed(&self, id: u64) -> (r: bool)
        ensures
            r == self@.contains(id),
    {
        broadcast use vstd::std_specs::hash::group_hash_axioms;

        self.0.contains(&id)
    }

    /// Records that a rule system has acted upon the intent with this id.
    pub fn claim(&mut self, id: u64)
        ensures
            final(self)@ == old(self)@.insert(id),
    {
        broadcast use vstd::std_specs::hash::group_hash_axioms;

        self.0.insert(id);
    }

    /// Records every id of `ids`.
    pub fn claim_all(&mut self, ids: &Vec<u64>)
        ensures
            final(self)@ == old(self)@.union(ids@.to_set()),
    {
        let n = ids.len();
        let mut i: usize = 0;
        while i < n
            invariant
                n == ids@.len(),
                i <= n,
                self@ == old(self)@.union(ids@.take(i as int).to_set()),
            decreases n - i,
        {
            self.claim(ids[i]);
            proof {
                let a = ids@.take(i as int);
                let b = ids@.take(i + 1);
                assert(b =~= a.push(ids@[i as int]));
                assert forall|x: u64| b.to_set().contains(x) <==> (a.to_set().contains(x) || x
                    == ids@[i as int]) by {
                    if a.contains(x) {
                        let k = choose|k: int| 0 <= k < a.len() && a[k] == x;
                        assert(b[k] == x);
                    }
                    if x == ids@[i as int] {
                        assert(b[i as int] == x);
                    }
                }
                assert(self@ =~= old(self)@.union(b.to_set()));
            }
            i = i + 1;
        }
        proof {
            assert(ids@.take(n as int) =~= ids@);
        }
    }

    /// Forgets every claim.
    pub fn clear(&mut self)
        ensures
            final(self)@ == Set::<u64>::empty(),
    {
        self.0.clear();
    }
}

/// The cleanup at the end of a turn: no intent and no claim outlives it, so
/// an id that comes up again later starts unclaimed.
pub fn delete_intents(
    bump_intents: &mut VecDeque<BumpIntent>,
    unlock_intents: &mut VecDeque<UnlockIntent>,
    collect_intents: &mut VecDeque<CollectIntent>,
    handled: &mut ResolvedIntents,
)
    ensures
        final(bump_intents)@.len() == 0,
        final(unlock_intents)@.len() == 0,
        final(collect_intents)@.len() == 0,
        final(handled)@ == Set::<u64>::empty(),
        forall|id: u64| !final(handled)@.contains(id),
{
    bump_intents.clear();
    unlock_intents.clear();
    collect_intents.clear();
    handled.clear();
}

} // verus!
