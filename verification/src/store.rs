//! Component storage: one component of a kind per entity, kept in the order in
//! which the entities received it.
use vstd::prelude::*;
use crate::entity::EntityId;

verus! {

/// Some entry of `s` belongs to `id`.
pub open spec fn has_id<V>(s: Seq<(EntityId, V)>, id: EntityId) -> bool {
    exists|i: int| 0 <= i < s.len() && (#[trigger] s[i]).0 == id
}

/// The place of an entry of `id` in `s`.
pub open spec fn index_of<V>(s: Seq<(EntityId, V)>, id: EntityId) -> int {
    choose|i: int| 0 <= i < s.len() && (#[trigger] s[i]).0 == id
}

/// The component that `s` holds for `id`, if any.
pub open spec fn lookup<V>(s: Seq<(EntityId, V)>, id: EntityId) -> Option<V> {
    if has_id(s, id) {
        Some(s[index_of(s, id)].1)
    } else {
        None
    }
}

/// No entity has two entries in `s`.
pub open spec fn distinct_ids<V>(s: Seq<(EntityId, V)>) -> bool {
    forall|i: int, j: int|
        0 <= i < s.len() && 0 <= j < s.len() && (#[trigger] s[i]).0 == (#[trigger] s[j]).0 ==> i
            == j
}

/// In a storage without doubles the entry at `i` is the one found for its id.
pub proof fn lemma_lookup_at<V>(s: Seq<(EntityId, V)>, i: int)
    requires
        distinct_ids(s),
        0 <= i < s.len(),
    ensures
        has_id(s, s[i].0),
        index_of(s, s[i].0) == i,
        lookup(s, s[i].0) == Some(s[i].1),
{
    assert(s[i].0 == s[i].0);
}

/// Putting another component in an entity's place changes no entity's
/// identity.
pub proof fn lemma_update_keeps_ids<V>(s: Seq<(EntityId, V)>, i: int, v: V)
    requires
        0 <= i < s.len(),
    ensures
        forall|e: EntityId| has_id(s.update(i, (s[i].0, v)), e) == has_id(s, e),
        distinct_ids(s) ==> distinct_ids(s.update(i, (s[i].0, v))),
{
    let t = s.update(i, (s[i].0, v));
    assert forall|e: EntityId| has_id(t, e) == has_id(s, e) by {
        if has_id(t, e) {
            let k = choose|k: int| 0 <= k < t.len() && (#[trigger] t[k]).0 == e;
            assert(s[k].0 == e);
        }
        if has_id(s, e) {
            let k = choose|k: int| 0 <= k < s.len() && (#[trigger] s[k]).0 == e;
            assert(t[k].0 == e);
        }
    }
    if distinct_ids(s) {
        assert forall|a: int, b: int|
            0 <= a < t.len() && 0 <= b < t.len() && (#[trigger] t[a]).0 == (#[trigger] t[b]).0
            implies a == b by {
            assert(s[a].0 == s[b].0);
        }
    }
}

/// The storage after `id` was given the component `v`: in place of the one it
/// had, or else as the last entry.
pub open spec fn inserted<V>(s: Seq<(EntityId, V)>, id: EntityId, v: V) -> Seq<(EntityId, V)> {
    if has_id(s, id) {
        s.update(index_of(s, id), (id, v))
    } else {
        s.push((id, v))
    }
}

/// Giving an entity a component takes none away from another: afterwards the
/// entity has the component, every other entity has what it had, and no
/// entity has two.
pub proof fn lemma_inserted<V>(s: Seq<(EntityId, V)>, id: EntityId, v: V)
    requires
        distinct_ids(s),
    ensures
        distinct_ids(inserted(s, id, v)),
        lookup(inserted(s, id, v), id) == Some(v),
        forall|e: EntityId| has_id(inserted(s, id, v), e) == (e == id || has_id(s, e)),
        forall|e: EntityId| e != id ==> lookup(inserted(s, id, v), e) == lookup(s, e),
        forall|i: int|
            0 <= i < inserted(s, id, v).len() ==> (#[trigger] inserted(s, id, v)[i]) == (id, v) || (
            i < s.len() && inserted(s, id, v)[i] == s[i]),
{
    let t = inserted(s, id, v);
    let at = if has_id(s, id) {
        index_of(s, id)
    } else {
        s.len() as int
    };
    assert(t[at] == (id, v));
    assert forall|i: int, j: int|
        0 <= i < t.len() && 0 <= j < t.len() && (#[trigger] t[i]).0 == (#[trigger] t[j]).0
        implies i == j by {
        if i != at && j != at {
            assert(s[i].0 == s[j].0);
        } else if i != at {
            assert(s[i].0 == id);
        } else if j != at {
            assert(s[j].0 == id);
        }
    }
    lemma_lookup_at(t, at);
    assert forall|e: EntityId| has_id(t, e) == (e == id || has_id(s, e)) by {
        if has_id(t, e) && e != id {
            let k = choose|k: int| 0 <= k < t.len() && (#[trigger] t[k]).0 == e;
            assert(s[k].0 == e);
        }
        if has_id(s, e) {
            let k = choose|k: int| 0 <= k < s.len() && (#[trigger] s[k]).0 == e;
            assert(t[k].0 == e || e == id);
        }
    }
    assert forall|e: EntityId| e != id implies lookup(t, e) == lookup(s, e) by {
        if has_id(s, e) {
            let k = index_of(s, e);
            assert(t[k] == s[k]);
            lemma_lookup_at(t, k);
        }
    }
}

/// The components of one kind, by entity, in the order of arrival.
pub struct Storage<T> {
    pub entries: Vec<(EntityId, T)>,
}

impl<T: View> View for Storage<T> {
    type V = Seq<(EntityId, T::V)>;

    open spec fn view(&self) -> Seq<(EntityId, T::V)> {
        Seq::new(self.entries@.len(), |i: int| (self.entries@[i].0, self.entries@[i].1@))
    }
}

impl<T: View> Storage<T> {
    /// Every entity has at most one component here.
    pub open spec fn wf(&self) -> bool {
        distinct_ids(self@)
    }

    /// A storage without components.
    pub fn new() -> (r: Storage<T>)
        ensures
            r@ == Seq::<(EntityId, T::V)>::empty(),
            r.wf(),
    {
        let r = Storage { entries: Vec::new() };
        assert(r@ =~= Seq::<(EntityId, T::V)>::empty());
        r
    }

    /// How many entities have a component here.
    pub fn len(&self) -> (n: usize)
        ensures
            n == self@.len(),
    {
        self.entries.len()
    }

    /// The entity of the entry at `i`.
    pub fn id_at(&self, i: usize) -> (id: EntityId)
        requires
            i < self@.len(),
        ensures
            id == self@[i as int].0,
    {
        self.entries[i].0
    }

    /// The component of the entry at `i`.
    pub fn value_at(&self, i: usize) -> (v: &T)
        requires
            i < self@.len(),
        ensures
            v@ == self@[i as int].1,
    {
        &self.entries[i].1
    }

    /// Puts `value` in place of the component at `i`; the entity stays.
    pub fn set_value_at(&mut self, i: usize, value: T)
        requires
            i < old(self)@.len(),
        ensures
            final(self)@ == old(self)@.update(i as int, (old(self)@[i as int].0, value@)),
            old(self).wf() ==> final(self).wf(),
    {
        let id = self.entries[i].0;
        self.entries.set(i, (id, value));
        assert(self@ =~= old(self)@.update(i as int, (old(self)@[i as int].0, value@)));
    }

    /// Where the component of `id` is kept, if it has one.
    pub fn find(&self, id: EntityId) -> (r: Option<usize>)
        ensures
            match r {
                Some(i) => i < self@.len() && self@[i as int].0 == id && forall|j: int|
                    0 <= j < i ==> (#[trigger] self@[j]).0 != id,
                None => !has_id(self@, id),
            },
            self.wf() && r.is_some() ==> r.unwrap() == index_of(self@, id),
            r.is_some() == has_id(self@, id),
    {
        let n = self.entries.len();
        let mut i: usize = 0;
        while i < n
            invariant
                n == self.entries@.len(),
                i <= n,
                forall|j: int| 0 <= j < i ==> (#[trigger] self@[j]).0 != id,
            decreases n - i,
        {
            if self.entries[i].0 == id {
                assert(self@[i as int].0 == id);
                return Some(i);
            }
            i = i + 1;
        }
        None
    }

    /// Whether `id` has a component here.
    pub fn contains(&self, id: EntityId) -> (r: bool)
        ensures
            r == has_id(self@, id),
    {
        self.find(id).is_some()
    }

    /// The component of `id`, if it has one.
    pub fn get(&self, id: EntityId) -> (r: Option<&T>)
        ensures
            r.is_some() == has_id(self@, id),
            self.wf() ==> match r {
                Some(v) => lookup(self@, id) == Some(v@),
                None => lookup(self@, id).is_none(),
            },
            r.is_some() ==> exists|i: int|
                0 <= i < self@.len() && (#[trigger] self@[i]) == (id, r.unwrap()@),
    {
        match self.find(id) {
            Some(i) => {
                assert(self@[i as int] == (id, self.entries@[i as int].1@));
                Some(&self.entries[i].1)
            },
            None => None,
        }
    }

    /// Gives `id` the component `value`: in place of the one it had, or else
    /// as the last entry.
    pub fn insert(&mut self, id: EntityId, value: T)
        requires
            old(self).wf(),
        ensures
            final(self).wf(),
            final(self)@ == inserted(old(self)@, id, value@),
    {
        match self.find(id) {
            Some(i) => {
                self.entries.set(i, (id, value));
                assert(self@ =~= old(self)@.update(i as int, (id, value@)));
            },
            None => {
                self.entries.push((id, value));
                assert(self@ =~= old(self)@.push((id, value@)));
            },
        }
    }

    /// Takes the component of `id` away, if it has one; the others keep their
    /// order.
    pub fn remove(&mut self, id: EntityId) -> (r: Option<T>)
        requires
            old(self).wf(),
        ensures
            final(self).wf(),
            match r {
                Some(v) => has_id(old(self)@, id) && lookup(old(self)@, id) == Some(v@)
                    && final(self)@ == old(self)@.remove(index_of(old(self)@, id)),
                None => !has_id(old(self)@, id) && final(self)@ == old(self)@,
            },
            !has_id(final(self)@, id),
    {
        match self.find(id) {
            Some(i) => {
                let (_, v) = self.entries.remove(i);
                assert(self@ =~= old(self)@.remove(i as int));
                assert forall|j: int| 0 <= j < self@.len() implies (#[trigger] self@[j]).0
                    != id by {
                    if j < i {
                        assert(self@[j] == old(self)@[j]);
                    } else {
                        assert(self@[j] == old(self)@[j + 1]);
                    }
                }
                Some(v)
            },
            None => None,
        }
    }
}

} // verus!
