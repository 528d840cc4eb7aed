//! What the player's keys say, as the rule systems need it.
use vstd::prelude::*;
use bit_set::BitSet;

verus! {

#[verifier::external_type_specification]
#[verifier::external_body]
#[verifier::reject_recursive_types(B)]
pub struct ExBitSet<B>(BitSet<B>);

/// The numbers that a bit set holds.
pub uninterp spec fn bit_set_members(s: BitSet<u32>) -> Set<usize>;

/// `BitSet::new`: a set that holds nothing.
#[verifier::external_body]
fn bit_set_new() -> (r: BitSet<u32>)
    ensures
        bit_set_members(r) == Set::<usize>::empty(),
{
    BitSet::new()
}

/// `BitSet::contains`: whether the set holds `value`.
#[verifier::external_body]
fn bit_set_contains(s: &BitSet<u32>, value: usize) -> (r: bool)
    ensures
        r == bit_set_members(*s).contains(value),
{
    s.contains(value)
}

/// `BitSet::insert`: the set holds `value` afterwards and is otherwise as it
/// was; the result says whether `value` is new. The set grows to `value + 1`
/// bits, which must be a `usize`.
#[verifier::external_body]
fn bit_set_insert(s: &mut BitSet<u32>, value: usize) -> (r: bool)
    requires
        value < usize::MAX,
    ensures
        bit_set_members(*final(s)) == bit_set_members(*old(s)).insert(value),
        r == !bit_set_members(*old(s)).contains(value),
{
    s.insert(value)
}

/// `BitSet::remove`: the set no longer holds `value` and is otherwise as it
/// was; the result says whether it held `value`.
#[verifier::external_body]
fn bit_set_remove(s: &mut BitSet<u32>, value: usize) -> (r: bool)
    ensures
        bit_set_members(*final(s)) == bit_set_members(*old(s)).remove(value),
        r == bit_set_members(*old(s)).contains(value),
{
    s.remove(value)
}

/// `BitSet::clear`: the set holds nothing afterwards.
#[verifier::external_body]
fn bit_set_clear(s: &mut BitSet<u32>)
    ensures
        bit_set_members(*final(s)) == Set::<usize>::empty(),
{
    s.clear()
}

/// `BitSet::iter`: the numbers that the set holds, collected. Each is the
/// index of a bit, and so below the greatest `usize`.
#[verifier::external_body]
fn bit_set_to_vec(s: &BitSet<u32>) -> (r: Vec<usize>)
    ensures
        r@.to_set() == bit_set_members(*s),
        forall|i: int| 0 <= i < r@.len() ==> r@[i] < usize::MAX,
{
    s.iter().collect()
}

/// The first `i + 1` entries of a sequence are the first `i` and the entry at
/// `i`.
pub proof fn lemma_take_next<T>(s: Seq<T>, i: int)
    requires
        0 <= i < s.len(),
    ensures
        s.take(i + 1).to_set() == s.take(i).to_set().insert(s[i]),
{
    let a = s.take(i);
    let b = s.take(i + 1);
    assert forall|x: T| b.to_set().contains(x) <==> a.to_set().insert(s[i]).contains(x) by {
        if b.contains(x) {
            let k = choose|k: int| 0 <= k < b.len() && b[k] == x;
            if k < i {
                assert(a[k] == x);
            }
        }
        if a.contains(x) {
            let k = choose|k: int| 0 <= k < a.len() && a[k] == x;
            assert(b[k] == x);
        }
        if x == s[i] {
            assert(b[i] == x);
        }
    }
    assert(b.to_set() =~= a.to_set().insert(s[i]));
}

fn vec_contains(v: &Vec<usize>, x: usize) -> (r: bool)
    ensures
        r == v@.to_set().contains(x),
{
    let n = v.len();
    let mut i: usize = 0;
    while i < n
        invariant
            n == v@.len(),
            i <= n,
            forall|k: int| 0 <= k < i ==> v@[k] != x,
        decreases n - i,
    {
        if v[i] == x {
            assert(v@.contains(x));
            return true;
        }
        i = i + 1;
    }
    assert(!v@.contains(x));
    false
}

/// The keys of one device: those that went down this frame, those that are
/// down, those that went up this frame, and those that a system has used up.
pub struct InputSnapshotState {
    pub pressed: BitSet,
    pub held: BitSet,
    pub released: BitSet,
    pub consumed: BitSet,
}

/// What contracts say of a snapshot.
pub struct SnapshotView {
    pub pressed: Set<usize>,
    pub held: Set<usize>,
    pub released: Set<usize>,
    pub consumed: Set<usize>,
}

impl SnapshotView {
    /// The snapshot of the next frame, in which the keys `down` are down:
    /// pressed are those that were not held, released those that were held
    /// and are no longer down, held those that are down; nothing is used up.
    pub open spec fn update(self, down: Set<usize>) -> SnapshotView {
        SnapshotView {
            pressed: down.difference(self.held),
            held: down,
            released: self.held.difference(down),
            consumed: Set::empty(),
        }
    }
}

impl View for InputSnapshotState {
    type V = SnapshotView;

    open spec fn view(&self) -> SnapshotView {
        SnapshotView {
            pressed: bit_set_members(self.pressed),
            held: bit_set_members(self.held),
            released: bit_set_members(self.released),
            consumed: bit_set_members(self.consumed),
        }
    }
}

impl Default for InputSnapshotState {
    fn default() -> (r: InputSnapshotState)
        ensures
            r@ == (SnapshotView {
                pressed: Set::empty(),
                held: Set::empty(),
                released: Set::empty(),
                consumed: Set::empty(),
            }),
    {
        InputSnapshotState {
            pressed: bit_set_new(),
            held: bit_set_new(),
            released: bit_set_new(),
            consumed: bit_set_new(),
        }
    }
}

impl InputSnapshotState {
    /// Whether `key` is down and not used up.
    pub fn is_held(&self, key: usize) -> (r: bool)
        ensures
            r == (self@.held.contains(key) && !self@.consumed.contains(key)),
    {
        bit_set_contains(&self.held, key) && !bit_set_contains(&self.consumed, key)
    }

    /// Whether `key` went down this frame and is not used up.
    pub fn is_pressed(&self, key: usize) -> (r: bool)
        ensures
            r == (self@.pressed.contains(key) && !self@.consumed.contains(key)),
    {
        bit_set_contains(&self.pressed, key) && !bit_set_contains(&self.consumed, key)
    }

    /// Whether `key` went up this frame and is not used up.
    pub fn is_released(&self, key: usize) -> (r: bool)
        ensures
            r == (self@.released.contains(key) && !self@.consumed.contains(key)),
    {
        bit_set_contains(&self.released, key) && !bit_set_contains(&self.consumed, key)
    }

    /// Whether `key` went down this frame, or is down together with
    /// `mod_key`.
    pub fn is_pressed_or_held_with_mod(&self, key: usize, mod_key: usize) -> (r: bool)
        ensures
            r == ((self@.pressed.contains(key) || (self@.held.contains(mod_key)
                && self@.held.contains(key) && !self@.consumed.contains(mod_key)))
                && !self@.consumed.contains(key)),
    {
        self.is_pressed(key) || (self.is_held(mod_key) && self.is_held(key))
    }

    /// Uses `key` up for the rest of the frame.
    pub fn consume(&mut self, key: usize)
        requires
            key < usize::MAX,
        ensures
            final(self)@ == (SnapshotView {
                consumed: old(self)@.consumed.insert(key),
                ..old(self)@
            }),
    {
        bit_set_insert(&mut self.consumed, key);
    }

    /// Takes the snapshot of the next frame, in which the keys of
    /// `current_press` are down.
    pub fn update(&mut self, current_press: &Vec<usize>)
        requires
            forall|i: int| 0 <= i < current_press@.len() ==> current_press@[i] < usize::MAX,
        ensures
            final(self)@ == old(self)@.update(current_press@.to_set()),
    {
        let ghost was_held = self@.held;
        let ghost down = current_press@.to_set();
        bit_set_clear(&mut self.pressed);
        bit_set_clear(&mut self.released);
        bit_set_clear(&mut self.consumed);
        let held = bit_set_to_vec(&self.held);
        let n = held.len();
        let mut i: usize = 0;
        assert(held@.take(0).to_set() =~= Set::<usize>::empty());
        while i < n
            invariant
                n == held@.len(),
                i <= n,
                held@.to_set() == was_held,
                self@.held == was_held,
                self@.pressed == Set::<usize>::empty(),
                self@.consumed == Set::<usize>::empty(),
                down == current_press@.to_set(),
                self@.released =~= held@.take(i as int).to_set().difference(down),
                forall|i: int| 0 <= i < held@.len() ==> held@[i] < usize::MAX,
            decreases n - i,
        {
            let index = held[i];
            proof {
                lemma_take_next(held@, i as int);
                assert(held@.contains(index));
            }
            if !vec_contains(current_press, index) {
                bit_set_insert(&mut self.released, index);
            }
            i = i + 1;
        }
        assert(held@.take(n as int) =~= held@);
        let mut j: usize = 0;
        assert(held@.take(0).to_set() =~= Set::<usize>::empty());
        while j < n
            invariant
                n == held@.len(),
                j <= n,
                held@.to_set() == was_held,
                self@.pressed == Set::<usize>::empty(),
                self@.consumed == Set::<usize>::empty(),
                self@.released == was_held.difference(down),
                down == current_press@.to_set(),
                self@.held =~= was_held.difference(
                    held@.take(j as int).to_set().difference(down),
                ),
            decreases n - j,
        {
            let index = held[j];
            proof {
                lemma_take_next(held@, j as int);
            }
            if !vec_contains(current_press, index) {
                bit_set_remove(&mut self.held, index);
            }
            j = j + 1;
        }
        assert(held@.take(n as int) =~= held@);
        assert(self@.held =~= was_held.intersect(down));
        let m = current_press.len();
        let mut k: usize = 0;
        assert(current_press@.take(0).to_set() =~= Set::<usize>::empty());
        while k < m
            invariant
                m == current_press@.len(),
                k <= m,
                forall|i: int| 0 <= i < current_press@.len() ==> current_press@[i] < usize::MAX,
                down == current_press@.to_set(),
                self@.consumed == Set::<usize>::empty(),
                self@.released == was_held.difference(down),
                self@.held =~= was_held.intersect(down).union(
                    current_press@.take(k as int).to_set(),
                ),
                self@.pressed =~= current_press@.take(k as int).to_set().difference(was_held),
            decreases m - k,
        {
            let index = current_press[k];
            proof {
                lemma_take_next(current_press@, k as int);
                assert(current_press@.contains(index));
            }
            if !bit_set_contains(&self.held, index) {
                bit_set_insert(&mut self.pressed, index);
            }
            bit_set_insert(&mut self.held, index);
            k = k + 1;
        }
        assert(current_press@.take(m as int) =~= current_press@);
        assert(self@.held =~= down);
        assert(self@.pressed =~= down.difference(was_held));
    }
}

/// The keyboard's keys, each by its number.
pub struct KeyboardSnapshot(pub InputSnapshotState);

/// The mouse's buttons, each by its number.
pub struct MouseSnapshot(pub InputSnapshotState);

/// The snapshots of both devices.
pub struct InputSnapshots {
    pub keyboard: KeyboardSnapshot,
    pub mouse: MouseSnapshot,
}

impl InputSnapshots {
    /// Takes the snapshots of the next frame, in which the keys of `keys` and
    /// the buttons of `buttons` are down.
    pub fn make_new_snapshots(&mut self, keys: &Vec<usize>, buttons: &Vec<usize>)
        requires
            forall|i: int| 0 <= i < keys@.len() ==> keys@[i] < usize::MAX,
            forall|i: int| 0 <= i < buttons@.len() ==> buttons@[i] < usize::MAX,
        ensures
            final(self).keyboard.0@ == old(self).keyboard.0@.update(keys@.to_set()),
            final(self).mouse.0@ == old(self).mouse.0@.update(buttons@.to_set()),
    {
        self.keyboard.0.update(keys);
        self.mouse.0.update(buttons);
    }
}

/// The movement keys that are pressed this frame, each named by its key.
/// `W`, `A`, `D` and `X` or `S` move along an axis; `Q`, `E`, `Z` and `C` move
/// diagonally.
#[derive(Clone, Copy, Debug, PartialEq, Eq, Structural)]
pub struct MovementKeys {
    pub w: bool,
    pub d: bool,
    pub a: bool,
    pub x: bool,
    pub s: bool,
    pub q: bool,
    pub e: bool,
    pub z: bool,
    pub c: bool,
}

/// One if the key is pressed, zero if not.
pub open spec fn pressed(key: bool) -> int {
    if key {
        1
    } else {
        0
    }
}

impl MovementKeys {
    /// How far the keys lead to the right.
    pub open spec fn step_x(self) -> int {
        pressed(self.d) - pressed(self.a) - pressed(self.q) + pressed(self.e) - pressed(self.z)
            + pressed(self.c)
    }

    /// How far the keys lead down. `X` and `S` pressed together count once.
    pub open spec fn step_y(self) -> int {
        pressed(self.x || self.s) - pressed(self.w) - pressed(self.q) - pressed(self.e) + pressed(
            self.z,
        ) + pressed(self.c)
    }

    /// No key pressed.
    pub fn none() -> (r: MovementKeys)
        ensures
            r.step_x() == 0,
            r.step_y() == 0,
            !r.w && !r.d && !r.a && !r.x && !r.s && !r.q && !r.e && !r.z && !r.c,
    {
        MovementKeys {
            w: false,
            d: false,
            a: false,
            x: false,
            s: false,
            q: false,
            e: false,
            z: false,
            c: false,
        }
    }
}

} // verus!
