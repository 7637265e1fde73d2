//! Grid coordinates and sets of them.
//!
//! A coordinate is a pair of `i32`. Hash containers are keyed by a single `u64`
//! that packs the pair, so that every key stands for exactly one coordinate.

use std::collections::HashSet;
use vstd::prelude::*;
use vstd::std_specs::hash::*;

verus! {

/// Whether `v` is a value of `i32`.
pub open spec fn fits_i32(v: int) -> bool {
    -0x8000_0000 <= v < 0x8000_0000
}

/// Whether both parts of `c` are values of `i32`.
pub open spec fn is_coord(c: (int, int)) -> bool {
    fits_i32(c.0) && fits_i32(c.1)
}

/// The key that packs the coordinate `(x, y)`: each part is shifted to be
/// non-negative, the first part fills the high half.
pub open spec fn spec_cell_key(x: int, y: int) -> int {
    (x + 0x8000_0000) * 0x1_0000_0000 + (y + 0x8000_0000)
}

/// The first part of the coordinate that `k` packs.
pub open spec fn key_x(k: int) -> int {
    k / 0x1_0000_0000 - 0x8000_0000
}

/// The second part of the coordinate that `k` packs.
pub open spec fn key_y(k: int) -> int {
    k % 0x1_0000_0000 - 0x8000_0000
}

/// Packing is invertible: the key of a coordinate is a `u64` from which both
/// parts are read back.
pub proof fn lemma_key_roundtrip(x: int, y: int)
    requires
        fits_i32(x),
        fits_i32(y),
    ensures
        0 <= spec_cell_key(x, y) <= u64::MAX,
        key_x(spec_cell_key(x, y)) == x,
        key_y(spec_cell_key(x, y)) == y,
{
}

/// Every `u64` is the key of exactly one coordinate.
pub proof fn lemma_key_onto(k: int)
    requires
        0 <= k <= u64::MAX,
    ensures
        fits_i32(key_x(k)),
        fits_i32(key_y(k)),
        spec_cell_key(key_x(k), key_y(k)) == k,
{
}

/// Two coordinates with the same key are the same coordinate.
pub proof fn lemma_key_injective(a: (int, int), b: (int, int))
    requires
        is_coord(a),
        is_coord(b),
        spec_cell_key(a.0, a.1) == spec_cell_key(b.0, b.1),
    ensures
        a == b,
{
    lemma_key_roundtrip(a.0, a.1);
    lemma_key_roundtrip(b.0, b.1);
}

/// Packs a coordinate into its key.
pub fn cell_key(x: i32, y: i32) -> (k: u64)
    ensures
        k == spec_cell_key(x as int, y as int),
{
    let hi: u64 = (x as i64 + 0x8000_0000) as u64;
    let lo: u64 = (y as i64 + 0x8000_0000) as u64;
    hi * 0x1_0000_0000 + lo
}

/// Whether `a` and `b` are direct neighbours: they differ by one step along
/// exactly one axis.
pub open spec fn adjacent(a: (int, int), b: (int, int)) -> bool {
    ||| (a.1 == b.1 && (a.0 == b.0 + 1 || b.0 == a.0 + 1))
    ||| (a.0 == b.0 && (a.1 == b.1 + 1 || b.1 == a.1 + 1))
}

/// A set of grid coordinates.
#[derive(Debug)]
pub struct CellSet {
    keys: HashSet<u64>,
}

impl View for CellSet {
    type V = Set<(int, int)>;

    closed spec fn view(&self) -> Set<(int, int)> {
        Set::new(|c: (int, int)| is_coord(c) && self.keys@.contains(spec_cell_key(c.0, c.1) as u64))
    }
}

impl CellSet {
    #[verifier::type_invariant]
    spec fn finitely_many(self) -> bool {
        self.keys@.finite()
    }

    /// Every member is a coordinate.
    pub proof fn lemma_members(&self)
        ensures
            forall|c: (int, int)| #[trigger] self@.contains(c) ==> is_coord(c),
    {
    }

    /// The empty set.
    pub fn new() -> (s: CellSet)
        ensures
            s@ == Set::<(int, int)>::empty(),
    {
        let s = CellSet { keys: HashSet::new() };
        assert(s@ =~= Set::<(int, int)>::empty());
        s
    }

    /// Whether `(x, y)` is a member.
    pub fn contains(&self, x: i32, y: i32) -> (b: bool)
        ensures
            b == self@.contains((x as int, y as int)),
    {
        broadcast use group_hash_axioms;
        let k = cell_key(x, y);
        proof {
            lemma_key_roundtrip(x as int, y as int);
        }
        self.keys.contains(&k)
    }

    /// Adds `(x, y)`; returns whether it was absent before.
    pub fn insert(&mut self, x: i32, y: i32) -> (fresh: bool)
        ensures
            final(self)@ == old(self)@.insert((x as int, y as int)),
            fresh == !old(self)@.contains((x as int, y as int)),
    {
        broadcast use group_hash_axioms;
        let k = cell_key(x, y);
        // The keys are taken out for the insertion and put back after it, so
        // that the set is never seen half-updated.
        let mut keys: HashSet<u64> = HashSet::new();
        proof {
            use_type_invariant(&*self);
        }
        std::mem::swap(&mut keys, &mut self.keys);
        let fresh = keys.insert(k);
        std::mem::swap(&mut keys, &mut self.keys);
        proof {
            lemma_key_roundtrip(x as int, y as int);
            assert forall|c: (int, int)| self@.contains(c) <==> old(self)@.insert((x as int, y as int)).contains(c) by {
                if is_coord(c) && c != (x as int, y as int) {
                    if spec_cell_key(c.0, c.1) == spec_cell_key(x as int, y as int) {
                        lemma_key_injective(c, (x as int, y as int));
                    }
                    lemma_key_roundtrip(c.0, c.1);
                }
            }
            assert(self@ =~= old(self)@.insert((x as int, y as int)));
        }
        fresh
    }

    /// The number of members.
    pub fn len(&self) -> (n: usize)
        ensures
            self@.finite(),
            n == self@.len(),
    {
        broadcast use group_hash_axioms;
        proof {
            use_type_invariant(self);
            let decode = |k: u64| (key_x(k as int), key_y(k as int));
            assert forall|c: (int, int)| self@.contains(c) <==> self.keys@.map(decode).contains(c) by {
                if self@.contains(c) {
                    lemma_key_roundtrip(c.0, c.1);
                    let k = spec_cell_key(c.0, c.1) as u64;
                    assert(self.keys@.contains(k) && decode(k) == c);
                }
                if self.keys@.map(decode).contains(c) {
                    let k = choose|k: u64| self.keys@.contains(k) && decode(k) == c;
                    lemma_key_onto(k as int);
                }
            }
            assert(self.keys@.map(decode) =~= self@);
            assert(vstd::relations::injective_on(decode, self.keys@)) by {
                assert forall|k1: u64, k2: u64|
                    self.keys@.contains(k1) && self.keys@.contains(k2) && #[trigger] decode(k1) == #[trigger] decode(
                        k2,
                    ) implies k1 == k2 by {
                    lemma_key_onto(k1 as int);
                    lemma_key_onto(k2 as int);
                }
            }
            vstd::set_lib::lemma_map_size(self.keys@, self@, decode);
        }
        self.keys.len()
    }

    /// Whether the set has no member.
    pub fn is_empty(&self) -> (b: bool)
        ensures
            b == (self@ == Set::<(int, int)>::empty()),
    {
        let n = self.len();
        proof {
            if n == 0 {
                self@.lemma_len0_is_empty();
                assert(self@ =~= Set::<(int, int)>::empty());
            }
        }
        n == 0
    }
}

} // verus!
