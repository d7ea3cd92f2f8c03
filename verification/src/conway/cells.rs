//! A hash set of cell coordinates.
//!
//! The set is stored as a `HashSet<u64>`: each coordinate is packed into one
//! integer key, so that membership and insertion are constant-time and their
//! behaviour is known to the verifier.
use crate::Pos;
use std::collections::HashSet;
use vstd::prelude::*;
use vstd::std_specs::iter::IteratorSpec;

verus! {

/// The key that stands for a coordinate: both fields shifted to be
/// non-negative, the column in the high half and the row in the low half.
pub open spec fn key_of(p: Pos) -> int {
    (p.0 + 0x8000_0000) * 0x1_0000_0000 + (p.1 + 0x8000_0000)
}

/// The coordinate that a key stands for.
pub open spec fn pos_of(key: int) -> Pos {
    Pos((key / 0x1_0000_0000 - 0x8000_0000) as i32, (key % 0x1_0000_0000 - 0x8000_0000) as i32)
}

/// Keys and coordinates correspond one to one.
pub proof fn lemma_key_round_trip(p: Pos)
    ensures
        0 <= key_of(p) <= u64::MAX,
        pos_of(key_of(p)) == p,
{
}

/// Every key is the key of exactly one coordinate.
pub proof fn lemma_pos_round_trip(key: u64)
    ensures
        key_of(pos_of(key as int)) == key,
{
}

/// The key of `p`, computed.
fn pack(p: Pos) -> (key: u64)
    ensures
        key == key_of(p),
{
    let col: u64 = (p.0 as i64 + 0x8000_0000) as u64;
    let row: u64 = (p.1 as i64 + 0x8000_0000) as u64;
    col * 0x1_0000_0000 + row
}

/// The coordinate of `key`, computed.
fn unpack(key: u64) -> (p: Pos)
    ensures
        p == pos_of(key as int),
{
    let col: i64 = (key / 0x1_0000_0000) as i64 - 0x8000_0000;
    let row: i64 = (key % 0x1_0000_0000) as i64 - 0x8000_0000;
    Pos(col as i32, row as i32)
}

/// A finite set of coordinates.
pub struct CellSet {
    keys: HashSet<u64>,
}

impl View for CellSet {
    type V = Set<Pos>;

    closed spec fn view(&self) -> Set<Pos> {
        Set::new(|p: Pos| self.keys@.contains(key_of(p) as u64))
    }
}

impl CellSet {
    /// The empty set.
    pub fn new() -> (cells: Self)
        ensures
            cells@ == Set::<Pos>::empty(),
    {
        CellSet { keys: HashSet::new() }
    }

    /// Adds `p`; tells whether it was absent before.
    pub fn insert(&mut self, p: Pos) -> (fresh: bool)
        ensures
            final(self)@ == old(self)@.insert(p),
            fresh == !old(self)@.contains(p),
    {
        let key = pack(p);
        let fresh = self.keys.insert(key);
        proof {
            assert forall|q: Pos|
                #[trigger] final(self)@.contains(q) == old(self)@.insert(p).contains(q) by {
                lemma_key_round_trip(q);
                lemma_key_round_trip(p);
            }
        }
        fresh
    }

    /// Whether `p` is in the set.
    pub fn contains(&self, p: Pos) -> (found: bool)
        ensures
            found == self@.contains(p),
    {
        let key = pack(p);
        self.keys.contains(&key)
    }

    /// Removes every member.
    pub fn clear(&mut self)
        ensures
            final(self)@ == Set::<Pos>::empty(),
    {
        self.keys.clear();
    }

    /// The members, each once, in no particular order.
    pub fn to_vec(&self) -> (members: Vec<Pos>)
        ensures
            members@.to_set() == self@,
            members@.no_duplicates(),
    {
        let mut members: Vec<Pos> = Vec::new();
        let ghost keys = self.keys.iter().remaining();
        for key in it: self.keys.iter()
            invariant
                members@.len() == it.index(),
                it.seq() == keys,
                forall|i: int|
                    0 <= i < members@.len() ==> members@[i] == pos_of(*it.seq()[i] as int),
        {
            members.push(unpack(*key));
        }
        proof {
            assert(keys.unref().to_set() == self.keys@);
            assert(keys.no_duplicates());
            assert forall|p: Pos| members@.to_set().contains(p) == self@.contains(p) by {
                lemma_key_round_trip(p);
                if members@.to_set().contains(p) {
                    let i = choose|i: int| 0 <= i < members@.len() && members@[i] == p;
                    lemma_pos_round_trip(*keys[i]);
                    assert(keys.unref()[i] == *keys[i]);
                    assert(keys.unref().to_set().contains(*keys[i]));
                }
                if self@.contains(p) {
                    let k = key_of(p) as u64;
                    assert(keys.unref().to_set().contains(k));
                    let i = choose|i: int| 0 <= i < keys.unref().len() && keys.unref()[i] == k;
                    assert(members@[i] == p);
                }
            }
            assert forall|i: int, j: int|
                0 <= i < members@.len() && 0 <= j < members@.len() && i != j implies members@[i]
                != members@[j] by {
                lemma_pos_round_trip(*keys[i]);
                lemma_pos_round_trip(*keys[j]);
            }
        }
        members
    }
}

impl Clone for CellSet {
    /// A separate set with the same members.
    fn clone(&self) -> (copy: Self)
        ensures
            copy@ == self@,
    {
        let mut keys: HashSet<u64> = HashSet::new();
        let ghost all = self.keys.iter().remaining();
        for key in it: self.keys.iter()
            invariant
                it.seq() == all,
                forall|k: u64|
                    keys@.contains(k) <==> exists|i: int|
                        0 <= i < it.index() && *all[i] == k,
        {
            keys.insert(*key);
        }
        let copy = CellSet { keys };
        proof {
            assert(all.unref().to_set() == self.keys@);
            assert forall|k: u64| keys@.contains(k) == self.keys@.contains(k) by {
                if keys@.contains(k) {
                    let i = choose|i: int| 0 <= i < all.len() && *all[i] == k;
                    assert(all.unref()[i] == k);
                }
                if self.keys@.contains(k) {
                    let i = choose|i: int| 0 <= i < all.unref().len() && all.unref()[i] == k;
                    assert(*all[i] == k);
                }
            }
            assert(keys@ =~= self.keys@);
        }
        copy
    }
}

} // verus!
