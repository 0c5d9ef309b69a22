//! A hash map keyed by region coordinate.
//!
//! The standard hash map is specified for integer keys, so a coordinate is
//! stored under one integer that determines it. Callers only ever see
//! coordinates: the view of a [`RegionMap`] is a map from coordinates to values.

use std::collections::HashMap;
use vstd::prelude::*;

verus! {

broadcast use vstd::std_specs::hash::group_hash_axioms;

/// The integer under which a coordinate is stored: the three components,
/// each shifted to be non-negative, as three 32-bit digits.
pub open spec fn coord_key(c: (i32, i32, i32)) -> u128 {
    ((c.0 - i32::MIN) * 0x1_0000_0000_0000_0000 + (c.1 - i32::MIN) * 0x1_0000_0000 + (c.2
        - i32::MIN)) as u128
}

/// Distinct coordinates are stored under distinct keys.
pub proof fn lemma_coord_key_injective(a: (i32, i32, i32), b: (i32, i32, i32))
    requires
        coord_key(a) == coord_key(b),
    ensures
        a == b,
{
}

/// Computes the key of a coordinate.
pub fn key_of(c: (i32, i32, i32)) -> (k: u128)
    ensures
        k == coord_key(c),
{
    let x: u128 = (c.0 as i64 - i32::MIN as i64) as u128;
    let y: u128 = (c.1 as i64 - i32::MIN as i64) as u128;
    let z: u128 = (c.2 as i64 - i32::MIN as i64) as u128;
    x * 0x1_0000_0000_0000_0000 + y * 0x1_0000_0000 + z
}

/// A map from region coordinates to values, with at most one value per
/// coordinate.
#[verifier::reject_recursive_types(V)]
#[derive(Clone, Debug)]
pub struct RegionMap<V> {
    entries: HashMap<u128, V>,
}

impl<V> View for RegionMap<V> {
    type V = Map<(i32, i32, i32), V>;

    closed spec fn view(&self) -> Map<(i32, i32, i32), V> {
        Map::new(
            |c: (i32, i32, i32)| self.entries@.contains_key(coord_key(c)),
            |c: (i32, i32, i32)| self.entries@[coord_key(c)],
        )
    }
}

impl<V> RegionMap<V> {
    /// An empty map.
    pub fn new() -> (m: Self)
        ensures
            m@ == Map::<(i32, i32, i32), V>::empty(),
    {
        let m = RegionMap { entries: HashMap::new() };
        assert(m@ =~= Map::<(i32, i32, i32), V>::empty());
        m
    }

    /// The value stored at `c`, if there is one.
    pub fn get(&self, c: (i32, i32, i32)) -> (found: Option<&V>)
        ensures
            match found {
                Some(v) => self@.contains_key(c) && *v == self@[c],
                None => !self@.contains_key(c),
            },
    {
        let k = key_of(c);
        self.entries.get(&k)
    }

    /// Stores `v` at `c`, replacing what was there, and returns what was there.
    pub fn insert(&mut self, c: (i32, i32, i32), v: V) -> (prior: Option<V>)
        ensures
            final(self)@ == old(self)@.insert(c, v),
            match prior {
                Some(p) => old(self)@.contains_key(c) && p == old(self)@[c],
                None => !old(self)@.contains_key(c),
            },
    {
        let k = key_of(c);
        let prior = self.entries.insert(k, v);
        proof {
            assert forall|d: (i32, i32, i32)| d != c implies coord_key(d) != coord_key(c) by {
                if coord_key(d) == coord_key(c) {
                    lemma_coord_key_injective(d, c);
                }
            }
            assert(self@ =~= old(self)@.insert(c, v));
        }
        prior
    }

    /// Drops every entry.
    pub fn clear(&mut self)
        ensures
            final(self)@ == Map::<(i32, i32, i32), V>::empty(),
    {
        self.entries.clear();
        assert(self@ =~= Map::<(i32, i32, i32), V>::empty());
    }
}

} // verus!
