//! Hash table from 64-bit identities to 64-bit values, held by the level
//! book for its identity index and for the states it simulates.

use vstd::prelude::*;

verus! {

/// A `hashbrown::HashMap<u64, u64>` keyed by object identity.
#[verifier::external_body]
pub struct IdTable {
    map: hashbrown::HashMap<u64, u64>,
}

/// The empty identity map.
pub open spec fn empty_id_map() -> Map<u64, u64> {
    Map::empty()
}

/// What an identity table holds.
pub uninterp spec fn id_table_map(table: IdTable) -> Map<u64, u64>;

impl IdTable {
    /// `hashbrown::HashMap::new`: a new map holds nothing.
    #[verifier::external_body]
    pub fn new() -> (table: IdTable)
        ensures
            id_table_map(table) == empty_id_map(),
    {
        IdTable { map: hashbrown::HashMap::new() }
    }

    /// `hashbrown::HashMap::get`: the value stored under `key`, if any.
    #[verifier::external_body]
    pub fn get(&self, key: u64) -> (value: Option<u64>)
        ensures
            value == (if id_table_map(*self).dom().contains(key) {
                Some(id_table_map(*self)[key])
            } else {
                None
            }),
    {
        self.map.get(&key).copied()
    }

    /// `hashbrown::HashMap::insert`: stores `value` under `key` and returns
    /// the value it replaced, if any.
    #[verifier::external_body]
    pub fn insert(&mut self, key: u64, value: u64) -> (previous: Option<u64>)
        ensures
            id_table_map(*final(self)) == id_table_map(*old(self)).insert(key, value),
            previous == (if id_table_map(*old(self)).dom().contains(key) {
                Some(id_table_map(*old(self))[key])
            } else {
                None
            }),
    {
        self.map.insert(key, value)
    }

    /// `hashbrown::HashMap::clear`: the map holds nothing afterwards.
    #[verifier::external_body]
    pub fn clear(&mut self)
        ensures
            id_table_map(*final(self)) == empty_id_map(),
    {
        self.map.clear()
    }
}

/// A `hashbrown::HashMap<u128, u64>` keyed by a 128-bit identity.
#[verifier::external_body]
pub struct WideIdTable {
    map: hashbrown::HashMap<u128, u64>,
}

/// What a wide identity table holds.
pub uninterp spec fn wide_table_map(table: WideIdTable) -> Map<u128, u64>;

/// The empty wide identity map.
pub open spec fn empty_wide_map() -> Map<u128, u64> {
    Map::empty()
}

impl WideIdTable {
    /// `hashbrown::HashMap::new`: a new map holds nothing.
    #[verifier::external_body]
    pub fn new() -> (table: WideIdTable)
        ensures
            wide_table_map(table) == empty_wide_map(),
    {
        WideIdTable { map: hashbrown::HashMap::new() }
    }

    /// `hashbrown::HashMap::get`: the value stored under `key`, if any.
    #[verifier::external_body]
    pub fn get(&self, key: u128) -> (value: Option<u64>)
        ensures
            value == (if wide_table_map(*self).dom().contains(key) {
                Some(wide_table_map(*self)[key])
            } else {
                None
            }),
    {
        self.map.get(&key).copied()
    }

    /// `hashbrown::HashMap::insert`: stores `value` under `key` and returns
    /// the value it replaced, if any.
    #[verifier::external_body]
    pub fn insert(&mut self, key: u128, value: u64) -> (previous: Option<u64>)
        ensures
            wide_table_map(*final(self)) == wide_table_map(*old(self)).insert(key, value),
            previous == (if wide_table_map(*old(self)).dom().contains(key) {
                Some(wide_table_map(*old(self))[key])
            } else {
                None
            }),
    {
        self.map.insert(key, value)
    }
}

} // verus!
