//! The transposition table: a hash map of `ahash` from a position's key to what
//! a search found there. Its contents are known to the verifier only through the
//! contracts stated here.

use vstd::prelude::*;
use ahash::AHashMap;
use ahash::RandomState;
use crate::board::Board;

verus! {

/// The hash map of `ahash`. Opaque here.
#[verifier::external_type_specification]
#[verifier::external_body]
#[verifier::reject_recursive_types(K)]
#[verifier::reject_recursive_types(V)]
#[verifier::reject_recursive_types(S)]
pub struct ExAHashMap<K, V, S>(AHashMap<K, V, S>);

/// The hasher state of `ahash`. Opaque here.
#[verifier::external_type_specification]
#[verifier::external_body]
pub struct ExRandomState(RandomState);

/// What is stored under a key: the score of the node, and the best successor
/// that was found, if there was one.
pub type Slot = (i32, Option<Board>);

/// A transposition table.
pub type Table = AHashMap<u64, Slot>;

/// What a table holds: for each key that was stored, the score and the best
/// successor that the search found, if there was one.
pub uninterp spec fn table_entries(t: Table) -> Map<u64, Slot>;

/// The contents of an empty table.
pub open spec fn no_slots() -> Map<u64, Slot> {
    Map::empty()
}

/// `AHashMap::default`: a new table. Trusted: it holds nothing.
#[verifier::external_body]
pub(crate) fn table_new() -> (t: Table)
    ensures
        table_entries(t) == no_slots(),
{
    AHashMap::default()
}

/// `AHashMap::get`: the value stored under `key`. Trusted: it is there exactly
/// when the key was stored, and it is what was stored last.
#[verifier::external_body]
pub(crate) fn table_get(t: &Table, key: u64) -> (r: Option<
    Slot,
>)
    ensures
        r == if table_entries(*t).dom().contains(key) {
            Some(table_entries(*t)[key])
        } else {
            None
        },
{
    t.get(&key).copied()
}

/// `AHashMap::insert`: stores `value` under `key`. Trusted: the key then holds
/// the value, in place of what it held before, and no other key changes.
#[verifier::external_body]
pub(crate) fn table_insert(
    t: &mut Table,
    key: u64,
    value: Slot,
)
    ensures
        table_entries(*final(t)) == table_entries(*old(t)).insert(key, value),
{
    t.insert(key, value);
}

/// `HashMap::clear`, reached through the map of `ahash`: empties the table.
/// Trusted: nothing is left.
#[verifier::external_body]
pub(crate) fn table_clear(t: &mut Table)
    ensures
        table_entries(*final(t)) == no_slots(),
{
    t.clear();
}

} // verus!
