//! The outstanding-call table: a bounded map from handle to the caller
//! waiting on it and its deadline.
//!
//! The table itself is `heapless::LinearMap`, an outside fixed-capacity
//! map, held in a private field of [`PendingTable`].  Verus sees it through
//! the contracts below: `pending_map` names its contents, and each wrapper
//! states what one map operation does to them, as the crate's source shows.

use vstd::prelude::*;

verus! {

/// How many receive calls may be outstanding at once; the capacity of the
/// table.
pub const MAX_OUTSTANDING: usize = 16;

/// A bounded handle-to-(caller, deadline) table backed by
/// `heapless::LinearMap`.
#[verifier::external_body]
pub struct PendingTable {
    inner: heapless::LinearMap<u32, (u32, u64), 16>,
}

/// The contents of an outstanding-call table: handle to (caller, deadline).
pub uninterp spec fn pending_map(m: PendingTable) -> Map<u32, (u32, u64)>;

/// Relies on `heapless::LinearMap::new`: it creates an empty map.
#[verifier::external_body]
pub fn pending_new() -> (r: PendingTable)
    ensures
        pending_map(r).dom() == Set::<u32>::empty(),
{
    PendingTable { inner: heapless::LinearMap::new() }
}

/// Relies on `heapless::LinearMap::get`: it returns the value stored under
/// the key, or `None` when the key is absent.
#[verifier::external_body]
pub fn pending_get(m: &PendingTable, k: u32) -> (r: Option<(u32, u64)>)
    ensures
        r == (if pending_map(*m).dom().contains(k) {
            Some(pending_map(*m)[k])
        } else {
            None::<(u32, u64)>
        }),
{
    m.inner.get(&k).copied()
}

/// Relies on `heapless::LinearMap::insert`: it overwrites an existing key,
/// stores a new key while there is room, and reports failure exactly when
/// the map is full and the key is new.
#[verifier::external_body]
pub fn pending_insert(m: &mut PendingTable, k: u32, v: (u32, u64)) -> (r: bool)
    ensures
        r ==> pending_map(*final(m)) == pending_map(*old(m)).insert(k, v),
        !r ==> pending_map(*final(m)) == pending_map(*old(m)),
        r <==> (pending_map(*old(m)).dom().contains(k)
            || pending_map(*old(m)).dom().len() < 16),
{
    m.inner.insert(k, v).is_ok()
}

/// Relies on `heapless::LinearMap::remove`: it removes the key and returns
/// what was stored under it, if anything.
#[verifier::external_body]
pub fn pending_remove(m: &mut PendingTable, k: u32) -> (r: Option<(u32, u64)>)
    ensures
        pending_map(*final(m)) == pending_map(*old(m)).remove(k),
        r == (if pending_map(*old(m)).dom().contains(k) {
            Some(pending_map(*old(m))[k])
        } else {
            None::<(u32, u64)>
        }),
{
    m.inner.remove(&k)
}

/// Relies on `heapless::LinearMap::iter`: it visits every stored pair
/// exactly once.  The order the pairs come out in is not promised.
#[verifier::external_body]
pub fn pending_entries(m: &PendingTable) -> (v: Vec<(u32, (u32, u64))>)
    ensures
        v@.len() == pending_map(*m).dom().len(),
        forall|i: int| 0 <= i < v@.len()
            ==> pending_map(*m).dom().contains(#[trigger] v@[i].0)
                && pending_map(*m)[v@[i].0] == v@[i].1,
        forall|i: int, j: int| 0 <= i < j < v@.len() ==> v@[i].0 != v@[j].0,
        forall|k: u32| pending_map(*m).dom().contains(k)
            ==> exists|i: int| 0 <= i < v@.len() && #[trigger] v@[i].0 == k,
{
    m.inner.iter().map(|(k, v)| (*k, *v)).collect()
}

} // verus!
