//! What the contracts of the cache's operations add up to.
//!
//! Each theorem speaks of cache states that the operations' contracts relate: an insert
//! takes `before` to `after` when `after@ == before@.insert(key, value)` and the new
//! deadline lies a lifetime past `before.clock()`; a purge that evicted `keys` takes
//! `before` to `after` when `purged(before, keys, after)`. Time is read off the
//! queue's clock, which never runs ahead of real time.

use crate::cache::purged;
use crate::cache::ttl_millis;
use crate::cache::Cache;
use vstd::prelude::*;

verus! {

/// Right after `value` has been inserted under `key`, a lookup of `key` finds `value`.
pub proof fn lemma_insert_then_lookup(
    before: Cache,
    key: Seq<char>,
    value: Seq<char>,
    after: Cache,
)
    requires
        after@ == before@.insert(key, value),
    ensures
        after.lookup(key) == Some(value),
{
}

/// No entry is evicted before its lifetime is over.
///
/// Let an entry be inserted under `key` when the clock reads `inserted_at`, and let it
/// still be live, with the deadline it was given, when a purge starts from `before`. If
/// the purge ends with the clock short of `inserted_at` plus the lifetime, it has not
/// evicted the entry: a lookup finds the value as before, and the deadline stands, so
/// that the same holds of the next purge.
pub proof fn lemma_no_premature_eviction(
    inserted_at: int,
    before: Cache,
    keys: Seq<Seq<char>>,
    after: Cache,
    key: Seq<char>,
)
    requires
        before@.contains_key(key),
        before.deadlines()[key] >= inserted_at + ttl_millis(),
        purged(before, keys, after),
        after.clock() < inserted_at + ttl_millis(),
    ensures
        !keys.contains(key),
        after.lookup(key) == before.lookup(key),
        after.deadlines()[key] == before.deadlines()[key],
{
    if keys.contains(key) {
        let i = choose|i: int| 0 <= i < keys.len() && keys[i] == key;
        assert(before.deadlines()[keys[i]] <= after.clock());
    }
    before.lemma_deadlines_domain();
}

/// A purge that runs to completion evicts every entry, each exactly once.
///
/// When a purge from `before` has left the cache empty, every key that was live in
/// `before` stands at exactly one place among the evicted keys, and a lookup of it
/// finds nothing.
pub proof fn lemma_completed_purge_evicts_all(
    before: Cache,
    keys: Seq<Seq<char>>,
    after: Cache,
    key: Seq<char>,
)
    requires
        purged(before, keys, after),
        after@.is_empty(),
        before@.contains_key(key),
    ensures
        after.lookup(key) is None,
        exists|i: int| 0 <= i < keys.len() && keys[i] == key,
        forall|i: int, j: int|
            0 <= i < keys.len() && 0 <= j < keys.len() && keys[i] == key && keys[j] == key
                ==> i == j,
{
    assert(!after@.contains_key(key));
    assert(keys.to_set().contains(key));
    assert(keys.contains(key));
}

/// A purge follows the order of the deadlines.
///
/// When a purge has evicted an entry whose deadline lies after that of the live entry
/// under `key`, it has evicted the entry under `key` too, and earlier.
pub proof fn lemma_purge_follows_deadlines(
    before: Cache,
    keys: Seq<Seq<char>>,
    after: Cache,
    key: Seq<char>,
    later: int,
)
    requires
        purged(before, keys, after),
        before@.contains_key(key),
        0 <= later < keys.len(),
        before.deadlines()[key] < before.deadlines()[keys[later]],
    ensures
        exists|i: int| 0 <= i < later && keys[i] == key,
{
    if after@.contains_key(key) {
        assert(before.deadlines()[keys[later]] <= before.deadlines()[key]);
    } else {
        assert(keys.to_set().contains(key));
        let i = choose|i: int| 0 <= i < keys.len() && keys[i] == key;
        if later < i {
            assert(before.deadlines()[keys[later]] <= before.deadlines()[keys[i]]);
        }
    }
}

/// No entry is evicted twice.
///
/// Within one purge no key is evicted twice, and an evicted key is no longer live. So
/// when a second purge starts where the first ended, a key that the first evicted is
/// not among those that the second evicts.
pub proof fn lemma_no_duplicate_eviction(
    before: Cache,
    first: Seq<Seq<char>>,
    between: Cache,
    second: Seq<Seq<char>>,
    after: Cache,
    key: Seq<char>,
)
    requires
        purged(before, first, between),
        purged(between, second, after),
        first.contains(key),
    ensures
        first.no_duplicates(),
        !between@.contains_key(key),
        !second.contains(key),
        !after@.contains_key(key),
{
    assert(first.to_set().contains(key));
    if second.contains(key) {
        let i = choose|i: int| 0 <= i < second.len() && second[i] == key;
        assert(between@.contains_key(second[i]));
    }
}

/// Inserting under a live key starts the lifetime anew.
///
/// Let `key` be live in `before`, and let an insert under `key` take `before` to
/// `renewed`. The queue then holds no more deadlines than it did, so that of the
/// replaced entry is gone, and the key's deadline lies a whole lifetime past the clock
/// at the second insert. A purge from `renewed` that ends with the clock short of that
/// does not evict the entry, even where the deadline of the replaced entry has been
/// reached.
pub proof fn lemma_overwrite_resets_lifetime(
    before: Cache,
    key: Seq<char>,
    value: Seq<char>,
    renewed: Cache,
    keys: Seq<Seq<char>>,
    after: Cache,
)
    requires
        before.wf(),
        renewed.wf(),
        before@.contains_key(key),
        renewed@ == before@.insert(key, value),
        renewed.deadlines() == before.deadlines().insert(key, renewed.deadlines()[key]),
        renewed.deadlines()[key] >= before.clock() + ttl_millis(),
        purged(renewed, keys, after),
        after.clock() < before.clock() + ttl_millis(),
    ensures
        renewed.pending_count() == before.pending_count(),
        !keys.contains(key),
        after.lookup(key) == Some(value),
{
    assert(renewed@.dom() =~= before@.dom());
    before.lemma_pending_count();
    renewed.lemma_pending_count();
    lemma_no_premature_eviction(before.clock(), renewed, keys, after, key);
}

/// An entry that was removed is never evicted.
///
/// When `key` has been removed and a purge starts from what the removal left, `key` is
/// not among the keys that the purge evicts.
pub proof fn lemma_removal_suppresses_eviction(
    before: Cache,
    key: Seq<char>,
    removed: Cache,
    keys: Seq<Seq<char>>,
    after: Cache,
)
    requires
        removed@ == before@.remove(key),
        purged(removed, keys, after),
    ensures
        !keys.contains(key),
        after.lookup(key) is None,
{
    if keys.contains(key) {
        let i = choose|i: int| 0 <= i < keys.len() && keys[i] == key;
        assert(removed@.contains_key(keys[i]));
    }
}

} // verus!
