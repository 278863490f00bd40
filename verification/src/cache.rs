//! The cache: a lookup table coupled with the queue of its entries' deadlines.
//!
//! Every insert schedules a deadline in the queue and stores the handle beside the
//! value; a purge asks the queue for the deadlines that have elapsed and evicts their
//! entries. The two structures are kept in step: see [`Cache::wf`].
//!
//! `insert`, `remove` and `poll_purge` reach into the queue, whose timer needs a Tokio
//! runtime with the time driver enabled.

use crate::expiration::cancel;
use crate::expiration::new_queue;
use crate::expiration::pending;
use crate::expiration::poll_next_expired;
use crate::expiration::queue_clock;
use crate::expiration::schedule;
use crate::expiration::Expiry;
use crate::expiration::MAX_PENDING;
use std::task::Context;
use tokio_util::time::delay_queue::Key;
use tokio_util::time::DelayQueue;
use vstd::hash_map::StringHashMap;
use vstd::prelude::*;
use vstd::relations::injective_on;
use vstd::set_lib::lemma_map_size;

verus! {

/// The lifetime of every entry, in seconds.
pub const TTL_SECS: u64 = 10;

/// The lifetime of every entry, in milliseconds.
pub open spec fn ttl_millis() -> int {
    1000 * TTL_SECS
}

/// A stored value and the handle of the deadline at which it expires.
struct CacheEntry {
    value: String,
    handle: Key,
}

/// A key/value cache whose entries expire `TTL_SECS` after they were inserted.
pub struct Cache {
    entries: StringHashMap<CacheEntry>,
    expirations: DelayQueue<String>,
}

/// The table and the queue agree: every entry's handle is a pending deadline scheduled
/// for that entry's key, and every pending deadline is the handle of a live entry.
spec fn coupled(
    entries: Map<Seq<char>, CacheEntry>,
    deadlines: Map<Key, (Seq<char>, int)>,
) -> bool {
    &&& entries.dom().finite()
    &&& deadlines.dom().finite()
    &&& deadlines.len() <= MAX_PENDING
    &&& forall|key: Seq<char>| #[trigger]
        entries.contains_key(key) ==> deadlines.contains_key(entries[key].handle)
            && deadlines[entries[key].handle].0 == key
    &&& forall|handle: Key| #[trigger]
        deadlines.contains_key(handle) ==> entries.contains_key(deadlines[handle].0)
            && entries[deadlines[handle].0].handle == handle
}

/// Where a purge stands when it hands control back.
#[derive(Clone, Copy, Debug, PartialEq, Eq, Structural)]
pub enum PurgeState {
    /// Deadlines are still pending. The queue has arranged for the task to be woken, and
    /// the purge goes on with the next poll.
    Scanning,
    /// The queue has confirmed that it is drained: the purge is complete.
    Done,
}

/// What one poll of a purge did.
pub struct PurgeOutcome {
    /// Where the purge stands.
    pub state: PurgeState,
    /// The keys of the entries that were evicted, in the order of their eviction. They
    /// are the purge's notifications: by the time the caller sees a key, its entry is
    /// gone from the cache, whatever the caller then does with the key.
    pub evicted: Vec<String>,
}

impl PurgeOutcome {
    /// The evicted keys, as plain sequences of characters.
    pub open spec fn keys(&self) -> Seq<Seq<char>> {
        self.evicted@.map_values(|key: String| key@)
    }
}

/// A purge that evicts the entries under `keys`, in that order, takes `before` to
/// `after`: the keys are distinct and were live; the other entries and their deadlines
/// are as they were; every evicted deadline has been reached on the clock of `after`;
/// the entries left in deadline order, and none of them later than one that stays.
pub open spec fn purged(before: Cache, keys: Seq<Seq<char>>, after: Cache) -> bool {
    &&& keys.no_duplicates()
    &&& forall|i: int| 0 <= i < keys.len() ==> before@.contains_key(#[trigger] keys[i])
    &&& after@ == before@.remove_keys(keys.to_set())
    &&& after.deadlines() == before.deadlines().remove_keys(keys.to_set())
    &&& forall|i: int|
        0 <= i < keys.len() ==> before.deadlines()[#[trigger] keys[i]] <= after.clock()
    &&& forall|i: int, j: int|
        0 <= i < j < keys.len() ==> before.deadlines()[#[trigger] keys[i]]
            <= before.deadlines()[#[trigger] keys[j]]
    &&& forall|i: int, key: Seq<char>|
        0 <= i < keys.len() && #[trigger] after@.contains_key(key)
            ==> before.deadlines()[#[trigger] keys[i]] <= before.deadlines()[key]
}

impl View for Cache {
    type V = Map<Seq<char>, Seq<char>>;

    /// The live entries: each key with its value.
    closed spec fn view(&self) -> Map<Seq<char>, Seq<char>> {
        self.entries@.map_values(|entry: CacheEntry| entry.value@)
    }
}

impl Cache {
    /// Every live entry has exactly one pending deadline, and every pending deadline
    /// belongs to a live entry.
    pub closed spec fn wf(&self) -> bool {
        coupled(self.entries@, pending(self.expirations))
    }

    /// The deadline of each live entry, in milliseconds since the cache was created.
    pub closed spec fn deadlines(&self) -> Map<Seq<char>, int> {
        self.entries@.map_values(|entry: CacheEntry| pending(self.expirations)[entry.handle].1)
    }

    /// The number of deadlines pending in the queue.
    pub closed spec fn pending_count(&self) -> nat {
        pending(self.expirations).len()
    }

    /// The queue's clock, in milliseconds since the cache was created: the latest
    /// instant that the queue has seen reached. It moves only in a purge, never
    /// backwards, and never runs ahead of the runtime's clock.
    pub closed spec fn clock(&self) -> int {
        queue_clock(self.expirations)
    }

    /// What a lookup of `key` finds.
    pub open spec fn lookup(&self, key: Seq<char>) -> Option<Seq<char>> {
        if self@.contains_key(key) {
            Some(self@[key])
        } else {
            None
        }
    }

    /// An empty cache.
    pub fn new() -> (cache: Cache)
        ensures
            cache.wf(),
            cache@.is_empty(),
            cache.clock() == 0,
    {
        let cache = Cache { entries: StringHashMap::new(), expirations: new_queue() };
        proof {
            assert(cache@.dom() =~= cache.entries@.dom());
        }
        cache
    }

    /// The number of live entries.
    pub fn len(&self) -> (count: usize)
        ensures
            count == self@.len(),
    {
        proof {
            assert(self@.dom() =~= self.entries@.dom());
        }
        self.entries.len()
    }

    /// Stores `value` under `key` and schedules the entry to expire `TTL_SECS` from now.
    ///
    /// An entry already stored under `key` is replaced and its deadline cancelled, so
    /// the key's only deadline is the new one. It lies at least a lifetime past the
    /// queue's clock, which is never ahead of the runtime's: the entry cannot expire
    /// early. The queue holds at most `MAX_PENDING` deadlines, so a new key needs room.
    pub fn insert(&mut self, key: String, value: String)
        requires
            old(self).wf(),
            old(self)@.contains_key(key@) || old(self)@.len() < MAX_PENDING,
        ensures
            final(self).wf(),
            final(self)@ == old(self)@.insert(key@, value@),
            final(self).deadlines() == old(self).deadlines().insert(
                key@,
                final(self).deadlines()[key@],
            ),
            final(self).deadlines()[key@] >= old(self).clock() + ttl_millis(),
            final(self).clock() == old(self).clock(),
    {
        proof {
            lemma_coupled_counts(self.entries@, pending(self.expirations));
            assert(self@.dom() =~= self.entries@.dom());
        }
        let prior = match self.entries.get(key.as_str()) {
            Some(entry) => Some(entry.handle),
            None => None,
        };
        if let Some(handle) = prior {
            cancel(&mut self.expirations, &handle);
        }
        let handle = schedule(&mut self.expirations, key.clone(), TTL_SECS);
        self.entries.insert(key, CacheEntry { value, handle });
        proof {
            assert(self@ =~= old(self)@.insert(key@, value@));
            assert(self.deadlines() =~= old(self).deadlines().insert(
                key@,
                self.deadlines()[key@],
            ));
        }
    }

    /// The value stored under `key`, if the entry is live. Looking an entry up does not
    /// change its deadline.
    pub fn get(&self, key: &String) -> (value: Option<&String>)
        ensures
            self.lookup(key@) == match value {
                Some(value) => Some(value@),
                None => None,
            },
    {
        match self.entries.get(key.as_str()) {
            Some(entry) => Some(&entry.value),
            None => None,
        }
    }

    /// Deletes the entry under `key`, if there is one, and cancels its deadline.
    pub fn remove(&mut self, key: &String)
        requires
            old(self).wf(),
        ensures
            final(self).wf(),
            final(self)@ == old(self)@.remove(key@),
            final(self).deadlines() == old(self).deadlines().remove(key@),
            final(self).clock() == old(self).clock(),
    {
        let found = match self.entries.get(key.as_str()) {
            Some(entry) => Some(entry.handle),
            None => None,
        };
        if let Some(handle) = found {
            cancel(&mut self.expirations, &handle);
            self.entries.remove(key.as_str());
        }
        proof {
            assert(self@ =~= old(self)@.remove(key@));
            assert(self.deadlines() =~= old(self).deadlines().remove(key@));
        }
    }

    /// The table and the queue as a poll leaves them when it reports `report`: coupled,
    /// but for the entry whose deadline the poll has just taken out of the queue.
    closed spec fn reported(&self, report: Expiry) -> bool {
        match report {
            Expiry::Due { handle, key } => {
                &&& self.entries@.contains_key(key@)
                &&& self.entries@[key@].handle == handle
                &&& coupled(self.entries@.remove(key@), pending(self.expirations))
            },
            Expiry::Waiting => self.wf() && !self@.is_empty(),
            Expiry::Drained => self.wf() && self@.is_empty(),
        }
    }

    /// Acts on one report of the queue: evicts the entry whose deadline has elapsed and
    /// records its key, or says in which state this poll of the purge ends.
    fn apply(&mut self, report: Expiry, evicted: &mut Vec<String>) -> (end: Option<PurgeState>)
        requires
            old(self).reported(report),
        ensures
            final(self).wf(),
            pending(final(self).expirations) == pending(old(self).expirations),
            final(self).clock() == old(self).clock(),
            match report {
                Expiry::Due { handle, key } => {
                    &&& end is None
                    &&& final(self)@ == old(self)@.remove(key@)
                    &&& final(self).deadlines() == old(self).deadlines().remove(key@)
                    &&& final(evicted)@ == old(evicted)@.push(key)
                },
                Expiry::Waiting => {
                    &&& end == Some(PurgeState::Scanning)
                    &&& final(self)@ == old(self)@
                    &&& final(self).deadlines() == old(self).deadlines()
                    &&& final(evicted)@ == old(evicted)@
                },
                Expiry::Drained => {
                    &&& end == Some(PurgeState::Done)
                    &&& final(self)@ == old(self)@
                    &&& final(self).deadlines() == old(self).deadlines()
                    &&& final(evicted)@ == old(evicted)@
                },
            },
    {
        match report {
            Expiry::Due { key, .. } => {
                self.entries.remove(key.as_str());
                evicted.push(key);
                None
            },
            Expiry::Waiting => Some(PurgeState::Scanning),
            Expiry::Drained => Some(PurgeState::Done),
        }
    }

    /// Evicts the entries whose deadlines the queue reports as elapsed, and says whether
    /// any deadline is still pending. While one is, the queue has the task behind `cx`
    /// woken, and the purge is to be polled again.
    ///
    /// Which deadlines have elapsed is for the queue to say. Whatever it says: the
    /// entries evicted were live, and each is evicted once; their deadlines have been
    /// reached on the queue's clock; they leave in the order of their deadlines, and
    /// none of them later than an entry that stays; the entries that stay are
    /// untouched. The purge is `Done` exactly when it leaves the cache empty, so a purge
    /// of an empty cache is done at once and evicts nothing.
    pub fn poll_purge(&mut self, cx: &mut Context<'_>) -> (outcome: PurgeOutcome)
        requires
            old(self).wf(),
        ensures
            final(self).wf(),
            final(self).clock() >= old(self).clock(),
            purged(*old(self), outcome.keys(), *final(self)),
            outcome.state == PurgeState::Done <==> final(self)@.is_empty(),
            old(self)@.is_empty() ==> outcome.state == PurgeState::Done
                && outcome.evicted@.len() == 0,
    {
        let mut evicted: Vec<String> = Vec::new();
        let ghost before = *self;
        proof {
            lemma_nothing_purged(before);
            assert(evicted@.map_values(|key: String| key@) =~= Seq::empty());
        }
        loop
            invariant
                before == *old(self),
                self.wf(),
                self.clock() >= before.clock(),
                purged(before, evicted@.map_values(|key: String| key@), *self),
            decreases pending(self.expirations).len(),
        {
            let ghost keys = evicted@.map_values(|key: String| key@);
            let ghost here = *self;
            let report = poll_next_expired(&mut self.expirations, cx);
            let ghost seen = report;
            proof {
                here.lemma_deadlines_domain();
                lemma_coupled_emptiness(self.entries@, pending(self.expirations));
                assert(self@.dom() =~= self.entries@.dom());
                if let Expiry::Due { handle, key } = seen {
                    assert(here.deadlines()[key@] == pending(here.expirations)[handle].1);
                    assert(self.deadlines().remove(key@) =~= here.deadlines().remove(key@));
                }
            }
            let end = self.apply(report, &mut evicted);
            proof {
                if let Expiry::Due { handle, key } = seen {
                    lemma_evict_extends(before, keys, here, key@, *self);
                    assert(evicted@.map_values(|key: String| key@) =~= keys.push(key@));
                }
            }
            if let Some(state) = end {
                proof {
                    if before@.is_empty() && evicted@.len() > 0 {
                        assert(before@.contains_key(evicted@.map_values(|key: String| key@)[0]));
                    }
                }
                return PurgeOutcome { state, evicted };
            }
        }
    }

    /// Every live entry has a deadline, and nothing else has one.
    pub proof fn lemma_deadlines_domain(self)
        ensures
            self.deadlines().dom() == self@.dom(),
    {
    }

    /// The queue holds one deadline for each live entry and none besides.
    pub proof fn lemma_pending_count(self)
        requires
            self.wf(),
        ensures
            self@.dom().finite(),
            self.pending_count() == self@.len(),
            self.pending_count() <= MAX_PENDING,
    {
        lemma_coupled_counts(self.entries@, pending(self.expirations));
        assert(self@.dom() =~= self.entries@.dom());
    }
}

/// A coupled table and queue hold equally many items.
proof fn lemma_coupled_counts(
    entries: Map<Seq<char>, CacheEntry>,
    deadlines: Map<Key, (Seq<char>, int)>,
)
    requires
        coupled(entries, deadlines),
    ensures
        entries.len() == deadlines.len(),
{
    let key_of = |handle: Key| deadlines[handle].0;
    assert(deadlines.dom().map(key_of) =~= entries.dom()) by {
        assert forall|key: Seq<char>| entries.dom().contains(key) implies deadlines.dom().map(
            key_of,
        ).contains(key) by {
            assert(deadlines.dom().contains(entries[key].handle));
        }
    }
    assert(injective_on(key_of, deadlines.dom()));
    lemma_map_size(deadlines.dom(), entries.dom(), key_of);
}

/// A coupled table and queue are empty together.
proof fn lemma_coupled_emptiness(
    entries: Map<Seq<char>, CacheEntry>,
    deadlines: Map<Key, (Seq<char>, int)>,
)
    ensures
        coupled(entries, deadlines) ==> (entries.is_empty() <==> deadlines.is_empty()),
{
    if coupled(entries, deadlines) {
        if deadlines.is_empty() {
            assert forall|key: Seq<char>| !entries.contains_key(key) by {
                if entries.contains_key(key) {
                    assert(deadlines.contains_key(entries[key].handle));
                }
            }
            assert(entries.dom() =~= Set::empty());
        } else {
            let handle = choose|handle: Key| deadlines.contains_key(handle);
            assert(deadlines.contains_key(handle));
            assert(entries.contains_key(deadlines[handle].0));
        }
    }
}

/// A purge that has evicted nothing yet has left the cache as it was.
proof fn lemma_nothing_purged(before: Cache)
    ensures
        purged(before, Seq::empty(), before),
{
    let none = Seq::<Seq<char>>::empty();
    assert(before@.remove_keys(none.to_set()) =~= before@);
    assert(before.deadlines().remove_keys(none.to_set()) =~= before.deadlines());
}

/// Evicting from `here` an entry that is due, and no later than the others, carries a
/// purge one key further.
proof fn lemma_evict_extends(
    before: Cache,
    keys: Seq<Seq<char>>,
    here: Cache,
    key: Seq<char>,
    after: Cache,
)
    requires
        purged(before, keys, here),
        here@.contains_key(key),
        forall|other: Seq<char>| #[trigger]
            here@.contains_key(other) ==> here.deadlines()[key] <= here.deadlines()[other],
        after@ == here@.remove(key),
        after.deadlines() == here.deadlines().remove(key),
        here.deadlines()[key] <= after.clock(),
        here.clock() <= after.clock(),
    ensures
        purged(before, keys.push(key), after),
{
    before.lemma_deadlines_domain();
    here.lemma_deadlines_domain();
    let more = keys.push(key);
    assert(more.to_set() =~= keys.to_set().insert(key)) by {
        assert forall|k: Seq<char>| more.to_set().contains(k) implies keys.to_set().insert(
            key,
        ).contains(k) by {
            let i = choose|i: int| 0 <= i < more.len() && more[i] == k;
            if i < keys.len() {
                assert(keys.contains(k));
            }
        }
        assert forall|k: Seq<char>|
            keys.to_set().insert(key).contains(k) implies more.to_set().contains(k) by {
            if k == key {
                assert(more[keys.len() as int] == k);
            } else {
                let i = choose|i: int| 0 <= i < keys.len() && keys[i] == k;
                assert(more[i] == k);
            }
        }
    }
    assert(after@ =~= before@.remove_keys(more.to_set()));
    assert(after.deadlines() =~= before.deadlines().remove_keys(more.to_set()));
    // The new key is none of the old ones, which have left the cache; each old key left
    // no later than the new one, which was still live.
    assert(!keys.contains(key));
    assert(here.deadlines()[key] == before.deadlines()[key]);
    assert forall|i: int, other: Seq<char>|
        0 <= i < more.len() && #[trigger] after@.contains_key(other)
        implies before.deadlines()[#[trigger] more[i]] <= before.deadlines()[other] by {
        assert(here.deadlines()[other] == before.deadlines()[other]);
    }
}

} // verus!
