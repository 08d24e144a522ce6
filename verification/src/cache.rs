//! A cache of shared values that holds a bounded number of entries, each
//! for a bounded time. Time is a number of seconds that the caller hands in.

use std::sync::Arc;
use vstd::prelude::*;
use crate::text::same_text;

verus! {

/// The number of entries that a cache of the usual size holds.
pub const DEFAULT_CAPACITY: usize = 1000;

/// The seconds for which a cache of the usual kind keeps an entry.
pub const DEFAULT_TIME_TO_LIVE: u64 = 3600;

/// One stored value: the key it is found under, and when it was stored.
pub ghost struct Slot<T> {
    pub key: Seq<char>,
    pub value: T,
    pub stored_at: u64,
}

/// Whether a slot stored at `stored_at` can still be read at `now`: fewer
/// than `time_to_live` seconds have gone by. A slot that was stored at a
/// later time than `now` can be read.
pub open spec fn is_live(stored_at: u64, time_to_live: u64, now: u64) -> bool {
    now < stored_at + time_to_live
}

/// What is read under `key` at `now`: the value of the last slot with that
/// key that is still live.
pub open spec fn lookup<T>(
    slots: Seq<Slot<T>>,
    time_to_live: u64,
    now: u64,
    key: Seq<char>,
) -> Option<T>
    decreases slots.len(),
{
    if slots.len() == 0 {
        None
    } else if slots.last().key == key && is_live(slots.last().stored_at, time_to_live, now) {
        Some(slots.last().value)
    } else {
        lookup(slots.drop_last(), time_to_live, now, key)
    }
}

/// Everything that can be read at `now`, by key.
pub open spec fn live_map<T>(
    slots: Seq<Slot<T>>,
    time_to_live: u64,
    now: u64,
) -> Map<Seq<char>, T> {
    Map::new(
        |key: Seq<char>| lookup(slots, time_to_live, now, key) is Some,
        |key: Seq<char>| lookup(slots, time_to_live, now, key)->0,
    )
}

/// The slots that stay when `key` is stored anew at `now`: those under
/// another key that are still live.
pub open spec fn kept<T>(slots: Seq<Slot<T>>, time_to_live: u64, now: u64, key: Seq<char>) -> Seq<
    Slot<T>,
> {
    slots.filter(|slot: Slot<T>| slot.key != key && is_live(slot.stored_at, time_to_live, now))
}

/// The slots after `value` is stored under `key` at `now`. The slot that
/// held the key before and the slots that have expired go; if the cache is
/// still full, the oldest slot goes; the new slot comes last. A cache
/// without capacity stores nothing.
pub open spec fn inserted<T>(
    slots: Seq<Slot<T>>,
    capacity: nat,
    time_to_live: u64,
    now: u64,
    key: Seq<char>,
    value: T,
) -> Seq<Slot<T>> {
    if capacity == 0 {
        Seq::empty()
    } else {
        let staying = kept(slots, time_to_live, now, key);
        let room = if staying.len() >= capacity {
            staying.skip(staying.len() - capacity + 1)
        } else {
            staying
        };
        room.push(Slot { key, value, stored_at: now })
    }
}

/// Calls `Arc::clone`: another handle on the same value.
#[verifier::external_body]
pub(crate) fn share<V>(handle: &Arc<V>) -> (other: Arc<V>)
    ensures
        other == *handle,
{
    Arc::clone(handle)
}

/// One stored value of a cache.
pub struct CacheSlot<V> {
    key: String,
    value: Arc<V>,
    stored_at: u64,
}

impl<V: View> View for CacheSlot<V> {
    type V = Slot<V::V>;

    closed spec fn view(&self) -> Slot<V::V> {
        Slot { key: self.key@, value: self.value@, stored_at: self.stored_at }
    }
}

/// A cache of shared values by key. It holds at most `capacity` entries and
/// gives each back for `time_to_live` seconds after it was stored. Its view
/// is its slots, the oldest first.
pub struct TimedCache<V> {
    slots: Vec<CacheSlot<V>>,
    capacity: usize,
    time_to_live: u64,
}

impl<V: View> View for TimedCache<V> {
    type V = Seq<Slot<V::V>>;

    closed spec fn view(&self) -> Seq<Slot<V::V>> {
        self.slots@.map_values(|slot: CacheSlot<V>| slot@)
    }
}

/// Whether a slot stored at `stored_at` can still be read at `now`.
fn still_live(stored_at: u64, time_to_live: u64, now: u64) -> (live: bool)
    ensures
        live == is_live(stored_at, time_to_live, now),
{
    if time_to_live > u64::MAX - stored_at {
        true
    } else {
        now < stored_at + time_to_live
    }
}

impl<V: View> TimedCache<V> {
    /// The number of entries that the cache holds at most.
    pub closed spec fn capacity_of(&self) -> nat {
        self.capacity as nat
    }

    /// The seconds for which an entry can be read after it was stored.
    pub closed spec fn time_to_live_of(&self) -> u64 {
        self.time_to_live
    }

    /// The cache holds no more than its capacity.
    pub open spec fn wf(&self) -> bool {
        self@.len() <= self.capacity_of()
    }

    /// What is read under `key` at `now`.
    pub open spec fn read(&self, key: Seq<char>, now: u64) -> Option<V::V> {
        lookup(self@, self.time_to_live_of(), now, key)
    }

    /// Everything that can be read at `now`, by key.
    pub open spec fn live(&self, now: u64) -> Map<Seq<char>, V::V> {
        live_map(self@, self.time_to_live_of(), now)
    }

    /// An empty cache.
    pub fn new(capacity: usize, time_to_live: u64) -> (cache: Self)
        ensures
            cache.wf(),
            cache@ == Seq::<Slot<V::V>>::empty(),
            cache.capacity_of() == capacity,
            cache.time_to_live_of() == time_to_live,
    {
        let cache = TimedCache { slots: Vec::new(), capacity, time_to_live };
        assert(cache@ =~= Seq::<Slot<V::V>>::empty());
        cache
    }

    /// An empty cache of the usual size, which keeps an entry for an hour.
    pub fn with_defaults() -> (cache: Self)
        ensures
            cache.wf(),
            cache@ == Seq::<Slot<V::V>>::empty(),
            cache.capacity_of() == DEFAULT_CAPACITY,
            cache.time_to_live_of() == DEFAULT_TIME_TO_LIVE,
    {
        Self::new(DEFAULT_CAPACITY, DEFAULT_TIME_TO_LIVE)
    }

    /// The number of entries that the cache holds at most.
    pub fn capacity(&self) -> (capacity: usize)
        ensures
            capacity == self.capacity_of(),
    {
        self.capacity
    }

    /// The seconds for which an entry can be read after it was stored.
    pub fn time_to_live(&self) -> (seconds: u64)
        ensures
            seconds == self.time_to_live_of(),
    {
        self.time_to_live
    }

    /// The number of slots in use, expired ones included.
    pub fn len(&self) -> (n: usize)
        ensures
            n == self@.len(),
    {
        self.slots.len()
    }

    /// The value stored under `key`, if it can still be read at `now`.
    pub fn get(&self, key: &str, now: u64) -> (found: Option<Arc<V>>)
        ensures
            match found {
                Some(value) => self.read(key@, now) == Some(value@),
                None => self.read(key@, now) is None,
            },
    {
        let mut i = self.slots.len();
        assert(self@.take(i as int) =~= self@);
        while i > 0
            invariant
                i <= self.slots@.len(),
                self.read(key@, now) == lookup(
                    self@.take(i as int),
                    self.time_to_live_of(),
                    now,
                    key@,
                ),
            decreases i,
        {
            let slot = &self.slots[i - 1];
            proof {
                let front = self@.take(i as int);
                assert(front.last() == slot@);
                assert(front.drop_last() =~= self@.take(i - 1));
            }
            if same_text(slot.key.as_str(), key) && still_live(
                slot.stored_at,
                self.time_to_live,
                now,
            ) {
                return Some(share(&slot.value));
            }
            i -= 1;
        }
        None
    }

    /// Stores `value` under `key` at `now`. What was stored under the key
    /// before is replaced; expired entries are dropped; if the cache is
    /// still full, its oldest entry is dropped.
    pub fn insert(&mut self, key: String, value: Arc<V>, now: u64)
        requires
            old(self).wf(),
        ensures
            final(self).wf(),
            final(self).capacity_of() == old(self).capacity_of(),
            final(self).time_to_live_of() == old(self).time_to_live_of(),
            final(self)@ == inserted(
                old(self)@,
                old(self).capacity_of(),
                old(self).time_to_live_of(),
                now,
                key@,
                value@,
            ),
    {
        let ghost before = self@;
        let ghost ttl = self.time_to_live;
        if self.capacity == 0 {
            assert(self@ =~= Seq::<Slot<V::V>>::empty());
            return ;
        }
        let mut i: usize = 0;
        let ghost mut done: int = 0;
        proof {
            reveal(Seq::filter);
            assert(before.take(0) =~= Seq::<Slot<V::V>>::empty());
            assert(before.skip(0) =~= before);
            assert(self@ =~= kept(before.take(0), ttl, now, key@) + before.skip(0));
        }
        while i < self.slots.len()
            invariant
                0 <= done <= before.len(),
                before.len() <= self.capacity,
                self.capacity == old(self).capacity,
                self.time_to_live == ttl,
                i == kept(before.take(done), ttl, now, key@).len(),
                self@ == kept(before.take(done), ttl, now, key@) + before.skip(done),
            decreases before.len() - done,
        {
            proof {
                reveal(Seq::filter);
                assert(self@.len() == self.slots@.len());
                assert(self@[i as int] == before.skip(done)[0]);
                assert(before.take(done + 1).drop_last() =~= before.take(done));
                assert(before.take(done + 1).last() == before[done]);
                assert(self@[i as int] == self.slots@[i as int]@);
            }
            let ghost staying = kept(before.take(done), ttl, now, key@);
            let slot = &self.slots[i];
            if same_text(slot.key.as_str(), key.as_str()) || !still_live(
                slot.stored_at,
                self.time_to_live,
                now,
            ) {
                let ghost slots_before = self.slots@;
                self.slots.remove(i);
                proof {
                    assert(self@ =~= slots_before.map_values(|slot: CacheSlot<V>| slot@).remove(
                        i as int,
                    ));
                    assert(self@ =~= staying + before.skip(done + 1));
                }
            } else {
                i += 1;
                proof {
                    assert(self@ =~= staying.push(before[done]) + before.skip(done + 1));
                }
            }
            proof {
                done = done + 1;
            }
        }
        proof {
            assert(self@.len() == self.slots@.len());
            assert(before.take(done) =~= before);
            assert(before.skip(done) =~= Seq::<Slot<V::V>>::empty());
            assert(self@ =~= kept(before, ttl, now, key@));
            before.lemma_filter_len(
                |slot: Slot<V::V>| slot.key != key@ && is_live(slot.stored_at, ttl, now),
            );
        }
        let ghost staying = self@;
        if self.slots.len() >= self.capacity {
            let ghost slots_before = self.slots@;
            self.slots.remove(0);
            proof {
                assert(self@ =~= slots_before.map_values(|slot: CacheSlot<V>| slot@).remove(0));
                assert(self@ =~= staying.skip(staying.len() - self.capacity + 1));
            }
        }
        let ghost room = self@;
        let ghost slots_before = self.slots@;
        self.slots.push(CacheSlot { key, value, stored_at: now });
        proof {
            assert(self@ =~= room.push(Slot { key: key@, value: value@, stored_at: now }));
        }
    }

    /// Drops every entry.
    pub fn clear(&mut self)
        ensures
            final(self).wf(),
            final(self)@ == Seq::<Slot<V::V>>::empty(),
            final(self).capacity_of() == old(self).capacity_of(),
            final(self).time_to_live_of() == old(self).time_to_live_of(),
    {
        self.slots.clear();
        assert(self@ =~= Seq::<Slot<V::V>>::empty());
    }
}

/// What is read from the slots that stay is what was read before, under
/// every key but the one that is stored anew; and nothing is read from them
/// under that key.
proof fn lemma_lookup_in_kept<T>(
    slots: Seq<Slot<T>>,
    time_to_live: u64,
    now: u64,
    key: Seq<char>,
    other: Seq<char>,
)
    ensures
        lookup(kept(slots, time_to_live, now, key), time_to_live, now, other) == if other == key {
            None
        } else {
            lookup(slots, time_to_live, now, other)
        },
        kept(slots, time_to_live, now, key).len() <= slots.len(),
    decreases slots.len(),
{
    reveal(Seq::filter);
    if slots.len() > 0 {
        let front = slots.drop_last();
        let last = slots.last();
        lemma_lookup_in_kept(front, time_to_live, now, key, other);
        let staying = kept(front, time_to_live, now, key);
        if last.key != key && is_live(last.stored_at, time_to_live, now) {
            assert(kept(slots, time_to_live, now, key) == staying.push(last));
            assert(staying.push(last).drop_last() =~= staying);
            assert(staying.push(last).last() == last);
        } else {
            assert(kept(slots, time_to_live, now, key) == staying);
        }
    }
}

/// Dropping slots from the front takes nothing away under a key that one
/// of the remaining slots is read under, and adds nothing under any key.
proof fn lemma_lookup_in_skipped<T>(
    slots: Seq<Slot<T>>,
    dropped: int,
    time_to_live: u64,
    now: u64,
    key: Seq<char>,
)
    requires
        0 <= dropped <= slots.len(),
    ensures
        lookup(slots.skip(dropped), time_to_live, now, key) matches Some(value) ==> lookup(
            slots,
            time_to_live,
            now,
            key,
        ) == Some(value),
    decreases slots.len() - dropped,
{
    if dropped < slots.len() {
        let rest = slots.skip(dropped);
        assert(rest.last() == slots.last());
        assert(rest.drop_last() =~= slots.drop_last().skip(dropped));
        if !(slots.last().key == key && is_live(slots.last().stored_at, time_to_live, now)) {
            lemma_lookup_in_skipped(slots.drop_last(), dropped, time_to_live, now, key);
        }
    }
}

/// A cache never holds more than its capacity, and storing adds at most
/// one slot.
pub proof fn lemma_inserted_len<T>(
    slots: Seq<Slot<T>>,
    capacity: nat,
    time_to_live: u64,
    now: u64,
    key: Seq<char>,
    value: T,
)
    ensures
        inserted(slots, capacity, time_to_live, now, key, value).len() <= capacity,
        inserted(slots, capacity, time_to_live, now, key, value).len() <= slots.len() + 1,
{
    lemma_lookup_in_kept(slots, time_to_live, now, key, key);
}

/// What is stored is read back at once, in a cache that holds anything and
/// keeps it for some time.
pub proof fn lemma_stored_is_read<T>(
    slots: Seq<Slot<T>>,
    capacity: nat,
    time_to_live: u64,
    now: u64,
    key: Seq<char>,
    value: T,
)
    requires
        capacity > 0,
        time_to_live > 0,
    ensures
        lookup(inserted(slots, capacity, time_to_live, now, key, value), time_to_live, now, key)
            == Some(value),
{
    let after = inserted(slots, capacity, time_to_live, now, key, value);
    assert(after.last() == Slot { key, value, stored_at: now });
}

/// In a cache with room, storing under one key leaves every other key as
/// it read before.
pub proof fn lemma_others_read_as_before<T>(
    slots: Seq<Slot<T>>,
    capacity: nat,
    time_to_live: u64,
    now: u64,
    key: Seq<char>,
    value: T,
    other: Seq<char>,
)
    requires
        slots.len() < capacity,
        other != key,
    ensures
        lookup(
            inserted(slots, capacity, time_to_live, now, key, value),
            time_to_live,
            now,
            other,
        ) == lookup(slots, time_to_live, now, other),
{
    let staying = kept(slots, time_to_live, now, key);
    let after = inserted(slots, capacity, time_to_live, now, key, value);
    lemma_lookup_in_kept(slots, time_to_live, now, key, other);
    assert(after == staying.push(Slot { key, value, stored_at: now }));
    assert(after.drop_last() =~= staying);
}

/// Storing never brings back what was dropped: under a key other than the
/// stored one, whatever is read afterwards was read before.
pub proof fn lemma_nothing_else_appears<T>(
    slots: Seq<Slot<T>>,
    capacity: nat,
    time_to_live: u64,
    now: u64,
    key: Seq<char>,
    value: T,
    other: Seq<char>,
)
    requires
        other != key,
    ensures
        lookup(
            inserted(slots, capacity, time_to_live, now, key, value),
            time_to_live,
            now,
            other,
        ) matches Some(read) ==> lookup(slots, time_to_live, now, other) == Some(read),
{
    if capacity > 0 {
        let staying = kept(slots, time_to_live, now, key);
        let after = inserted(slots, capacity, time_to_live, now, key, value);
        lemma_lookup_in_kept(slots, time_to_live, now, key, other);
        let room = if staying.len() >= capacity {
            staying.skip(staying.len() - capacity + 1)
        } else {
            staying
        };
        assert(after == room.push(Slot { key, value, stored_at: now }));
        assert(after.drop_last() =~= room);
        if staying.len() >= capacity {
            lemma_lookup_in_skipped(
                staying,
                staying.len() - capacity + 1,
                time_to_live,
                now,
                other,
            );
        }
    }
}

/// In a cache that keeps nothing for any time, what is stored under a key
/// is not read back, and neither is what the key held before.
pub proof fn lemma_unread_key_stays_unread<T>(
    slots: Seq<Slot<T>>,
    capacity: nat,
    time_to_live: u64,
    now: u64,
    key: Seq<char>,
    value: T,
)
    requires
        time_to_live == 0,
    ensures
        lookup(inserted(slots, capacity, time_to_live, now, key, value), time_to_live, now, key)
            is None,
{
    if capacity > 0 {
        let staying = kept(slots, time_to_live, now, key);
        let after = inserted(slots, capacity, time_to_live, now, key, value);
        lemma_lookup_in_kept(slots, time_to_live, now, key, key);
        let room = if staying.len() >= capacity {
            staying.skip(staying.len() - capacity + 1)
        } else {
            staying
        };
        assert(after == room.push(Slot { key, value, stored_at: now }));
        assert(after.drop_last() =~= room);
        if staying.len() >= capacity {
            lemma_lookup_in_skipped(
                staying,
                staying.len() - capacity + 1,
                time_to_live,
                now,
                key,
            );
        }
    }
}

} // verus!
