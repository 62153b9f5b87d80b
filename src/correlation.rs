//! A map from unguessable identifiers to values that expire.
use std::collections::HashMap;
use vstd::prelude::*;

verus! {

broadcast use vstd::std_specs::hash::group_hash_axioms;

/// How many fresh identifiers `insert` draws before it gives up. With
/// 128 random bits per draw a single collision is already out of reach.
pub const ID_ATTEMPTS: u32 = 4;

/// A stored value and the instant from which it is no longer returned.
#[derive(Debug)]
pub struct Entry<T> {
    pub value: T,
    pub expires: u64,
}

/// What a lookup of `id` at time `now` yields: the value, if an entry is
/// present and has not expired.
pub open spec fn live_value<T>(m: Map<u128, Entry<T>>, id: u128, now: u64) -> Option<T> {
    if m.contains_key(id) && m[id].expires > now {
        Some(m[id].value)
    } else {
        None
    }
}

/// An expiring key-value map. Times are in the caller's clock (for the
/// service, milliseconds of a monotonic clock); an entry stored at `now`
/// with time to live `ttl` is returned until, and not at, `now + ttl`.
///
/// Every operation is a single step on `&mut self`: a caller that shares
/// the store between threads holds a lock around each call, and none of
/// these calls blocks.
pub struct CorrelationStore<T> {
    entries: HashMap<u128, Entry<T>>,
}

impl<T> CorrelationStore<T> {
    pub closed spec fn view(&self) -> Map<u128, Entry<T>> {
        self.entries@
    }

    pub fn new() -> (r: Self)
        ensures
            r@ == Map::<u128, Entry<T>>::empty(),
    {
        CorrelationStore { entries: HashMap::new() }
    }

    /// Whether an entry, live or expired, is held under `id`.
    pub fn contains(&self, id: u128) -> (r: bool)
        ensures
            r == self@.contains_key(id),
    {
        self.entries.contains_key(&id)
    }

    /// Stores `value` under `id`, unless that id is taken, in which case
    /// the store is unchanged and the value is handed back.
    pub fn insert_with_id(&mut self, id: u128, value: T, now: u64, ttl: u64) -> (r: Result<(), T>)
        requires
            now + ttl <= u64::MAX,
        ensures
            !old(self)@.contains_key(id) ==> r is Ok && final(self)@ == old(self)@.insert(
                id,
                Entry { value, expires: (now + ttl) as u64 },
            ),
            old(self)@.contains_key(id) ==> r == Err::<(), T>(value) && final(self)@ == old(self)@,
            old(self)@.dom().len() == 0 ==> r is Ok,
    {
        if self.entries.contains_key(&id) {
            Err(value)
        } else {
            self.entries.insert(id, Entry { value, expires: now + ttl });
            Ok(())
        }
    }

    /// Stores `value` under a fresh random identifier and returns it.
    /// `None` only if every draw hit an identifier already in use; the
    /// store is then unchanged. On an empty store no draw can collide, so
    /// the insert succeeds.
    pub fn insert(&mut self, value: T, now: u64, ttl: u64) -> (r: Option<u128>)
        requires
            now + ttl <= u64::MAX,
        ensures
            r matches Some(id) ==> {
                &&& !old(self)@.contains_key(id)
                &&& final(self)@ == old(self)@.insert(id, Entry { value, expires: (now + ttl) as u64 })
            },
            r is None ==> final(self)@ == old(self)@,
            old(self)@.dom().len() == 0 ==> r is Some,
    {
        let mut pending = value;
        let mut attempt: u32 = 0;
        while attempt < ID_ATTEMPTS
            invariant
                self@ == old(self)@,
                pending == value,
                now + ttl <= u64::MAX,
                old(self)@.dom().len() == 0 ==> attempt == 0,
            decreases ID_ATTEMPTS - attempt,
        {
            let id: u128 = rand::random();
            match self.insert_with_id(id, pending, now, ttl) {
                Ok(()) => {
                    return Some(id);
                },
                Err(back) => {
                    pending = back;
                },
            }
            attempt = attempt + 1;
        }
        None
    }

    /// Removes the entry under `id` and returns its value if it had not
    /// expired. An expired entry is removed too, and nothing is returned:
    /// no value is ever returned twice.
    pub fn take(&mut self, id: u128, now: u64) -> (r: Option<T>)
        ensures
            r == live_value(old(self)@, id, now),
            final(self)@ == old(self)@.remove(id),
    {
        match self.entries.remove(&id) {
            Some(entry) => {
                if entry.expires > now {
                    Some(entry.value)
                } else {
                    None
                }
            },
            None => None,
        }
    }
}

impl<T: Copy> CorrelationStore<T> {
    /// Returns a copy of the value under `id` if it has not expired,
    /// without changing the store.
    pub fn peek(&self, id: u128, now: u64) -> (r: Option<T>)
        ensures
            r == live_value(self@, id, now),
    {
        match self.entries.get(&id) {
            Some(entry) => {
                if entry.expires > now {
                    Some(entry.value)
                } else {
                    None
                }
            },
            None => None,
        }
    }

    /// Returns a copy of the value under `id` if it has not expired, and
    /// moves its expiry to `now + ttl`. The store is unchanged otherwise.
    pub fn peek_and_refresh(&mut self, id: u128, now: u64, ttl: u64) -> (r: Option<T>)
        requires
            now + ttl <= u64::MAX,
        ensures
            r == live_value(old(self)@, id, now),
            r matches Some(v) ==> final(self)@ == old(self)@.insert(
                id,
                Entry { value: v, expires: (now + ttl) as u64 },
            ),
            r is None ==> final(self)@ == old(self)@,
    {
        let found = self.peek(id, now);
        match found {
            Some(v) => {
                self.entries.insert(id, Entry { value: v, expires: now + ttl });
                Some(v)
            },
            None => None,
        }
    }
}


/// An entry stored with time to live `ttl` at `inserted_at`, and not
/// refreshed since, is never returned at a time past `inserted_at + ttl`:
/// `take`, `peek` and `peek_and_refresh` all answer with `live_value`.
pub proof fn lemma_expired_entry_never_returned<T>(
    m: Map<u128, Entry<T>>,
    id: u128,
    value: T,
    inserted_at: u64,
    ttl: u64,
    now: u64,
)
    requires
        inserted_at + ttl <= u64::MAX,
        now > inserted_at + ttl,
    ensures
        live_value(m.insert(id, Entry { value, expires: (inserted_at + ttl) as u64 }), id, now)
            is None,
{
}

/// Once `take` has consumed the entry under `id`, no later `take`, `peek`
/// or `peek_and_refresh` returns a value for it, whatever the time.
pub proof fn lemma_take_consumes<T>(m: Map<u128, Entry<T>>, id: u128, later: u64)
    ensures
        live_value(m.remove(id), id, later) is None,
{
}

} // verus!
