//! The plain data of the expiring table: entries, snapshots, expiry policies
//! and the outcomes of a computation on one key.

use vstd::prelude::*;

verus! {

/// When an entry expires, and which write gave it that time.
#[derive(Clone, Copy, Debug, PartialEq, Eq, Structural)]
pub struct Expiry {
    pub at: u64,
    pub generation: u64,
}

/// How long a written entry stays alive.
#[derive(Clone, Copy, Debug, PartialEq, Eq, Structural)]
pub enum ExpirePolicy {
    /// Never expires.
    Persistent,
    /// Expires when the logical clock reaches this time.
    Absolute(u64),
    /// Expires this long after the write.
    Ttl(u64),
}

impl ExpirePolicy {
    /// The expiry time that the policy gives a write at time `now`; a time to
    /// live that reaches past the end of the clock is cut off there.
    pub open spec fn resolved(self, now: u64) -> Option<u64> {
        match self {
            ExpirePolicy::Persistent => None,
            ExpirePolicy::Absolute(at) => Some(at),
            ExpirePolicy::Ttl(ttl) => Some(
                if now + ttl > u64::MAX {
                    u64::MAX
                } else {
                    (now + ttl) as u64
                },
            ),
        }
    }

    /// Resolves the policy for a write at time `now`.
    pub fn resolve(self, now: u64) -> (at: Option<u64>)
        ensures
            at == self.resolved(now),
    {
        match self {
            ExpirePolicy::Persistent => None,
            ExpirePolicy::Absolute(at) => Some(at),
            ExpirePolicy::Ttl(ttl) => Some(now.saturating_add(ttl)),
        }
    }
}

/// A copy of an entry as it was at some moment.
#[derive(Clone, Debug, PartialEq, Eq)]
pub struct EntrySnapshot<V> {
    pub value: V,
    pub expire_at: Option<u64>,
    pub generation: u64,
}

impl<V: View> View for EntrySnapshot<V> {
    type V = EntrySnapshot<V::V>;

    open spec fn view(&self) -> EntrySnapshot<V::V> {
        EntrySnapshot {
            value: self.value@,
            expire_at: self.expire_at,
            generation: self.generation,
        }
    }
}

/// The expiry that belongs to an expiry time and a generation.
pub open spec fn expiry_of(expire_at: Option<u64>, generation: u64) -> Option<Expiry> {
    match expire_at {
        Some(at) => Some(Expiry { at, generation }),
        None => None,
    }
}

impl<V> EntrySnapshot<V> {
    /// The expiry of the entry, if it ever expires.
    pub fn expiry(&self) -> (expiry: Option<Expiry>)
        ensures
            expiry == expiry_of(self.expire_at, self.generation),
    {
        match self.expire_at {
            Some(at) => Some(Expiry { at, generation: self.generation }),
            None => None,
        }
    }
}

/// A borrowed entry that is alive.
#[derive(Clone, Copy, Debug)]
pub struct EntryRef<'a, V> {
    pub value: &'a V,
    pub expire_at: Option<u64>,
}

impl<'a, V: View> EntryRef<'a, V> {
    /// Whether this borrows `entry`.
    pub open spec fn shows(self, entry: Entry<V::V>) -> bool {
        &&& self.value@ == entry.value
        &&& self.expire_at == entry.expire_at
    }
}

impl<'a, V> EntryRef<'a, V> {
    /// The policy that would write the entry back with the expiry it has.
    pub fn get_expire_policy(&self) -> (policy: ExpirePolicy)
        ensures
            policy == match self.expire_at {
                None => ExpirePolicy::Persistent,
                Some(at) => ExpirePolicy::Absolute(at),
            },
            forall|now: u64| #[trigger] policy.resolved(now) == self.expire_at,
    {
        match self.expire_at {
            None => ExpirePolicy::Persistent,
            Some(v) => ExpirePolicy::Absolute(v),
        }
    }
}

/// A stored entry.
#[derive(Debug)]
pub struct Entry<V> {
    pub value: V,
    pub expire_at: Option<u64>,
    pub generation: u64,
}

impl<V: View> View for Entry<V> {
    type V = Entry<V::V>;

    open spec fn view(&self) -> Entry<V::V> {
        Entry { value: self.value@, expire_at: self.expire_at, generation: self.generation }
    }
}

impl<V> Entry<V> {
    /// The expiry of the entry, if it ever expires.
    pub open spec fn spec_expiry(self) -> Option<Expiry> {
        expiry_of(self.expire_at, self.generation)
    }

    /// The entry as a snapshot.
    pub open spec fn spec_snapshot(self) -> EntrySnapshot<V> {
        EntrySnapshot {
            value: self.value,
            expire_at: self.expire_at,
            generation: self.generation,
        }
    }

    /// Whether the entry has not yet expired at time `now`.
    pub open spec fn alive(self, now: u64) -> bool {
        self.expire_at matches Some(at) ==> now < at
    }

    /// The expiry of the entry, if it ever expires.
    pub fn expiry(&self) -> (expiry: Option<Expiry>)
        ensures
            expiry == self.spec_expiry(),
    {
        match self.expire_at {
            Some(at) => Some(Expiry { at, generation: self.generation }),
            None => None,
        }
    }

    /// Whether the entry has expired at time `now`.
    pub fn is_expired(&self, now: u64) -> (expired: bool)
        ensures
            expired == !self.alive(now),
    {
        match self.expire_at {
            Some(at) => now >= at,
            None => false,
        }
    }
}

impl Clone for Entry<Vec<u8>> {
    fn clone(&self) -> (copy: Self)
        ensures
            copy@ == self@,
    {
        let value = self.value.clone();
        assert(value@ =~= self.value@);
        Entry { value, expire_at: self.expire_at, generation: self.generation }
    }
}

impl Entry<Vec<u8>> {
    /// A snapshot of the entry.
    pub fn snapshot(&self) -> (snapshot: EntrySnapshot<Vec<u8>>)
        ensures
            snapshot@ == self@.spec_snapshot(),
    {
        let value = self.value.clone();
        assert(value@ =~= self.value@);
        EntrySnapshot { value, expire_at: self.expire_at, generation: self.generation }
    }
}

/// What a computation on one key asks for.
#[derive(Debug, Clone, PartialEq, Eq)]
pub enum MochaOperation<V, T> {
    /// Write this value.
    Insert { value: V, expire: ExpirePolicy },
    /// Delete the entry.
    Remove,
    /// Leave the entry as it is and hand this back to the caller.
    Abort(T),
}

impl<V: View, T> View for MochaOperation<V, T> {
    type V = MochaOperation<V::V, T>;

    open spec fn view(&self) -> MochaOperation<V::V, T> {
        match *self {
            MochaOperation::Insert { value, expire } => MochaOperation::Insert {
                value: value@,
                expire,
            },
            MochaOperation::Remove => MochaOperation::Remove,
            MochaOperation::Abort(reason) => MochaOperation::Abort(reason),
        }
    }
}

/// What a computation on one key did.
#[derive(Debug, PartialEq, Eq)]
pub enum MochaCompute<K, V, T> {
    /// There was nothing to delete.
    Unchanged,
    /// No entry was alive; a new one was written.
    Inserted(K, EntrySnapshot<V>),
    /// The entry was alive and has been replaced.
    Updated { old: (K, EntrySnapshot<V>), new: (K, EntrySnapshot<V>) },
    /// The entry was alive and has been deleted.
    Removed(K, EntrySnapshot<V>),
    /// The computation gave up with this.
    Aborted(T),
}

impl<K: View, V: View, T> View for MochaCompute<K, V, T> {
    type V = MochaCompute<K::V, V::V, T>;

    open spec fn view(&self) -> MochaCompute<K::V, V::V, T> {
        match *self {
            MochaCompute::Unchanged => MochaCompute::Unchanged,
            MochaCompute::Inserted(key, new) => MochaCompute::Inserted(key@, new@),
            MochaCompute::Updated { old, new } => MochaCompute::Updated {
                old: (old.0@, old.1@),
                new: (new.0@, new.1@),
            },
            MochaCompute::Removed(key, gone) => MochaCompute::Removed(key@, gone@),
            MochaCompute::Aborted(reason) => MochaCompute::Aborted(reason),
        }
    }
}

} // verus!
