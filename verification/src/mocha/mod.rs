//! An expiring key/value table over two concurrent hash maps, and the same table
//! with a logical clock attached.

use std::sync::atomic::AtomicU64;
use std::sync::Arc;

use vstd::prelude::*;

pub mod flurry_map;
pub mod laws;
pub mod table;
pub mod types;

pub use crate::mocha::table::{MochaTable, RoundModel, TableModel, ACTIVE_EXPIRE_SAMPLE_SIZE};
pub use crate::mocha::types::{
    Entry, EntryRef, EntrySnapshot, ExpirePolicy, Expiry, MochaCompute, MochaOperation,
};

verus! {

/// Whether a reading of a clock can give this time: what a clock shows may change from
/// one reading to the next, since others move it.
pub open spec fn shows(clock: Arc<AtomicU64>, now: u64) -> bool {
    call_ensures(AtomicU64::load, (&*clock, std::sync::atomic::Ordering::Relaxed), now)
}

/// An expiring table that reads the time from a logical clock.
///
/// Others move the clock. What an operation does is what the table does at the
/// time that the clock showed.
pub struct Mocha {
    table: MochaTable,
    logic_clock: Arc<AtomicU64>,
}

impl View for Mocha {
    type V = TableModel;

    closed spec fn view(&self) -> TableModel {
        self.table@
    }
}

impl Mocha {
    /// The table is well formed.
    pub closed spec fn inv(&self) -> bool {
        self.table.inv()
    }

    /// The clock that the time is read from.
    pub closed spec fn clock(&self) -> Arc<AtomicU64> {
        self.logic_clock
    }

    /// An empty table on this clock.
    pub fn new(logic_clock: Arc<AtomicU64>) -> (cache: Mocha)
        ensures
            cache.inv(),
            cache.clock() == logic_clock,
            cache@ == (TableModel {
                entries: flurry_map::Entries::empty(),
                generation: 1,
                cursor: 0,
            }),
    {
        Mocha { table: MochaTable::new(), logic_clock }
    }

    /// The time that the clock shows.
    fn now_logical(&self) -> (now: u64)
        ensures
            shows(self.clock(), now),
    {
        self.logic_clock.load(std::sync::atomic::Ordering::Relaxed)
    }

    /// Writes an entry with the expiry of a snapshot.
    pub fn insert_snapshot(&mut self, key: Vec<u8>, snapshot: EntrySnapshot<Vec<u8>>) -> (written:
        EntrySnapshot<Vec<u8>>)
        requires
            old(self).inv(),
        ensures
            final(self).inv(),
            final(self).clock() == old(self).clock(),
            final(self)@ == old(self)@.written(key@, snapshot.value@, snapshot.expire_at),
            written@ == old(self)@.next_entry(
                snapshot.value@,
                snapshot.expire_at,
            ).spec_snapshot(),
    {
        let policy = match snapshot.expire_at {
            None => ExpirePolicy::Persistent,
            Some(at) => ExpirePolicy::Absolute(at),
        };
        let now = self.now_logical();
        self.table.write_entry(key, snapshot.value, policy, now)
    }

    /// Writes an entry that expires `ttl` from now.
    pub fn insert(&mut self, key: Vec<u8>, value: Vec<u8>, ttl: u64) -> (written: EntrySnapshot<
        Vec<u8>,
    >)
        requires
            old(self).inv(),
        ensures
            final(self).inv(),
            final(self).clock() == old(self).clock(),
            exists|now: u64|
                {
                    let expire_at = #[trigger] ExpirePolicy::Ttl(ttl).resolved(now);
                    &&& shows(old(self).clock(), now)
                    &&& final(self)@ == old(self)@.written(key@, value@, expire_at)
                    &&& written@ == old(self)@.next_entry(value@, expire_at).spec_snapshot()
                },
    {
        let now = self.now_logical();
        let written = self.table.write_entry(key, value, ExpirePolicy::Ttl(ttl), now);
        assert(written@ == old(self)@.next_entry(
            value@,
            ExpirePolicy::Ttl(ttl).resolved(now),
        ).spec_snapshot());
        written
    }

    /// Writes an entry that expires at `expire_at`.
    pub fn insert_absolute(&mut self, key: Vec<u8>, value: Vec<u8>, expire_at: u64) -> (written:
        EntrySnapshot<Vec<u8>>)
        requires
            old(self).inv(),
        ensures
            final(self).inv(),
            final(self).clock() == old(self).clock(),
            final(self)@ == old(self)@.written(key@, value@, Some(expire_at)),
            written@ == old(self)@.next_entry(value@, Some(expire_at)).spec_snapshot(),
    {
        let now = self.now_logical();
        self.table.write_entry(key, value, ExpirePolicy::Absolute(expire_at), now)
    }

    /// Writes an entry that never expires.
    pub fn insert_persistent(&mut self, key: Vec<u8>, value: Vec<u8>) -> (written: EntrySnapshot<
        Vec<u8>,
    >)
        requires
            old(self).inv(),
        ensures
            final(self).inv(),
            final(self).clock() == old(self).clock(),
            final(self)@ == old(self)@.written(key@, value@, None),
            written@ == old(self)@.next_entry(value@, None).spec_snapshot(),
    {
        let now = self.now_logical();
        self.table.write_entry(key, value, ExpirePolicy::Persistent, now)
    }

    /// Writes an entry if there is none under the key, expired or not; otherwise
    /// hands the value back.
    pub fn try_insert(&mut self, key: Vec<u8>, value: Vec<u8>, expire: ExpirePolicy) -> (tried:
        Result<EntrySnapshot<Vec<u8>>, Vec<u8>>)
        requires
            old(self).inv(),
        ensures
            final(self).inv(),
            final(self).clock() == old(self).clock(),
            match tried {
                Ok(snapshot) => {
                    &&& !old(self)@.entries.contains_key(key@)
                    &&& exists|now: u64|
                        {
                            let expire_at = #[trigger] expire.resolved(now);
                            &&& shows(old(self).clock(), now)
                            &&& final(self)@ == old(self)@.written(key@, value@, expire_at)
                            &&& snapshot@ == old(self)@.next_entry(
                                value@,
                                expire_at,
                            ).spec_snapshot()
                        }
                },
                Err(refused) => {
                    &&& old(self)@.entries.contains_key(key@)
                    &&& final(self)@ == old(self)@.stepped()
                    &&& refused@ == value@
                },
            },
    {
        let now = self.now_logical();
        self.table.try_insert(key, value, expire, now)
    }

    /// The entry under a key, if it is alive.
    pub fn get_entry(&self, key: &Vec<u8>) -> (found: Option<EntrySnapshot<Vec<u8>>>)
        ensures
            exists|now: u64|
                shows(self.clock(), now) && match (#[trigger] self@.visible(key@, now), found) {
                    (Some(entry), Some(snapshot)) => snapshot@ == entry.spec_snapshot(),
                    (None, None) => true,
                    _ => false,
                },
    {
        let now = self.now_logical();
        assert(self@ == self.table@);
        let found = self.table.get_entry(key, now);
        assert(self.table@.visible(key@, now) is Some == found is Some);
        found
    }

    /// The value under a key, if it is alive.
    pub fn get(&self, key: &Vec<u8>) -> (found: Option<Vec<u8>>)
        ensures
            exists|now: u64|
                shows(self.clock(), now) && match (#[trigger] self@.visible(key@, now), found) {
                    (Some(entry), Some(value)) => value@ == entry.value,
                    (None, None) => true,
                    _ => false,
                },
    {
        match self.get_entry(key) {
            Some(snapshot) => Some(snapshot.value),
            None => None,
        }
    }

    /// The value under a key, if it is alive.
    pub fn get_if_alive(&self, key: &Vec<u8>) -> (found: Option<Vec<u8>>)
        ensures
            exists|now: u64|
                shows(self.clock(), now) && match (#[trigger] self@.visible(key@, now), found) {
                    (Some(entry), Some(value)) => value@ == entry.value,
                    (None, None) => true,
                    _ => false,
                },
    {
        self.get(key)
    }

    /// Whether the entry under a key is alive.
    pub fn contains_key(&self, key: &Vec<u8>) -> (found: bool)
        ensures
            exists|now: u64|
                shows(self.clock(), now) && found == (#[trigger] self@.visible(key@, now) is Some),
    {
        self.get_entry(key).is_some()
    }

    /// Whether the entry under a key is alive.
    pub fn contains_key_alive(&self, key: &Vec<u8>) -> (found: bool)
        ensures
            exists|now: u64|
                shows(self.clock(), now) && found == (#[trigger] self@.visible(key@, now) is Some),
    {
        self.contains_key(key)
    }

    /// How long the entry under a key has left, if it is alive and ever expires.
    pub fn ttl_remaining(&self, key: &Vec<u8>) -> (left: Option<u64>)
        ensures
            exists|now: u64|
                shows(self.clock(), now) && left == match #[trigger] self@.visible(key@, now) {
                    Some(entry) => match entry.expire_at {
                        Some(at) => Some((at - now) as u64),
                        None => None,
                    },
                    None => None,
                },
    {
        let now = self.now_logical();
        assert(self@ == self.table@);
        let left = self.table.ttl_remaining(key, now);
        assert(self.table@.visible(key@, now) is None ==> left is None);
        left
    }

    /// Lets the entry under a key expire at `at`, if it is alive.
    pub fn expire_at(&mut self, key: &Vec<u8>, at: u64) -> (expiry: Option<Expiry>)
        requires
            old(self).inv(),
        ensures
            final(self).inv(),
            final(self).clock() == old(self).clock(),
            exists|now: u64|
                shows(old(self).clock(), now) && match #[trigger] old(self)@.visible(key@, now) {
                    Some(entry) => {
                        &&& final(self)@ == old(self)@.written(key@, entry.value, Some(at))
                        &&& expiry == Some(Expiry { at, generation: old(self)@.generation })
                    },
                    None => {
                        &&& final(self)@ == old(self)@.without(key@)
                        &&& expiry is None
                    },
                },
    {
        let now = self.now_logical();
        let changed = self.table.set_expire_policy(key, ExpirePolicy::Absolute(at), now);
        assert(old(self)@.visible(key@, now) is None ==> changed is None);
        match changed {
            Some(snapshot) => snapshot.expiry(),
            None => None,
        }
    }

    /// Keeps the entry under a key from ever expiring, if it is alive.
    pub fn persist(&mut self, key: &Vec<u8>) -> (kept: Option<EntrySnapshot<Vec<u8>>>)
        requires
            old(self).inv(),
        ensures
            final(self).inv(),
            final(self).clock() == old(self).clock(),
            exists|now: u64|
                shows(old(self).clock(), now) && match #[trigger] old(self)@.visible(key@, now) {
                    Some(entry) => {
                        &&& final(self)@ == old(self)@.written(key@, entry.value, None)
                        &&& kept matches Some(snapshot) && snapshot@ == old(self)@.next_entry(
                            entry.value,
                            None,
                        ).spec_snapshot()
                    },
                    None => {
                        &&& final(self)@ == old(self)@.without(key@)
                        &&& kept is None
                    },
                },
    {
        let now = self.now_logical();
        let kept = self.table.set_expire_policy(key, ExpirePolicy::Persistent, now);
        assert(old(self)@.visible(key@, now) is None ==> kept is None);
        kept
    }

    /// Removes the entry under a key, and hands its value out if it was alive.
    pub fn remove(&mut self, key: &Vec<u8>) -> (removed: Option<Vec<u8>>)
        requires
            old(self).inv(),
        ensures
            final(self).inv(),
            final(self).clock() == old(self).clock(),
            final(self)@ == old(self)@.without(key@),
            exists|now: u64|
                shows(old(self).clock(), now) && match (
                    #[trigger] old(self)@.visible(key@, now),
                    removed,
                ) {
                    (Some(entry), Some(value)) => value@ == entry.value,
                    (None, None) => true,
                    _ => false,
                },
    {
        match self.remove_entry(key) {
            Some(snapshot) => Some(snapshot.value),
            None => None,
        }
    }

    /// Removes the entry under a key, and hands it out if it was alive.
    pub fn remove_entry(&mut self, key: &Vec<u8>) -> (removed: Option<EntrySnapshot<Vec<u8>>>)
        requires
            old(self).inv(),
        ensures
            final(self).inv(),
            final(self).clock() == old(self).clock(),
            final(self)@ == old(self)@.without(key@),
            exists|now: u64|
                shows(old(self).clock(), now) && match (
                    #[trigger] old(self)@.visible(key@, now),
                    removed,
                ) {
                    (Some(entry), Some(snapshot)) => snapshot@ == entry.spec_snapshot(),
                    (None, None) => true,
                    _ => false,
                },
    {
        let now = self.now_logical();
        let removed = self.table.remove_entry(key, now);
        assert(old(self)@.visible(key@, now) is Some == removed is Some);
        removed
    }

    /// Writes what `update` makes of the value under a key if it is alive, and
    /// what `insert` makes otherwise.
    pub fn update_or_insert_with<U, F>(
        &mut self,
        key: Vec<u8>,
        update: U,
        insert: F,
        expire: ExpirePolicy,
    ) -> (snapshot: EntrySnapshot<Vec<u8>>) where
        U: Fn(&Vec<u8>) -> Vec<u8>,
        F: Fn() -> Vec<u8>,

        requires
            old(self).inv(),
            forall|now: u64, value: Vec<u8>|
                shows(old(self).clock(), now) && #[trigger] old(self)@.visible(key@, now) is Some
                    && #[trigger] value@ == old(self)@.entries[key@].value ==> update.requires(
                    (&value,),
                ),
            forall|now: u64|
                shows(old(self).clock(), now) && #[trigger] old(self)@.visible(key@, now) is None
                    ==> insert.requires(()),
        ensures
            final(self).inv(),
            final(self).clock() == old(self).clock(),
            exists|now: u64, value: Vec<u8>|
                {
                    &&& shows(old(self).clock(), now)
                    &&& match old(self)@.visible(key@, now) {
                        Some(entry) => exists|held: Vec<u8>|
                            held@ == entry.value && #[trigger] update.ensures((&held,), value),
                        None => insert.ensures((), value),
                    }
                    &&& final(self)@ == #[trigger] old(self)@.written(
                        key@,
                        value@,
                        expire.resolved(now),
                    )
                    &&& snapshot@ == old(self)@.next_entry(
                        value@,
                        expire.resolved(now),
                    ).spec_snapshot()
                },
    {
        let now = self.now_logical();
        assert(self@ == self.table@);
        self.table.update_or_insert_with(key, update, insert, expire, now)
    }

    /// Lets `f` look at the entry under a key, if it is alive, and does what it
    /// asks for. `f` is called once.
    pub fn compute<F, T>(&mut self, key: Vec<u8>, f: F) -> (report: MochaCompute<
        Vec<u8>,
        Vec<u8>,
        T,
    >) where F: for <'a>FnOnce(Option<EntryRef<'a, Vec<u8>>>) -> MochaOperation<Vec<u8>, T>
        requires
            old(self).inv(),
            forall|now: u64, seen: Option<EntryRef<'_, Vec<u8>>>|
                shows(old(self).clock(), now) && #[trigger] old(self)@.shown_to(key@, now, seen)
                    ==> f.requires((seen,)),
        ensures
            final(self).inv(),
            final(self).clock() == old(self).clock(),
            exists|
                now: u64,
                seen: Option<EntryRef<'_, Vec<u8>>>,
                operation: MochaOperation<Vec<u8>, T>,
            |
                {
                    &&& shows(old(self).clock(), now)
                    &&& #[trigger] old(self)@.shown_to(key@, now, seen)
                    &&& #[trigger] f.ensures((seen,), operation)
                    &&& final(self)@ == old(self)@.computed(key@, now, operation@)
                    &&& report@ == old(self)@.compute_report(key@, now, operation@)
                },
    {
        let now = self.now_logical();
        assert(self@ == self.table@);
        self.table.compute(key, f, now)
    }

    /// Calls `f` on every entry that is alive.
    pub fn for_each<F>(&self, mut f: F) where F: FnMut(&Vec<u8>, EntryRef<'_, Vec<u8>>)
        requires
            forall|now: u64, key: &Vec<u8>, entry: EntryRef<'_, Vec<u8>>|
                shows(self.clock(), now) && #[trigger] self@.visible(key@, now) is Some
                    && entry.shows(self@.entries[key@]) ==> #[trigger] f.requires((key, entry)),
        ensures
            exists|now: u64|
                {
                    let alive = #[trigger] self@.alive_snapshots(now);
                    &&& shows(self.clock(), now)
                    &&& forall|named: Seq<u8>| #[trigger]
                        alive.contains_key(named) ==> exists|
                            key: &Vec<u8>,
                            entry: EntryRef<'_, Vec<u8>>,
                        |
                            {
                                &&& key@ == named
                                &&& entry.shows(self@.entries[named])
                                &&& #[trigger] f.ensures((key, entry), ())
                            }
                },
    {
        let now = self.now_logical();
        let ghost given = f;
        let listed = self.table.iter_snapshots(now);
        let ghost shown = table::snapshot_pairs(listed@);
        let mut i: usize = 0;
        while i < listed.len()
            invariant
                i <= listed.len(),
                shown == table::snapshot_pairs(listed@),
                flurry_map::enumerates(shown, self@.alive_snapshots(now)),
                f == given,
                shows(self.clock(), now),
                forall|now: u64, key: &Vec<u8>, entry: EntryRef<'_, Vec<u8>>|
                    shows(self.clock(), now) && #[trigger] self@.visible(key@, now) is Some
                        && entry.shows(self@.entries[key@]) ==> #[trigger] f.requires(
                        (key, entry),
                    ),
                forall|j: int|
                    0 <= j < i ==> exists|key: &Vec<u8>, entry: EntryRef<'_, Vec<u8>>|
                        {
                            &&& key@ == (#[trigger] shown[j]).0
                            &&& entry.shows(self@.entries[shown[j].0])
                            &&& #[trigger] f.ensures((key, entry), ())
                        },
            decreases listed.len() - i,
        {
            let pair = &listed[i];
            let entry = EntryRef { value: &pair.1.value, expire_at: pair.1.expire_at };
            assert(self@.alive_snapshots(now).contains_pair(shown[i as int].0, shown[i as int].1));
            assert(self@.visible(pair.0@, now) is Some);
            f(&pair.0, entry);
            assert(f.ensures((&pair.0, entry), ()));
            i = i + 1;
        }
        proof {
            let alive = self@.alive_snapshots(now);
            assert forall|named: Seq<u8>| #[trigger] alive.contains_key(named) implies exists|
                key: &Vec<u8>,
                entry: EntryRef<'_, Vec<u8>>,
            |
                {
                    &&& key@ == named
                    &&& entry.shows(self@.entries[named])
                    &&& #[trigger] f.ensures((key, entry), ())
                } by {
                let j = choose|j: int| 0 <= j < shown.len() && (#[trigger] shown[j]).0 == named;
                assert(shown[j].0 == named);
            }
        }
    }

    /// Calls `f` on a snapshot of every entry that is alive.
    pub fn for_each_snapshot<F>(&self, mut f: F) where F: FnMut(&Vec<u8>, EntrySnapshot<Vec<u8>>)
        requires
            forall|now: u64, key: &Vec<u8>, snapshot: EntrySnapshot<Vec<u8>>|
                shows(self.clock(), now) && #[trigger] self@.visible(key@, now) is Some
                    && snapshot@ == self@.entries[key@].spec_snapshot() ==> #[trigger] f.requires(
                    (key, snapshot),
                ),
        ensures
            exists|now: u64|
                {
                    let alive = #[trigger] self@.alive_snapshots(now);
                    &&& shows(self.clock(), now)
                    &&& forall|named: Seq<u8>| #[trigger]
                        alive.contains_key(named) ==> exists|
                            key: &Vec<u8>,
                            snapshot: EntrySnapshot<Vec<u8>>,
                        |
                            {
                                &&& key@ == named
                                &&& snapshot@ == self@.entries[named].spec_snapshot()
                                &&& #[trigger] f.ensures((key, snapshot), ())
                            }
                },
    {
        let now = self.now_logical();
        let ghost given = f;
        let listed = self.table.iter_snapshots(now);
        let ghost shown = table::snapshot_pairs(listed@);
        let mut i: usize = 0;
        while i < listed.len()
            invariant
                i <= listed.len(),
                shown == table::snapshot_pairs(listed@),
                flurry_map::enumerates(shown, self@.alive_snapshots(now)),
                f == given,
                shows(self.clock(), now),
                forall|now: u64, key: &Vec<u8>, snapshot: EntrySnapshot<Vec<u8>>|
                    shows(self.clock(), now) && #[trigger] self@.visible(key@, now) is Some
                        && snapshot@ == self@.entries[key@].spec_snapshot()
                        ==> #[trigger] f.requires((key, snapshot)),
                forall|j: int|
                    0 <= j < i ==> exists|key: &Vec<u8>, snapshot: EntrySnapshot<Vec<u8>>|
                        {
                            &&& key@ == (#[trigger] shown[j]).0
                            &&& snapshot@ == self@.entries[shown[j].0].spec_snapshot()
                            &&& #[trigger] f.ensures((key, snapshot), ())
                        },
            decreases listed.len() - i,
        {
            let pair = &listed[i];
            let value = pair.1.value.clone();
            assert(value@ =~= pair.1.value@);
            let snapshot = EntrySnapshot {
                value,
                expire_at: pair.1.expire_at,
                generation: pair.1.generation,
            };
            assert(self@.alive_snapshots(now).contains_pair(shown[i as int].0, shown[i as int].1));
            assert(self@.visible(pair.0@, now) is Some);
            f(&pair.0, snapshot);
            assert(f.ensures((&pair.0, snapshot), ()));
            i = i + 1;
        }
        proof {
            let alive = self@.alive_snapshots(now);
            assert forall|named: Seq<u8>| #[trigger] alive.contains_key(named) implies exists|
                key: &Vec<u8>,
                snapshot: EntrySnapshot<Vec<u8>>,
            |
                {
                    &&& key@ == named
                    &&& snapshot@ == self@.entries[named].spec_snapshot()
                    &&& #[trigger] f.ensures((key, snapshot), ())
                } by {
                let j = choose|j: int| 0 <= j < shown.len() && (#[trigger] shown[j]).0 == named;
                assert(shown[j].0 == named);
            }
        }
    }

    /// The entries that are alive, each once.
    pub fn iter(&self) -> (listed: Vec<(Vec<u8>, EntrySnapshot<Vec<u8>>)>)
        ensures
            exists|now: u64|
                shows(self.clock(), now) && flurry_map::enumerates(
                    table::snapshot_pairs(listed@),
                    #[trigger] self@.alive_snapshots(now),
                ),
    {
        self.iter_snapshots()
    }

    /// Snapshots of all entries that are alive, each once.
    pub fn iter_snapshots(&self) -> (listed: Vec<(Vec<u8>, EntrySnapshot<Vec<u8>>)>)
        ensures
            exists|now: u64|
                shows(self.clock(), now) && flurry_map::enumerates(
                    table::snapshot_pairs(listed@),
                    #[trigger] self@.alive_snapshots(now),
                ),
    {
        let now = self.now_logical();
        let listed = self.table.iter_snapshots(now);
        assert(flurry_map::enumerates(
            table::snapshot_pairs(listed@),
            self@.alive_snapshots(now),
        ));
        listed
    }

    /// The keys of all entries that are alive, each once.
    pub fn keys(&self) -> (keys: Vec<Vec<u8>>)
        ensures
            exists|now: u64|
                {
                    let held = #[trigger] self@.alive_snapshots(now);
                    let shown = keys@.map_values(|key: Vec<u8>| key@);
                    &&& shows(self.clock(), now)
                    &&& shown.no_duplicates()
                    &&& shown.to_set() == held.dom()
                },
    {
        let listed = self.iter_snapshots();
        let ghost shown = table::snapshot_pairs(listed@);
        let mut keys: Vec<Vec<u8>> = Vec::new();
        let mut i: usize = 0;
        while i < listed.len()
            invariant
                i <= listed.len(),
                keys.len() == i,
                shown == table::snapshot_pairs(listed@),
                forall|j: int| 0 <= j < i ==> (#[trigger] keys[j])@ == shown[j].0,
            decreases listed.len() - i,
        {
            let key = listed[i].0.clone();
            assert(key@ =~= listed[i as int].0@);
            keys.push(key);
            i = i + 1;
        }
        proof {
            let now = choose|now: u64|
                shows(self.clock(), now) && flurry_map::enumerates(
                    table::snapshot_pairs(listed@),
                    #[trigger] self@.alive_snapshots(now),
                );
            let held = self@.alive_snapshots(now);
            let named = keys@.map_values(|key: Vec<u8>| key@);
            assert forall|key: Seq<u8>| named.to_set().contains(key) implies held.contains_key(
                key,
            ) by {
                let j = choose|j: int| 0 <= j < named.len() && named[j] == key;
                assert(held.contains_pair(shown[j].0, shown[j].1));
            }
            assert forall|key: Seq<u8>| held.contains_key(key) implies named.to_set().contains(
                key,
            ) by {
                let j = choose|j: int| 0 <= j < shown.len() && (#[trigger] shown[j]).0 == key;
                assert(named[j] == key);
            }
            assert(named.to_set() =~= held.dom());
            assert forall|i: int, j: int|
                0 <= i < named.len() && 0 <= j < named.len() && i != j implies named[i]
                != named[j] by {
                assert(shown[i].0 != shown[j].0);
            }
        }
        keys
    }

    /// Some pairs of the expiry index: up to `limit` of them, from where the last
    /// sample would have gone on.
    pub fn sample_expiries(&mut self, limit: usize) -> (samples: Vec<(Vec<u8>, Expiry)>)
        requires
            old(self).inv(),
        ensures
            final(self).inv(),
            final(self).clock() == old(self).clock(),
            final(self)@ == old(self)@.sampled(limit),
            exists|walk: Seq<(Seq<u8>, Expiry)>|
                {
                    &&& flurry_map::enumerates(
                        walk,
                        table::expiry_index(old(self)@.entries),
                    )
                    &&& flurry_map::expiry_pairs(samples@)
                        == #[trigger] old(self)@.samples(walk, limit)
                },
    {
        assert(self@ == self.table@);
        self.table.sample_expiries(limit)
    }

    /// One round of active expiry. Says whether another is worth its while.
    pub fn active_expire_round(&mut self) -> (again: bool)
        requires
            old(self).inv(),
        ensures
            final(self).inv(),
            final(self).clock() == old(self).clock(),
            exists|now: u64, walk: Seq<(Seq<u8>, Expiry)>|
                {
                    &&& shows(old(self).clock(), now)
                    &&& #[trigger] old(self)@.round(final(self)@, walk, now)
                    &&& again == old(self)@.worth_another(final(self)@, walk)
                },
            again ==> final(self)@.entries.len() < old(self)@.entries.len(),
    {
        let now = self.now_logical();
        assert(self@ == self.table@);
        let again = self.table.active_expire_round(now);
        assert(self@ == self.table@);
        again
    }

    /// Rounds of active expiry until one is no longer worth another.
    pub fn active_expire_cycle(&mut self)
        requires
            old(self).inv(),
        ensures
            final(self).inv(),
            final(self).clock() == old(self).clock(),
            exists|latest: u64, rounds: Seq<RoundModel>|
                {
                    &&& shows(old(self).clock(), latest)
                    &&& #[trigger] old(self)@.only_expired_gone(final(self)@, latest)
                    &&& #[trigger] old(self)@.cycled(final(self)@, rounds)
                    &&& forall|i: int|
                        0 <= i < rounds.len() ==> shows(
                            old(self).clock(),
                            (#[trigger] rounds[i]).now,
                        ) && rounds[i].now <= latest
                },
    {
        let ghost mut latest: u64 = 0;
        let ghost mut rounds: Seq<RoundModel> = Seq::empty();
        loop
            invariant_except_break
                old(self)@.led_by(self@, rounds),
            invariant
                self.inv(),
                self.clock() == old(self).clock(),
                latest == 0 || shows(self.clock(), latest),
                old(self)@.only_expired_gone(self@, latest),
                forall|i: int|
                    0 <= i < rounds.len() ==> shows(self.clock(), (#[trigger] rounds[i]).now)
                        && rounds[i].now <= latest,
            ensures
                self.inv(),
                self.clock() == old(self).clock(),
                shows(self.clock(), latest),
                old(self)@.only_expired_gone(self@, latest),
                old(self)@.cycled(self@, rounds),
                forall|i: int|
                    0 <= i < rounds.len() ==> shows(self.clock(), (#[trigger] rounds[i]).now)
                        && rounds[i].now <= latest,
            decreases self@.entries.len(),
        {
            let ghost last = self@;
            let again = self.active_expire_round();
            proof {
                let (now, walk) = choose|now: u64, walk: Seq<(Seq<u8>, Expiry)>|
                    {
                        &&& shows(self.clock(), now)
                        &&& #[trigger] last.round(self@, walk, now)
                        &&& again == last.worth_another(self@, walk)
                    };
                if latest < now {
                    latest = now;
                }
                let round = RoundModel { before: last, walk, now };
                table::lemma_one_more_round(old(self)@, last, rounds, self@, round);
                rounds = rounds.push(round);
                assert(old(self)@.only_expired_gone(last, latest));
                assert(old(self)@.only_expired_gone(self@, latest));
            }
            if !again {
                break;
            }
        }
    }

    /// Removes all entries; says how many there were.
    pub fn clear(&mut self) -> (count: usize)
        requires
            old(self).inv(),
        ensures
            final(self).inv(),
            final(self).clock() == old(self).clock(),
            final(self)@ == (TableModel {
                entries: flurry_map::Entries::empty(),
                ..old(self)@
            }),
            count == old(self)@.entries.len(),
    {
        self.table.clear()
    }
}

} // verus!
