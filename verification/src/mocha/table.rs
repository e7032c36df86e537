//! The expiring table itself. Every operation takes the time as an argument.

use vstd::prelude::*;

use crate::mocha::flurry_map;
use crate::mocha::flurry_map::{
    entries_clear, entries_compute_if_present, entries_get, entries_insert, entries_iter,
    entries_len, entries_new, entries_remove, entries_try_insert, expiries_clear,
    expiries_compute_if_present, expiries_iter, expiries_len, expiries_new, expiries_try_insert,
    Entries, EntryMap, Expiries, ExpiryMap,
};
use crate::mocha::types::{
    Entry, EntryRef, EntrySnapshot, ExpirePolicy, Expiry, MochaCompute, MochaOperation,
};

verus! {

/// How many keys one round of active expiry looks at.
pub const ACTIVE_EXPIRE_SAMPLE_SIZE: usize = 20;

/// What a table is: its entries by key, the generation that the next write
/// gets, and where the next sample of the expiry index starts.
#[verifier::ext_equal]
pub struct TableModel {
    pub entries: Entries,
    pub generation: u64,
    pub cursor: usize,
}

/// A round of active expiry: the table before it, the order in which the expiry index
/// was walked, and the time.
#[verifier::ext_equal]
pub struct RoundModel {
    pub before: TableModel,
    pub walk: Seq<(Seq<u8>, Expiry)>,
    pub now: u64,
}

/// The expiries of those entries that ever expire, by key.
pub open spec fn expiry_index(entries: Entries) -> Expiries {
    Map::new(
        |key: Seq<u8>| entries.contains_key(key) && entries[key].expire_at is Some,
        |key: Seq<u8>|
            Expiry { at: entries[key].expire_at->0, generation: entries[key].generation },
    )
}

/// What a sample takes out of a walk: up to `limit` items from `start` on; where
/// the walk ends before that, and `start` is not its beginning, the rest from the
/// beginning again.
pub open spec fn sample_window<A>(walk: Seq<A>, start: int, limit: int) -> Seq<A> {
    let head = if walk.len() - start < limit {
        walk.skip(start)
    } else {
        walk.subrange(start, start + limit)
    };
    let room = limit - head.len();
    if room > 0 && start > 0 {
        head + if walk.len() < room {
            walk
        } else {
            walk.take(room)
        }
    } else {
        head
    }
}

/// Pairs of keys and snapshots as plain values.
pub open spec fn snapshot_pairs(pairs: Seq<(Vec<u8>, EntrySnapshot<Vec<u8>>)>) -> Seq<
    (Seq<u8>, EntrySnapshot<Seq<u8>>),
> {
    pairs.map_values(|pair: (Vec<u8>, EntrySnapshot<Vec<u8>>)| (pair.0@, pair.1@))
}

/// An enumeration of a map is as long as the map is large.
pub(crate) proof fn lemma_enumeration_len<K, V>(pairs: Seq<(K, V)>, held: Map<K, V>)
    requires
        flurry_map::enumerates(pairs, held),
    ensures
        held.dom().finite(),
        pairs.len() == held.len(),
{
    let keys = pairs.map_values(|pair: (K, V)| pair.0);
    assert(keys.no_duplicates());
    keys.unique_seq_to_set();
    assert(keys.to_set() =~= held.dom()) by {
        assert forall|key: K| held.contains_key(key) implies keys.to_set().contains(key) by {
            let i = choose|i: int| 0 <= i < pairs.len() && (#[trigger] pairs[i]).0 == key;
            assert(keys[i] == key);
        }
        assert forall|key: K| keys.to_set().contains(key) implies held.contains_key(key) by {
            let i = choose|i: int| 0 <= i < keys.len() && keys[i] == key;
            assert(held.contains_pair(pairs[i].0, pairs[i].1));
        }
    }
}

/// Taking one more sample into account takes away at most its key.
proof fn lemma_purge_step(table: TableModel, pairs: Seq<(Seq<u8>, Expiry)>, i: int, now: u64)
    requires
        0 <= i < pairs.len(),
        table.entries.dom().finite(),
    ensures
        ({
            let before = table.purged(pairs.take(i), now);
            let after = table.purged(pairs.take(i + 1), now);
            let key = pairs[i].0;
            let hit = before.entries.contains_key(key) && before.entries[key].spec_expiry() == Some(
                pairs[i].1,
            ) && now >= pairs[i].1.at;
            &&& after == if hit {
                before.without(key)
            } else {
                before
            }
            &&& hit ==> after.entries.len() == before.entries.len() - 1
        }),
{
    let before = table.purged(pairs.take(i), now);
    let after = table.purged(pairs.take(i + 1), now);
    let key = pairs[i].0;
    let hit = before.entries.contains_key(key) && before.entries[key].spec_expiry() == Some(
        pairs[i].1,
    ) && now >= pairs[i].1.at;
    let shorter = pairs.take(i);
    let longer = pairs.take(i + 1);
    assert forall|k: Seq<u8>|
        table.sampled_expired(longer, now, k) == (table.sampled_expired(shorter, now, k) || (hit && k
            == key)) by {
        if table.sampled_expired(shorter, now, k) {
            let j = choose|j: int|
                #![trigger shorter[j]]
                {
                    &&& 0 <= j < shorter.len()
                    &&& shorter[j].0 == k
                    &&& table.entries[k].spec_expiry() == Some(shorter[j].1)
                    &&& now >= shorter[j].1.at
                };
            assert(longer[j] == shorter[j]);
        }
        if hit && k == key {
            assert(longer[i] == pairs[i]);
        }
        if table.sampled_expired(longer, now, k) && !table.sampled_expired(shorter, now, k) {
            let j = choose|j: int|
                #![trigger longer[j]]
                {
                    &&& 0 <= j < longer.len()
                    &&& longer[j].0 == k
                    &&& table.entries[k].spec_expiry() == Some(longer[j].1)
                    &&& now >= longer[j].1.at
                };
            if j < i {
                assert(shorter[j] == longer[j]);
            }
        }
    }
    if hit {
        assert(after.entries =~= before.without(key).entries);
        assert(before.entries.dom().subset_of(table.entries.dom()));
        vstd::set_lib::lemma_set_subset_finite(table.entries.dom(), before.entries.dom());
        assert(after.entries.dom() =~= before.entries.dom().remove(key));
    } else {
        assert(after.entries =~= before.entries);
    }
}

/// A round after others is one round more.
pub(crate) proof fn lemma_one_more_round(
    first: TableModel,
    last: TableModel,
    rounds: Seq<RoundModel>,
    later: TableModel,
    round: RoundModel,
)
    requires
        first.led_by(last, rounds),
        round.before == last,
        last.round(later, round.walk, round.now),
    ensures
        last.worth_another(later, round.walk) ==> first.led_by(later, rounds.push(round)),
        !last.worth_another(later, round.walk) ==> first.cycled(later, rounds.push(round)),
{
    let more = rounds.push(round);
    assert(more.drop_last() =~= rounds);
    if last.worth_another(later, round.walk) {
        assert forall|i: int| 0 <= i < more.len() implies #[trigger] TableModel::worthy_at(
            later,
            more,
            i,
        ) by {
            if i < rounds.len() {
                assert(TableModel::worthy_at(last, rounds, i));
                assert(TableModel::after_round(later, more, i) == TableModel::after_round(
                    last,
                    rounds,
                    i,
                ));
            }
        }
    }
}

/// Writing an entry moves its key in or out of the expiry index.
proof fn lemma_index_after_write(entries: Entries, key: Seq<u8>, entry: Entry<Seq<u8>>)
    ensures
        expiry_index(entries.insert(key, entry)) == match entry.spec_expiry() {
            Some(expiry) => expiry_index(entries).insert(key, expiry),
            None => expiry_index(entries).remove(key),
        },
{
    match entry.spec_expiry() {
        Some(expiry) => {
            assert(expiry_index(entries.insert(key, entry)) =~= expiry_index(entries).insert(
                key,
                expiry,
            ));
        },
        None => {
            assert(expiry_index(entries.insert(key, entry)) =~= expiry_index(entries).remove(key));
        },
    }
}

/// Removing an entry removes its key from the expiry index.
proof fn lemma_index_after_remove(entries: Entries, key: Seq<u8>)
    ensures
        expiry_index(entries.remove(key)) == expiry_index(entries).remove(key),
{
    assert(expiry_index(entries.remove(key)) =~= expiry_index(entries).remove(key));
}

/// An expiry that stays in the index unless `gone`.
spec fn dropped_if(current: Expiry, gone: bool) -> Option<Expiry> {
    if gone {
        None
    } else {
        Some(current)
    }
}

/// The expiry of the later generation; the new one where they are equal.
spec fn later_expiry(current: Expiry, new: Expiry) -> Expiry {
    if current.generation > new.generation {
        current
    } else {
        new
    }
}

impl TableModel {
    /// The entry that a reader sees at time `now`: an expired one is not seen.
    pub open spec fn visible(self, key: Seq<u8>, now: u64) -> Option<Entry<Seq<u8>>> {
        if self.entries.contains_key(key) && self.entries[key].alive(now) {
            Some(self.entries[key])
        } else {
            None
        }
    }

    /// The entry that the next write of a value makes.
    pub open spec fn next_entry(self, value: Seq<u8>, expire_at: Option<u64>) -> Entry<Seq<u8>> {
        Entry { value, expire_at, generation: self.generation }
    }

    /// The table after a generation was handed out.
    pub open spec fn stepped(self) -> TableModel {
        TableModel { generation: self.generation.wrapping_add(1), ..self }
    }

    /// The table after a write.
    pub open spec fn written(
        self,
        key: Seq<u8>,
        value: Seq<u8>,
        expire_at: Option<u64>,
    ) -> TableModel {
        TableModel {
            entries: self.entries.insert(key, self.next_entry(value, expire_at)),
            ..self.stepped()
        }
    }

    /// What a computation on a key is given to see.
    pub open spec fn shown_to(
        self,
        key: Seq<u8>,
        now: u64,
        seen: Option<EntryRef<'_, Vec<u8>>>,
    ) -> bool {
        match (seen, self.visible(key, now)) {
            (Some(entry), Some(held)) => entry.shows(held),
            (None, None) => true,
            _ => false,
        }
    }

    /// The table after a computation on a key that asked for `operation`.
    pub open spec fn computed<T>(
        self,
        key: Seq<u8>,
        now: u64,
        operation: MochaOperation<Seq<u8>, T>,
    ) -> TableModel {
        match operation {
            MochaOperation::Insert { value, expire } => self.written(
                key,
                value,
                expire.resolved(now),
            ),
            MochaOperation::Remove => self.without(key),
            MochaOperation::Abort(_) => self,
        }
    }

    /// What a computation on a key that asked for `operation` reports.
    pub open spec fn compute_report<T>(
        self,
        key: Seq<u8>,
        now: u64,
        operation: MochaOperation<Seq<u8>, T>,
    ) -> MochaCompute<Seq<u8>, Seq<u8>, T> {
        match operation {
            MochaOperation::Insert { value, expire } => {
                let new = (key, self.next_entry(value, expire.resolved(now)).spec_snapshot());
                match self.visible(key, now) {
                    Some(held) => MochaCompute::Updated { old: (key, held.spec_snapshot()), new },
                    None => MochaCompute::Inserted(new.0, new.1),
                }
            },
            MochaOperation::Remove => match self.visible(key, now) {
                Some(held) => MochaCompute::Removed(key, held.spec_snapshot()),
                None => MochaCompute::Unchanged,
            },
            MochaOperation::Abort(reason) => MochaCompute::Aborted(reason),
        }
    }

    /// The pairs that a sample of the expiry index takes out of a walk over it.
    pub open spec fn samples(self, walk: Seq<(Seq<u8>, Expiry)>, limit: usize) -> Seq<
        (Seq<u8>, Expiry),
    > {
        if walk.len() == 0 || limit == 0 {
            Seq::empty()
        } else {
            sample_window(walk, self.cursor as int % walk.len() as int, limit as int)
        }
    }

    /// The table after a sample of the expiry index.
    pub open spec fn sampled(self, limit: usize) -> TableModel {
        if expiry_index(self.entries).len() == 0 || limit == 0 {
            self
        } else {
            TableModel { cursor: self.cursor.wrapping_add(limit), ..self }
        }
    }

    /// Whether the entry under a key has expired and has an expiry that was sampled.
    pub open spec fn sampled_expired(
        self,
        samples: Seq<(Seq<u8>, Expiry)>,
        now: u64,
        key: Seq<u8>,
    ) -> bool {
        &&& self.entries.contains_key(key)
        &&& exists|i: int|
            #![trigger samples[i]]
            {
                &&& 0 <= i < samples.len()
                &&& samples[i].0 == key
                &&& self.entries[key].spec_expiry() == Some(samples[i].1)
                &&& now >= samples[i].1.at
            }
    }

    /// The table without the sampled entries that have expired.
    pub open spec fn purged(self, samples: Seq<(Seq<u8>, Expiry)>, now: u64) -> TableModel {
        TableModel {
            entries: self.entries.remove_keys(
                Set::new(|key: Seq<u8>| self.sampled_expired(samples, now, key)),
            ),
            ..self
        }
    }

    /// Whether `later` comes from this table by taking away entries that have
    /// expired at time `now`, and nothing else.
    pub open spec fn only_expired_gone(self, later: TableModel, now: u64) -> bool {
        &&& later.generation == self.generation
        &&& forall|key: Seq<u8>| #[trigger]
            later.entries.contains_key(key) ==> self.entries.contains_pair(
                key,
                later.entries[key],
            )
        &&& forall|key: Seq<u8>| #[trigger]
            self.entries.contains_key(key) && self.entries[key].alive(now)
                ==> later.entries.contains_key(key)
    }

    /// Whether `later` is this table after one round of active expiry at time
    /// `now`, with the expiry index walked in the order `walk`.
    pub open spec fn round(
        self,
        later: TableModel,
        walk: Seq<(Seq<u8>, Expiry)>,
        now: u64,
    ) -> bool {
        &&& flurry_map::enumerates(walk, expiry_index(self.entries))
        &&& later == self.sampled(ACTIVE_EXPIRE_SAMPLE_SIZE).purged(
            self.samples(walk, ACTIVE_EXPIRE_SAMPLE_SIZE),
            now,
        )
    }

    /// Whether a round that led to `later` took away more than a quarter of what
    /// it looked at.
    pub open spec fn worth_another(
        self,
        later: TableModel,
        walk: Seq<(Seq<u8>, Expiry)>,
    ) -> bool {
        (self.entries.len() - later.entries.len()) * 4 > self.samples(
            walk,
            ACTIVE_EXPIRE_SAMPLE_SIZE,
        ).len()
    }

    /// The table after the round at a position of some rounds that led to `later`.
    pub open spec fn after_round(later: TableModel, rounds: Seq<RoundModel>, i: int) -> TableModel {
        if i + 1 < rounds.len() {
            rounds[i + 1].before
        } else {
            later
        }
    }

    /// Whether the round at a position is one, and was worth another.
    pub open spec fn worthy_at(later: TableModel, rounds: Seq<RoundModel>, i: int) -> bool {
        let after = TableModel::after_round(later, rounds, i);
        &&& rounds[i].before.round(after, rounds[i].walk, rounds[i].now)
        &&& rounds[i].before.worth_another(after, rounds[i].walk)
    }

    /// Whether rounds led from this table to `later`, each being worth another.
    pub open spec fn led_by(self, later: TableModel, rounds: Seq<RoundModel>) -> bool {
        &&& rounds.len() == 0 ==> later == self
        &&& rounds.len() > 0 ==> rounds[0].before == self
        &&& forall|i: int|
            0 <= i < rounds.len() ==> #[trigger] TableModel::worthy_at(later, rounds, i)
    }

    /// Whether rounds led from this table to `later`, each but the last being worth
    /// another.
    pub open spec fn cycled(self, later: TableModel, rounds: Seq<RoundModel>) -> bool {
        &&& rounds.len() > 0
        &&& self.led_by(rounds.last().before, rounds.drop_last())
        &&& rounds.last().before.round(later, rounds.last().walk, rounds.last().now)
        &&& !rounds.last().before.worth_another(later, rounds.last().walk)
    }

    /// The entries that are alive at time `now`, as snapshots.
    pub open spec fn alive_snapshots(self, now: u64) -> Map<Seq<u8>, EntrySnapshot<Seq<u8>>> {
        Map::new(
            |key: Seq<u8>| self.entries.contains_key(key) && self.entries[key].alive(now),
            |key: Seq<u8>| self.entries[key].spec_snapshot(),
        )
    }

    /// The table without a key.
    pub open spec fn without(self, key: Seq<u8>) -> TableModel {
        TableModel { entries: self.entries.remove(key), ..self }
    }
}

/// Takes a sample out of a walk over the expiry index.
pub fn pick_samples(walk: &Vec<(Vec<u8>, Expiry)>, start: usize, limit: usize) -> (samples: Vec<
    (Vec<u8>, Expiry),
>)
    requires
        start <= walk.len(),
    ensures
        flurry_map::expiry_pairs(samples@) == sample_window(
            flurry_map::expiry_pairs(walk@),
            start as int,
            limit as int,
        ),
{
    let mut samples: Vec<(Vec<u8>, Expiry)> = Vec::new();
    let ghost pairs = flurry_map::expiry_pairs(walk@);
    let mut i: usize = start;
    while i < walk.len() && samples.len() < limit
        invariant
            start <= i <= walk.len(),
            pairs == flurry_map::expiry_pairs(walk@),
            samples.len() == i - start,
            samples.len() <= limit,
            flurry_map::expiry_pairs(samples@) == pairs.subrange(
                start as int,
                i as int,
            ),
        decreases walk.len() - i,
    {
        push_copy(&mut samples, &walk[i]);
        assert(pairs.subrange(start as int, i + 1) =~= pairs.subrange(
            start as int,
            i as int,
        ).push(pairs[i as int]));
        i = i + 1;
    }
    let ghost head = flurry_map::expiry_pairs(samples@);
    if samples.len() < limit && start > 0 {
        let room = limit - samples.len();
        let mut j: usize = 0;
        assert(head =~= head + pairs.take(0));
        while j < walk.len() && j < room
            invariant
                j <= walk.len(),
                j <= room,
                pairs == flurry_map::expiry_pairs(walk@),
                flurry_map::expiry_pairs(samples@) == head + pairs.take(j as int),
            decreases walk.len() - j,
        {
            push_copy(&mut samples, &walk[j]);
            assert(head + pairs.take(j + 1) =~= (head + pairs.take(j as int)).push(
                pairs[j as int],
            ));
            j = j + 1;
        }
        assert(j == walk.len() ==> pairs.take(j as int) =~= pairs);
    }
    samples
}

/// Appends a copy of a pair.
fn push_copy(samples: &mut Vec<(Vec<u8>, Expiry)>, pair: &(Vec<u8>, Expiry))
    ensures
        flurry_map::expiry_pairs(final(samples)@)
            == flurry_map::expiry_pairs(old(samples)@).push((pair.0@, pair.1)),
{
    let key = pair.0.clone();
    assert(key@ =~= pair.0@);
    samples.push((key, pair.1));
    assert(flurry_map::expiry_pairs(samples@)
        =~= flurry_map::expiry_pairs(old(samples)@).push((pair.0@, pair.1)));
}

/// An expiring table.
///
/// The main map holds all entries. The expiry index holds the expiry of every
/// entry that ever expires, and nothing else.
pub struct MochaTable {
    expire_map: ExpiryMap,
    map: EntryMap,
    generation: u64,
    expire_cursor: usize,
}

impl View for MochaTable {
    type V = TableModel;

    closed spec fn view(&self) -> TableModel {
        TableModel {
            entries: flurry_map::entries_of(self.map),
            generation: self.generation,
            cursor: self.expire_cursor,
        }
    }
}

impl MochaTable {
    /// What the expiry index holds.
    pub closed spec fn index(&self) -> Expiries {
        flurry_map::expiries_of(self.expire_map)
    }

    /// The expiry index holds the expiries of the entries and nothing else.
    pub open spec fn inv(&self) -> bool {
        &&& self@.entries.dom().finite()
        &&& self.index().dom().finite()
        &&& self.index() == expiry_index(self@.entries)
    }

    /// An empty table. The first write gets generation one.
    pub fn new() -> (table: MochaTable)
        ensures
            table.inv(),
            table@ == (TableModel { entries: Entries::empty(), generation: 1, cursor: 0 }),
    {
        let table = MochaTable {
            expire_map: expiries_new(),
            map: entries_new(),
            generation: 1,
            expire_cursor: 0,
        };
        assert(table.index() =~= expiry_index(table@.entries));
        table
    }

    /// Hands out the next generation. Generations start over after `u64::MAX`.
    fn next_generation(&mut self) -> (generation: u64)
        ensures
            generation == old(self)@.generation,
            final(self)@ == old(self)@.stepped(),
            final(self).index() == old(self).index(),
    {
        let generation = self.generation;
        self.generation = generation.wrapping_add(1);
        generation
    }

    /// Makes the entry for a write at time `now`.
    fn make_entry(&mut self, value: Vec<u8>, policy: ExpirePolicy, now: u64) -> (entry: Entry<
        Vec<u8>,
    >)
        ensures
            entry@ == old(self)@.next_entry(value@, policy.resolved(now)),
            final(self)@ == old(self)@.stepped(),
            final(self).index() == old(self).index(),
    {
        Entry { value, expire_at: policy.resolve(now), generation: self.next_generation() }
    }

    /// Removes a key from the expiry index if it is there with exactly this expiry.
    fn cleanup_expire_index_exact(&mut self, key: &Vec<u8>, expiry: Expiry)
        ensures
            final(self)@ == old(self)@,
            final(self).index() == if old(self).index().contains_pair(key@, expiry) {
                old(self).index().remove(key@)
            } else {
                old(self).index()
            },
    {
        let drop_exact = |current: &Expiry| -> (kept: Option<Expiry>)
            ensures
                kept == dropped_if(*current, *current == expiry),
        {
            if *current == expiry {
                None
            } else {
                Some(*current)
            }
        };
        let _ = expiries_compute_if_present(&mut self.expire_map, key, drop_exact);
    }

    /// Brings the expiry index up to date with a write. An expiry of a later
    /// generation stays.
    fn sync_expire_index_meta(&mut self, key: Vec<u8>, expiry: Option<Expiry>, generation: u64)
        ensures
            final(self)@ == old(self)@,
            final(self).index() == match expiry {
                Some(new) => if old(self).index().contains_key(key@)
                    && old(self).index()[key@].generation > new.generation {
                    old(self).index()
                } else {
                    old(self).index().insert(key@, new)
                },
                None => if old(self).index().contains_key(key@)
                    && old(self).index()[key@].generation <= generation {
                    old(self).index().remove(key@)
                } else {
                    old(self).index()
                },
            },
    {
        match expiry {
            Some(new) => {
                let take_later = |current: &Expiry| -> (kept: Option<Expiry>)
                    ensures
                        kept == Some(later_expiry(*current, new)),
                {
                    if current.generation > new.generation {
                        Some(*current)
                    } else {
                        Some(new)
                    }
                };
                let touched = expiries_compute_if_present(&mut self.expire_map, &key, take_later);
                if touched.is_none() {
                    let _ = expiries_try_insert(&mut self.expire_map, key, new);
                }
            },
            None => {
                let drop_earlier = |current: &Expiry| -> (kept: Option<Expiry>)
                    ensures
                        kept == dropped_if(*current, current.generation <= generation),
                {
                    if current.generation <= generation {
                        None
                    } else {
                        Some(*current)
                    }
                };
                let _ = expiries_compute_if_present(&mut self.expire_map, &key, drop_earlier);
            },
        }
    }

    /// After the main map took `entry` in place of what it held under `key`,
    /// brings the expiry index up to date.
    fn reindex(
        &mut self,
        key: Vec<u8>,
        replaced: Option<Expiry>,
        expiry: Option<Expiry>,
        generation: u64,
        Ghost(before): Ghost<MochaTable>,
    )
        requires
            before.inv(),
            old(self).index() == before.index(),
            replaced == before.expiry_at(key@),
            old(self)@.entries == before@.entries.insert(key@, old(self)@.entries[key@]),
            expiry == old(self)@.entries[key@].spec_expiry(),
        ensures
            final(self).inv(),
            final(self)@ == old(self)@,
    {
        if let Some(e) = replaced {
            self.cleanup_expire_index_exact(&key, e);
        }
        let ghost cleaned = *self;
        assert(cleaned.index() =~= before.index().remove(key@));
        self.sync_expire_index_meta(key, expiry, generation);
        proof {
            lemma_index_after_write(before@.entries, key@, old(self)@.entries[key@]);
            match expiry {
                Some(new) => assert(self.index() =~= before.index().insert(key@, new)),
                None => assert(self.index() =~= before.index().remove(key@)),
            }
        }
    }

    /// The expiry under a key in the expiry index.
    pub open spec fn expiry_at(&self, key: Seq<u8>) -> Option<Expiry> {
        if self.index().contains_key(key) {
            Some(self.index()[key])
        } else {
            None
        }
    }

    /// Writes an entry, whether or not the key held one.
    pub fn write_entry(
        &mut self,
        key: Vec<u8>,
        value: Vec<u8>,
        policy: ExpirePolicy,
        now: u64,
    ) -> (snapshot: EntrySnapshot<Vec<u8>>)
        requires
            old(self).inv(),
        ensures
            final(self).inv(),
            final(self)@ == old(self)@.written(key@, value@, policy.resolved(now)),
            snapshot@ == old(self)@.next_entry(value@, policy.resolved(now)).spec_snapshot(),
    {
        let new_entry = self.make_entry(value, policy, now);
        let snapshot = new_entry.snapshot();
        let new_expiry = new_entry.expiry();
        let new_gen = new_entry.generation;
        let key_copy = key.clone();
        assert(key_copy@ =~= key@);
        let replaced = match entries_insert(&mut self.map, key_copy, new_entry) {
            Some(old_entry) => old_entry.expiry(),
            None => None,
        };
        self.reindex(key, replaced, new_expiry, new_gen, Ghost(*old(self)));
        snapshot
    }

    /// Writes an entry if the main map has none under the key, expired or not;
    /// otherwise hands the value back. Either way a generation is used up.
    pub fn try_insert(&mut self, key: Vec<u8>, value: Vec<u8>, expire: ExpirePolicy, now: u64) -> (
    tried: Result<EntrySnapshot<Vec<u8>>, Vec<u8>>)
        requires
            old(self).inv(),
        ensures
            final(self).inv(),
            match tried {
                Ok(snapshot) => {
                    &&& !old(self)@.entries.contains_key(key@)
                    &&& final(self)@ == old(self)@.written(key@, value@, expire.resolved(now))
                    &&& snapshot@ == old(self)@.next_entry(
                        value@,
                        expire.resolved(now),
                    ).spec_snapshot()
                },
                Err(refused) => {
                    &&& old(self)@.entries.contains_key(key@)
                    &&& final(self)@ == old(self)@.stepped()
                    &&& refused@ == value@
                },
            },
    {
        let new_entry = self.make_entry(value, expire, now);
        let snapshot = new_entry.snapshot();
        let new_expiry = new_entry.expiry();
        let new_gen = new_entry.generation;
        let key_copy = key.clone();
        assert(key_copy@ =~= key@);
        match entries_try_insert(&mut self.map, key_copy, new_entry) {
            Ok(()) => {
                self.reindex(key, None, new_expiry, new_gen, Ghost(*old(self)));
                Ok(snapshot)
            },
            Err(refused) => Err(refused.value),
        }
    }

    /// The entry under a key, if it is alive.
    pub fn get_entry(&self, key: &Vec<u8>, now: u64) -> (found: Option<EntrySnapshot<Vec<u8>>>)
        ensures
            match found {
                Some(snapshot) => self@.visible(key@, now) matches Some(entry) && snapshot@
                    == entry.spec_snapshot(),
                None => self@.visible(key@, now) is None,
            },
    {
        match entries_get(&self.map, key) {
            Some(entry) => if entry.is_expired(now) {
                None
            } else {
                Some(entry.snapshot())
            },
            None => None,
        }
    }

    /// How long the entry under a key has left, if it is alive and ever expires.
    pub fn ttl_remaining(&self, key: &Vec<u8>, now: u64) -> (left: Option<u64>)
        ensures
            left == match self@.visible(key@, now) {
                Some(entry) => match entry.expire_at {
                    Some(at) => Some((at - now) as u64),
                    None => None,
                },
                None => None,
            },
    {
        match self.get_entry(key, now) {
            Some(snapshot) => match snapshot.expire_at {
                Some(at) => Some(at.saturating_sub(now)),
                None => None,
            },
            None => None,
        }
    }

    /// Puts `new_entry` in the place of the entry that the key holds.
    fn replace_entry(&mut self, key: &Vec<u8>, replaced: Option<Expiry>, new_entry: Entry<Vec<u8>>)
        requires
            old(self).inv(),
            old(self)@.entries.contains_key(key@),
            replaced == old(self)@.entries[key@].spec_expiry(),
        ensures
            final(self).inv(),
            final(self)@ == (TableModel {
                entries: old(self)@.entries.insert(key@, new_entry@),
                ..old(self)@
            }),
    {
        let new_expiry = new_entry.expiry();
        let new_gen = new_entry.generation;
        let key_copy = key.clone();
        assert(key_copy@ =~= key@);
        let put = move |_held: &Entry<Vec<u8>>| -> (remapped: Option<Entry<Vec<u8>>>)
            ensures
                remapped == Some(new_entry),
        {
            Some(new_entry)
        };
        let _ = entries_compute_if_present(&mut self.map, key, put);
        self.reindex(key_copy, replaced, new_expiry, new_gen, Ghost(*old(self)));
    }

    /// Takes away the entry that the key holds.
    fn drop_entry(&mut self, key: &Vec<u8>, dropped: Option<Expiry>)
        requires
            old(self).inv(),
            old(self)@.entries.contains_key(key@),
            dropped == old(self)@.entries[key@].spec_expiry(),
        ensures
            final(self).inv(),
            final(self)@ == old(self)@.without(key@),
    {
        let take = |_held: &Entry<Vec<u8>>| -> (remapped: Option<Entry<Vec<u8>>>)
            ensures
                remapped is None,
        {
            None
        };
        let _ = entries_compute_if_present(&mut self.map, key, take);
        if let Some(e) = dropped {
            self.cleanup_expire_index_exact(key, e);
        }
        proof {
            lemma_index_after_remove(old(self)@.entries, key@);
            assert(self.index() =~= old(self).index().remove(key@));
        }
    }

    /// Gives the entry under a key another expiry, if it is alive. An expired
    /// one is taken away.
    pub fn set_expire_policy(&mut self, key: &Vec<u8>, policy: ExpirePolicy, now: u64) -> (changed:
        Option<EntrySnapshot<Vec<u8>>>)
        requires
            old(self).inv(),
        ensures
            final(self).inv(),
            match old(self)@.visible(key@, now) {
                Some(entry) => {
                    &&& final(self)@ == old(self)@.written(
                        key@,
                        entry.value,
                        policy.resolved(now),
                    )
                    &&& changed matches Some(snapshot) && snapshot@ == old(self)@.next_entry(
                        entry.value,
                        policy.resolved(now),
                    ).spec_snapshot()
                },
                None => {
                    &&& final(self)@ == old(self)@.without(key@)
                    &&& changed is None
                },
            },
    {
        match entries_get(&self.map, key) {
            Some(entry) => {
                let old_expiry = entry.expiry();
                if entry.is_expired(now) {
                    self.drop_entry(key, old_expiry);
                    None
                } else {
                    let new_entry = self.make_entry(entry.value, policy, now);
                    let snapshot = new_entry.snapshot();
                    self.replace_entry(key, old_expiry, new_entry);
                    Some(snapshot)
                }
            },
            None => {
                assert(self@.entries =~= self@.without(key@).entries);
                None
            },
        }
    }

    /// Removes the entry under a key, and hands it out if it was alive.
    pub fn remove_entry(&mut self, key: &Vec<u8>, now: u64) -> (removed: Option<
        EntrySnapshot<Vec<u8>>,
    >)
        requires
            old(self).inv(),
        ensures
            final(self).inv(),
            final(self)@ == old(self)@.without(key@),
            match removed {
                Some(snapshot) => old(self)@.visible(key@, now) matches Some(entry) && snapshot@
                    == entry.spec_snapshot(),
                None => old(self)@.visible(key@, now) is None,
            },
    {
        let removed = entries_remove(&mut self.map, key);
        proof {
            lemma_index_after_remove(old(self)@.entries, key@);
        }
        match removed {
            Some(entry) => {
                if let Some(e) = entry.expiry() {
                    self.cleanup_expire_index_exact(key, e);
                }
                assert(self.index() =~= old(self).index().remove(key@));
                if entry.is_expired(now) {
                    None
                } else {
                    Some(entry.snapshot())
                }
            },
            None => {
                assert(self.index() =~= old(self).index().remove(key@));
                None
            },
        }
    }

    /// Removes the entry under a key if it still has the expiry that was sampled
    /// and has expired; says whether it did.
    pub fn remove_expired_if_current(&mut self, key: &Vec<u8>, sampled: Expiry, now: u64) -> (
    removed: bool)
        requires
            old(self).inv(),
        ensures
            final(self).inv(),
            removed == (old(self)@.entries.contains_key(key@)
                && old(self)@.entries[key@].spec_expiry() == Some(sampled) && now >= sampled.at),
            final(self)@ == if removed {
                old(self)@.without(key@)
            } else {
                old(self)@
            },
    {
        let current = match entries_get(&self.map, key) {
            Some(entry) => entry.expiry() == Some(sampled),
            None => false,
        };
        let take = |entry: &Entry<Vec<u8>>| -> (remapped: Option<Entry<Vec<u8>>>)
            ensures
                if entry.spec_expiry() == Some(sampled) && now >= sampled.at {
                    remapped is None
                } else {
                    remapped matches Some(kept) && kept@ == entry@
                },
        {
            if entry.expiry() == Some(sampled) && now >= sampled.at {
                None
            } else {
                Some(entry.clone())
            }
        };
        let kept = entries_compute_if_present(&mut self.map, key, take);
        let removed = current && !kept;
        if removed {
            self.cleanup_expire_index_exact(key, sampled);
        }
        proof {
            lemma_index_after_remove(old(self)@.entries, key@);
            if removed {
                assert(self.index() =~= old(self).index().remove(key@));
            } else {
                assert(self@.entries =~= old(self)@.entries);
            }
        }
        removed
    }

    /// Writes what `update` makes of the value under a key if it is alive, and
    /// what `insert` makes otherwise.
    pub fn update_or_insert_with<U, F>(
        &mut self,
        key: Vec<u8>,
        update: U,
        insert: F,
        expire: ExpirePolicy,
        now: u64,
    ) -> (snapshot: EntrySnapshot<Vec<u8>>) where
        U: Fn(&Vec<u8>) -> Vec<u8>,
        F: Fn() -> Vec<u8>,

        requires
            old(self).inv(),
            match old(self)@.visible(key@, now) {
                Some(entry) => forall|value: Vec<u8>| #[trigger]
                    value@ == entry.value ==> update.requires((&value,)),
                None => insert.requires(()),
            },
        ensures
            final(self).inv(),
            exists|value: Vec<u8>|
                {
                    &&& match old(self)@.visible(key@, now) {
                        Some(entry) => exists|held: Vec<u8>|
                            held@ == entry.value && #[trigger] update.ensures((&held,), value),
                        None => insert.ensures((), value),
                    }
                    &&& final(self)@ == #[trigger] old(self)@.written(
                        key@,
                        value@,
                        expire.resolved(now),
                    )
                    &&& snapshot@ == old(self)@.next_entry(
                        value@,
                        expire.resolved(now),
                    ).spec_snapshot()
                },
    {
        match entries_get(&self.map, &key) {
            Some(entry) => {
                let value = if entry.is_expired(now) {
                    insert()
                } else {
                    update(&entry.value)
                };
                let old_expiry = entry.expiry();
                let new_entry = self.make_entry(value, expire, now);
                let snapshot = new_entry.snapshot();
                self.replace_entry(&key, old_expiry, new_entry);
                assert(self@ == old(self)@.written(key@, value@, expire.resolved(now)));
                snapshot
            },
            None => {
                let value = insert();
                let new_entry = self.make_entry(value, expire, now);
                let snapshot = new_entry.snapshot();
                let new_expiry = new_entry.expiry();
                let new_gen = new_entry.generation;
                let key_copy = key.clone();
                assert(key_copy@ =~= key@);
                let _ = entries_try_insert(&mut self.map, key_copy, new_entry);
                self.reindex(key, None, new_expiry, new_gen, Ghost(*old(self)));
                assert(self@ == old(self)@.written(key@, value@, expire.resolved(now)));
                snapshot
            },
        }
    }

    /// Lets `f` look at the entry under a key, if it is alive, and does what it
    /// asks for. `f` is called once.
    pub fn compute<F, T>(&mut self, key: Vec<u8>, f: F, now: u64) -> (report: MochaCompute<
        Vec<u8>,
        Vec<u8>,
        T,
    >) where F: for <'a>FnOnce(Option<EntryRef<'a, Vec<u8>>>) -> MochaOperation<Vec<u8>, T>
        requires
            old(self).inv(),
            forall|seen: Option<EntryRef<'_, Vec<u8>>>| #[trigger]
                old(self)@.shown_to(key@, now, seen) ==> f.requires((seen,)),
        ensures
            final(self).inv(),
            exists|seen: Option<EntryRef<'_, Vec<u8>>>, operation: MochaOperation<Vec<u8>, T>|
                {
                    &&& old(self)@.shown_to(key@, now, seen)
                    &&& #[trigger] f.ensures((seen,), operation)
                    &&& final(self)@ == old(self)@.computed(key@, now, operation@)
                    &&& report@ == old(self)@.compute_report(key@, now, operation@)
                },
    {
        match entries_get(&self.map, &key) {
            Some(entry) => {
                let expired = entry.is_expired(now);
                let old_expiry = entry.expiry();
                let seen = if expired {
                    None
                } else {
                    Some(EntryRef { value: &entry.value, expire_at: entry.expire_at })
                };
                assert(old(self)@.shown_to(key@, now, seen));
                let operation = f(seen);
                assert(f.ensures((seen,), operation));
                match operation {
                    MochaOperation::Insert { value, expire } => {
                        let new_entry = self.make_entry(value, expire, now);
                        let new_snap = new_entry.snapshot();
                        self.replace_entry(&key, old_expiry, new_entry);
                        if expired {
                            MochaCompute::Inserted(key, new_snap)
                        } else {
                            let key_copy = key.clone();
                            assert(key_copy@ =~= key@);
                            MochaCompute::Updated {
                                old: (key_copy, entry.snapshot()),
                                new: (key, new_snap),
                            }
                        }
                    },
                    MochaOperation::Remove => {
                        self.drop_entry(&key, old_expiry);
                        if expired {
                            MochaCompute::Unchanged
                        } else {
                            MochaCompute::Removed(key, entry.snapshot())
                        }
                    },
                    MochaOperation::Abort(reason) => MochaCompute::Aborted(reason),
                }
            },
            None => {
                let seen: Option<EntryRef<'_, Vec<u8>>> = None;
                assert(old(self)@.shown_to(key@, now, seen));
                let operation = f(seen);
                assert(f.ensures((seen,), operation));
                match operation {
                    MochaOperation::Insert { value, expire } => {
                        let new_entry = self.make_entry(value, expire, now);
                        let new_snap = new_entry.snapshot();
                        let new_expiry = new_entry.expiry();
                        let new_gen = new_entry.generation;
                        let key_copy = key.clone();
                        assert(key_copy@ =~= key@);
                        let _ = entries_try_insert(&mut self.map, key_copy, new_entry);
                        let index_key = key.clone();
                        assert(index_key@ =~= key@);
                        self.reindex(index_key, None, new_expiry, new_gen, Ghost(*old(self)));
                        MochaCompute::Inserted(key, new_snap)
                    },
                    MochaOperation::Remove => {
                        assert(self@.entries =~= self@.without(key@).entries);
                        MochaCompute::Unchanged
                    },
                    MochaOperation::Abort(reason) => MochaCompute::Aborted(reason),
                }
            },
        }
    }

    /// Snapshots of all entries that are alive, each once.
    pub fn iter_snapshots(&self, now: u64) -> (listed: Vec<(Vec<u8>, EntrySnapshot<Vec<u8>>)>)
        ensures
            flurry_map::enumerates(
                snapshot_pairs(listed@),
                self@.alive_snapshots(now),
            ),
    {
        let walk = entries_iter(&self.map);
        let ghost pairs = flurry_map::entry_pairs(walk@);
        let mut listed: Vec<(Vec<u8>, EntrySnapshot<Vec<u8>>)> = Vec::new();
        // Where in the walk each listed pair comes from.
        let ghost mut origin: Seq<int> = Seq::empty();
        let mut i: usize = 0;
        while i < walk.len()
            invariant
                i <= walk.len(),
                pairs == flurry_map::entry_pairs(walk@),
                origin.len() == listed.len(),
                forall|r: int|
                    #![trigger origin[r]]
                    0 <= r < origin.len() ==> {
                        &&& 0 <= origin[r] < i
                        &&& pairs[origin[r]].1.alive(now)
                        &&& snapshot_pairs(listed@)[r] == (
                            pairs[origin[r]].0,
                            pairs[origin[r]].1.spec_snapshot(),
                        )
                    },
                forall|q: int, r: int|
                    0 <= q < r < origin.len() ==> #[trigger] origin[q] < #[trigger] origin[r],
                forall|j: int|
                    0 <= j < i && (#[trigger] pairs[j]).1.alive(now) ==> origin.contains(j),
            decreases walk.len() - i,
        {
            let ghost listed_before = listed@;
            let ghost origin_before = origin;
            let pair = &walk[i];
            if !pair.1.is_expired(now) {
                let key = pair.0.clone();
                assert(key@ =~= pair.0@);
                listed.push((key, pair.1.snapshot()));
                proof {
                    origin = origin.push(i as int);
                    assert(snapshot_pairs(listed@) =~= snapshot_pairs(listed_before).push(
                        (pairs[i as int].0, pairs[i as int].1.spec_snapshot()),
                    ));
                    assert forall|j: int|
                        0 <= j < i + 1 && (#[trigger] pairs[j]).1.alive(
                            now,
                        ) implies origin.contains(j) by {
                        if j < i {
                            let r = origin_before.index_of(j);
                            assert(origin[r] == j);
                        } else {
                            assert(origin[origin.len() - 1] == j);
                        }
                    }
                }
            }
            i = i + 1;
        }
        proof {
            let shown = snapshot_pairs(listed@);
            let held = self@.alive_snapshots(now);
            assert forall|r: int| 0 <= r < shown.len() implies held.contains_pair(
                (#[trigger] shown[r]).0,
                shown[r].1,
            ) by {
                assert(self@.entries.contains_pair(pairs[origin[r]].0, pairs[origin[r]].1));
            }
            assert forall|q: int, r: int| 0 <= q < r < shown.len() implies (#[trigger] shown[q]).0
                != (#[trigger] shown[r]).0 by {
                assert(origin[q] < origin[r]);
                assert(pairs[origin[q]].0 != pairs[origin[r]].0);
            }
            assert forall|key: Seq<u8>| #[trigger] held.contains_key(key) implies exists|r: int|
                0 <= r < shown.len() && (#[trigger] shown[r]).0 == key by {
                let j = choose|j: int| 0 <= j < pairs.len() && (#[trigger] pairs[j]).0 == key;
                assert(self@.entries.contains_pair(pairs[j].0, pairs[j].1));
                assert(origin.contains(j));
                let r = origin.index_of(j);
                assert(shown[r].0 == key);
            }
        }
        listed
    }

    /// Some pairs of the expiry index: up to `limit` of them, from where the last
    /// sample would have gone on.
    pub fn sample_expiries(&mut self, limit: usize) -> (samples: Vec<(Vec<u8>, Expiry)>)
        requires
            old(self).inv(),
        ensures
            final(self).inv(),
            final(self)@ == old(self)@.sampled(limit),
            final(self).index() == old(self).index(),
            exists|walk: Seq<(Seq<u8>, Expiry)>|
                {
                    &&& flurry_map::enumerates(walk, old(self).index())
                    &&& flurry_map::expiry_pairs(samples@)
                        == #[trigger] old(self)@.samples(walk, limit)
                },
    {
        let len = expiries_len(&self.expire_map);
        let walk = expiries_iter(&self.expire_map);
        let ghost pairs = flurry_map::expiry_pairs(walk@);
        proof {
            lemma_enumeration_len(pairs, self.index());
        }
        if len == 0 || limit == 0 {
            let none: Vec<(Vec<u8>, Expiry)> = Vec::new();
            assert(flurry_map::expiry_pairs(none@) =~= old(self)@.samples(
                pairs,
                limit,
            ));
            return none;
        }
        let start = self.expire_cursor % len;
        self.expire_cursor = self.expire_cursor.wrapping_add(limit);
        let samples = pick_samples(&walk, start, limit);
        assert(flurry_map::expiry_pairs(samples@) == old(self)@.samples(
            pairs,
            limit,
        ));
        samples
    }

    /// Removes those of the sampled entries that still have the sampled expiry and
    /// have expired; says how many.
    pub fn expire_samples(&mut self, samples: &Vec<(Vec<u8>, Expiry)>, now: u64) -> (expired: usize)
        requires
            old(self).inv(),
        ensures
            final(self).inv(),
            final(self)@ == old(self)@.purged(
                flurry_map::expiry_pairs(samples@),
                now,
            ),
            expired == old(self)@.entries.len() - final(self)@.entries.len(),
            expired <= samples.len(),
    {
        let ghost pairs = flurry_map::expiry_pairs(samples@);
        let mut expired: usize = 0;
        let mut i: usize = 0;
        assert(self@.entries =~= old(self)@.purged(pairs.take(0), now).entries);
        while i < samples.len()
            invariant
                i <= samples.len(),
                pairs == flurry_map::expiry_pairs(samples@),
                old(self).inv(),
                self.inv(),
                self@ == old(self)@.purged(pairs.take(i as int), now),
                expired == old(self)@.entries.len() - self@.entries.len(),
                expired <= i,
            decreases samples.len() - i,
        {
            let ghost before = self@;
            let sample = &samples[i];
            let removed = now >= sample.1.at && self.remove_expired_if_current(
                &sample.0,
                sample.1,
                now,
            );
            if removed {
                expired = expired + 1;
            }
            proof {
                lemma_purge_step(old(self)@, pairs, i as int, now);
            }
            i = i + 1;
        }
        assert(pairs.take(samples.len() as int) =~= pairs);
        expired
    }

    /// One round of active expiry: samples the expiry index and removes what has
    /// expired of it. Says whether that was more than a quarter of the sample, in
    /// which case another round is worth its while.
    pub fn active_expire_round(&mut self, now: u64) -> (again: bool)
        requires
            old(self).inv(),
        ensures
            final(self).inv(),
            exists|walk: Seq<(Seq<u8>, Expiry)>|
                {
                    &&& #[trigger] old(self)@.round(final(self)@, walk, now)
                    &&& again == old(self)@.worth_another(final(self)@, walk)
                },
            again ==> final(self)@.entries.len() < old(self)@.entries.len(),
    {
        let samples = self.sample_expiries(ACTIVE_EXPIRE_SAMPLE_SIZE);
        let ghost walk = choose|walk: Seq<(Seq<u8>, Expiry)>|
            {
                &&& flurry_map::enumerates(walk, old(self).index())
                &&& flurry_map::expiry_pairs(samples@)
                    == #[trigger] old(self)@.samples(walk, ACTIVE_EXPIRE_SAMPLE_SIZE)
            };
        let checked = samples.len();
        let expired = self.expire_samples(&samples, now);
        proof {
            assert(flurry_map::expiry_pairs(samples@).len() == checked);
            if walk.len() > 0 {
                vstd::arithmetic::div_mod::lemma_mod_bound(
                    old(self)@.cursor as int,
                    walk.len() as int,
                );
            }
            assert(checked <= ACTIVE_EXPIRE_SAMPLE_SIZE);
        }
        assert(old(self)@.round(self@, walk, now));
        expired * 4 > checked
    }

    /// Rounds of active expiry until one is no longer worth another.
    pub fn active_expire_cycle(&mut self, now: u64)
        requires
            old(self).inv(),
        ensures
            final(self).inv(),
            old(self)@.only_expired_gone(final(self)@, now),
            exists|rounds: Seq<RoundModel>|
                {
                    &&& #[trigger] old(self)@.cycled(final(self)@, rounds)
                    &&& forall|i: int| 0 <= i < rounds.len() ==> (#[trigger] rounds[i]).now == now
                },
    {
        let ghost mut rounds: Seq<RoundModel> = Seq::empty();
        loop
            invariant_except_break
                old(self)@.led_by(self@, rounds),
            invariant
                self.inv(),
                old(self)@.only_expired_gone(self@, now),
                forall|i: int| 0 <= i < rounds.len() ==> (#[trigger] rounds[i]).now == now,
            ensures
                self.inv(),
                old(self)@.only_expired_gone(self@, now),
                old(self)@.cycled(self@, rounds),
                forall|i: int| 0 <= i < rounds.len() ==> (#[trigger] rounds[i]).now == now,
            decreases self@.entries.len(),
        {
            let ghost last = self@;
            let again = self.active_expire_round(now);
            proof {
                let walk = choose|walk: Seq<(Seq<u8>, Expiry)>|
                    {
                        &&& #[trigger] last.round(self@, walk, now)
                        &&& again == last.worth_another(self@, walk)
                    };
                let round = RoundModel { before: last, walk, now };
                lemma_one_more_round(old(self)@, last, rounds, self@, round);
                rounds = rounds.push(round);
            }
            if !again {
                break;
            }
        }
    }

    /// Removes all entries; says how many there were.
    pub fn clear(&mut self) -> (count: usize)
        requires
            old(self).inv(),
        ensures
            final(self).inv(),
            final(self)@ == (TableModel { entries: Entries::empty(), ..old(self)@ }),
            count == old(self)@.entries.len(),
    {
        let count = entries_len(&self.map);
        entries_clear(&mut self.map);
        expiries_clear(&mut self.expire_map);
        assert(self.index() =~= expiry_index(self@.entries));
        count
    }
}

} // verus!
