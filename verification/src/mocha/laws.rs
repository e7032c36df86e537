//! What holds of the expiring table as a whole.

use std::sync::atomic::AtomicU64;
use std::sync::Arc;

use vstd::prelude::*;

use crate::mocha::flurry_map;
use crate::mocha::table;
use crate::mocha::table::{RoundModel, TableModel, ACTIVE_EXPIRE_SAMPLE_SIZE};
use crate::mocha::types;
use crate::mocha::types::{
    Entry, EntryRef, EntrySnapshot, ExpirePolicy, Expiry, MochaCompute, MochaOperation,
};

verus! {

/// A read gives back what the last write of the key wrote, for as long as it has
/// not expired, and nothing from then on.
pub proof fn law_read_gives_back_write(
    table: TableModel,
    key: Seq<u8>,
    value: Seq<u8>,
    expire_at: Option<u64>,
    now: u64,
)
    ensures
        table.written(key, value, expire_at).visible(key, now) == if expire_at matches Some(at)
            && at <= now {
            None
        } else {
            Some(Entry { value, expire_at, generation: table.generation })
        },
{
}

/// A write leaves what is seen under every other key as it was.
pub proof fn law_write_keeps_other_keys(
    table: TableModel,
    key: Seq<u8>,
    value: Seq<u8>,
    expire_at: Option<u64>,
    other: Seq<u8>,
    now: u64,
)
    requires
        other != key,
    ensures
        table.written(key, value, expire_at).visible(other, now) == table.visible(other, now),
{
}

/// An entry with a time to live is seen at every time before that has run out,
/// and at none after. A time to live that runs past the end of the clock ends
/// there.
pub proof fn law_time_to_live(
    table: TableModel,
    key: Seq<u8>,
    value: Seq<u8>,
    ttl: u64,
    written_at: u64,
    now: u64,
)
    ensures
        ({
            let later = table.written(key, value, ExpirePolicy::Ttl(ttl).resolved(written_at));
            &&& now < written_at + ttl && now < u64::MAX ==> later.visible(key, now) is Some
            &&& now >= written_at + ttl || now == u64::MAX ==> later.visible(key, now) is None
        }),
{
}

/// A persistent entry is seen at every time.
pub proof fn law_persistent_never_expires(
    table: TableModel,
    key: Seq<u8>,
    value: Seq<u8>,
    written_at: u64,
    now: u64,
)
    ensures
        table.written(key, value, ExpirePolicy::Persistent.resolved(written_at)).visible(key, now)
            matches Some(entry) && entry.value == value,
{
}

/// An entry that is no longer seen is not seen again, however late it gets.
pub proof fn law_expiry_is_final(table: TableModel, key: Seq<u8>, now: u64, later: u64)
    requires
        now <= later,
        table.visible(key, now) is None,
    ensures
        table.visible(key, later) is None,
{
}

/// A removed key is not seen at any time, and every other key is seen as before.
pub proof fn law_remove(table: TableModel, key: Seq<u8>, other: Seq<u8>, now: u64)
    ensures
        table.without(key).visible(key, now) is None,
        other != key ==> table.without(key).visible(other, now) == table.visible(other, now),
{
}

/// To a computation an expired entry is the same as none: it reports the same,
/// and a write or a removal leads to the same table.
pub proof fn law_expired_is_absent<T>(
    table: TableModel,
    key: Seq<u8>,
    now: u64,
    operation: MochaOperation<Seq<u8>, T>,
)
    requires
        table.visible(key, now) is None,
    ensures
        table.compute_report(key, now, operation) == table.without(key).compute_report(
            key,
            now,
            operation,
        ),
        operation !is Abort ==> table.computed(key, now, operation) == table.without(key).computed(
            key,
            now,
            operation,
        ),
{
    match operation {
        MochaOperation::Insert { value, expire } => {
            assert(table.computed(key, now, operation).entries =~= table.without(key).computed(
                key,
                now,
                operation,
            ).entries);
        },
        MochaOperation::Remove => {
            assert(table.computed(key, now, operation).entries =~= table.without(key).computed(
                key,
                now,
                operation,
            ).entries);
        },
        MochaOperation::Abort(_) => {},
    }
}

/// A computation touches no key but its own.
pub proof fn law_compute_keeps_other_keys<T>(
    table: TableModel,
    key: Seq<u8>,
    now: u64,
    operation: MochaOperation<Seq<u8>, T>,
    other: Seq<u8>,
    at: u64,
)
    requires
        other != key,
    ensures
        table.computed(key, now, operation).visible(other, at) == table.visible(other, at),
{
}

/// What an operation does to a table.
#[verifier::ext_equal]
pub enum Change {
    /// Writes an entry.
    Write { key: Seq<u8>, value: Seq<u8>, expire_at: Option<u64> },
    /// Makes an entry that is not written because its key is taken.
    Refuse,
    /// Removes a key.
    Remove { key: Seq<u8> },
    /// Takes a sample of the expiry index.
    Sample { limit: usize },
    /// Removes the sampled entries that have expired.
    Purge { samples: Seq<(Seq<u8>, Expiry)>, now: u64 },
    /// Removes all entries.
    Clear,
}

impl Change {
    /// Whether the operation is given a generation.
    pub open spec fn takes_generation(self) -> bool {
        self is Write || self is Refuse
    }

    /// The table after the operation.
    pub open spec fn applied(self, table: TableModel) -> TableModel {
        match self {
            Change::Write { key, value, expire_at } => table.written(key, value, expire_at),
            Change::Refuse => table.stepped(),
            Change::Remove { key } => table.without(key),
            Change::Sample { limit } => table.sampled(limit),
            Change::Purge { samples, now } => table.purged(samples, now),
            Change::Clear => TableModel { entries: Map::empty(), ..table },
        }
    }
}

/// A new table after operations, one after the other.
pub open spec fn history(changes: Seq<Change>) -> TableModel
    decreases changes.len(),
{
    if changes.len() == 0 {
        TableModel { entries: Map::empty(), generation: 1, cursor: 0 }
    } else {
        changes.last().applied(history(changes.drop_last()))
    }
}

/// How many generations operations are given.
pub open spec fn generations_taken(changes: Seq<Change>) -> nat
    decreases changes.len(),
{
    if changes.len() == 0 {
        0
    } else {
        generations_taken(changes.drop_last()) + if changes.last().takes_generation() {
            1nat
        } else {
            0nat
        }
    }
}

/// The next generation is one more than the number of those that were given.
proof fn lemma_generation(changes: Seq<Change>)
    requires
        generations_taken(changes) < u64::MAX,
    ensures
        history(changes).generation == 1 + generations_taken(changes),
    decreases changes.len(),
{
    if changes.len() > 0 {
        lemma_generation(changes.drop_last());
    }
}

/// More operations are given no fewer generations.
proof fn lemma_generations_taken(changes: Seq<Change>, n: int)
    requires
        0 <= n <= changes.len(),
    ensures
        generations_taken(changes.take(n)) <= generations_taken(changes),
        n < changes.len() && changes[n].takes_generation() ==> generations_taken(changes.take(n))
            < generations_taken(changes),
    decreases changes.len() - n,
{
    if n == changes.len() {
        assert(changes.take(n) =~= changes);
    } else {
        lemma_generations_taken(changes, n + 1);
        assert(changes.take(n + 1).drop_last() =~= changes.take(n));
    }
}

/// Whatever was done to a table before, an operation is given a greater generation than
/// every operation before it, and the first one is given one: as long as fewer than
/// `u64::MAX` generations have been given, after which they start over.
pub proof fn law_generations_increase(changes: Seq<Change>, i: int, j: int)
    requires
        0 <= i < j < changes.len(),
        changes[i].takes_generation(),
        changes[j].takes_generation(),
        generations_taken(changes.take(j)) < u64::MAX,
    ensures
        0 < history(changes.take(i)).generation < history(changes.take(j)).generation,
        generations_taken(changes.take(i)) == 0 ==> history(changes.take(i)).generation == 1,
{
    let earlier = changes.take(j);
    assert(earlier.take(i) =~= changes.take(i));
    assert(earlier[i] == changes[i]);
    lemma_generations_taken(earlier, i);
    lemma_generation(changes.take(i));
    lemma_generation(earlier);
}

/// The generation that a write is given is that of its entry, and the next one is one
/// greater, until they start over.
pub proof fn law_generation_is_written(
    table: TableModel,
    key: Seq<u8>,
    value: Seq<u8>,
    expire_at: Option<u64>,
)
    ensures
        table.written(key, value, expire_at).entries[key].generation == table.generation,
        table.next_entry(value, expire_at).generation == table.generation,
        table.generation < u64::MAX ==> table.written(key, value, expire_at).generation
            == table.generation + 1,
{
}

/// Every computation is a write, a removal or nothing.
pub proof fn law_computation_is_a_change<T>(
    table: TableModel,
    key: Seq<u8>,
    now: u64,
    operation: MochaOperation<Seq<u8>, T>,
)
    ensures
        table.computed(key, now, operation) == (match operation {
            MochaOperation::Insert { value, expire } => (Change::Write {
                key,
                value,
                expire_at: expire.resolved(now),
            }).applied(table),
            MochaOperation::Remove => (Change::Remove { key }).applied(table),
            MochaOperation::Abort(_) => table,
        }),
{
}

/// A round of active expiry is a sample and a purge.
pub proof fn law_round_is_two_changes(
    table: TableModel,
    later: TableModel,
    walk: Seq<(Seq<u8>, Expiry)>,
    now: u64,
)
    requires
        table.round(later, walk, now),
    ensures
        later == (Change::Purge {
            samples: table.samples(walk, ACTIVE_EXPIRE_SAMPLE_SIZE),
            now,
        }).applied((Change::Sample { limit: ACTIVE_EXPIRE_SAMPLE_SIZE }).applied(table)),
{
}

/// Where a sample starts after some samples of active expiry.
pub open spec fn advanced(cursor: usize, samples: nat) -> usize
    decreases samples,
{
    if samples == 0 {
        cursor
    } else {
        advanced(cursor, (samples - 1) as nat).wrapping_add(ACTIVE_EXPIRE_SAMPLE_SIZE)
    }
}

/// A round that is worth another has found something to sample.
proof fn lemma_worthy_round_samples(
    table: TableModel,
    later: TableModel,
    walk: Seq<(Seq<u8>, Expiry)>,
    now: u64,
)
    requires
        table.round(later, walk, now),
        table.worth_another(later, walk),
    ensures
        table::expiry_index(table.entries).len() > 0,
{
    table::lemma_enumeration_len(walk, table::expiry_index(table.entries));
    if table::expiry_index(table.entries).len() == 0 {
        assert(later.entries =~= table.entries);
    }
}

/// Rounds that are each worth another move the cursor once each.
proof fn lemma_rounds_advance_the_cursor(
    table: TableModel,
    later: TableModel,
    rounds: Seq<RoundModel>,
)
    requires
        table.led_by(later, rounds),
    ensures
        later.generation == table.generation,
        later.cursor == advanced(table.cursor, rounds.len()),
    decreases rounds.len(),
{
    if rounds.len() > 0 {
        let rest = rounds.drop_last();
        let last = rounds.last();
        assert(TableModel::worthy_at(later, rounds, rounds.len() - 1));
        assert forall|i: int| 0 <= i < rest.len() implies #[trigger] TableModel::worthy_at(
            last.before,
            rest,
            i,
        ) by {
            assert(TableModel::worthy_at(later, rounds, i));
            assert(TableModel::after_round(last.before, rest, i) == TableModel::after_round(
                later,
                rounds,
                i,
            ));
        }
        lemma_rounds_advance_the_cursor(table, last.before, rest);
        lemma_worthy_round_samples(last.before, later, last.walk, last.now);
    }
}

/// A cycle of active expiry moves the cursor by the sample size once for every round,
/// but for a last round that finds nothing to sample; it takes no generation.
pub proof fn law_cycle_advances_the_cursor(
    table: TableModel,
    later: TableModel,
    rounds: Seq<RoundModel>,
)
    requires
        table.cycled(later, rounds),
    ensures
        later.generation == table.generation,
        later.cursor == advanced(
            table.cursor,
            if table::expiry_index(rounds.last().before.entries).len() == 0 {
                (rounds.len() - 1) as nat
            } else {
                rounds.len()
            },
        ),
{
    lemma_rounds_advance_the_cursor(table, rounds.last().before, rounds.drop_last());
}

/// Writing a snapshot back restores its value and its expiry.
pub proof fn law_snapshot_restores(
    table: TableModel,
    key: Seq<u8>,
    snapshot: EntrySnapshot<Seq<u8>>,
)
    ensures
        ({
            let restored = table.written(key, snapshot.value, snapshot.expire_at);
            &&& restored.entries.contains_key(key)
            &&& restored.entries[key].value == snapshot.value
            &&& restored.entries[key].expire_at == snapshot.expire_at
        }),
{
}

/// The expiry index has no key without an entry, and none of a persistent entry.
pub proof fn law_index_mirrors_entries(table: TableModel, key: Seq<u8>)
    ensures
        ({
            let index = table::expiry_index(table.entries);
            &&& index.contains_key(key) <==> table.entries.contains_key(key)
                && table.entries[key].expire_at is Some
            &&& index.contains_key(key) ==> table.entries[key].spec_expiry() == Some(index[key])
        }),
{
}

/// A sample holds pairs of the expiry index only, and at most `limit` of them; it
/// holds exactly `limit` where the index is that large.
pub proof fn law_samples_come_from_index(
    table: TableModel,
    walk: Seq<(Seq<u8>, Expiry)>,
    limit: usize,
)
    requires
        flurry_map::enumerates(
            walk,
            table::expiry_index(table.entries),
        ),
    ensures
        table.samples(walk, limit).len() <= limit,
        limit <= walk.len() ==> table.samples(walk, limit).len() == limit,
        forall|i: int|
            0 <= i < table.samples(walk, limit).len() ==> table::expiry_index(
                table.entries,
            ).contains_pair(
                (#[trigger] table.samples(walk, limit)[i]).0,
                table.samples(walk, limit)[i].1,
            ),
{
    if walk.len() > 0 && limit > 0 {
        let len = walk.len() as int;
        let start = table.cursor as int % len;
        vstd::arithmetic::div_mod::lemma_mod_bound(table.cursor as int, len);
        let samples = table.samples(walk, limit);
        assert forall|i: int| 0 <= i < samples.len() implies table::expiry_index(
            table.entries,
        ).contains_pair((#[trigger] samples[i]).0, samples[i].1) by {
            let head = if len - start < limit {
                len - start
            } else {
                limit as int
            };
            if i < head {
                assert(samples[i] == walk[start + i]);
            } else {
                assert(samples[i] == walk[i - head]);
            }
        }
    }
}

/// A round of active expiry takes away entries that have expired, and nothing else.
pub proof fn law_round_spares_the_living(
    table: TableModel,
    later: TableModel,
    walk: Seq<(Seq<u8>, Expiry)>,
    now: u64,
)
    requires
        table.round(later, walk, now),
    ensures
        table.only_expired_gone(later, now),
{
}

/// Where the expiry index is no larger than a sample, a round of active expiry
/// leaves no expired entry behind.
pub proof fn law_round_clears_small_tables(
    table: TableModel,
    later: TableModel,
    walk: Seq<(Seq<u8>, Expiry)>,
    now: u64,
    key: Seq<u8>,
)
    requires
        table.round(later, walk, now),
        walk.len() <= ACTIVE_EXPIRE_SAMPLE_SIZE,
        later.entries.contains_key(key),
    ensures
        later.entries[key].alive(now),
{
    if !later.entries[key].alive(now) {
        let index = table::expiry_index(table.entries);
        assert(table.entries[key] == later.entries[key]);
        assert(index.contains_key(key));
        let i = choose|i: int| 0 <= i < walk.len() && (#[trigger] walk[i]).0 == key;
        assert(index.contains_pair(walk[i].0, walk[i].1));
        let len = walk.len() as int;
        let start = table.cursor as int % len;
        vstd::arithmetic::div_mod::lemma_mod_bound(table.cursor as int, len);
        let limit = ACTIVE_EXPIRE_SAMPLE_SIZE as int;
        let samples = table.samples(walk, ACTIVE_EXPIRE_SAMPLE_SIZE);
        let at = if i >= start {
            i - start
        } else {
            len - start + i
        };
        assert(samples[at] == walk[i]);
        assert(table.sampled(ACTIVE_EXPIRE_SAMPLE_SIZE).sampled_expired(samples, now, key));
    }
}

/// Whether a key has an entry whose expiry time, if it has one, is still to come.
pub open spec fn lives(table: TableModel, key: Seq<u8>, now: u64) -> bool {
    &&& table.entries.contains_key(key)
    &&& table.entries[key].expire_at is None || now < table.entries[key].expire_at->0
}

/// A snapshot tells all of an entry: its value, its expiry time and its generation.
pub open spec fn tells(snapshot: EntrySnapshot<Seq<u8>>, entry: Entry<Seq<u8>>) -> bool {
    &&& snapshot.value == entry.value
    &&& snapshot.expire_at == entry.expire_at
    &&& snapshot.generation == entry.generation
}

/// Whether two tables hold the same under every key but one.
pub open spec fn same_but_for(one: TableModel, other: TableModel, key: Seq<u8>) -> bool {
    forall|k: Seq<u8>|
        #![trigger one.entries.contains_key(k)]
        #![trigger other.entries.contains_key(k)]
        k != key ==> one.entries.contains_key(k) == other.entries.contains_key(k)
            && one.entries[k] == other.entries[k]
}

/// An entry is seen exactly while its expiry time is still to come, and as it stands.
pub proof fn law_what_is_seen(table: TableModel, key: Seq<u8>, now: u64)
    ensures
        table.visible(key, now) is Some <==> lives(table, key, now),
        table.visible(key, now) is Some ==> table.visible(key, now)->0 == table.entries[key],
{
}

/// A persistent entry has no expiry time, an absolute one is taken as it is, and a time
/// to live counts from now to the end of the clock at most.
pub proof fn law_policies(now: u64, at: u64, ttl: u64)
    ensures
        ExpirePolicy::Persistent.resolved(now) is None,
        ExpirePolicy::Absolute(at).resolved(now) == Some(at),
        ExpirePolicy::Ttl(ttl).resolved(now) is Some,
        ({
            let end = ExpirePolicy::Ttl(ttl).resolved(now)->0;
            end - now == ttl || (end == u64::MAX && end - now < ttl)
        }),
{
}

/// A snapshot and an expiry of an entry tell what the entry says.
pub proof fn law_snapshots_tell_the_entry(entry: Entry<Seq<u8>>)
    ensures
        tells(entry.spec_snapshot(), entry),
        entry.spec_expiry() is Some <==> entry.expire_at is Some,
        entry.spec_expiry() is Some ==> Some(entry.spec_expiry()->0.at) == entry.expire_at
            && entry.spec_expiry()->0.generation == entry.generation,
{
}

/// What callers hold shows its value, its expiry time and its generation.
pub proof fn law_values_show_their_parts(
    snapshot: EntrySnapshot<Vec<u8>>,
    entry: Entry<Vec<u8>>,
    key: Vec<u8>,
    other: EntrySnapshot<Vec<u8>>,
    expire: ExpirePolicy,
    reason: u64,
)
    ensures
        snapshot@.value == snapshot.value@,
        snapshot@.expire_at == snapshot.expire_at,
        snapshot@.generation == snapshot.generation,
        entry@.value == entry.value@,
        entry@.expire_at == entry.expire_at,
        entry@.generation == entry.generation,
        (MochaOperation::<Vec<u8>, u64>::Insert { value: key, expire })@ == (MochaOperation::<
            Seq<u8>,
            u64,
        >::Insert { value: key@, expire }),
        MochaOperation::<Vec<u8>, u64>::Remove@ == MochaOperation::<Seq<u8>, u64>::Remove,
        MochaOperation::<Vec<u8>, u64>::Abort(reason)@ == MochaOperation::<Seq<u8>, u64>::Abort(
            reason,
        ),
        MochaCompute::<Vec<u8>, Vec<u8>, u64>::Unchanged@ == MochaCompute::<
            Seq<u8>,
            Seq<u8>,
            u64,
        >::Unchanged,
        MochaCompute::<Vec<u8>, Vec<u8>, u64>::Removed(key, snapshot)@ == MochaCompute::<
            Seq<u8>,
            Seq<u8>,
            u64,
        >::Removed(key@, snapshot@),
        MochaCompute::<Vec<u8>, Vec<u8>, u64>::Inserted(key, snapshot)@ == MochaCompute::<
            Seq<u8>,
            Seq<u8>,
            u64,
        >::Inserted(key@, snapshot@),
        (MochaCompute::<Vec<u8>, Vec<u8>, u64>::Updated {
            old: (key, snapshot),
            new: (key, other),
        })@ == (MochaCompute::<Seq<u8>, Seq<u8>, u64>::Updated {
            old: (key@, snapshot@),
            new: (key@, other@),
        }),
        MochaCompute::<Vec<u8>, Vec<u8>, u64>::Aborted(reason)@ == MochaCompute::<
            Seq<u8>,
            Seq<u8>,
            u64,
        >::Aborted(reason),
{
}

/// A write puts the value, the expiry time and the next generation under its key and
/// leaves every other key as it was.
pub proof fn law_write_effects(
    table: TableModel,
    key: Seq<u8>,
    value: Seq<u8>,
    expire_at: Option<u64>,
)
    ensures
        ({
            let later = table.written(key, value, expire_at);
            let made = table.next_entry(value, expire_at);
            &&& made.value == value && made.expire_at == expire_at
            &&& made.generation == table.generation
            &&& later.entries.contains_key(key) && later.entries[key] == made
            &&& same_but_for(later, table, key)
            &&& later.cursor == table.cursor
            &&& later.generation == table.generation + 1 || (later.generation == 0
                && table.generation == u64::MAX)
        }),
        table.stepped().entries == table.entries,
        table.stepped().cursor == table.cursor,
        table.stepped().generation == table.written(key, value, expire_at).generation,
{
}

/// A removal takes its key away and leaves everything else as it was.
pub proof fn law_removal_effects(table: TableModel, key: Seq<u8>)
    ensures
        ({
            let later = table.without(key);
            &&& !later.entries.contains_key(key)
            &&& same_but_for(later, table, key)
            &&& later.cursor == table.cursor
            &&& later.generation == table.generation
        }),
{
}

/// A computation is shown the entry under its key exactly while it lives, with its value
/// and its expiry time.
pub proof fn law_what_a_computation_sees(
    table: TableModel,
    key: Seq<u8>,
    now: u64,
    seen: Option<EntryRef<'_, Vec<u8>>>,
)
    requires
        table.shown_to(key, now, seen),
    ensures
        seen is Some <==> lives(table, key, now),
        seen is Some ==> seen->0.value@ == table.entries[key].value && seen->0.expire_at
            == table.entries[key].expire_at,
{
}

/// What a computation asks for is done: an insertion writes what it says under the key, a
/// removal leaves no entry there, dead or alive, and giving up changes nothing. Other
/// keys are left as they were.
pub proof fn law_computation_effects<T>(
    table: TableModel,
    key: Seq<u8>,
    now: u64,
    operation: MochaOperation<Seq<u8>, T>,
)
    ensures
        ({
            let later = table.computed(key, now, operation);
            &&& operation matches MochaOperation::Insert { value, expire } ==> {
                &&& later.entries.contains_key(key)
                &&& later.entries[key].value == value
                &&& later.entries[key].expire_at == expire.resolved(now)
                &&& later.entries[key].generation == table.generation
            }
            &&& operation is Insert <==> later.generation != table.generation
            &&& operation is Remove ==> !later.entries.contains_key(key)
            &&& operation is Abort ==> later.entries == table.entries
            &&& same_but_for(later, table, key)
            &&& later.cursor == table.cursor
        }),
{
}

/// What a computation reports is what happened: a removal hands out the entry that lived,
/// whether or not it would ever have expired, and reports that there was nothing to
/// remove exactly if none lived; an insertion reports the new entry, with the old one
/// exactly if it lived; giving up hands the reason back.
pub proof fn law_computation_reports<T>(
    table: TableModel,
    key: Seq<u8>,
    now: u64,
    operation: MochaOperation<Seq<u8>, T>,
)
    ensures
        ({
            let report = table.compute_report(key, now, operation);
            let held = table.entries[key];
            let alive = lives(table, key, now);
            &&& report is Unchanged <==> operation is Remove && !alive
            &&& report is Removed <==> operation is Remove && alive
            &&& report is Inserted <==> operation is Insert && !alive
            &&& report is Updated <==> operation is Insert && alive
            &&& report is Aborted <==> operation is Abort
            &&& report matches MochaCompute::Removed(k, gone) ==> k == key && tells(gone, held)
            &&& report matches MochaCompute::Aborted(reason) ==> operation
                == MochaOperation::<Seq<u8>, T>::Abort(reason)
        }),
{
}

/// The entry that a computation reports as new is the one that the table then holds.
pub proof fn law_computation_reports_the_new_entry<T>(
    table: TableModel,
    key: Seq<u8>,
    now: u64,
    operation: MochaOperation<Seq<u8>, T>,
)
    ensures
        ({
            let report = table.compute_report(key, now, operation);
            let later = table.computed(key, now, operation);
            &&& report matches MochaCompute::Inserted(k, new) ==> k == key && tells(
                new,
                later.entries[key],
            )
            &&& report matches MochaCompute::Updated { old, new } ==> old.0 == key && new.0 == key
                && tells(old.1, table.entries[key]) && tells(new.1, later.entries[key])
        }),
{
}

/// The snapshots of a walk are those of the entries that live, and of no others.
pub proof fn law_walks_show_the_living(table: TableModel, now: u64, key: Seq<u8>)
    ensures
        table.alive_snapshots(now).contains_key(key) <==> lives(table, key, now),
        lives(table, key, now) ==> tells(table.alive_snapshots(now)[key], table.entries[key]),
{
}

/// What is listed is listed pair by pair.
pub proof fn law_listed_pairs(
    snapshots: Seq<(Vec<u8>, EntrySnapshot<Vec<u8>>)>,
    expiries: Seq<(Vec<u8>, Expiry)>,
    i: int,
)
    requires
        0 <= i < snapshots.len(),
        i < expiries.len(),
    ensures
        table::snapshot_pairs(snapshots).len() == snapshots.len(),
        table::snapshot_pairs(snapshots)[i] == (snapshots[i].0@, snapshots[i].1@),
        flurry_map::expiry_pairs(expiries).len() == expiries.len(),
        flurry_map::expiry_pairs(expiries)[i] == (expiries[i].0@, expiries[i].1),
{
}

/// The expiry index holds the expiry time and the generation of the entries that ever
/// expire.
pub proof fn law_index_tells_the_entries(table: TableModel, key: Seq<u8>)
    ensures
        ({
            let index = table::expiry_index(table.entries);
            &&& index.contains_key(key) <==> table.entries.contains_key(key)
                && table.entries[key].expire_at is Some
            &&& index.contains_key(key) ==> Some(index[key].at) == table.entries[key].expire_at
                && index[key].generation == table.entries[key].generation
        }),
{
}

/// A sample goes on from where the cursor stands, around the end of the walk: at most once
/// through it from its beginning, else to the end and once through it again.
pub proof fn law_samples_follow_the_cursor(
    table: TableModel,
    walk: Seq<(Seq<u8>, Expiry)>,
    limit: usize,
    i: int,
)
    requires
        walk.len() > 0,
    ensures
        ({
            let len = walk.len() as int;
            let start = table.cursor as int % len;
            let most = if start == 0 {
                len
            } else {
                2 * len - start
            };
            let samples = table.samples(walk, limit);
            &&& samples.len() == (if limit < most {
                limit as int
            } else {
                most
            })
            &&& 0 <= i < samples.len() ==> samples[i] == walk[(if start + i < len {
                start + i
            } else {
                start + i - len
            })]
        }),
{
    let len = walk.len() as int;
    vstd::arithmetic::div_mod::lemma_mod_bound(table.cursor as int, len);
}

/// Nothing is sampled where there is nothing to sample or nothing is asked for; else the
/// cursor moves on by as many as were asked for, around the end of its range.
pub proof fn law_sample_moves_the_cursor(
    table: TableModel,
    walk: Seq<(Seq<u8>, Expiry)>,
    limit: usize,
)
    ensures
        walk.len() == 0 || limit == 0 ==> table.samples(walk, limit).len() == 0,
        table.sampled(limit).entries == table.entries,
        table.sampled(limit).generation == table.generation,
        table::expiry_index(table.entries).len() == 0 || limit == 0 ==> table.sampled(limit).cursor
            == table.cursor,
        table::expiry_index(table.entries).len() > 0 ==> (table.sampled(limit).cursor
            == table.cursor + limit || table.sampled(limit).cursor == table.cursor + limit
            - usize::MAX - 1),
{
}

/// A sampled entry goes exactly if it still has the expiry that was sampled and that time
/// has come; an entry that lives stays, one that was not sampled stays, and so does one
/// that has been written anew since.
pub proof fn law_purge_effects(
    table: TableModel,
    samples: Seq<(Seq<u8>, Expiry)>,
    now: u64,
    key: Seq<u8>,
    i: int,
)
    ensures
        ({
            let later = table.purged(samples, now);
            let held = table.entries[key];
            &&& later.generation == table.generation
            &&& later.cursor == table.cursor
            &&& later.entries.contains_key(key) ==> table.entries.contains_key(key)
                && later.entries[key] == held
            &&& lives(table, key, now) ==> later.entries.contains_key(key)
            &&& 0 <= i < samples.len() && samples[i].0 == key && held.expire_at == Some(
                samples[i].1.at,
            ) && held.generation == samples[i].1.generation && samples[i].1.at <= now
                ==> !later.entries.contains_key(key)
            &&& table.entries.contains_key(key) && (forall|j: int|
                0 <= j < samples.len() ==> (#[trigger] samples[j]).0 != key
                    || samples[j].1.generation != held.generation)
                ==> later.entries.contains_key(key)
        }),
{
}

/// A round is worth another exactly if more than a quarter of what it looked at is gone.
pub proof fn law_when_a_round_is_worth_another(
    table: TableModel,
    later: TableModel,
    walk: Seq<(Seq<u8>, Expiry)>,
    now: u64,
)
    requires
        table.round(later, walk, now),
        table.entries.dom().finite(),
    ensures
        table.worth_another(later, walk) <==> 4 * table.entries.dom().difference(
            later.entries.dom(),
        ).len() > table.samples(walk, ACTIVE_EXPIRE_SAMPLE_SIZE).len(),
        ACTIVE_EXPIRE_SAMPLE_SIZE == 20,
{
    let all = table.entries.dom();
    let kept = later.entries.dom();
    let gone = all.difference(kept);
    assert(kept.subset_of(all));
    vstd::set_lib::lemma_set_subset_finite(all, kept);
    vstd::set_lib::lemma_set_subset_finite(all, gone);
    assert(kept.union(gone) =~= all);
    vstd::set_lib::lemma_set_disjoint_lens(kept, gone);
}

/// A cycle begins at the table and ends at the later one; it goes on from each round to
/// the next exactly if the round was worth another.
pub proof fn law_cycle_goes_on_while_it_is_worth_it(
    table: TableModel,
    later: TableModel,
    rounds: Seq<RoundModel>,
    i: int,
)
    requires
        table.cycled(later, rounds),
        0 <= i < rounds.len(),
    ensures
        rounds[0].before == table,
        ({
            let after = if i + 1 == rounds.len() {
                later
            } else {
                rounds[i + 1].before
            };
            &&& rounds[i].before.round(after, rounds[i].walk, rounds[i].now)
            &&& rounds[i].before.worth_another(after, rounds[i].walk) <==> i + 1 < rounds.len()
        }),
{
    let rest = rounds.drop_last();
    if i < rest.len() {
        assert(TableModel::worthy_at(rounds.last().before, rest, i));
    }
    if rest.len() > 0 {
        assert(rest[0] == rounds[0]);
    }
}

/// A round looks at a sample of the whole expiry index and takes away what of it has
/// expired.
pub proof fn law_round_effects(
    table: TableModel,
    later: TableModel,
    walk: Seq<(Seq<u8>, Expiry)>,
    now: u64,
    key: Seq<u8>,
)
    requires
        table.round(later, walk, now),
    ensures
        flurry_map::enumerates(walk, table::expiry_index(table.entries)),
        later.generation == table.generation,
        lives(table, key, now) ==> later.entries.contains_key(key) && later.entries[key]
            == table.entries[key],
        later.entries.contains_key(key) ==> table.entries.contains_key(key) && later.entries[key]
            == table.entries[key],
        table.entries.contains_key(key) && !later.entries.contains_key(key) ==> exists|i: int|
            0 <= i < table.samples(walk, ACTIVE_EXPIRE_SAMPLE_SIZE).len() && (
            #[trigger] table.samples(walk, ACTIVE_EXPIRE_SAMPLE_SIZE)[i]).0 == key,
        table.entries.contains_key(key) && later.entries.contains_key(key) && !lives(
            table,
            key,
            now,
        ) ==> forall|i: int|
            0 <= i < table.samples(walk, ACTIVE_EXPIRE_SAMPLE_SIZE).len() ==> (
            #[trigger] table.samples(walk, ACTIVE_EXPIRE_SAMPLE_SIZE)[i]).0 != key,
{
    law_samples_come_from_index(table, walk, ACTIVE_EXPIRE_SAMPLE_SIZE);
}

/// An enumeration lists every pair of a map once, and nothing else.
pub proof fn law_enumerations_are_complete(
    pairs: Seq<(Seq<u8>, EntrySnapshot<Seq<u8>>)>,
    held: Map<Seq<u8>, EntrySnapshot<Seq<u8>>>,
    key: Seq<u8>,
)
    requires
        flurry_map::enumerates(pairs, held),
    ensures
        pairs.len() == held.len(),
        held.contains_key(key) <==> exists|i: int| #![trigger pairs[i]]
            0 <= i < pairs.len() && pairs[i] == (key, held[key]),
{
    table::lemma_enumeration_len(pairs, held);
    if held.contains_key(key) {
        let i = choose|i: int| 0 <= i < pairs.len() && (#[trigger] pairs[i]).0 == key;
        assert(held.contains_pair(pairs[i].0, pairs[i].1));
        assert(pairs[i] == (key, held[key]));
    }
    if exists|i: int| #![trigger pairs[i]] 0 <= i < pairs.len() && pairs[i] == (key, held[key]) {
        let i = choose|i: int|
            #![trigger pairs[i]]
            0 <= i < pairs.len() && pairs[i] == (key, held[key]);
        assert(held.contains_pair(pairs[i].0, pairs[i].1));
    }
}

/// A borrowed entry shows an entry exactly if it has its value and its expiry time; an
/// expiry is made of an expiry time and a generation, where there is an expiry time.
pub proof fn law_borrowed_entries_and_expiries(
    borrowed: EntryRef<'_, Vec<u8>>,
    entry: Entry<Seq<u8>>,
    expire_at: Option<u64>,
    generation: u64,
)
    ensures
        borrowed.shows(entry) <==> borrowed.value@ == entry.value && borrowed.expire_at
            == entry.expire_at,
        expire_at is Some ==> types::expiry_of(expire_at, generation) == Some(
            Expiry { at: expire_at->0, generation },
        ),
        expire_at is None ==> types::expiry_of(expire_at, generation) is None,
{
}

/// The times that a clock shows are those that loading it can give.
pub proof fn law_clocks_show_what_is_loaded(clock: Arc<AtomicU64>, now: u64)
    ensures
        crate::mocha::shows(clock, now) <==> call_ensures(
            AtomicU64::load,
            (&*clock, std::sync::atomic::Ordering::Relaxed),
            now,
        ),
{
}

} // verus!
