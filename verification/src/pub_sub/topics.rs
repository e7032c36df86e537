//! Who is subscribed to which topic, a topic being a channel or a pattern.

use crate::pub_sub::glob;
use crate::utils::bytes_map::BytesMap;
use std::collections::HashSet;
use vstd::prelude::*;

verus! {

broadcast use vstd::std_specs::hash::group_hash_axioms;

/// The subscribers of each topic that has any.
pub type Subscribers = Map<Seq<u8>, Set<u64>>;

/// The subscribers of a topic.
pub open spec fn members(subscribers: Subscribers, topic: Seq<u8>) -> Set<u64> {
    if subscribers.contains_key(topic) {
        subscribers[topic]
    } else {
        Set::empty()
    }
}

/// The subscribers once a client has joined some topics.
pub open spec fn joined(subscribers: Subscribers, topics: Set<Seq<u8>>, id: u64) -> Subscribers {
    Map::new(
        |topic: Seq<u8>| subscribers.contains_key(topic) || topics.contains(topic),
        |topic: Seq<u8>|
            if topics.contains(topic) {
                members(subscribers, topic).insert(id)
            } else {
                subscribers[topic]
            },
    )
}

/// The subscribers once a client has left some topics: a topic that nobody else has
/// joined goes with it.
pub open spec fn left(subscribers: Subscribers, topics: Set<Seq<u8>>, id: u64) -> Subscribers {
    Map::new(
        |topic: Seq<u8>|
            subscribers.contains_key(topic) && !(topics.contains(topic)
                && subscribers[topic].remove(id) =~= Set::empty()),
        |topic: Seq<u8>|
            if topics.contains(topic) {
                subscribers[topic].remove(id)
            } else {
                subscribers[topic]
            },
    )
}

/// Every topic that is listed has a subscriber.
pub open spec fn no_topic_is_deserted(subscribers: Subscribers) -> bool {
    forall|topic: Seq<u8>|
        subscribers.contains_key(topic) ==> !(#[trigger] subscribers[topic] =~= Set::empty())
}

/// Joining one more topic after others.
pub(crate) proof fn lemma_join_one_more(
    subscribers: Subscribers,
    topics: Set<Seq<u8>>,
    topic: Seq<u8>,
    id: u64,
)
    ensures
        joined(joined(subscribers, topics, id), set![topic], id) == joined(
            subscribers,
            topics.insert(topic),
            id,
        ),
        members(joined(subscribers, topics, id), topic).insert(id) == members(
            subscribers,
            topic,
        ).insert(id),
{
    let first = joined(subscribers, topics, id);
    let all = joined(subscribers, topics.insert(topic), id);
    assert(members(first, topic).insert(id) =~= members(subscribers, topic).insert(id));
    assert(joined(first, set![topic], id) =~= all);
}

/// Leaving one more topic after others.
pub(crate) proof fn lemma_leave_one_more(
    subscribers: Subscribers,
    topics: Set<Seq<u8>>,
    topic: Seq<u8>,
    id: u64,
)
    ensures
        left(left(subscribers, topics, id), set![topic], id) == left(
            subscribers,
            topics.insert(topic),
            id,
        ),
        members(left(subscribers, topics, id), topic) == (if topics.contains(topic) {
            members(subscribers, topic).remove(id)
        } else {
            members(subscribers, topic)
        }),
{
    let first = left(subscribers, topics, id);
    let all = left(subscribers, topics.insert(topic), id);
    let expected = if topics.contains(topic) {
        members(subscribers, topic).remove(id)
    } else {
        members(subscribers, topic)
    };
    assert(members(first, topic) =~= expected);
    assert(subscribers[topic].remove(id).remove(id) =~= subscribers[topic].remove(id));
    assert(left(first, set![topic], id) =~= all);
}

/// What leaving a topic came to.
pub enum Leave {
    /// Nobody is subscribed to the topic.
    Unknown,
    /// The topic had so many subscribers, the client being one of them or not.
    Known { subscribers: usize, was_member: bool },
}

/// The subscribers of each topic.
#[derive(Debug)]
pub struct Topics {
    table: BytesMap<HashSet<u64>>,
}

impl View for Topics {
    type V = Subscribers;

    closed spec fn view(&self) -> Subscribers {
        self.table@.map_values(|set: HashSet<u64>| set@)
    }
}

/// The elements of a set, once each.
pub(crate) fn list_of(set: &HashSet<u64>) -> (list: Vec<u64>)
    ensures
        list@.no_duplicates(),
        list@.to_set() == set@,
{
    let mut list: Vec<u64> = Vec::new();
    for id in it: set.iter()
        invariant
            it.seq().no_duplicates(),
            it.seq().unref().to_set() == set@,
            list@.len() == it.index(),
            forall|i: int|
                #![trigger list@[i]]
                #![trigger it.seq()[i]]
                0 <= i < list@.len() ==> list@[i] == *it.seq()[i],
            forall|k: u64|
                set@.contains(k) ==> exists|i: int|
                    0 <= i < it.seq().len() && *(#[trigger] it.seq()[i]) == k,
            forall|i: int| 0 <= i < list@.len() ==> set@.contains(#[trigger] list@[i]),
    {
        proof {
            assert(it.seq().unref()[it.index()] == *id);
            assert(it.seq().unref().to_set().contains(*id));
        }
        list.push(*id);
    }
    assert(list@.to_set() =~= set@);
    list
}

/// Adds the elements of one set to another.
fn add_all(targets: &mut HashSet<u64>, set: &HashSet<u64>)
    ensures
        final(targets)@ == old(targets)@.union(set@),
{
    let list = list_of(set);
    let mut i: usize = 0;
    while i < list.len()
        invariant
            i <= list.len(),
            targets@ == old(targets)@.union(list@.take(i as int).to_set()),
        decreases list.len() - i,
    {
        targets.insert(list[i]);
        proof {
            assert(list@.take(i + 1) =~= list@.take(i as int).push(list@[i as int]));
            list@.take(i as int).lemma_push_to_set_commute(list@[i as int]);
            assert(targets@ =~= old(targets)@.union(list@.take(i + 1).to_set()));
        }
        i = i + 1;
    }
    assert(list@.take(i as int) =~= list@);
}

impl Topics {
    /// The table is a map, and no topic is without subscribers.
    pub closed spec fn inv(&self) -> bool {
        &&& self.table.inv()
        &&& no_topic_is_deserted(self@)
    }

    /// An invariant that holds between calls.
    pub proof fn lemma_inv(&self)
        requires
            self.inv(),
        ensures
            no_topic_is_deserted(self@),
            self@.dom().finite(),
    {
        self.table.lemma_key_order();
        assert(self@.dom() =~= self.table@.dom());
    }

    /// No topics.
    pub fn new() -> (topics: Topics)
        ensures
            topics.inv(),
            topics@ == Subscribers::empty(),
    {
        let topics = Topics { table: BytesMap::new() };
        assert(topics@ =~= Subscribers::empty());
        topics
    }

    /// Subscribes a client to a topic; returns how many subscribers it then has.
    pub fn join(&mut self, topic: &Vec<u8>, id: u64) -> (count: usize)
        requires
            old(self).inv(),
        ensures
            final(self).inv(),
            final(self)@ == joined(old(self)@, set![topic@], id),
            count == members(old(self)@, topic@).insert(id).len(),
    {
        let mut set = match self.table.remove(topic) {
            Some(set) => set,
            None => HashSet::new(),
        };
        assert(set@ =~= members(old(self)@, topic@));
        set.insert(id);
        let count = set.len();
        let name = topic.clone();
        assert(name@ =~= topic@);
        self.table.insert(name, set);
        proof {
            assert(self@ =~= joined(old(self)@, set![topic@], id));
            assert(set@.contains(id));
            assert forall|t: Seq<u8>| self@.contains_key(t) implies !(#[trigger] self@[t]
                =~= Set::empty()) by {
                if t != topic@ {
                    assert(old(self)@.contains_key(t) && old(self)@[t] == self@[t]);
                } else {
                    assert(self@[t].contains(id));
                }
            }
        }
        count
    }

    /// Unsubscribes a client from a topic.
    pub fn leave(&mut self, topic: &Vec<u8>, id: u64) -> (leave: Leave)
        requires
            old(self).inv(),
        ensures
            final(self).inv(),
            final(self)@ == left(old(self)@, set![topic@], id),
            match leave {
                Leave::Unknown => !old(self)@.contains_key(topic@),
                Leave::Known { subscribers, was_member } => {
                    &&& old(self)@.contains_key(topic@)
                    &&& subscribers == old(self)@[topic@].len()
                    &&& was_member == old(self)@[topic@].contains(id)
                },
            },
    {
        match self.table.remove(topic) {
            Some(removed) => {
                let mut set = removed;
                let ghost before = set@;
                let subscribers = set.len();
                let was_member = set.remove(&id);
                assert(set@ =~= before.remove(id));
                if !set.is_empty() {
                    let name = topic.clone();
                    assert(name@ =~= topic@);
                    self.table.insert(name, set);
                }
                assert(self@ =~= left(old(self)@, set![topic@], id));
                assert forall|t: Seq<u8>| self@.contains_key(t) implies !(#[trigger] self@[t]
                    =~= Set::empty()) by {
                    if t != topic@ {
                        assert(old(self)@.contains_key(t) && old(self)@[t] == self@[t]);
                    }
                }
                Leave::Known { subscribers, was_member }
            },
            None => {
                assert(self@ =~= left(old(self)@, set![topic@], id));
                Leave::Unknown
            },
        }
    }

    /// Unsubscribes a client from every topic.
    pub fn leave_everywhere(&mut self, id: u64)
        requires
            old(self).inv(),
        ensures
            final(self).inv(),
            final(self)@ == left(old(self)@, old(self)@.dom(), id),
    {
        let mut kept: BytesMap<HashSet<u64>> = BytesMap::new();
        let ghost before = self.table@;
        let mut more = true;
        while more
            invariant
                self.table.inv(),
                kept.inv(),
                !more ==> self.table@ == Map::<Seq<u8>, HashSet<u64>>::empty(),
                forall|t: Seq<u8>| #[trigger]
                    self.table@.contains_key(t) ==> before.contains_key(t) && before[t]
                        == self.table@[t],
                forall|t: Seq<u8>|
                    #![trigger kept@.contains_key(t)]
                    #![trigger before.contains_key(t)]
                    kept@.contains_key(t) == (before.contains_key(t) && !self.table@.contains_key(t)
                        && !(before[t]@.remove(id) =~= Set::empty())),
                forall|t: Seq<u8>|
                    kept@.contains_key(t) ==> (#[trigger] kept@[t])@ == before[t]@.remove(id),
            decreases self.table.key_order().len() + if more { 1int } else { 0 },
        {
            let ghost rest = self.table@;
            match self.table.pop() {
                Some(pair) => {
                    let (topic, removed) = pair;
                    let mut set = removed;
                    assert(rest.contains_key(topic@) && rest[topic@] == set);
                    assert(before.contains_key(topic@) && before[topic@] == set);
                    set.remove(&id);
                    assert(set@ =~= before[topic@]@.remove(id));
                    if !set.is_empty() {
                        kept.insert(topic, set);
                    }
                },
                None => {
                    more = false;
                },
            }
        }
        self.table = kept;
        proof {
            assert(self@ =~= left(old(self)@, old(self)@.dom(), id));
            assert forall|t: Seq<u8>| self@.contains_key(t) implies !(#[trigger] self@[t]
                =~= Set::empty()) by {
                assert(kept@.contains_key(t));
            }
        }
    }

    /// Adds the subscribers of a topic to a set.
    pub fn add_members(&self, topic: &Vec<u8>, targets: &mut HashSet<u64>)
        requires
            self.inv(),
        ensures
            final(targets)@ == old(targets)@.union(members(self@, topic@)),
    {
        match self.table.get(topic) {
            Some(set) => {
                add_all(targets, set);
            },
            None => {
                assert(targets@ =~= old(targets)@.union(members(self@, topic@)));
            },
        }
    }

    /// Adds to a set the subscribers of every pattern that covers a channel.
    pub fn add_covering(&self, channel: &[u8], targets: &mut HashSet<u64>)
        requires
            self.inv(),
        ensures
            forall|id: u64| #[trigger] final(targets)@.contains(id) <==> old(targets)@.contains(id)
                || covered_by(self@, channel@, id),
    {
        let total = self.table.len();
        let mut i: usize = 0;
        while i < total
            invariant
                self.inv(),
                i <= total == self.table.key_order().len(),
                forall|id: u64| #[trigger]
                    targets@.contains(id) <==> old(targets)@.contains(id) || (exists|j: int|
                        0 <= j < i && #[trigger] self.covers_at(j, channel@, id)),
            decreases total - i,
        {
            let pair = self.table.at(i);
            let ghost before = targets@;
            assert(self@.contains_key(pair.0@) && self@[pair.0@] == pair.1@);
            if glob::matches_pattern(channel, pair.0.as_slice()) {
                add_all(targets, &pair.1);
            }
            assert forall|id: u64| #[trigger]
                targets@.contains(id) <==> before.contains(id) || self.covers_at(
                    i as int,
                    channel@,
                    id,
                ) by {}
            i = i + 1;
            assert forall|id: u64| #[trigger]
                targets@.contains(id) <==> old(targets)@.contains(id) || (exists|j: int|
                    0 <= j < i && #[trigger] self.covers_at(j, channel@, id)) by {
                if before.contains(id) && !old(targets)@.contains(id) {
                    let j = choose|j: int| 0 <= j < i - 1 && self.covers_at(j, channel@, id);
                    assert(self.covers_at(j, channel@, id));
                }
                if self.covers_at(i - 1, channel@, id) {
                    assert(0 <= i - 1 < i && self.covers_at(i - 1, channel@, id));
                }
            }
        }
        proof {
            self.table.lemma_key_order();
            let order = self.table.key_order();
            assert forall|id: u64|
                (exists|j: int| 0 <= j < total && #[trigger] self.covers_at(j, channel@, id))
                    <==> #[trigger] covered_by(self@, channel@, id) by {
                if covered_by(self@, channel@, id) {
                    let pattern = choose|pattern: Seq<u8>|
                        self@.contains_key(pattern) && covers_for(self@, pattern, channel@, id);
                    assert(order.to_set().contains(pattern));
                    let j = choose|j: int| 0 <= j < order.len() && order[j] == pattern;
                    assert(self.covers_at(j, channel@, id));
                }
                if exists|j: int| 0 <= j < total && #[trigger] self.covers_at(j, channel@, id) {
                    let j = choose|j: int| 0 <= j < total && #[trigger]
                        self.covers_at(j, channel@, id);
                    assert(order.to_set().contains(order[j]));
                    assert(covers_for(self@, order[j], channel@, id));
                }
            }
        }
    }

    /// Whether the pattern at a position covers a channel for a client.
    closed spec fn covers_at(&self, i: int, channel: Seq<u8>, id: u64) -> bool {
        covers_for(self@, self.table.key_order()[i], channel, id)
    }
}

/// Whether a client is subscribed to a pattern, and the pattern covers a channel.
pub open spec fn covers_for(
    patterns: Subscribers,
    pattern: Seq<u8>,
    channel: Seq<u8>,
    id: u64,
) -> bool {
    patterns[pattern].contains(id) && glob::covers(pattern, channel)
}

/// Whether a client is subscribed to some pattern that covers a channel.
pub open spec fn covered_by(patterns: Subscribers, channel: Seq<u8>, id: u64) -> bool {
    exists|pattern: Seq<u8>|
        patterns.contains_key(pattern) && #[trigger] covers_for(patterns, pattern, channel, id)
}

} // verus!
