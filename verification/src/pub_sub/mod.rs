//! Publish/subscribe: which client is subscribed to which channels and patterns, and
//! whom a message on a channel goes to.

pub mod glob;
pub mod laws;
pub mod model;
pub mod topics;

use crate::pub_sub::model::{ClientModel, PubSubModel};
use crate::pub_sub::topics::{Leave, Topics};
use crate::utils::byte_strings;
use crate::utils::bytes_map::BytesMap;
use crate::value;
use crate::value::Value;
use std::collections::{HashMap, HashSet};
use vstd::prelude::*;

pub use glob::matches_pattern;

verus! {

broadcast use vstd::std_specs::hash::group_hash_axioms;

/// What a client is subscribed to.
#[derive(Debug)]
struct ClientState {
    subscribed_channels: BytesMap<()>,
    subscribed_patterns: BytesMap<()>,
}

impl ClientState {
    spec fn model(&self) -> ClientModel {
        ClientModel {
            channels: self.subscribed_channels@.dom(),
            patterns: self.subscribed_patterns@.dom(),
        }
    }

    spec fn inv(&self) -> bool {
        self.subscribed_channels.inv() && self.subscribed_patterns.inv()
    }

    fn new() -> (client: ClientState)
        ensures
            client.inv(),
            client.model() == (ClientModel {
                channels: Set::empty(),
                patterns: Set::empty(),
            }),
    {
        ClientState { subscribed_channels: BytesMap::new(), subscribed_patterns: BytesMap::new() }
    }

    /// Whether the client is subscribed to nothing.
    fn is_bare(&self) -> (bare: bool)
        requires
            self.inv(),
        ensures
            bare == (self.model().channels =~= Set::empty() && self.model().patterns
                =~= Set::empty()),
    {
        let bare = self.subscribed_channels.len() == 0 && self.subscribed_patterns.len() == 0;
        proof {
            self.subscribed_channels.lemma_key_order();
            self.subscribed_patterns.lemma_key_order();
            if self.model().channels.len() == 0 {
                assert(self.model().channels =~= Set::empty());
            }
            if self.model().patterns.len() == 0 {
                assert(self.model().patterns =~= Set::empty());
            }
        }
        bare
    }
}

/// The subscriptions of all clients.
#[derive(Debug)]
pub struct PubSub {
    subs: Topics,
    patterns: Topics,
    clients: HashMap<u64, ClientState>,
}

/// A message, and the clients that it goes to.
#[derive(Debug)]
pub struct Publication {
    pub targets: Vec<u64>,
    pub message: Value,
}

impl View for PubSub {
    type V = PubSubModel;

    closed spec fn view(&self) -> PubSubModel {
        PubSubModel {
            subs: self.subs@,
            patterns: self.patterns@,
            clients: self.clients@.map_values(|client: ClientState| client.model()),
        }
    }
}

/// What a client is told of one topic.
fn notice(kind: &str, topic: &Vec<u8>, count: i64) -> (told: Vec<Value>)
    ensures
        value::replies(told@) == model::notice(kind@, topic@, count),
{
    broadcast use value::lemma_replies_push;

    let name = topic.clone();
    assert(name@ =~= topic@);
    let mut told: Vec<Value> = Vec::new();
    told.push(Value::text(kind));
    told.push(Value::bulk(name));
    told.push(Value::Integer(count));
    assert(value::replies(told@) =~= model::notice(kind@, topic@, count));
    told
}

impl PubSub {
    /// Both sides of the state are maps that say the same.
    pub closed spec fn inv(&self) -> bool {
        &&& self.subs.inv()
        &&& self.patterns.inv()
        &&& forall|id: u64| self.clients@.contains_key(id) ==> (#[trigger] self.clients@[id]).inv()
        &&& self@.consistent()
    }

    /// What callers may rely on between calls.
    pub proof fn lemma_inv(&self)
        requires
            self.inv(),
        ensures
            self@.consistent(),
    {
    }

    /// Nobody is subscribed to anything.
    pub fn new() -> (pub_sub: PubSub)
        ensures
            pub_sub.inv(),
            pub_sub@ == PubSubModel::empty(),
    {
        let pub_sub = PubSub { subs: Topics::new(), patterns: Topics::new(), clients: HashMap::new() };
        assert(pub_sub@ =~= PubSubModel::empty());
        pub_sub
    }

    /// Whether a client is there.
    pub fn has_client(&self, client_id: u64) -> (found: bool)
        requires
            self.inv(),
        ensures
            found == self@.clients.contains_key(client_id),
    {
        self.clients.contains_key(&client_id)
    }

    /// Takes a client's record out, or makes a new one.
    fn take_client(&mut self, client_id: u64) -> (client: ClientState)
        requires
            old(self).inv(),
        ensures
            client.inv(),
            client.model() == old(self)@.client(client_id),
            final(self).subs == old(self).subs,
            final(self).patterns == old(self).patterns,
            final(self).clients@ == old(self).clients@.remove(client_id),
    {
        match self.clients.remove(&client_id) {
            Some(client) => client,
            None => {
                assert(self.clients@ =~= old(self).clients@.remove(client_id));
                ClientState::new()
            },
        }
    }

    /// Makes sure that a client is there.
    pub fn get_or_create_client(&mut self, client_id: u64)
        requires
            old(self).inv(),
        ensures
            final(self).inv(),
            final(self)@ == old(self)@.with_client(client_id),
    {
        let client = self.take_client(client_id);
        self.clients.insert(client_id, client);
        proof {
            assert(self@ =~= old(self)@.with_client(client_id));
            laws::law_new_client_keeps_consistency(old(self)@, client_id);
        }
    }

    /// Subscribes a client to a channel; tells it how many subscribers the channel
    /// then has.
    fn subscribe_single(&mut self, channel: &Vec<u8>, client_id: u64) -> (told: Vec<Value>)
        requires
            old(self).subs.inv(),
        ensures
            final(self).subs.inv(),
            final(self).subs@ == topics::joined(old(self).subs@, set![channel@], client_id),
            final(self).patterns == old(self).patterns,
            final(self).clients == old(self).clients,
            value::replies(told@) == model::notice(
                "subscribe"@,
                channel@,
                topics::members(old(self).subs@, channel@).insert(client_id).len() as i64,
            ),
    {
        let count = self.subs.join(channel, client_id);
        notice("subscribe", channel, count as i64)
    }

    /// Subscribes a client to channels.
    pub fn subscribe(&mut self, channels: Vec<Vec<u8>>, client_id: u64) -> (reply: Value)
        requires
            old(self).inv(),
        ensures
            final(self).inv(),
            final(self)@ == old(self)@.subscribed(byte_strings::names(channels@).to_set(), client_id),
            reply@ == value::array_reply(
                model::join_notices(
                    "subscribe"@,
                    old(self)@.subs,
                    byte_strings::names(channels@),
                    client_id,
                ).flatten(),
            ),
    {
        let ghost before = self@;
        let ghost list = byte_strings::names(channels@);
        let ghost told = model::join_notices("subscribe"@, before.subs, list, client_id);
        let mut client = self.take_client(client_id);
        let mut responses: Vec<Value> = Vec::new();
        let mut i: usize = 0;
        assert(before.subs =~= topics::joined(before.subs, list.take(0).to_set(), client_id)) by {
            assert(list.take(0).to_set() =~= Set::empty());
        }
        while i < channels.len()
            invariant
                i <= channels.len(),
                list == byte_strings::names(channels@),
                told == model::join_notices("subscribe"@, before.subs, list, client_id),
                self.subs.inv(),
                self.subs@ == topics::joined(before.subs, list.take(i as int).to_set(), client_id),
                self.patterns == old(self).patterns,
                self.clients@ == old(self).clients@.remove(client_id),
                value::replies(responses@) == told.take(i as int).flatten(),
                client.inv(),
                client.model().channels == before.client(client_id).channels.union(
                    list.take(i as int).to_set(),
                ),
                client.model().patterns == before.client(client_id).patterns,
            decreases channels.len() - i,
        {
            let ghost n = i as int;
            let mut elements = self.subscribe_single(&channels[i], client_id);
            proof {
                lemma_take_to_set(list, n);
                topics::lemma_join_one_more(before.subs, list.take(n).to_set(), list[n], client_id);
                lemma_replies_append(responses@, elements@);
                lemma_take_flatten(told, n);
            }
            responses.append(&mut elements);
            let name = channels[i].clone();
            assert(name@ =~= list[n]);
            client.subscribed_channels.insert(name, ());
            assert(client.model().channels =~= before.client(client_id).channels.union(
                list.take(n + 1).to_set(),
            ));
            i = i + 1;
        }
        self.clients.insert(client_id, client);
        proof {
            assert(list.take(i as int) =~= list);
            assert(told.take(i as int) =~= told);
            assert(self@ =~= before.subscribed(list.to_set(), client_id));
            laws::law_subscribing_keeps_consistency(
                before,
                list.to_set(),
                Set::empty(),
                client_id,
            );
        }
        Value::array(responses)
    }

    /// Unsubscribes a client from a channel.
    fn unsubscribe_single(&mut self, channel: &Vec<u8>, client_id: u64) -> (told: Vec<Value>)
        requires
            old(self).subs.inv(),
        ensures
            final(self).subs.inv(),
            final(self).subs@ == topics::left(old(self).subs@, set![channel@], client_id),
            final(self).patterns == old(self).patterns,
            final(self).clients == old(self).clients,
            value::replies(told@) == model::notice(
                "unsubscribe"@,
                channel@,
                model::leave_count(topics::members(old(self).subs@, channel@), client_id),
            ),
    {
        proof {
            self.subs.lemma_inv();
        }
        let count = match self.subs.leave(channel, client_id) {
            Leave::Unknown => 0i64,
            Leave::Known { subscribers, was_member } => if was_member {
                subscribers as i64
            } else {
                (subscribers as i64).wrapping_add(1)
            },
        };
        notice("unsubscribe", channel, count)
    }

    /// Strikes channels out of a client's record, if there is one; without a
    /// subscription the client goes.
    fn forget_channels(&mut self, channels: &Vec<Vec<u8>>, client_id: u64)
        requires
            forall|id: u64|
                old(self).clients@.contains_key(id) ==> (#[trigger] old(self).clients@[id]).inv(),
        ensures
            forall|id: u64|
                final(self).clients@.contains_key(id) ==> (#[trigger] final(self).clients@[id]).inv(),
            final(self).subs == old(self).subs,
            final(self).patterns == old(self).patterns,
            final(self)@.clients == old(self)@.settled(
                client_id,
                ClientModel {
                    channels: old(self)@.client(client_id).channels.difference(
                        byte_strings::names(channels@).to_set(),
                    ),
                    patterns: old(self)@.client(client_id).patterns,
                },
            ),
    {
        let ghost list = byte_strings::names(channels@);
        match self.clients.remove(&client_id) {
            Some(found) => {
                let mut client = found;
                let ghost before = client.model();
                let mut i: usize = 0;
                assert(before.channels =~= before.channels.difference(list.take(0).to_set()));
                while i < channels.len()
                    invariant
                        i <= channels.len(),
                        list == byte_strings::names(channels@),
                        client.inv(),
                        client.model().channels == before.channels.difference(
                            list.take(i as int).to_set(),
                        ),
                        client.model().patterns == before.patterns,
                    decreases channels.len() - i,
                {
                    client.subscribed_channels.remove(&channels[i]);
                    proof {
                        lemma_take_to_set(list, i as int);
                        assert(client.model().channels =~= before.channels.difference(
                            list.take(i + 1).to_set(),
                        ));
                    }
                    i = i + 1;
                }
                assert(list.take(i as int) =~= list);
                let bare = client.is_bare();
                if !bare {
                    self.clients.insert(client_id, client);
                }
                assert(before == old(self)@.client(client_id));
                assert(self@.clients =~= old(self)@.settled(client_id, client.model()));
            },
            None => {
                assert(self@.clients =~= old(self)@.clients);
            },
        }
    }

    /// Unsubscribes a client from channels.
    pub fn unsubscribe(&mut self, channels: Vec<Vec<u8>>, client_id: u64) -> (reply: Value)
        requires
            old(self).inv(),
        ensures
            final(self).inv(),
            final(self)@ == old(self)@.unsubscribed(byte_strings::names(channels@).to_set(), client_id),
            reply@ == value::array_reply(
                model::leave_notices(old(self)@.subs, byte_strings::names(channels@), client_id).flatten(),
            ),
    {
        let ghost before = self@;
        let ghost list = byte_strings::names(channels@);
        let ghost told = model::leave_notices(before.subs, list, client_id);
        let mut responses: Vec<Value> = Vec::new();
        let mut i: usize = 0;
        assert(before.subs =~= topics::left(before.subs, list.take(0).to_set(), client_id)) by {
            assert(list.take(0).to_set() =~= Set::empty());
        }
        while i < channels.len()
            invariant
                i <= channels.len(),
                list == byte_strings::names(channels@),
                told == model::leave_notices(before.subs, list, client_id),
                self.subs.inv(),
                self.subs@ == topics::left(before.subs, list.take(i as int).to_set(), client_id),
                self.patterns == old(self).patterns,
                self.clients == old(self).clients,
                value::replies(responses@) == told.take(i as int).flatten(),
            decreases channels.len() - i,
        {
            let ghost n = i as int;
            let mut elements = self.unsubscribe_single(&channels[i], client_id);
            proof {
                lemma_take_to_set(list, n);
                topics::lemma_leave_one_more(before.subs, list.take(n).to_set(), list[n], client_id);
                lemma_replies_append(responses@, elements@);
                lemma_take_flatten(told, n);
            }
            responses.append(&mut elements);
            i = i + 1;
        }
        self.forget_channels(&channels, client_id);
        proof {
            assert(list.take(i as int) =~= list);
            assert(told.take(i as int) =~= told);
            assert(self@ =~= before.unsubscribed(list.to_set(), client_id));
            laws::law_unsubscribing_keeps_consistency(
                before,
                list.to_set(),
                Set::empty(),
                client_id,
            );
        }
        Value::array(responses)
    }

    /// The channels that a client is subscribed to.
    pub fn channels_of(&self, client_id: u64) -> (channels: Vec<Vec<u8>>)
        requires
            self.inv(),
        ensures
            byte_strings::names(channels@).no_duplicates(),
            byte_strings::names(channels@).to_set() == self@.client(client_id).channels,
    {
        let mut channels: Vec<Vec<u8>> = Vec::new();
        match self.clients.get(&client_id) {
            Some(client) => {
                let total = client.subscribed_channels.len();
                let ghost order = client.subscribed_channels.key_order();
                let mut i: usize = 0;
                while i < total
                    invariant
                        i <= total == order.len(),
                        client.inv(),
                        order == client.subscribed_channels.key_order(),
                        byte_strings::names(channels@) == order.take(i as int),
                    decreases total - i,
                {
                    let name = client.subscribed_channels.at(i).0.clone();
                    assert(name@ =~= order[i as int]);
                    let ghost listed = channels@;
                    channels.push(name);
                    assert(byte_strings::names(channels@) =~= byte_strings::names(listed).push(order[i as int]));
                    assert(order.take(i + 1) =~= order.take(i as int).push(order[i as int]));
                    i = i + 1;
                }
                proof {
                    assert(order.take(i as int) =~= order);
                    client.subscribed_channels.lemma_key_order();
                    assert(self@.client(client_id) == client.model());
                }
            },
            None => {
                assert(byte_strings::names(channels@).to_set() =~= Set::empty());
            },
        }
        channels
    }

    /// Unsubscribes a client from all its channels.
    pub fn unsubscribe_all_channels(&mut self, client_id: u64) -> (reply: Value)
        requires
            old(self).inv(),
        ensures
            final(self).inv(),
            final(self)@ == old(self)@.unsubscribed(
                old(self)@.client(client_id).channels,
                client_id,
            ),
            exists|channels: Seq<Seq<u8>>|
                #![trigger model::farewell(old(self)@.subs, channels)]
                channels.no_duplicates() && channels.to_set() == old(self)@.client(
                    client_id,
                ).channels && reply@ == value::array_reply(
                    model::farewell(old(self)@.subs, channels),
                ),
    {
        let ghost before = self@;
        let channels = self.channels_of(client_id);
        let ghost list = byte_strings::names(channels@);
        let ghost told = model::farewell(before.subs, list);
        let mut responses: Vec<Value> = Vec::new();
        let mut i: usize = 0;
        assert(before.subs =~= topics::left(before.subs, list.take(0).to_set(), client_id)) by {
            assert(list.take(0).to_set() =~= Set::empty());
        }
        while i < channels.len()
            invariant
                i <= channels.len(),
                list == byte_strings::names(channels@),
                list.no_duplicates(),
                list.to_set() == before.client(client_id).channels,
                before.consistent(),
                told == model::farewell(before.subs, list),
                self.subs.inv(),
                self.subs@ == topics::left(before.subs, list.take(i as int).to_set(), client_id),
                self.patterns == old(self).patterns,
                self.clients == old(self).clients,
                value::replies(responses@) == told.take(i as int),
            decreases channels.len() - i,
        {
            broadcast use value::lemma_replies_push;

            let ghost n = i as int;
            proof {
                lemma_take_to_set(list, n);
                topics::lemma_leave_one_more(before.subs, list.take(n).to_set(), list[n], client_id);
                assert(!list.take(n).contains(list[n]));
                assert(list.to_set().contains(list[n]));
                assert(before.client(client_id).channels.contains(list[n]));
            }
            match self.subs.leave(&channels[i], client_id) {
                Leave::Known { subscribers, was_member } => {
                    let elements = notice("unsubscribe", &channels[i], subscribers as i64);
                    responses.push(Value::array(elements));
                },
                Leave::Unknown => {},
            }
            assert(told.take(n + 1) =~= told.take(n).push(told[n]));
            i = i + 1;
        }
        self.forget_channels(&channels, client_id);
        proof {
            assert(list.take(i as int) =~= list);
            assert(told.take(i as int) =~= told);
            assert(self@ =~= before.unsubscribed(list.to_set(), client_id));
            laws::law_unsubscribing_keeps_consistency(
                before,
                list.to_set(),
                Set::empty(),
                client_id,
            );
        }
        Value::array(responses)
    }

    /// Subscribes a client to a pattern; tells it how many subscribers the pattern
    /// then has.
    fn psubscribe_single(&mut self, pattern: &Vec<u8>, client_id: u64) -> (told: Value)
        requires
            old(self).patterns.inv(),
        ensures
            final(self).patterns.inv(),
            final(self).patterns@ == topics::joined(old(self).patterns@, set![pattern@], client_id),
            final(self).subs == old(self).subs,
            final(self).clients == old(self).clients,
            told@ == value::array_reply(
                model::notice(
                    "psubscribe"@,
                    pattern@,
                    topics::members(old(self).patterns@, pattern@).insert(client_id).len() as i64,
                ),
            ),
    {
        let count = self.patterns.join(pattern, client_id);
        Value::array(notice("psubscribe", pattern, count as i64))
    }

    /// Subscribes a client to patterns.
    pub fn psubscribe(&mut self, patterns: Vec<Vec<u8>>, client_id: u64) -> (reply: Value)
        requires
            old(self).inv(),
        ensures
            final(self).inv(),
            final(self)@ == old(self)@.psubscribed(byte_strings::names(patterns@).to_set(), client_id),
            reply@ == value::array_reply(
                model::join_notices(
                    "psubscribe"@,
                    old(self)@.patterns,
                    byte_strings::names(patterns@),
                    client_id,
                ).map_values(|told: Seq<value::Reply>| value::array_reply(told)),
            ),
    {
        let ghost before = self@;
        let ghost list = byte_strings::names(patterns@);
        let ghost told = model::join_notices(
            "psubscribe"@,
            before.patterns,
            list,
            client_id,
        ).map_values(|told: Seq<value::Reply>| value::array_reply(told));
        let mut client = self.take_client(client_id);
        let mut responses: Vec<Value> = Vec::new();
        let mut i: usize = 0;
        assert(before.patterns =~= topics::joined(
            before.patterns,
            list.take(0).to_set(),
            client_id,
        )) by {
            assert(list.take(0).to_set() =~= Set::empty());
        }
        while i < patterns.len()
            invariant
                i <= patterns.len(),
                list == byte_strings::names(patterns@),
                told == model::join_notices(
                    "psubscribe"@,
                    before.patterns,
                    list,
                    client_id,
                ).map_values(|told: Seq<value::Reply>| value::array_reply(told)),
                self.patterns.inv(),
                self.patterns@ == topics::joined(
                    before.patterns,
                    list.take(i as int).to_set(),
                    client_id,
                ),
                self.subs == old(self).subs,
                self.clients@ == old(self).clients@.remove(client_id),
                value::replies(responses@) == told.take(i as int),
                client.inv(),
                client.model().patterns == before.client(client_id).patterns.union(
                    list.take(i as int).to_set(),
                ),
                client.model().channels == before.client(client_id).channels,
            decreases patterns.len() - i,
        {
            broadcast use value::lemma_replies_push;

            let ghost n = i as int;
            let response = self.psubscribe_single(&patterns[i], client_id);
            proof {
                lemma_take_to_set(list, n);
                topics::lemma_join_one_more(
                    before.patterns,
                    list.take(n).to_set(),
                    list[n],
                    client_id,
                );
                assert(told.take(n + 1) =~= told.take(n).push(told[n]));
            }
            responses.push(response);
            let name = patterns[i].clone();
            assert(name@ =~= list[n]);
            client.subscribed_patterns.insert(name, ());
            assert(client.model().patterns =~= before.client(client_id).patterns.union(
                list.take(n + 1).to_set(),
            ));
            i = i + 1;
        }
        self.clients.insert(client_id, client);
        proof {
            assert(list.take(i as int) =~= list);
            assert(told.take(i as int) =~= told);
            assert(self@ =~= before.psubscribed(list.to_set(), client_id));
            laws::law_subscribing_keeps_consistency(
                before,
                Set::empty(),
                list.to_set(),
                client_id,
            );
        }
        Value::array(responses)
    }

    /// Unsubscribes a client from a pattern; an error if it is not subscribed to it.
    pub fn punsubscribe(&mut self, pattern: &[u8], client_id: u64) -> (reply: Result<
        Value,
        Value,
    >)
        requires
            old(self).inv(),
        ensures
            final(self).inv(),
            match reply {
                Ok(told) => {
                    &&& topics::members(old(self)@.patterns, pattern@).contains(client_id)
                    &&& final(self)@ == old(self)@.punsubscribed(set![pattern@], client_id)
                    &&& told@ == value::array_reply(
                        model::notice(
                            "punsubscribe"@,
                            pattern@,
                            topics::members(old(self)@.patterns, pattern@).len() as i64,
                        ),
                    )
                },
                Err(error) => {
                    &&& !topics::members(old(self)@.patterns, pattern@).contains(client_id)
                    &&& final(self)@ == old(self)@
                    &&& error@ == value::Reply::Error("no such pattern subscription"@)
                },
            },
    {
        let ghost before = self@;
        let name = vstd::slice::slice_to_vec(pattern);
        proof {
            self.patterns.lemma_inv();
        }
        if let Leave::Known { subscribers, was_member: true } = self.patterns.leave(
            &name,
            client_id,
        ) {
            match self.clients.remove(&client_id) {
                Some(found) => {
                    let mut client = found;
                    let ghost listed = client.model();
                    client.subscribed_patterns.remove(&name);
                    assert(client.model().patterns =~= listed.patterns.difference(set![pattern@]));
                    let bare = client.is_bare();
                    if !bare {
                        self.clients.insert(client_id, client);
                    }
                    assert(listed == before.client(client_id));
                    assert(self@.clients =~= before.settled(client_id, client.model()));
                },
                None => {
                    assert(self@.clients =~= before.clients);
                },
            }
            proof {
                assert(self@ =~= before.punsubscribed(set![pattern@], client_id));
                laws::law_unsubscribing_keeps_consistency(
                    before,
                    Set::empty(),
                    set![pattern@],
                    client_id,
                );
            }
            return Ok(Value::array(notice("punsubscribe", &name, subscribers as i64)));
        }
        assert(self.patterns@ =~= before.patterns) by {
            let members = topics::members(before.patterns, pattern@);
            assert(members.remove(client_id) =~= members);
        }
        assert(self@ =~= before);
        Err(Value::error("no such pattern subscription"))
    }

    /// Whom a message on a channel goes to.
    pub fn publish(&self, channel: &[u8], message: Value) -> (publication: Publication)
        requires
            self.inv(),
        ensures
            publication.message == message,
            publication.targets@.no_duplicates(),
            forall|id: u64| #[trigger]
                publication.targets@.contains(id) <==> self@.is_target(channel@, id),
    {
        let name = vstd::slice::slice_to_vec(channel);
        let mut targets: HashSet<u64> = HashSet::new();
        self.subs.add_members(&name, &mut targets);
        self.patterns.add_covering(channel, &mut targets);
        let found = topics::list_of(&targets);
        assert forall|id: u64| #[trigger] found@.contains(id) <==> targets@.contains(id) by {
            assert(found@.to_set().contains(id) == targets@.contains(id));
        }
        let mut present: Vec<u64> = Vec::new();
        let mut i: usize = 0;
        while i < found.len()
            invariant
                self.inv(),
                i <= found.len(),
                found@.no_duplicates(),
                present@.no_duplicates(),
                forall|id: u64| #[trigger]
                    present@.contains(id) <==> found@.take(i as int).contains(id)
                        && self@.clients.contains_key(id),
            decreases found.len() - i,
        {
            let ghost before = present@;
            let ghost id = found@[i as int];
            assert(!found@.take(i as int).contains(id));
            assert(!before.contains(id));
            if self.clients.contains_key(&found[i]) {
                present.push(found[i]);
            }
            proof {
                assert(found@.take(i + 1) =~= found@.take(i as int).push(id));
                assert forall|other: u64| #[trigger]
                    present@.contains(other) <==> found@.take(i + 1).contains(other)
                        && self@.clients.contains_key(other) by {
                    byte_strings::lemma_push_contains(found@.take(i as int), id, other);
                    byte_strings::lemma_push_contains(before, id, other);
                }
            }
            i = i + 1;
        }
        assert(found@.take(i as int) =~= found@);
        Publication { targets: present, message }
    }

    /// What a client's message on a channel is, and whom it goes to.
    pub fn publish_message(&self, channel: &[u8], message: Vec<u8>) -> (publication: Publication)
        requires
            self.inv(),
        ensures
            publication.message@ == model::message_reply(channel@, message@),
            publication.targets@.no_duplicates(),
            forall|id: u64| #[trigger]
                publication.targets@.contains(id) <==> self@.is_target(channel@, id),
    {
        broadcast use value::lemma_replies_push;

        let name = vstd::slice::slice_to_vec(channel);
        let mut parts: Vec<Value> = Vec::new();
        parts.push(Value::text("message"));
        parts.push(Value::bulk(name));
        parts.push(Value::bulk(message));
        assert(value::replies(parts@) =~= seq![
            value::text_reply("message"@),
            value::bulk_reply(channel@),
            value::bulk_reply(message@),
        ]);
        let pub_msg = Value::array(parts);
        self.publish(channel, pub_msg)
    }

    /// Removes a client from everywhere.
    pub fn remove_client(&mut self, client_id: u64)
        requires
            old(self).inv(),
        ensures
            final(self).inv(),
            final(self)@ == old(self)@.without_client(client_id),
    {
        self.subs.leave_everywhere(client_id);
        self.patterns.leave_everywhere(client_id);
        self.clients.remove(&client_id);
        proof {
            assert(self@ =~= old(self)@.without_client(client_id));
            laws::law_removing_keeps_consistency(old(self)@, client_id);
        }
    }
}

impl Publication {
    /// The reply to whoever published: to how many targets the message was sent.
    pub fn reply(outcomes: &Vec<bool>) -> (reply: Value)
        ensures
            reply@ == value::Reply::Integer(
                outcomes@.filter(|sent: bool| sent).len() as i64,
            ),
    {
        let mut delivered: usize = 0;
        let mut i: usize = 0;
        while i < outcomes.len()
            invariant
                i <= outcomes.len(),
                delivered <= i,
                delivered == outcomes@.take(i as int).filter(|sent: bool| sent).len(),
            decreases outcomes.len() - i,
        {
            if outcomes[i] {
                delivered = delivered + 1;
            }
            proof {
                reveal(Seq::filter);
                assert(outcomes@.take(i + 1).drop_last() =~= outcomes@.take(i as int));
            }
            i = i + 1;
        }
        assert(outcomes@.take(i as int) =~= outcomes@);
        Value::Integer(delivered as i64)
    }
}

/// One more name of a list is one more element of a set.
proof fn lemma_take_to_set(list: Seq<Seq<u8>>, n: int)
    requires
        0 <= n < list.len(),
    ensures
        list.take(n + 1).to_set() == list.take(n).to_set().insert(list[n]),
{
    assert(list.take(n + 1) =~= list.take(n).push(list[n]));
    list.take(n).lemma_push_to_set_commute(list[n]);
}

/// One more list of a list of lists comes at the end of their concatenation.
proof fn lemma_take_flatten(lists: Seq<Seq<value::Reply>>, n: int)
    requires
        0 <= n < lists.len(),
    ensures
        lists.take(n + 1).flatten() == lists.take(n).flatten() + lists[n],
{
    assert(lists.take(n + 1) =~= lists.take(n).push(lists[n]));
    lists.take(n).lemma_flatten_push(lists[n]);
}

/// Two lists one after the other are seen one after the other.
proof fn lemma_replies_append(first: Seq<Value>, second: Seq<Value>)
    ensures
        value::replies(first + second) == value::replies(first) + value::replies(second),
{
    value::lemma_replies(first);
    value::lemma_replies(second);
    value::lemma_replies(first + second);
    assert(value::replies(first + second) =~= value::replies(first) + value::replies(second));
}

} // verus!
