//! What publish/subscribe state is, and what each operation makes of it.

use crate::pub_sub::topics;
use crate::pub_sub::topics::Subscribers;
use crate::value;
use crate::value::Reply;
use vstd::prelude::*;

verus! {

/// What a client is subscribed to.
#[verifier::ext_equal]
pub struct ClientModel {
    pub channels: Set<Seq<u8>>,
    pub patterns: Set<Seq<u8>>,
}

/// The subscribers of each channel and of each pattern, and the clients.
#[verifier::ext_equal]
pub struct PubSubModel {
    pub subs: Subscribers,
    pub patterns: Subscribers,
    pub clients: Map<u64, ClientModel>,
}

impl PubSubModel {
    /// Nobody is there.
    pub open spec fn empty() -> PubSubModel {
        PubSubModel { subs: Map::empty(), patterns: Map::empty(), clients: Map::empty() }
    }

    /// What a client is subscribed to; nothing if it is not there.
    pub open spec fn client(self, id: u64) -> ClientModel {
        if self.clients.contains_key(id) {
            self.clients[id]
        } else {
            ClientModel { channels: Set::empty(), patterns: Set::empty() }
        }
    }

    /// The two sides say the same: a client lists a topic exactly if the topic lists
    /// the client. No topic is listed without subscribers.
    pub open spec fn consistent(self) -> bool {
        &&& topics::no_topic_is_deserted(self.subs)
        &&& topics::no_topic_is_deserted(self.patterns)
        &&& forall|id: u64, topic: Seq<u8>| #[trigger]
            self.client(id).channels.contains(topic) <==> topics::members(
                self.subs,
                topic,
            ).contains(id)
        &&& forall|id: u64, topic: Seq<u8>| #[trigger]
            self.client(id).patterns.contains(topic) <==> topics::members(
                self.patterns,
                topic,
            ).contains(id)
    }

    /// With a client, new or not.
    pub open spec fn with_client(self, id: u64) -> PubSubModel {
        PubSubModel { clients: self.clients.insert(id, self.client(id)), ..self }
    }

    /// The clients once one of them, if it is there, is subscribed to other topics
    /// than before: without any it goes.
    pub open spec fn settled(self, id: u64, client: ClientModel) -> Map<u64, ClientModel> {
        if !self.clients.contains_key(id) {
            self.clients
        } else if client.channels =~= Set::empty() && client.patterns =~= Set::empty() {
            self.clients.remove(id)
        } else {
            self.clients.insert(id, client)
        }
    }

    /// After a client has subscribed to channels.
    pub open spec fn subscribed(self, channels: Set<Seq<u8>>, id: u64) -> PubSubModel {
        let client = self.client(id);
        PubSubModel {
            subs: topics::joined(self.subs, channels, id),
            clients: self.clients.insert(
                id,
                ClientModel { channels: client.channels.union(channels), ..client },
            ),
            ..self
        }
    }

    /// After a client has subscribed to patterns.
    pub open spec fn psubscribed(self, patterns: Set<Seq<u8>>, id: u64) -> PubSubModel {
        let client = self.client(id);
        PubSubModel {
            patterns: topics::joined(self.patterns, patterns, id),
            clients: self.clients.insert(
                id,
                ClientModel { patterns: client.patterns.union(patterns), ..client },
            ),
            ..self
        }
    }

    /// After a client has unsubscribed from channels.
    pub open spec fn unsubscribed(self, channels: Set<Seq<u8>>, id: u64) -> PubSubModel {
        let client = self.client(id);
        PubSubModel {
            subs: topics::left(self.subs, channels, id),
            clients: self.settled(
                id,
                ClientModel { channels: client.channels.difference(channels), ..client },
            ),
            ..self
        }
    }

    /// After a client has unsubscribed from patterns.
    pub open spec fn punsubscribed(self, patterns: Set<Seq<u8>>, id: u64) -> PubSubModel {
        let client = self.client(id);
        PubSubModel {
            patterns: topics::left(self.patterns, patterns, id),
            clients: self.settled(
                id,
                ClientModel { patterns: client.patterns.difference(patterns), ..client },
            ),
            ..self
        }
    }

    /// After a client is gone.
    pub open spec fn without_client(self, id: u64) -> PubSubModel {
        PubSubModel {
            subs: topics::left(self.subs, self.subs.dom(), id),
            patterns: topics::left(self.patterns, self.patterns.dom(), id),
            clients: self.clients.remove(id),
        }
    }

    /// Whether a message on a channel goes to a client: it is there, and is subscribed
    /// to the channel or to a pattern that covers it.
    pub open spec fn is_target(self, channel: Seq<u8>, id: u64) -> bool {
        &&& self.clients.contains_key(id)
        &&& topics::members(self.subs, channel).contains(id)
            || topics::covered_by(self.patterns, channel, id)
    }
}

/// What a client is told of one topic: what it did, to which topic, and a count.
pub open spec fn notice(kind: Seq<char>, topic: Seq<u8>, count: i64) -> Seq<Reply> {
    seq![
        value::text_reply(kind),
        value::bulk_reply(topic),
        Reply::Integer(count),
    ]
}

/// What a client is told of each topic that it joins, one after the other: how many
/// subscribers the topic then has.
pub open spec fn join_notices(
    kind: Seq<char>,
    subscribers: Subscribers,
    topics: Seq<Seq<u8>>,
    id: u64,
) -> Seq<Seq<Reply>> {
    Seq::new(
        topics.len(),
        |i: int|
            notice(
                kind,
                topics[i],
                topics::members(subscribers, topics[i]).insert(id).len() as i64,
            ),
    )
}

/// The count that a client is told when it leaves a topic: how many subscribers it
/// had; one more if the client was not one of them; none if it had none.
pub open spec fn leave_count(subscribers: Set<u64>, id: u64) -> i64 {
    if subscribers =~= Set::empty() {
        0
    } else if subscribers.contains(id) {
        subscribers.len() as i64
    } else {
        (subscribers.len() as i64).wrapping_add(1)
    }
}

/// The subscribers of the topic at a position of a list, once a client has left the
/// topics before it.
pub open spec fn members_at(
    subscribers: Subscribers,
    topics: Seq<Seq<u8>>,
    id: u64,
    i: int,
) -> Set<u64> {
    let before = topics::members(subscribers, topics[i]);
    if topics.take(i).contains(topics[i]) {
        before.remove(id)
    } else {
        before
    }
}

/// What a client is told of each channel that it leaves, one after the other.
pub open spec fn leave_notices(
    subscribers: Subscribers,
    topics: Seq<Seq<u8>>,
    id: u64,
) -> Seq<Seq<Reply>> {
    Seq::new(
        topics.len(),
        |i: int|
            notice(
                "unsubscribe"@,
                topics[i],
                leave_count(members_at(subscribers, topics, id, i), id),
            ),
    )
}

/// What a client is told when it leaves all its channels, listed in some order.
pub open spec fn farewell(subscribers: Subscribers, channels: Seq<Seq<u8>>) -> Seq<Reply> {
    Seq::new(
        channels.len(),
        |i: int|
            value::array_reply(
                notice(
                    "unsubscribe"@,
                    channels[i],
                    topics::members(subscribers, channels[i]).len() as i64,
                ),
            ),
    )
}

/// What is sent to the targets of a message on a channel.
pub open spec fn message_reply(channel: Seq<u8>, message: Seq<u8>) -> Reply {
    value::array_reply(
        seq![
            value::text_reply("message"@),
            value::bulk_reply(channel),
            value::bulk_reply(message),
        ],
    )
}

} // verus!
