//! What holds of publish/subscribe as a whole.

use crate::pub_sub::glob;
use crate::pub_sub::model;
use crate::pub_sub::model::{ClientModel, PubSubModel};
use crate::pub_sub::topics;
use crate::pub_sub::topics::Subscribers;
use crate::value::Reply;
use vstd::prelude::*;

verus! {

/// Making a client known keeps the two sides in agreement.
pub proof fn law_new_client_keeps_consistency(state: PubSubModel, id: u64)
    requires
        state.consistent(),
    ensures
        state.with_client(id).consistent(),
{
    let after = state.with_client(id);
    assert forall|other: u64| after.client(other) == #[trigger] state.client(other) by {}
    assert forall|other: u64, topic: Seq<u8>| #[trigger]
        after.client(other).channels.contains(topic) <==> topics::members(
            after.subs,
            topic,
        ).contains(other) by {
        assert(after.client(other) == state.client(other));
    }
    assert forall|other: u64, topic: Seq<u8>| #[trigger]
        after.client(other).patterns.contains(topic) <==> topics::members(
            after.patterns,
            topic,
        ).contains(other) by {
        assert(after.client(other) == state.client(other));
    }
}

/// Joining topics subscribes the client to them, and changes nothing else.
pub proof fn law_join(
    subscribers: Subscribers,
    topics: Set<Seq<u8>>,
    id: u64,
)
    ensures
        forall|topic: Seq<u8>, other: u64| #[trigger]
            topics::members(
                topics::joined(subscribers, topics, id),
                topic,
            ).contains(other) <==> topics::members(subscribers, topic).contains(
                other,
            ) || (other == id && topics.contains(topic)),
        topics::no_topic_is_deserted(subscribers)
            ==> topics::no_topic_is_deserted(
            topics::joined(subscribers, topics, id),
        ),
{
    let after = topics::joined(subscribers, topics, id);
    if topics::no_topic_is_deserted(subscribers) {
        assert forall|topic: Seq<u8>| after.contains_key(topic) implies !(#[trigger] after[topic]
            =~= Set::empty()) by {
            if topics.contains(topic) {
                assert(after[topic].contains(id));
            } else {
                assert(after[topic] == subscribers[topic]);
            }
        }
    }
}

/// Leaving topics unsubscribes the client from them, and changes nothing else.
pub proof fn law_leave(
    subscribers: Subscribers,
    topics: Set<Seq<u8>>,
    id: u64,
)
    ensures
        forall|topic: Seq<u8>, other: u64| #[trigger]
            topics::members(
                topics::left(subscribers, topics, id),
                topic,
            ).contains(other) <==> topics::members(subscribers, topic).contains(
                other,
            ) && !(other == id && topics.contains(topic)),
        topics::no_topic_is_deserted(subscribers)
            ==> topics::no_topic_is_deserted(
            topics::left(subscribers, topics, id),
        ),
{
    let after = topics::left(subscribers, topics, id);
    assert forall|topic: Seq<u8>, other: u64| #[trigger]
        topics::members(after, topic).contains(other)
            <==> topics::members(subscribers, topic).contains(other) && !(other
            == id && topics.contains(topic)) by {
        if topics::members(subscribers, topic).contains(other) && !(other == id
            && topics.contains(topic)) {
            if topics.contains(topic) {
                assert(subscribers[topic].remove(id).contains(other));
            }
        }
    }
    if topics::no_topic_is_deserted(subscribers) {
        assert forall|topic: Seq<u8>| after.contains_key(topic) implies !(#[trigger] after[topic]
            =~= Set::empty()) by {
            if !topics.contains(topic) {
                assert(after[topic] == subscribers[topic]);
            }
        }
    }
}

/// Subscribing keeps the two sides in agreement.
pub proof fn law_subscribing_keeps_consistency(
    state: PubSubModel,
    channels: Set<Seq<u8>>,
    patterns: Set<Seq<u8>>,
    id: u64,
)
    requires
        state.consistent(),
    ensures
        state.subscribed(channels, id).consistent(),
        state.psubscribed(patterns, id).consistent(),
{
    law_join(state.subs, channels, id);
    law_join(state.patterns, patterns, id);
    let after = state.subscribed(channels, id);
    assert forall|other: u64, topic: Seq<u8>| #[trigger]
        after.client(other).channels.contains(topic) <==> topics::members(
            after.subs,
            topic,
        ).contains(other) by {
        assert(state.client(other).channels.contains(topic) <==> topics::members(
            state.subs,
            topic,
        ).contains(other));
    }
    assert forall|other: u64, topic: Seq<u8>| #[trigger]
        after.client(other).patterns.contains(topic) <==> topics::members(
            after.patterns,
            topic,
        ).contains(other) by {
        assert(after.client(other).patterns == state.client(other).patterns);
    }
    let after = state.psubscribed(patterns, id);
    assert forall|other: u64, topic: Seq<u8>| #[trigger]
        after.client(other).patterns.contains(topic) <==> topics::members(
            after.patterns,
            topic,
        ).contains(other) by {
        assert(state.client(other).patterns.contains(topic) <==> topics::members(
            state.patterns,
            topic,
        ).contains(other));
    }
    assert forall|other: u64, topic: Seq<u8>| #[trigger]
        after.client(other).channels.contains(topic) <==> topics::members(
            after.subs,
            topic,
        ).contains(other) by {
        assert(after.client(other).channels == state.client(other).channels);
    }
}

/// What a client is subscribed to after `settled` is what it was given.
proof fn lemma_settled(
    state: PubSubModel,
    id: u64,
    client: ClientModel,
    other: u64,
)
    requires
        !state.clients.contains_key(id) ==> client.channels =~= Set::empty() && client.patterns
            =~= Set::empty(),
    ensures
        (PubSubModel { clients: state.settled(id, client), ..state }).client(other) == (if other
            == id {
            client
        } else {
            state.client(other)
        }),
{
    assert((PubSubModel { clients: state.settled(id, client), ..state }).client(other) =~= (
    if other == id {
        client
    } else {
        state.client(other)
    }));
}

/// Unsubscribing keeps the two sides in agreement.
pub proof fn law_unsubscribing_keeps_consistency(
    state: PubSubModel,
    channels: Set<Seq<u8>>,
    patterns: Set<Seq<u8>>,
    id: u64,
)
    requires
        state.consistent(),
    ensures
        state.unsubscribed(channels, id).consistent(),
        state.punsubscribed(patterns, id).consistent(),
{
    law_leave(state.subs, channels, id);
    law_leave(state.patterns, patterns, id);
    let client = state.client(id);
    let fewer = ClientModel {
        channels: client.channels.difference(channels),
        ..client
    };
    let after = state.unsubscribed(channels, id);
    assert forall|other: u64| #[trigger]
        after.client(other) == (if other == id {
            fewer
        } else {
            state.client(other)
        }) by {
        lemma_settled(state, id, fewer, other);
    }
    assert forall|other: u64, topic: Seq<u8>| #[trigger]
        after.client(other).channels.contains(topic) <==> topics::members(
            after.subs,
            topic,
        ).contains(other) by {
        assert(state.client(other).channels.contains(topic) <==> topics::members(
            state.subs,
            topic,
        ).contains(other));
    }
    assert forall|other: u64, topic: Seq<u8>| #[trigger]
        after.client(other).patterns.contains(topic) <==> topics::members(
            after.patterns,
            topic,
        ).contains(other) by {
        assert(after.client(other).patterns == state.client(other).patterns);
    }
    let fewer = ClientModel {
        patterns: client.patterns.difference(patterns),
        ..client
    };
    let after = state.punsubscribed(patterns, id);
    assert forall|other: u64| #[trigger]
        after.client(other) == (if other == id {
            fewer
        } else {
            state.client(other)
        }) by {
        lemma_settled(state, id, fewer, other);
    }
    assert forall|other: u64, topic: Seq<u8>| #[trigger]
        after.client(other).patterns.contains(topic) <==> topics::members(
            after.patterns,
            topic,
        ).contains(other) by {
        assert(state.client(other).patterns.contains(topic) <==> topics::members(
            state.patterns,
            topic,
        ).contains(other));
    }
    assert forall|other: u64, topic: Seq<u8>| #[trigger]
        after.client(other).channels.contains(topic) <==> topics::members(
            after.subs,
            topic,
        ).contains(other) by {
        assert(after.client(other).channels == state.client(other).channels);
    }
}

/// Removing a client keeps the two sides in agreement.
pub proof fn law_removing_keeps_consistency(state: PubSubModel, id: u64)
    requires
        state.consistent(),
    ensures
        state.without_client(id).consistent(),
{
    law_leave(state.subs, state.subs.dom(), id);
    law_leave(state.patterns, state.patterns.dom(), id);
    let after = state.without_client(id);
    assert forall|other: u64, topic: Seq<u8>| #[trigger]
        after.client(other).channels.contains(topic) <==> topics::members(
            after.subs,
            topic,
        ).contains(other) by {
        assert(state.client(other).channels.contains(topic) <==> topics::members(
            state.subs,
            topic,
        ).contains(other));
    }
    assert forall|other: u64, topic: Seq<u8>| #[trigger]
        after.client(other).patterns.contains(topic) <==> topics::members(
            after.patterns,
            topic,
        ).contains(other) by {
        assert(state.client(other).patterns.contains(topic) <==> topics::members(
            state.patterns,
            topic,
        ).contains(other));
    }
}

/// A client that subscribes to channels is a target of what is published on them.
pub proof fn law_subscriber_is_reached(
    state: PubSubModel,
    channels: Set<Seq<u8>>,
    id: u64,
    channel: Seq<u8>,
)
    requires
        channels.contains(channel),
    ensures
        state.subscribed(channels, id).is_target(channel, id),
{
    law_join(state.subs, channels, id);
}

/// A client that subscribes to patterns is a target of what is published on every
/// channel that one of them covers.
pub proof fn law_pattern_subscriber_is_reached(
    state: PubSubModel,
    patterns: Set<Seq<u8>>,
    id: u64,
    pattern: Seq<u8>,
    channel: Seq<u8>,
)
    requires
        patterns.contains(pattern),
        glob::covers(pattern, channel),
    ensures
        state.psubscribed(patterns, id).is_target(channel, id),
{
    let after = state.psubscribed(patterns, id).patterns;
    assert(after.contains_key(pattern) && topics::covers_for(
        after,
        pattern,
        channel,
        id,
    ));
}

/// A client that unsubscribes from a channel is no target of what is published on it,
/// unless it is subscribed to a pattern that covers the channel.
pub proof fn law_unsubscribed_is_not_reached(
    state: PubSubModel,
    channels: Set<Seq<u8>>,
    id: u64,
    channel: Seq<u8>,
)
    requires
        channels.contains(channel),
        !topics::covered_by(state.patterns, channel, id),
    ensures
        !state.unsubscribed(channels, id).is_target(channel, id),
{
    law_leave(state.subs, channels, id);
}

/// A client that is gone is a target of nothing.
pub proof fn law_removed_is_not_reached(state: PubSubModel, id: u64, channel: Seq<u8>)
    ensures
        !state.without_client(id).is_target(channel, id),
        !topics::members(state.without_client(id).subs, channel).contains(id),
        !topics::members(state.without_client(id).patterns, channel).contains(id),
{
    law_leave(state.subs, state.subs.dom(), id);
    law_leave(state.patterns, state.patterns.dom(), id);
}

/// A target of a message is always a client that is there: the subscribers of a topic
/// are.
pub proof fn law_subscribers_are_clients(state: PubSubModel, topic: Seq<u8>, id: u64)
    requires
        state.consistent(),
        topics::members(state.subs, topic).contains(id)
            || topics::members(state.patterns, topic).contains(id),
    ensures
        state.clients.contains_key(id),
{
    assert(state.client(id).channels.contains(topic) || state.client(id).patterns.contains(topic));
}

/// Whom else a message reaches does not change when a client subscribes, unsubscribes
/// or goes.
pub proof fn law_others_are_unaffected(
    state: PubSubModel,
    topics: Set<Seq<u8>>,
    id: u64,
    other: u64,
    channel: Seq<u8>,
)
    requires
        state.consistent(),
        other != id,
    ensures
        state.subscribed(topics, id).is_target(channel, other) == state.is_target(channel, other),
        state.psubscribed(topics, id).is_target(channel, other) == state.is_target(channel, other),
        state.unsubscribed(topics, id).is_target(channel, other) == state.is_target(
            channel,
            other,
        ),
        state.punsubscribed(topics, id).is_target(channel, other) == state.is_target(
            channel,
            other,
        ),
        state.without_client(id).is_target(channel, other) == state.is_target(channel, other),
{
    law_join(state.subs, topics, id);
    law_join(state.patterns, topics, id);
    law_leave(state.subs, topics, id);
    law_leave(state.patterns, topics, id);
    law_leave(state.subs, state.subs.dom(), id);
    law_leave(state.patterns, state.patterns.dom(), id);
    lemma_covering_of_another(
        state.patterns,
        topics::joined(state.patterns, topics, id),
        other,
        channel,
    );
    lemma_covering_of_another(
        state.patterns,
        topics::left(state.patterns, topics, id),
        other,
        channel,
    );
    lemma_covering_of_another(
        state.patterns,
        topics::left(state.patterns, state.patterns.dom(), id),
        other,
        channel,
    );
}

/// Where a client has the same patterns, the same channels are covered for it.
proof fn lemma_covering_of_another(
    before: Subscribers,
    after: Subscribers,
    other: u64,
    channel: Seq<u8>,
)
    requires
        forall|topic: Seq<u8>| #[trigger]
            topics::members(after, topic).contains(other)
                == topics::members(before, topic).contains(other),
    ensures
        topics::covered_by(after, channel, other)
            == topics::covered_by(before, channel, other),
{
    if topics::covered_by(after, channel, other) {
        let pattern = choose|pattern: Seq<u8>|
            after.contains_key(pattern) && #[trigger] topics::covers_for(
                after,
                pattern,
                channel,
                other,
            );
        assert(topics::members(after, pattern).contains(other));
        assert(topics::covers_for(before, pattern, channel, other));
    }
    if topics::covered_by(before, channel, other) {
        let pattern = choose|pattern: Seq<u8>|
            before.contains_key(pattern) && #[trigger] topics::covers_for(
                before,
                pattern,
                channel,
                other,
            );
        assert(topics::members(before, pattern).contains(other));
        assert(topics::members(after, pattern).contains(other));
        assert(topics::covers_for(after, pattern, channel, other));
    }
}

/// Leaving the topics that one has just joined takes the joining back.
pub proof fn law_leaving_undoes_joining(
    subscribers: Subscribers,
    topics: Set<Seq<u8>>,
    id: u64,
)
    requires
        topics::no_topic_is_deserted(subscribers),
        forall|topic: Seq<u8>|
            topics.contains(topic) ==> !(#[trigger] topics::members(
                subscribers,
                topic,
            )).contains(id),
    ensures
        topics::left(
            topics::joined(subscribers, topics, id),
            topics,
            id,
        ) == subscribers,
{
    let after = topics::left(
        topics::joined(subscribers, topics, id),
        topics,
        id,
    );
    assert forall|topic: Seq<u8>| topics.contains(topic) implies #[trigger]
        topics::members(subscribers, topic).insert(id).remove(id)
            =~= topics::members(subscribers, topic) by {}
    assert forall|topic: Seq<u8>| #[trigger] after.contains_key(topic) == subscribers.contains_key(
        topic,
    ) by {
        if topics.contains(topic) {
            assert(topics::members(subscribers, topic).insert(id).remove(id)
                =~= topics::members(subscribers, topic));
            if subscribers.contains_key(topic) {
                assert(!(subscribers[topic] =~= Set::empty()));
            }
        }
    }
    assert(after =~= subscribers) by {
        assert forall|topic: Seq<u8>| after.contains_key(topic) implies #[trigger] after[topic]
            == subscribers[topic] by {
            if topics.contains(topic) {
                assert(topics::members(subscribers, topic).insert(id).remove(id)
                    =~= topics::members(subscribers, topic));
            }
        }
    }
}

/// The subscribers of a topic are those that it lists; a topic that is not listed has
/// none.
pub proof fn law_subscribers_of_a_topic(subscribers: Subscribers, topic: Seq<u8>, id: u64)
    ensures
        topics::members(subscribers, topic).contains(id) <==> subscribers.contains_key(topic)
            && subscribers[topic].contains(id),
        subscribers.contains_key(topic) ==> topics::members(subscribers, topic)
            == subscribers[topic],
        !PubSubModel::empty().clients.contains_key(id),
        !topics::members(PubSubModel::empty().subs, topic).contains(id),
        !topics::members(PubSubModel::empty().patterns, topic).contains(id),
{
}

/// Subscribing adds the client to the topics that it names, and to nothing else: its
/// other subscriptions and those of others stay.
pub proof fn law_subscribing_effects(
    state: PubSubModel,
    named: Set<Seq<u8>>,
    id: u64,
    topic: Seq<u8>,
    other: u64,
)
    ensures
        ({
            let channels = state.subscribed(named, id);
            let patterns = state.psubscribed(named, id);
            &&& topics::members(channels.subs, topic).contains(other) <==> topics::members(
                state.subs,
                topic,
            ).contains(other) || (other == id && named.contains(topic))
            &&& channels.patterns == state.patterns
            &&& topics::members(patterns.patterns, topic).contains(other) <==> topics::members(
                state.patterns,
                topic,
            ).contains(other) || (other == id && named.contains(topic))
            &&& patterns.subs == state.subs
            &&& channels.clients.contains_key(other) <==> state.clients.contains_key(other)
                || other == id
            &&& patterns.clients.contains_key(other) <==> state.clients.contains_key(other)
                || other == id
        }),
        state.with_client(id).subs == state.subs,
        state.with_client(id).patterns == state.patterns,
        state.with_client(id).clients.contains_key(other) <==> state.clients.contains_key(other)
            || other == id,
{
    law_join(state.subs, named, id);
    law_join(state.patterns, named, id);
}

/// Unsubscribing takes the client from the topics that it names, and from nothing else;
/// removing a client takes it from everything, and nobody else from anything.
pub proof fn law_unsubscribing_effects(
    state: PubSubModel,
    named: Set<Seq<u8>>,
    id: u64,
    topic: Seq<u8>,
    other: u64,
)
    ensures
        ({
            let channels = state.unsubscribed(named, id);
            let patterns = state.punsubscribed(named, id);
            let without = state.without_client(id);
            &&& topics::members(channels.subs, topic).contains(other) <==> topics::members(
                state.subs,
                topic,
            ).contains(other) && !(other == id && named.contains(topic))
            &&& channels.patterns == state.patterns
            &&& topics::members(patterns.patterns, topic).contains(other) <==> topics::members(
                state.patterns,
                topic,
            ).contains(other) && !(other == id && named.contains(topic))
            &&& patterns.subs == state.subs
            &&& topics::members(without.subs, topic).contains(other) <==> topics::members(
                state.subs,
                topic,
            ).contains(other) && other != id
            &&& topics::members(without.patterns, topic).contains(other) <==> topics::members(
                state.patterns,
                topic,
            ).contains(other) && other != id
            &&& without.clients.contains_key(other) <==> state.clients.contains_key(other)
                && other != id
        }),
{
    law_leave(state.subs, named, id);
    law_leave(state.patterns, named, id);
    law_leave(state.subs, state.subs.dom(), id);
    law_leave(state.patterns, state.patterns.dom(), id);
}

/// Whether a client is subscribed to anything.
pub open spec fn subscribed_to_anything(state: PubSubModel, id: u64) -> bool {
    exists|topic: Seq<u8>|
        #![trigger topics::members(state.subs, topic)]
        #![trigger topics::members(state.patterns, topic)]
        topics::members(state.subs, topic).contains(id) || topics::members(
            state.patterns,
            topic,
        ).contains(id)
}

/// In agreeing state a client that lists nothing is subscribed to nothing, and the other
/// way round.
proof fn lemma_subscribed_to_anything(state: PubSubModel, id: u64)
    requires
        state.consistent(),
    ensures
        subscribed_to_anything(state, id) <==> !(state.client(id).channels =~= Set::empty()
            && state.client(id).patterns =~= Set::empty()),
{
    let client = state.client(id);
    if subscribed_to_anything(state, id) {
        let topic = choose|topic: Seq<u8>|
            #![trigger topics::members(state.subs, topic)]
            topics::members(state.subs, topic).contains(id) || topics::members(
                state.patterns,
                topic,
            ).contains(id);
        assert(client.channels.contains(topic) || client.patterns.contains(topic));
    }
    if !(client.channels =~= Set::empty()) {
        let topic = choose|topic: Seq<u8>| client.channels.contains(topic);
        assert(client.channels.contains(topic));
        assert(topics::members(state.subs, topic).contains(id));
    }
    if !(client.patterns =~= Set::empty()) {
        let topic = choose|topic: Seq<u8>| client.patterns.contains(topic);
        assert(client.patterns.contains(topic));
        assert(topics::members(state.patterns, topic).contains(id));
    }
}

/// A client that unsubscribes stays exactly if it was there and is still subscribed to
/// something; whether others are there does not change.
pub proof fn law_who_stays(state: PubSubModel, named: Set<Seq<u8>>, id: u64, other: u64)
    requires
        state.consistent(),
    ensures
        ({
            let channels = state.unsubscribed(named, id);
            let patterns = state.punsubscribed(named, id);
            &&& other != id ==> channels.clients.contains_key(other)
                == state.clients.contains_key(other)
            &&& other != id ==> patterns.clients.contains_key(other)
                == state.clients.contains_key(other)
            &&& channels.clients.contains_key(id) <==> state.clients.contains_key(id)
                && subscribed_to_anything(channels, id)
            &&& patterns.clients.contains_key(id) <==> state.clients.contains_key(id)
                && subscribed_to_anything(patterns, id)
        }),
{
    law_unsubscribing_keeps_consistency(state, named, named, id);
    lemma_subscribed_to_anything(state.unsubscribed(named, id), id);
    lemma_subscribed_to_anything(state.punsubscribed(named, id), id);
    let client = state.client(id);
    let fewer_channels = ClientModel {
        channels: client.channels.difference(named),
        ..client
    };
    let fewer_patterns = ClientModel {
        patterns: client.patterns.difference(named),
        ..client
    };
    lemma_settled(state, id, fewer_channels, id);
    lemma_settled(state, id, fewer_patterns, id);
}

/// What a client lists is what it is subscribed to.
pub proof fn law_clients_list_their_subscriptions(state: PubSubModel, id: u64, topic: Seq<u8>)
    requires
        state.consistent(),
    ensures
        state.client(id).channels.contains(topic) <==> topics::members(state.subs, topic).contains(
            id,
        ),
        state.client(id).patterns.contains(topic) <==> topics::members(
            state.patterns,
            topic,
        ).contains(id),
        state.clients.contains_key(id) ==> state.client(id) == state.clients[id],
        state.subs.contains_key(topic) ==> !(state.subs[topic] =~= Set::empty()),
        state.patterns.contains_key(topic) ==> !(state.patterns[topic] =~= Set::empty()),
{
}

/// A message goes exactly to those that are subscribed to its channel or to some pattern
/// that covers the channel.
pub proof fn law_who_is_reached(state: PubSubModel, channel: Seq<u8>, id: u64)
    requires
        state.consistent(),
    ensures
        state.is_target(channel, id) <==> topics::members(state.subs, channel).contains(id) || (
        exists|pattern: Seq<u8>|
            #![trigger topics::members(state.patterns, pattern)]
            topics::members(state.patterns, pattern).contains(id) && glob::covers(
                pattern,
                channel,
            )),
{
    if state.is_target(channel, id) && topics::covered_by(state.patterns, channel, id) {
        let pattern = choose|pattern: Seq<u8>|
            state.patterns.contains_key(pattern) && #[trigger] topics::covers_for(
                state.patterns,
                pattern,
                channel,
                id,
            );
        assert(topics::members(state.patterns, pattern).contains(id));
    }
    if topics::members(state.subs, channel).contains(id) {
        law_subscribers_are_clients(state, channel, id);
    }
    if exists|pattern: Seq<u8>|
        #![trigger topics::members(state.patterns, pattern)]
        topics::members(state.patterns, pattern).contains(id) && glob::covers(pattern, channel) {
        let pattern = choose|pattern: Seq<u8>|
            #![trigger topics::members(state.patterns, pattern)]
            topics::members(state.patterns, pattern).contains(id) && glob::covers(pattern, channel);
        law_subscribers_are_clients(state, pattern, id);
        assert(state.patterns.contains_key(pattern) && topics::covers_for(
            state.patterns,
            pattern,
            channel,
            id,
        ));
    }
}

/// What a client is told when it joins a topic: what it did, the topic, and how many
/// subscribers the topic has once all is done.
pub proof fn law_what_joining_tells(
    kind: Seq<char>,
    subscribers: Subscribers,
    joined: Seq<Seq<u8>>,
    id: u64,
    i: int,
)
    requires
        0 <= i < joined.len(),
    ensures
        model::join_notices(kind, subscribers, joined, id).len() == joined.len(),
        model::join_notices(kind, subscribers, joined, id)[i] == seq![
            Reply::SimpleString(kind),
            Reply::BulkString(Some(joined[i])),
            Reply::Integer(
                topics::members(
                    topics::joined(subscribers, joined.to_set(), id),
                    joined[i],
                ).len() as i64,
            ),
        ],
{
    assert(joined.to_set().contains(joined[i]));
    assert(topics::members(topics::joined(subscribers, joined.to_set(), id), joined[i])
        == topics::members(subscribers, joined[i]).insert(id));
}

/// The count that a client is told when it leaves a topic is one more than the number of
/// subscribers that are left, and none if the topic had none.
pub proof fn law_what_leaving_counts(subscribers: Set<u64>, id: u64)
    requires
        subscribers.finite(),
        subscribers.len() < i64::MAX,
    ensures
        subscribers =~= Set::empty() ==> model::leave_count(subscribers, id) == 0,
        !(subscribers =~= Set::empty()) ==> model::leave_count(subscribers, id)
            == subscribers.remove(id).len() + 1,
{
    if !subscribers.contains(id) {
        assert(subscribers.remove(id) =~= subscribers);
    }
}

/// What a client is told when it leaves one topic: what it did, the topic, and the count.
pub proof fn law_what_leaving_tells(subscribers: Subscribers, topic: Seq<u8>, id: u64)
    ensures
        model::leave_notices(subscribers, seq![topic], id) == seq![
            seq![
                Reply::SimpleString("unsubscribe"@),
                Reply::BulkString(Some(topic)),
                Reply::Integer(model::leave_count(topics::members(subscribers, topic), id)),
            ],
        ],
{
    let told = model::leave_notices(subscribers, seq![topic], id);
    assert(!seq![topic].take(0).contains(topic));
    assert(told[0] =~= seq![
        Reply::SimpleString("unsubscribe"@),
        Reply::BulkString(Some(topic)),
        Reply::Integer(model::leave_count(topics::members(subscribers, topic), id)),
    ]);
    assert(told =~= seq![told[0]]);
}

/// Leaving some topics and then others is told as leaving all of them in that order.
pub proof fn law_leaving_adds_up(
    subscribers: Subscribers,
    first: Seq<Seq<u8>>,
    second: Seq<Seq<u8>>,
    id: u64,
)
    ensures
        model::leave_notices(subscribers, first + second, id) == model::leave_notices(
            subscribers,
            first,
            id,
        ) + model::leave_notices(
            topics::left(subscribers, first.to_set(), id),
            second,
            id,
        ),
        topics::left(subscribers, first.to_set().union(second.to_set()), id) == topics::left(
            topics::left(subscribers, first.to_set(), id),
            second.to_set(),
            id,
        ),
{
    let all = first + second;
    let between = topics::left(subscribers, first.to_set(), id);
    let whole = model::leave_notices(subscribers, all, id);
    let parts = model::leave_notices(subscribers, first, id) + model::leave_notices(
        between,
        second,
        id,
    );
    assert forall|topic: Seq<u8>| #[trigger] topics::members(between, topic) == (
    if first.contains(topic) {
        topics::members(subscribers, topic).remove(id)
    } else {
        topics::members(subscribers, topic)
    }) by {
        topics::lemma_leave_one_more(subscribers, first.to_set(), topic, id);
    }
    assert forall|i: int| 0 <= i < all.len() implies #[trigger] whole[i] == parts[i] by {
        if i < first.len() {
            assert(all.take(i) =~= first.take(i));
        } else {
            let j = i - first.len();
            let topic = second[j];
            assert(all.take(i) =~= first + second.take(j));
            assert(all.take(i).contains(topic) <==> first.contains(topic) || second.take(
                j,
            ).contains(topic)) by {
                if first.contains(topic) {
                    let k = choose|k: int| 0 <= k < first.len() && first[k] == topic;
                    assert(all.take(i)[k] == topic);
                }
                if second.take(j).contains(topic) {
                    let k = choose|k: int| 0 <= k < j && second.take(j)[k] == topic;
                    assert(all.take(i)[first.len() + k] == topic);
                }
                if all.take(i).contains(topic) {
                    let k = choose|k: int| 0 <= k < i && all.take(i)[k] == topic;
                    if k < first.len() {
                        assert(first[k] == topic);
                    } else {
                        assert(second.take(j)[k - first.len()] == topic);
                    }
                }
            }
            assert(model::members_at(subscribers, all, id, i) =~= model::members_at(
                between,
                second,
                id,
                j,
            ));
        }
    }
    assert(whole =~= parts);
    let both = topics::left(subscribers, first.to_set().union(second.to_set()), id);
    let in_turn = topics::left(between, second.to_set(), id);
    assert forall|topic: Seq<u8>| #[trigger] subscribers[topic].remove(id).remove(id)
        == subscribers[topic].remove(id) by {
        assert(subscribers[topic].remove(id).remove(id) =~= subscribers[topic].remove(id));
    }
    assert(both =~= in_turn) by {
        assert forall|topic: Seq<u8>| #[trigger] both.contains_key(topic) == in_turn.contains_key(
            topic,
        ) by {
            assert(subscribers[topic].remove(id).remove(id) == subscribers[topic].remove(id));
        }
        assert forall|topic: Seq<u8>| both.contains_key(topic) implies #[trigger] both[topic]
            == in_turn[topic] by {
            assert(subscribers[topic].remove(id).remove(id) == subscribers[topic].remove(id));
        }
    }
}

/// What a client is told when it leaves all its channels: for each of them what it did,
/// the channel, and one more than the number of subscribers that are left.
pub proof fn law_what_a_farewell_tells(
    subscribers: Subscribers,
    channels: Seq<Seq<u8>>,
    id: u64,
    i: int,
)
    requires
        0 <= i < channels.len(),
        topics::members(subscribers, channels[i]).contains(id),
        topics::members(subscribers, channels[i]).finite(),
        topics::members(subscribers, channels[i]).len() < i64::MAX,
    ensures
        model::farewell(subscribers, channels).len() == channels.len(),
        model::farewell(subscribers, channels)[i] == Reply::Array(
            Some(
                seq![
                    Reply::SimpleString("unsubscribe"@),
                    Reply::BulkString(Some(channels[i])),
                    Reply::Integer(
                        (topics::members(
                            topics::left(subscribers, channels.to_set(), id),
                            channels[i],
                        ).len() + 1) as i64,
                    ),
                ],
            ),
        ),
{
    let before = topics::members(subscribers, channels[i]);
    assert(channels.to_set().contains(channels[i]));
    topics::lemma_leave_one_more(subscribers, channels.to_set(), channels[i], id);
    assert(before.remove(id).len() + 1 == before.len());
}

/// A message is sent with its channel.
pub proof fn law_what_a_message_says(channel: Seq<u8>, message: Seq<u8>)
    ensures
        model::message_reply(channel, message) == Reply::Array(
            Some(
                seq![
                    Reply::SimpleString("message"@),
                    Reply::BulkString(Some(channel)),
                    Reply::BulkString(Some(message)),
                ],
            ),
        ),
{
}

/// A notice names what was done, the topic and the count, in that order.
pub proof fn law_what_a_notice_says(kind: Seq<char>, topic: Seq<u8>, count: i64)
    ensures
        model::notice(kind, topic, count) == seq![
            Reply::SimpleString(kind),
            Reply::BulkString(Some(topic)),
            Reply::Integer(count),
        ],
{
}

} // verus!
