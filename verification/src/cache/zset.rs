//! Sorted sets under keys.

use crate::cache::cas;
use crate::cache::cas::{MyCache, UpdateType};
use crate::cache::sorted_set;
use crate::cache::sorted_set::{SortedSet, SortedSetModel, ZAddReq};
use crate::cache::value_object;
use crate::cache::value_object::{DataModel, MyValue, StoredModel, ValueObject};
use crate::value::{Reply, Value};
use vstd::prelude::*;

verus! {

/// What a key holds after members were scored; a key that holds something else is
/// left as it is.
pub open spec fn scored_in(req: ZAddReq, found: Option<StoredModel>) -> StoredModel {
    let members = sorted_set::scored(req.members@);
    match found {
        None => cas::first(DataModel::ZSet(SortedSetModel::empty().after(req, members))),
        Some(value) => match value.data {
            DataModel::ZSet(set) => StoredModel {
                data: DataModel::ZSet(set.after(req, members)),
                ..value
            },
            _ => value,
        },
    }
}

/// How many members a request adds to a sorted set or, if it asks for that, changes.
pub open spec fn score_count(req: ZAddReq, set: SortedSetModel) -> i64 {
    let members = sorted_set::scored(req.members@);
    (if req.ch {
        set.changes(req, members, members.len())
    } else {
        set.additions(req, members, members.len())
    }) as i64
}

/// The reply to a request.
pub open spec fn score_reply(req: ZAddReq, found: Option<StoredModel>) -> Reply {
    match found {
        None => Reply::Integer(score_count(req, SortedSetModel::empty())),
        Some(value) => match value.data {
            DataModel::ZSet(set) => Reply::Integer(score_count(req, set)),
            _ => Reply::Error("zadd: key is not a zset"@),
        },
    }
}

impl MyCache {
    /// What a key holds once members of its sorted set have been scored, and the reply.
    /// The set is changed where it stands: the version stays, and nothing is noted down.
    pub fn z_add(zadd: ZAddReq, update: &mut UpdateType, found: Option<MyValue>) -> (outcome: (
        MyValue,
        Value,
    ))
        requires
            value_object::in_order(found),
        ensures
            outcome.0.data.inv(),
            outcome.0@ == scored_in(zadd, value_object::stored(found)),
            outcome.1@ == score_reply(zadd, value_object::stored(found)),
            final(update)@ == old(update)@,
    {
        match found {
            None => {
                let mut set = SortedSet::new();
                let changed_count = set.zadd(zadd);
                let value = MyValue { version: 1, data: ValueObject::ZSet(set), expires_at: 0 };
                (value, Value::Integer(changed_count))
            },
            Some(entry) => {
                let mut value = entry;
                match &mut value.data {
                    ValueObject::ZSet(set) => {
                        let changed_count = set.zadd(zadd);
                        (value, Value::Integer(changed_count))
                    },
                    _ => (value, Value::error("zadd: key is not a zset")),
                }
            },
        }
    }
}

} // verus!
