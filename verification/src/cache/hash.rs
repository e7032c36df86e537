//! Hashes.

use crate::cache::cas;
use crate::cache::cas::{BaseOperation, MyCache, Op, OperationModel, UpdateType, WriteCommand};
use crate::cache::value_object;
use crate::cache::value_object::{DataModel, FieldModel, HashValue, MyValue, ValueObject};
use crate::utils::bytes_map::BytesMap;
use crate::value::{Reply, Value};
use vstd::prelude::*;

verus! {

/// A request to set fields of a hash.
#[derive(Debug)]
pub struct HSetReq {
    pub key: Vec<u8>,
    pub elements: Vec<(Vec<u8>, HashValue)>,
}

/// Fields with their values as plain data.
pub open spec fn pairs(elements: Seq<(Vec<u8>, HashValue)>) -> Seq<(Seq<u8>, FieldModel)> {
    elements.map_values(|pair: (Vec<u8>, HashValue)| (pair.0@, pair.1@))
}

impl HSetReq {
    /// The request as plain data.
    pub open spec fn operation_of(&self) -> OperationModel {
        OperationModel::HSet { key: self.key@, fields: pairs(self.elements@) }
    }
}

/// Fields once others have been set, one after the other.
pub open spec fn with_all(
    fields: Map<Seq<u8>, FieldModel>,
    elements: Seq<(Seq<u8>, FieldModel)>,
) -> Map<Seq<u8>, FieldModel>
    decreases elements.len(),
{
    if elements.len() == 0 {
        fields
    } else {
        with_all(fields, elements.drop_last()).insert(elements.last().0, elements.last().1)
    }
}

/// How many of the first elements set a field that was not there.
pub open spec fn new_fields(
    fields: Map<Seq<u8>, FieldModel>,
    elements: Seq<(Seq<u8>, FieldModel)>,
) -> nat
    decreases elements.len(),
{
    if elements.len() == 0 {
        0
    } else {
        let before = new_fields(fields, elements.drop_last());
        if with_all(fields, elements.drop_last()).contains_key(elements.last().0) {
            before
        } else {
            before + 1
        }
    }
}

/// What setting fields makes of data, and the reply: how many fields are new.
pub open spec fn set_in(elements: Seq<(Seq<u8>, FieldModel)>, data: DataModel) -> (
    Option<DataModel>,
    Reply,
) {
    match data {
        DataModel::Hash(fields) => (
            Some(DataModel::Hash(with_all(fields, elements))),
            Reply::Integer(new_fields(fields, elements) as i64),
        ),
        _ => (
            None,
            Reply::Error("WRONGTYPE Operation against a key holding the wrong kind of value"@),
        ),
    }
}

/// Copies fields with their values.
fn copy_of(elements: &Vec<(Vec<u8>, HashValue)>) -> (copy: Vec<(Vec<u8>, HashValue)>)
    ensures
        pairs(copy@) == pairs(elements@),
{
    let mut copy: Vec<(Vec<u8>, HashValue)> = Vec::new();
    let mut i: usize = 0;
    while i < elements.len()
        invariant
            i <= elements.len(),
            pairs(copy@) == pairs(elements@).take(i as int),
        decreases elements.len() - i,
    {
        let ghost before = copy@;
        let field = elements[i].0.clone();
        let value = elements[i].1.clone();
        assert(field@ =~= elements@[i as int].0@);
        copy.push((field, value));
        proof {
            let pair = pairs(elements@)[i as int];
            assert(pairs(copy@) =~= pairs(before).push(pair));
            assert(pairs(elements@).take(i + 1) =~= pairs(elements@).take(i as int).push(pair));
        }
        i = i + 1;
    }
    assert(pairs(elements@).take(i as int) =~= pairs(elements@));
    copy
}

impl Clone for HSetReq {
    fn clone(&self) -> (copy: HSetReq)
        ensures
            copy.operation_of() == self.operation_of(),
    {
        let key = self.key.clone();
        assert(key@ =~= self.key@);
        HSetReq { key, elements: copy_of(&self.elements) }
    }
}

/// Sets fields of a hash, one after the other; returns how many are new.
fn set_all(map: &mut BytesMap<HashValue>, elements: &Vec<(Vec<u8>, HashValue)>) -> (count: usize)
    requires
        old(map).inv(),
    ensures
        final(map).inv(),
        value_object::fields(final(map)@) == with_all(
            value_object::fields(old(map)@),
            pairs(elements@),
        ),
        count == new_fields(value_object::fields(old(map)@), pairs(elements@)),
{
    let ghost before = value_object::fields(map@);
    let ghost given = pairs(elements@);
    let mut count: usize = 0;
    let mut i: usize = 0;
    assert(given.take(0) =~= Seq::empty());
    while i < elements.len()
        invariant
            i <= elements.len(),
            given == pairs(elements@),
            map.inv(),
            value_object::fields(map@) == with_all(before, given.take(i as int)),
            count <= i,
            count == new_fields(before, given.take(i as int)),
        decreases elements.len() - i,
    {
        let ghost listed = map@;
        let field = elements[i].0.clone();
        let value = elements[i].1.clone();
        assert(field@ =~= given[i as int].0);
        proof {
            assert(given.take(i + 1).drop_last() =~= given.take(i as int));
            assert(value_object::fields(listed).contains_key(field@) == listed.contains_key(
                field@,
            ));
        }
        if map.insert(field, value).is_none() {
            count = count + 1;
        }
        assert(value_object::fields(map@) =~= value_object::fields(listed).insert(field@, value@));
        i = i + 1;
    }
    assert(given.take(i as int) =~= given);
    count
}

impl WriteCommand for HSetReq {
    open spec fn spec_key(&self) -> Seq<u8> {
        self.key@
    }

    open spec fn operation(&self) -> OperationModel {
        self.operation_of()
    }

    open spec fn written(&self, data: DataModel) -> (Option<DataModel>, Reply) {
        set_in(pairs(self.elements@), data)
    }

    open spec fn initial(&self) -> (DataModel, Reply) {
        (
            DataModel::Hash(with_all(Map::empty(), pairs(self.elements@))),
            Reply::Integer(self.elements@.len() as i64),
        )
    }

    fn key(&self) -> (key: Vec<u8>) {
        let key = self.key.clone();
        assert(key@ =~= self.key@);
        key
    }

    fn into_base_op(self) -> (op: BaseOperation) {
        BaseOperation::HSet(self)
    }

    fn mutate(&self, data: &mut ValueObject) -> (outcome: (bool, Value)) {
        match data {
            ValueObject::Hash(map) => {
                let count = set_all(map, &self.elements);
                (true, Value::Integer(count as i64))
            },
            _ => (
                false,
                Value::error("WRONGTYPE Operation against a key holding the wrong kind of value"),
            ),
        }
    }

    fn init(&self) -> (outcome: (ValueObject, Value)) {
        let mut map: BytesMap<HashValue> = BytesMap::new();
        assert(value_object::fields(map@) =~= Map::empty());
        let len = self.elements.len();
        set_all(&mut map, &self.elements);
        (ValueObject::Hash(map), Value::Integer(len as i64))
    }
}

impl MyCache {
    /// Decides what setting fields of a hash does to its key, and the reply.
    pub fn h_set(hset: HSetReq, update: &mut UpdateType, found: Option<MyValue>) -> (outcome: (
        Op,
        Value,
    ))
        requires
            value_object::in_order(found),
            *old(update) matches UpdateType::CAS(version) ==> version >= 1,
            *old(update) is Snapshot && found is Some ==> found->0.version < u64::MAX,
            *old(update) is Plain && found is Some && found->0.data@ is Hash
                ==> found->0.version < u64::MAX,
        ensures
            outcome.0.inv(),
            outcome.0@ == cas::write_op(hset, old(update)@, value_object::stored(found)),
            outcome.1@ == cas::write_reply_of(hset, old(update)@, value_object::stored(found)),
            final(update)@ == old(update)@.noted(
                hset.operation_of(),
                cas::noted_version(value_object::stored(found)),
            ),
    {
        Self::execute_write(hset, update, found)
    }
}

} // verus!
