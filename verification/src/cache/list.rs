//! Lists.

use crate::cache::cas;
use crate::cache::cas::{BaseOperation, ComputeCommand, MyCache, Op, OpModel, OperationModel, UpdateModel, UpdateType};
use crate::cache::value_object;
use crate::cache::value_object::{DataModel, MyValue, StoredModel, ValueObject};
use crate::utils::byte_strings;
use crate::value::{Reply, Value};
use std::collections::VecDeque;
use vstd::prelude::*;

verus! {

/// A request to push elements onto the front of a list.
#[derive(Debug)]
pub struct LPushReq {
    pub key: Vec<u8>,
    pub elements: Vec<Vec<u8>>,
}

impl LPushReq {
    /// The request as plain data.
    pub open spec fn operation_of(&self) -> OperationModel {
        OperationModel::LPush { key: self.key@, elements: byte_strings::names(self.elements@) }
    }
}

impl Clone for LPushReq {
    fn clone(&self) -> (copy: LPushReq)
        ensures
            copy.operation_of() == self.operation_of(),
    {
        let key = self.key.clone();
        assert(key@ =~= self.key@);
        LPushReq { key, elements: byte_strings::copy_of(&self.elements) }
    }
}

/// A list after elements were pushed onto its front one after the other: the last one
/// comes first.
pub open spec fn pushed(elements: Seq<Seq<u8>>, list: Seq<Seq<u8>>) -> Seq<Seq<u8>> {
    elements.reverse() + list
}

/// Pushes elements onto the front of a list, one after the other.
fn push_all(list: &mut VecDeque<Vec<u8>>, elements: Vec<Vec<u8>>)
    ensures
        byte_strings::names(final(list)@) == pushed(
            byte_strings::names(elements@),
            byte_strings::names(old(list)@),
        ),
{
    let ghost given = byte_strings::names(elements@);
    let ghost before = byte_strings::names(list@);
    let mut i: usize = 0;
    assert(pushed(given.take(0), before) =~= before);
    while i < elements.len()
        invariant
            i <= elements.len(),
            given == byte_strings::names(elements@),
            before == byte_strings::names(old(list)@),
            byte_strings::names(list@) == pushed(given.take(i as int), before),
        decreases elements.len() - i,
    {
        let ghost listed = list@;
        let element = elements[i].clone();
        assert(element@ =~= given[i as int]);
        list.push_front(element);
        proof {
            assert(byte_strings::names(list@) =~= seq![given[i as int]] + byte_strings::names(
                listed,
            ));
            assert(given.take(i + 1) =~= given.take(i as int).push(given[i as int]));
            assert(pushed(given.take(i + 1), before) =~= seq![given[i as int]] + pushed(
                given.take(i as int),
                before,
            ));
        }
        i = i + 1;
    }
    assert(given.take(i as int) =~= given);
}

/// A list of the elements as they stand.
fn list_of(elements: Vec<Vec<u8>>) -> (list: VecDeque<Vec<u8>>)
    ensures
        byte_strings::names(list@) == byte_strings::names(elements@),
{
    let ghost given = byte_strings::names(elements@);
    let mut list: VecDeque<Vec<u8>> = VecDeque::new();
    let mut i: usize = 0;
    assert(byte_strings::names(list@) =~= given.take(0));
    while i < elements.len()
        invariant
            i <= elements.len(),
            given == byte_strings::names(elements@),
            byte_strings::names(list@) == given.take(i as int),
        decreases elements.len() - i,
    {
        let ghost listed = list@;
        let element = elements[i].clone();
        assert(element@ =~= given[i as int]);
        list.push_back(element);
        proof {
            assert(byte_strings::names(list@) =~= byte_strings::names(listed).push(given[i as int]));
            assert(given.take(i + 1) =~= given.take(i as int).push(given[i as int]));
        }
        i = i + 1;
    }
    assert(given.take(i as int) =~= given);
    list
}

/// What pushing elements makes of data.
pub open spec fn pushed_onto(elements: Seq<Seq<u8>>, data: DataModel) -> Option<DataModel> {
    match data {
        DataModel::List(list) => Some(DataModel::List(pushed(elements, list))),
        _ => None,
    }
}

/// The reply for data that elements were pushed onto: the length of the list.
pub open spec fn length_reply(data: DataModel) -> Reply {
    match data {
        DataModel::List(list) => Reply::Integer(list.len() as i64),
        _ => Reply::Error("Key exists but is not a List"@),
    }
}

impl ComputeCommand for LPushReq {
    open spec fn spec_key(&self) -> Seq<u8> {
        self.key@
    }

    open spec fn operation(&self) -> OperationModel {
        self.operation_of()
    }

    open spec fn mutated(&self, data: DataModel) -> Option<DataModel> {
        pushed_onto(byte_strings::names(self.elements@), data)
    }

    open spec fn initial(&self) -> DataModel {
        DataModel::List(byte_strings::names(self.elements@))
    }

    open spec fn extracted(data: DataModel) -> Reply {
        length_reply(data)
    }

    fn key(&self) -> (key: Vec<u8>) {
        let key = self.key.clone();
        assert(key@ =~= self.key@);
        key
    }

    fn into_base_op(&self) -> (op: BaseOperation) {
        BaseOperation::LPush(self.clone())
    }

    fn mutate(self, data: &mut ValueObject) -> (changed: bool) {
        match data {
            ValueObject::List(list) => {
                push_all(list, self.elements);
                true
            },
            _ => false,
        }
    }

    fn init(self) -> (data: ValueObject) {
        ValueObject::List(list_of(self.elements))
    }

    fn extract(data: &ValueObject) -> (reply: Value) {
        match data {
            ValueObject::List(list) => Value::Integer(list.len() as i64),
            _ => Value::error("Key exists but is not a List"),
        }
    }
}

/// What pushing elements does to a key that holds this, or nothing: what does not hold
/// a list is left as it is.
pub open spec fn push_op(
    elements: Seq<Seq<u8>>,
    update: UpdateModel,
    found: Option<StoredModel>,
) -> OpModel {
    match found {
        None => OpModel::Put(cas::first(DataModel::List(elements))),
        Some(value) => if !(value.data is List) || (update is CAS && value.version + 1
            != update->CAS_0) {
            OpModel::Nop
        } else {
            OpModel::Put(
                StoredModel {
                    data: DataModel::List(pushed(elements, value.data->List_0)),
                    version: match update {
                        UpdateModel::Plain => value.version,
                        _ => (value.version + 1) as u64,
                    },
                    ..value
                },
            )
        },
    }
}

impl MyCache {
    /// Decides what pushing elements onto a list does to its key.
    pub fn l_push(l_push: LPushReq, update: &mut UpdateType, found: Option<MyValue>) -> (op: Op)
        requires
            value_object::in_order(found),
            *old(update) matches UpdateType::CAS(version) ==> version >= 1,
            *old(update) is Snapshot && found is Some ==> found->0.version < u64::MAX,
        ensures
            op.inv(),
            op@ == push_op(
                byte_strings::names(l_push.elements@),
                old(update)@,
                value_object::stored(found),
            ),
            final(update)@ == old(update)@.noted(
                l_push.operation_of(),
                cas::noted_version(value_object::stored(found)),
            ),
    {
        Self::execute_compute(l_push, update, found)
    }

    /// Decides what pushing elements onto a list does to its key; the request is noted
    /// down only where it changes something.
    pub fn l_push_(l_push: LPushReq, update: &mut UpdateType, found: Option<MyValue>) -> (op: Op)
        requires
            value_object::in_order(found),
            *old(update) is CAS && found is Some && found->0.data@ is List
                ==> old(update)->CAS_0 >= 1,
            *old(update) is Snapshot && found is Some && found->0.data@ is List
                ==> found->0.version < u64::MAX,
        ensures
            op.inv(),
            op@ == push_op(
                byte_strings::names(l_push.elements@),
                old(update)@,
                value_object::stored(found),
            ),
            final(update)@ == (if op is Put {
                old(update)@.noted(
                    l_push.operation_of(),
                    cas::noted_version(value_object::stored(found)),
                )
            } else {
                old(update)@
            }),
    {
        match found {
            Some(entry) => {
                let mut value = entry;
                match &mut value.data {
                    ValueObject::List(list) => {
                        match update {
                            UpdateType::Plain => {},
                            UpdateType::Snapshot(_) => {
                                value.version = value.version + 1;
                                Self::note(
                                    update,
                                    BaseOperation::LPush(l_push.clone()),
                                    value.version,
                                );
                            },
                            UpdateType::CAS(cas_version) => {
                                if value.version != *cas_version - 1 {
                                    return Op::Nop;
                                }
                                value.version = value.version + 1;
                            },
                        }
                        push_all(list, l_push.elements);
                        Op::Put(value)
                    },
                    _ => Op::Nop,
                }
            },
            None => {
                Self::note(update, BaseOperation::LPush(l_push.clone()), 1);
                Op::Put(
                    MyValue {
                        data: ValueObject::List(list_of(l_push.elements)),
                        expires_at: 0,
                        version: 1,
                    },
                )
            },
        }
    }
}

} // verus!
