//! The values that keys hold.

use crate::cache::sorted_set::{SortedSet, SortedSetModel};
use crate::utils::byte_strings;
use crate::utils::bytes_map::BytesMap;
use std::collections::VecDeque;
use vstd::prelude::*;

verus! {

/// A value in a hash.
#[derive(Debug, PartialEq, Eq)]
pub enum HashValue {
    Str(Vec<u8>),
    Int(i64),
}

/// A value in a hash as plain data.
#[verifier::ext_equal]
pub enum FieldModel {
    Str(Seq<u8>),
    Int(i64),
}

impl View for HashValue {
    type V = FieldModel;

    open spec fn view(&self) -> FieldModel {
        match *self {
            HashValue::Str(data) => FieldModel::Str(data@),
            HashValue::Int(n) => FieldModel::Int(n),
        }
    }
}

impl Clone for HashValue {
    fn clone(&self) -> (copy: HashValue)
        ensures
            copy@ == self@,
    {
        match self {
            HashValue::Str(data) => {
                let copied = data.clone();
                assert(copied@ =~= data@);
                HashValue::Str(copied)
            },
            HashValue::Int(n) => HashValue::Int(*n),
        }
    }
}

/// The data under a key.
#[derive(Debug)]
pub enum ValueObject {
    Int(i64),
    String(Vec<u8>),
    List(VecDeque<Vec<u8>>),
    Hash(BytesMap<HashValue>),
    ZSet(SortedSet),
    Members(BytesMap<()>),
}

/// The data under a key as plain data.
#[verifier::ext_equal]
pub enum DataModel {
    Int(i64),
    String(Seq<u8>),
    List(Seq<Seq<u8>>),
    Hash(Map<Seq<u8>, FieldModel>),
    ZSet(SortedSetModel),
    Members(Set<Seq<u8>>),
}

/// The fields of a hash as plain data.
pub open spec fn fields(map: Map<Seq<u8>, HashValue>) -> Map<Seq<u8>, FieldModel> {
    map.map_values(|value: HashValue| value@)
}

impl View for ValueObject {
    type V = DataModel;

    open spec fn view(&self) -> DataModel {
        match *self {
            ValueObject::Int(n) => DataModel::Int(n),
            ValueObject::String(data) => DataModel::String(data@),
            ValueObject::List(list) => DataModel::List(byte_strings::names(list@)),
            ValueObject::Hash(map) => DataModel::Hash(fields(map@)),
            ValueObject::ZSet(set) => DataModel::ZSet(set@),
            ValueObject::Members(members) => DataModel::Members(members@.dom()),
        }
    }
}

impl ValueObject {
    /// Maps are maps, and sorted sets are sorted sets.
    pub open spec fn inv(&self) -> bool {
        match *self {
            ValueObject::Hash(map) => map.inv(),
            ValueObject::ZSet(set) => set.inv(),
            ValueObject::Members(members) => members.inv(),
            _ => true,
        }
    }
}

impl Clone for ValueObject {
    fn clone(&self) -> (copy: ValueObject)
        ensures
            self.inv() ==> copy.inv() && copy@ == self@,
    {
        match self {
            ValueObject::Int(n) => ValueObject::Int(*n),
            ValueObject::String(data) => {
                let copied = data.clone();
                assert(copied@ =~= data@);
                ValueObject::String(copied)
            },
            ValueObject::List(list) => {
                let mut copied: VecDeque<Vec<u8>> = VecDeque::new();
                let mut i: usize = 0;
                while i < list.len()
                    invariant
                        i <= list@.len(),
                        byte_strings::names(copied@) == byte_strings::names(list@).take(i as int),
                    decreases list@.len() - i,
                {
                    let ghost before = copied@;
                    let item = list[i].clone();
                    assert(item@ =~= list@[i as int]@);
                    copied.push_back(item);
                    proof {
                        let all = byte_strings::names(list@);
                        assert(byte_strings::names(copied@) =~= byte_strings::names(before).push(
                            item@,
                        ));
                        assert(all.take(i + 1) =~= all.take(i as int).push(item@));
                    }
                    i = i + 1;
                }
                assert(byte_strings::names(list@).take(i as int) =~= byte_strings::names(list@));
                ValueObject::List(copied)
            },
            ValueObject::Hash(map) => {
                let copied = map.clone();
                proof {
                    if map.inv() {
                        assert forall|field: Seq<u8>| map@.contains_key(field) implies (
                        #[trigger] copied@[field])@ == map@[field]@ by {
                            assert(cloned(map@[field], copied@[field]));
                        }
                        assert(fields(copied@) =~= fields(map@));
                    }
                }
                ValueObject::Hash(copied)
            },
            ValueObject::ZSet(set) => ValueObject::ZSet(set.clone()),
            ValueObject::Members(members) => ValueObject::Members(members.clone()),
        }
    }
}

/// What is stored under a key.
#[derive(Debug)]
pub struct MyValue {
    pub data: ValueObject,
    pub expires_at: u64,
    pub version: u64,
}

/// What is stored under a key as plain data.
#[verifier::ext_equal]
pub struct StoredModel {
    pub data: DataModel,
    pub expires_at: u64,
    pub version: u64,
}

impl View for MyValue {
    type V = StoredModel;

    open spec fn view(&self) -> StoredModel {
        StoredModel { data: self.data@, expires_at: self.expires_at, version: self.version }
    }
}

impl Clone for MyValue {
    fn clone(&self) -> (copy: MyValue)
        ensures
            self.data.inv() ==> copy.data.inv() && copy@ == self@,
    {
        MyValue {
            data: self.data.clone(),
            expires_at: self.expires_at,
            version: self.version,
        }
    }
}

/// What is stored under a key, if anything, as plain data.
pub open spec fn stored(found: Option<MyValue>) -> Option<StoredModel> {
    match found {
        Some(value) => Some(value@),
        None => None,
    }
}

/// Whether what is stored under a key, if anything, is in order.
pub open spec fn in_order(found: Option<MyValue>) -> bool {
    found matches Some(value) ==> value.data.inv()
}

} // verus!
