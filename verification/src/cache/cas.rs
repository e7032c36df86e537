//! How commands change what is stored under a key.
//!
//! The cache runs a decision for one key at a time: it hands in what is stored under
//! the key, and is told what to do with it. Whoever runs the cache performs that and
//! hands back what became of the key; the reply is made from it.

use crate::cache::hash::HSetReq;
use crate::cache::list::LPushReq;
use crate::cache::value_object;
use crate::cache::value_object::{DataModel, FieldModel, MyValue, StoredModel, ValueObject};
use crate::value::{Reply, Value};
use vstd::prelude::*;

verus! {

/// A command as it is handed on to others.
#[derive(Debug)]
pub enum BaseOperation {
    LPush(LPushReq),
    HSet(HSetReq),
}

/// A command as plain data.
#[verifier::ext_equal]
pub enum OperationModel {
    LPush { key: Seq<u8>, elements: Seq<Seq<u8>> },
    HSet { key: Seq<u8>, fields: Seq<(Seq<u8>, FieldModel)> },
}

impl View for BaseOperation {
    type V = OperationModel;

    open spec fn view(&self) -> OperationModel {
        match *self {
            BaseOperation::LPush(req) => req.operation_of(),
            BaseOperation::HSet(req) => req.operation_of(),
        }
    }
}

/// A command, and the version of the value that it made.
#[derive(Debug)]
pub struct AtomicRequest {
    pub request: BaseOperation,
    pub version: u64,
}

/// A command with its version as plain data.
#[verifier::ext_equal]
pub struct AtomicModel {
    pub request: OperationModel,
    pub version: u64,
}

impl View for AtomicRequest {
    type V = AtomicModel;

    open spec fn view(&self) -> AtomicModel {
        AtomicModel { request: self.request@, version: self.version }
    }
}

/// How a command is to be taken.
#[derive(Debug)]
pub enum UpdateType {
    /// As it comes.
    Plain,
    /// As it comes, and noted down with the version that it makes.
    Snapshot(Vec<AtomicRequest>),
    /// Only if it makes this version.
    CAS(u64),
}

/// How a command is to be taken as plain data.
#[verifier::ext_equal]
pub enum UpdateModel {
    Plain,
    Snapshot(Seq<AtomicModel>),
    CAS(u64),
}

impl View for UpdateType {
    type V = UpdateModel;

    open spec fn view(&self) -> UpdateModel {
        match *self {
            UpdateType::Plain => UpdateModel::Plain,
            UpdateType::Snapshot(queue) => UpdateModel::Snapshot(
                queue@.map_values(|req: AtomicRequest| req@),
            ),
            UpdateType::CAS(version) => UpdateModel::CAS(version),
        }
    }
}

impl UpdateModel {
    /// With a command noted down, where commands are.
    pub open spec fn noted(self, request: OperationModel, version: u64) -> UpdateModel {
        match self {
            UpdateModel::Snapshot(queue) => UpdateModel::Snapshot(
                queue.push(AtomicModel { request, version }),
            ),
            _ => self,
        }
    }
}

/// What to do with a key.
#[derive(Debug)]
pub enum Op {
    /// Leave it as it is.
    Nop,
    /// Store a value under it.
    Put(MyValue),
}

/// What to do with a key as plain data.
#[verifier::ext_equal]
pub enum OpModel {
    Nop,
    Put(StoredModel),
}

impl View for Op {
    type V = OpModel;

    open spec fn view(&self) -> OpModel {
        match *self {
            Op::Nop => OpModel::Nop,
            Op::Put(value) => OpModel::Put(value@),
        }
    }
}

impl Op {
    /// Whether what is to be stored is in order.
    pub open spec fn inv(&self) -> bool {
        *self matches Op::Put(value) ==> value.data.inv()
    }
}

/// What became of a key.
#[derive(Debug)]
pub enum CompResult {
    /// It held nothing and now holds a value.
    Inserted(MyValue),
    /// It held a value and now holds another.
    ReplacedWith(MyValue),
    /// It held a value and still does.
    Unchanged(MyValue),
    /// It held nothing and still does.
    StillNone,
    /// It held a value and now holds nothing.
    Removed,
}

impl CompResult {
    /// The value that the key holds.
    pub open spec fn holds(&self) -> Option<MyValue> {
        match *self {
            CompResult::Inserted(value) => Some(value),
            CompResult::ReplacedWith(value) => Some(value),
            CompResult::Unchanged(value) => Some(value),
            CompResult::StillNone => None,
            CompResult::Removed => None,
        }
    }
}

/// A command that changes a value, and replies with what can be seen in the value.
pub trait ComputeCommand: Sized {
    /// The key.
    spec fn spec_key(&self) -> Seq<u8>;

    /// The command as plain data.
    spec fn operation(&self) -> OperationModel;

    /// What the command makes of data; nothing if the data is of another kind.
    spec fn mutated(&self, data: DataModel) -> Option<DataModel>;

    /// What the command makes where nothing is stored.
    spec fn initial(&self) -> DataModel;

    /// The reply for data.
    spec fn extracted(data: DataModel) -> Reply;

    /// The key.
    fn key(&self) -> (key: Vec<u8>)
        ensures
            key@ == self.spec_key(),
    ;

    /// The command as it is handed on to others.
    fn into_base_op(&self) -> (op: BaseOperation)
        ensures
            op@ == self.operation(),
    ;

    /// Changes data; tells whether it did.
    fn mutate(self, data: &mut ValueObject) -> (changed: bool)
        requires
            old(data).inv(),
        ensures
            final(data).inv(),
            changed == (self.mutated(old(data)@) is Some),
            final(data)@ == (match self.mutated(old(data)@) {
                Some(after) => after,
                None => old(data)@,
            }),
    ;

    /// Makes data where nothing is stored.
    fn init(self) -> (data: ValueObject)
        ensures
            data.inv(),
            data@ == self.initial(),
    ;

    /// The reply for data.
    fn extract(data: &ValueObject) -> (reply: Value)
        requires
            data.inv(),
        ensures
            reply@ == Self::extracted(data@),
    ;
}

/// A command that changes a value, and makes its reply while it does.
pub trait WriteCommand: Sized {
    /// The key.
    spec fn spec_key(&self) -> Seq<u8>;

    /// The command as plain data.
    spec fn operation(&self) -> OperationModel;

    /// What the command makes of data, and its reply; nothing if it leaves the data as
    /// it is.
    spec fn written(&self, data: DataModel) -> (Option<DataModel>, Reply);

    /// What the command makes where nothing is stored, and its reply.
    spec fn initial(&self) -> (DataModel, Reply);

    /// The key.
    fn key(&self) -> (key: Vec<u8>)
        ensures
            key@ == self.spec_key(),
    ;

    /// The command as it is handed on to others.
    fn into_base_op(self) -> (op: BaseOperation)
        ensures
            op@ == self.operation(),
    ;

    /// Changes data; tells whether it did, and the reply.
    fn mutate(&self, data: &mut ValueObject) -> (outcome: (bool, Value))
        requires
            old(data).inv(),
        ensures
            final(data).inv(),
            outcome.0 == (self.written(old(data)@).0 is Some),
            final(data)@ == (match self.written(old(data)@).0 {
                Some(after) => after,
                None => old(data)@,
            }),
            outcome.1@ == self.written(old(data)@).1,
    ;

    /// Makes data where nothing is stored, and the reply.
    fn init(&self) -> (outcome: (ValueObject, Value))
        ensures
            outcome.0.inv(),
            outcome.0@ == self.initial().0,
            outcome.1@ == self.initial().1,
    ;
}

/// What a command that makes data stores where nothing is stored.
pub open spec fn first(data: DataModel) -> StoredModel {
    StoredModel { data, expires_at: 0, version: 1 }
}

/// What a command does to a key that holds this, or nothing.
pub open spec fn compute_op<C: ComputeCommand>(
    cmd: C,
    update: UpdateModel,
    found: Option<StoredModel>,
) -> OpModel {
    match found {
        None => OpModel::Put(first(cmd.initial())),
        Some(value) => {
            let version = match update {
                UpdateModel::Plain => value.version,
                _ => (value.version + 1) as u64,
            };
            if update is CAS && value.version + 1 != update->CAS_0 {
                OpModel::Nop
            } else {
                match cmd.mutated(value.data) {
                    Some(data) => OpModel::Put(StoredModel { data, version, ..value }),
                    None => OpModel::Nop,
                }
            }
        },
    }
}

/// The version with which a command is noted down.
pub open spec fn noted_version(found: Option<StoredModel>) -> u64 {
    match found {
        Some(value) => (value.version + 1) as u64,
        None => 1,
    }
}

/// What a command that makes its own reply does to a key that holds this, or nothing.
pub open spec fn write_op<C: WriteCommand>(
    cmd: C,
    update: UpdateModel,
    found: Option<StoredModel>,
) -> OpModel {
    match found {
        None => OpModel::Put(first(cmd.initial().0)),
        Some(value) => if update is CAS && value.version + 1 != update->CAS_0 {
            OpModel::Nop
        } else {
            match cmd.written(value.data).0 {
                Some(data) => OpModel::Put(
                    StoredModel { data, version: (value.version + 1) as u64, ..value },
                ),
                None => OpModel::Nop,
            }
        },
    }
}

/// What such a command replies.
pub open spec fn write_reply_of<C: WriteCommand>(
    cmd: C,
    update: UpdateModel,
    found: Option<StoredModel>,
) -> Reply {
    match found {
        None => cmd.initial().1,
        Some(value) => if update is CAS && value.version + 1 != update->CAS_0 {
            Reply::Integer(0)
        } else {
            cmd.written(value.data).1
        },
    }
}

/// The rules by which the cache changes what is stored under a key.
pub struct MyCache;

impl MyCache {
    /// Notes a command down, where commands are.
    pub(crate) fn note(update: &mut UpdateType, request: BaseOperation, version: u64)
        ensures
            final(update)@ == old(update)@.noted(request@, version),
    {
        if let UpdateType::Snapshot(queue) = update {
            let ghost before = queue@;
            queue.push(AtomicRequest { request, version });
            assert(queue@.map_values(|req: AtomicRequest| req@) =~= before.map_values(
                |req: AtomicRequest| req@,
            ).push(AtomicModel { request: request@, version }));
        }
    }

    /// Decides what a command does to a key.
    pub fn execute_compute<C: ComputeCommand>(
        cmd: C,
        update: &mut UpdateType,
        found: Option<MyValue>,
    ) -> (op: Op)
        requires
            value_object::in_order(found),
            *old(update) matches UpdateType::CAS(version) ==> version >= 1,
            *old(update) is Snapshot && found is Some ==> found->0.version < u64::MAX,
        ensures
            op.inv(),
            op@ == compute_op(cmd, old(update)@, value_object::stored(found)),
            final(update)@ == old(update)@.noted(
                cmd.operation(),
                noted_version(value_object::stored(found)),
            ),
    {
        match found {
            Some(entry) => {
                let mut value = entry;
                match update {
                    UpdateType::Plain => {},
                    UpdateType::Snapshot(_) => {
                        value.version = value.version + 1;
                        let request = cmd.into_base_op();
                        Self::note(update, request, value.version);
                    },
                    UpdateType::CAS(cas_version) => {
                        let expected_version = *cas_version - 1;
                        if value.version != expected_version {
                            return Op::Nop;
                        }
                        value.version = value.version + 1;
                    },
                }
                if cmd.mutate(&mut value.data) {
                    Op::Put(value)
                } else {
                    Op::Nop
                }
            },
            None => {
                let request = cmd.into_base_op();
                Self::note(update, request, 1);
                Op::Put(MyValue { data: cmd.init(), expires_at: 0, version: 1 })
            },
        }
    }

    /// The reply to a command, once it is known what became of the key.
    pub fn compute_reply<C: ComputeCommand>(result: &CompResult) -> (reply: Value)
        requires
            value_object::in_order(result.holds()),
        ensures
            reply@ == (match result.holds() {
                Some(value) => C::extracted(value.data@),
                None => Reply::Error(
                    if result is StillNone {
                        "Unexpected: key not found"@
                    } else {
                        "Unexpected: value removed"@
                    },
                ),
            }),
    {
        match result {
            CompResult::Inserted(entry) => C::extract(&entry.data),
            CompResult::ReplacedWith(entry) => C::extract(&entry.data),
            CompResult::Unchanged(entry) => C::extract(&entry.data),
            CompResult::StillNone => Value::error("Unexpected: key not found"),
            CompResult::Removed => Value::error("Unexpected: value removed"),
        }
    }

    /// Decides what a command that makes its own reply does to a key, and the reply.
    pub fn execute_write<C: WriteCommand>(
        cmd: C,
        update: &mut UpdateType,
        found: Option<MyValue>,
    ) -> (outcome: (Op, Value))
        requires
            value_object::in_order(found),
            *old(update) matches UpdateType::CAS(version) ==> version >= 1,
            *old(update) is Snapshot && found is Some ==> found->0.version < u64::MAX,
            *old(update) is Plain && found is Some && cmd.written(found->0.data@).0 is Some
                ==> found->0.version < u64::MAX,
        ensures
            outcome.0.inv(),
            outcome.0@ == write_op(cmd, old(update)@, value_object::stored(found)),
            outcome.1@ == write_reply_of(cmd, old(update)@, value_object::stored(found)),
            final(update)@ == old(update)@.noted(
                cmd.operation(),
                noted_version(value_object::stored(found)),
            ),
    {
        match found {
            Some(entry) => {
                let mut value = entry;
                if let UpdateType::CAS(cas_version) = update {
                    let expected_version = *cas_version - 1;
                    if value.version != expected_version {
                        return (Op::Nop, Value::Integer(0));
                    }
                }
                let (changed, reply) = cmd.mutate(&mut value.data);
                if let UpdateType::Snapshot(_) = update {
                    let request = cmd.into_base_op();
                    Self::note(update, request, value.version + 1);
                }
                if changed {
                    value.version = value.version + 1;
                    (Op::Put(value), reply)
                } else {
                    (Op::Nop, reply)
                }
            },
            None => {
                let (data, reply) = cmd.init();
                let request = cmd.into_base_op();
                Self::note(update, request, 1);
                (Op::Put(MyValue { data, expires_at: 0, version: 1 }), reply)
            },
        }
    }

    /// The reply to such a command, once it is known what became of the key.
    pub fn write_reply(result: &CompResult, made: Value) -> (reply: Value)
        ensures
            result is StillNone ==> reply@ == Reply::Error("Key not found"@),
            !(result is StillNone) ==> reply == made,
    {
        match result {
            CompResult::StillNone => Value::error("Key not found"),
            _ => made,
        }
    }
}

} // verus!
