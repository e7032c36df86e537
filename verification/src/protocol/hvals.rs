//! HVALS command implementation
//!
//! HVALS key
//! Returns all values in the hash stored at key.

use crate::cache::value_object::{FieldModel, HashValue, MyValue, ValueObject};
use crate::error::{CacheCatError, ErrorModel, ProtocolError};
use crate::protocol::client::{Client, Operation, ReadOperation};
use crate::utils::text;
use crate::value;
use crate::value::{Reply, Value};
use vstd::prelude::*;

verus! {

/// Parsed HVALS arguments
#[derive(Debug, PartialEq, Eq)]
pub struct HValsParams {
    pub key: Vec<u8>,
}

impl HValsParams {
    /// The command as a line of text.
    pub fn to_string(&self) -> (line: String)
        ensures
            line@ == "HVALS "@ + text::lossy(self.key@),
    {
        let mut line = "HVALS ".to_owned();
        let key = text::lossy_text(self.key.as_slice());
        line.append(key.as_str());
        line
    }
}

/// The key that a command names; or what is wrong with the command.
pub open spec fn key_of(items: Seq<Reply>) -> Result<Seq<u8>, ErrorModel> {
    if items.len() < 2 {
        Err(ErrorModel::WrongArgCount("hvals"@))
    } else {
        match items[1] {
            Reply::BulkString(Some(data)) => Ok(data),
            Reply::SimpleString(word) => Ok(vstd::utf8::encode_utf8(word)),
            _ => Err(ErrorModel::InvalidArgument("key"@)),
        }
    }
}

/// A value of a hash as it is sent: bytes as they are, a number in decimal.
pub open spec fn field_reply(field: FieldModel) -> Reply {
    match field {
        FieldModel::Str(data) => value::bulk_reply(data),
        FieldModel::Int(n) => value::bulk_reply(text::decimal_text(n as int)),
    }
}

/// What a command comes to before anything is read.
#[derive(Debug)]
pub enum Execution {
    /// The reply.
    Done(Value),
    /// What is stored under a key of a database is needed.
    Read { key: Vec<u8>, db_number: u16 },
}

/// HVALS command handler
pub struct HValsCommand;

impl HValsCommand {
    /// Parse arguments from RESP items
    /// Format: HVALS key
    pub fn parse_args(items: &[Value]) -> (params: Result<HValsParams, ProtocolError>)
        ensures
            match params {
                Ok(parsed) => key_of(value::replies(items@)) == Ok::<Seq<u8>, ErrorModel>(
                    parsed.key@,
                ),
                Err(error) => key_of(value::replies(items@)) == Err::<Seq<u8>, ErrorModel>(error@),
            },
    {
        proof {
            value::lemma_replies(items@);
        }
        if items.len() < 2 {
            return Err(ProtocolError::WrongArgCount("hvals"));
        }
        let key = match &items[1] {
            Value::BulkString(Some(data)) => {
                let copied = data.clone();
                assert(copied@ =~= data@);
                copied
            },
            Value::SimpleString(word) => vstd::slice::slice_to_vec(word.as_str().as_bytes()),
            _ => {
                return Err(ProtocolError::InvalidArgument("key"));
            },
        };
        Ok(HValsParams { key })
    }

    /// The command as it is queued.
    pub fn raft_request(&self, items: &[Value]) -> (request: Result<Operation, ProtocolError>)
        ensures
            match request {
                Ok(Operation::Read(ReadOperation::HVals(parsed))) => key_of(value::replies(items@))
                    == Ok::<Seq<u8>, ErrorModel>(parsed.key@),
                Err(error) => key_of(value::replies(items@)) == Err::<Seq<u8>, ErrorModel>(error@),
            },
    {
        match Self::parse_args(items) {
            Ok(params) => Ok(Operation::Read(ReadOperation::HVals(params))),
            Err(error) => Err(error),
        }
    }

    /// Queues the command while the client has a transaction; says what to read if it
    /// has none.
    pub fn execute(&self, client: &mut Client, items: &[Value]) -> (execution: Result<
        Execution,
        CacheCatError,
    >)
        ensures
            final(client).db_number == old(client).db_number,
            final(client).id == old(client).id,
            match execution {
                Ok(Execution::Done(reply)) => {
                    &&& reply@ == value::text_reply("QUEUED"@)
                    &&& old(client).transaction_queue is Some
                    &&& final(client).transaction_queue is Some
                    &&& ({
                        let before = old(client).transaction_queue->0@;
                        let after = final(client).transaction_queue->0@;
                        &&& after.len() == before.len() + 1
                        &&& after.take(before.len() as int) == before
                        &&& after.last() matches Operation::Read(ReadOperation::HVals(queued))
                            && key_of(value::replies(items@)) == Ok::<Seq<u8>, ErrorModel>(
                            queued.key@,
                        )
                    })
                },
                Ok(Execution::Read { key, db_number }) => {
                    &&& old(client).transaction_queue is None
                    &&& final(client).transaction_queue is None
                    &&& key_of(value::replies(items@)) == Ok::<Seq<u8>, ErrorModel>(key@)
                    &&& db_number == old(client).db_number
                },
                Err(error) => {
                    &&& key_of(value::replies(items@)) == Err::<Seq<u8>, ErrorModel>(error@)
                    &&& final(client).transaction_queue == old(client).transaction_queue
                },
            },
    {
        if let Some(queue) = &mut client.transaction_queue {
            let ghost before = queue@;
            match self.raft_request(items) {
                Ok(request) => {
                    queue.push(request);
                    assert(queue@.take(before.len() as int) =~= before);
                    return Ok(Execution::Done(Value::text("QUEUED")));
                },
                Err(error) => {
                    return Err(CacheCatError::Protocol(error));
                },
            }
        }
        match Self::parse_args(items) {
            Ok(params) => Ok(Execution::Read { key: params.key, db_number: client.db_number }),
            Err(error) => Err(CacheCatError::Protocol(error)),
        }
    }

    /// The reply, once it is known what is stored under the key: the values of the hash
    /// in the order in which it lists them.
    pub fn reply(found: &Option<MyValue>) -> (reply: Result<Value, CacheCatError>)
        requires
            found matches Some(stored) ==> stored.data.inv(),
        ensures
            match found {
                None => reply is Ok && reply->Ok_0@ == value::array_reply(Seq::empty()),
                Some(stored) => match stored.data {
                    ValueObject::Hash(map) => {
                        &&& reply is Ok
                        &&& reply->Ok_0@ == value::array_reply(
                            map.key_order().map_values(
                                |field: Seq<u8>| field_reply(map@[field]@),
                            ),
                        )
                    },
                    _ => reply is Err && reply->Err_0@ == ErrorModel::WrongType,
                },
            },
    {
        match found {
            None => {
                let nothing: Vec<Value> = Vec::new();
                assert(value::replies(nothing@) =~= Seq::empty());
                Ok(Value::array(nothing))
            },
            Some(stored) => match &stored.data {
                ValueObject::Hash(map) => {
                    let total = map.len();
                    let ghost expected = map.key_order().map_values(
                        |field: Seq<u8>| field_reply(map@[field]@),
                    );
                    let mut result: Vec<Value> = Vec::new();
                    let mut i: usize = 0;
                    while i < total
                        invariant
                            map.inv(),
                            i <= total == map.key_order().len(),
                            expected == map.key_order().map_values(
                                |field: Seq<u8>| field_reply(map@[field]@),
                            ),
                            value::replies(result@) == expected.take(i as int),
                        decreases total - i,
                    {
                        broadcast use value::lemma_replies_push;

                        let pair = map.at(i);
                        let value_bytes = match &pair.1 {
                            HashValue::Str(data) => {
                                let copied = data.clone();
                                assert(copied@ =~= data@);
                                copied
                            },
                            HashValue::Int(n) => text::decimal(*n),
                        };
                        result.push(Value::bulk(value_bytes));
                        assert(expected.take(i + 1) =~= expected.take(i as int).push(
                            expected[i as int],
                        ));
                        i = i + 1;
                    }
                    assert(expected.take(i as int) =~= expected);
                    Ok(Value::array(result))
                },
                _ => Err(CacheCatError::Protocol(ProtocolError::WrongType)),
            },
        }
    }
}

} // verus!
