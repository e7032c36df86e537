//! SENTINEL SENTINELS <master-name>

use crate::error::{CacheCatError, ErrorModel, ProtocolError};
use crate::utils::text;
use crate::value;
use crate::value::{Reply, Value};
use vstd::prelude::*;

verus! {

/// SENTINEL SENTINELS command handler
pub struct SentinelSentinelsCommand;

/// What is wrong with a command, if anything.
pub open spec fn complaint(items: Seq<Reply>) -> Option<ErrorModel> {
    if items.len() != 3 {
        Some(ErrorModel::WrongArgCount("SENTINEL SENTINELS"@))
    } else {
        match items[2] {
            Reply::BulkString(Some(_)) => None,
            Reply::SimpleString(_) => None,
            _ => Some(ErrorModel::InvalidArgument("master name"@)),
        }
    }
}

impl SentinelSentinelsCommand {
    /// Lists the sentinels of a master: there are none, neither of the master that is
    /// configured nor of another.
    pub fn execute(&self, items: &[Value], sentinel_master_name: &String) -> (reply: Result<
        Value,
        CacheCatError,
    >)
        ensures
            match reply {
                Ok(list) => {
                    &&& complaint(value::replies(items@)) is None
                    &&& list@ == Reply::Array(None)
                },
                Err(error) => complaint(value::replies(items@)) == Some(error@),
            },
    {
        proof {
            value::lemma_replies(items@);
        }
        if items.len() != 3 {
            return Err(CacheCatError::Protocol(ProtocolError::WrongArgCount("SENTINEL SENTINELS")));
        }
        let name = match &items[2] {
            Value::BulkString(Some(data)) => text::lossy_text(data.as_slice()),
            Value::SimpleString(word) => word.clone(),
            _ => {
                return Err(CacheCatError::Protocol(ProtocolError::InvalidArgument("master name")));
            },
        };
        if *sentinel_master_name == name {
            Ok(Value::Array(None))
        } else {
            Ok(Value::Array(None))
        }
    }
}

} // verus!
