//! SELECT [index]

use crate::error::{CacheCatError, ErrorModel, ProtocolError};
use crate::utils::text;
use crate::value;
use crate::value::{Reply, Value};
use vstd::prelude::*;

verus! {

/// SELECT command handler
pub struct SelectCommand;

/// The database that a command selects; or what is wrong with the command. A number
/// in bytes is read and selects the first database.
pub open spec fn selected(items: Seq<Reply>) -> Result<u16, ErrorModel> {
    if items.len() > 2 {
        Err(ErrorModel::WrongArgCount("select"@))
    } else if items.len() < 2 {
        Ok(0)
    } else {
        match items[1] {
            Reply::Integer(n) => Ok(n as u16),
            Reply::SimpleString(word) => match text::written_number(word, u16::MAX as nat) {
                Some(n) => Ok(n as u16),
                None => Err(ErrorModel::SyntaxError),
            },
            Reply::BulkString(Some(data)) => if vstd::utf8::valid_utf8(data)
                && text::written_number(vstd::utf8::decode_utf8(data), u16::MAX as nat) is Some {
                Ok(0)
            } else {
                Err(ErrorModel::WrongArgCount("select"@))
            },
            _ => Err(ErrorModel::SyntaxError),
        }
    }
}

impl SelectCommand {
    /// Selects a database.
    pub fn execute(&self, db_number: &mut u16, items: &[Value]) -> (reply: Result<
        Value,
        CacheCatError,
    >)
        ensures
            match reply {
                Ok(ok) => {
                    &&& selected(value::replies(items@)) == Ok::<u16, ErrorModel>(*final(db_number))
                    &&& ok@ == value::text_reply("OK"@)
                },
                Err(error) => {
                    &&& selected(value::replies(items@)) == Err::<u16, ErrorModel>(error@)
                    &&& *final(db_number) == *old(db_number)
                },
            },
    {
        proof {
            value::lemma_replies(items@);
        }
        if items.len() > 2 {
            return Err(CacheCatError::Protocol(ProtocolError::WrongArgCount("select")));
        }
        let mut num: u16 = 0;
        if items.len() == 2 {
            match &items[1] {
                Value::Integer(n) => {
                    num = *n as u16;
                },
                Value::SimpleString(word) => match text::parse_u16(word.as_str()) {
                    Some(n) => {
                        num = n;
                    },
                    None => {
                        return Err(CacheCatError::Protocol(ProtocolError::SyntaxError));
                    },
                },
                Value::BulkString(Some(data)) => {
                    let parsed = match text::utf8_text(data.as_slice()) {
                        Some(word) => text::parse_u16(word),
                        None => None,
                    };
                    if parsed.is_none() {
                        return Err(CacheCatError::Protocol(ProtocolError::WrongArgCount("select")));
                    }
                },
                _ => {
                    return Err(CacheCatError::Protocol(ProtocolError::SyntaxError));
                },
            }
        }
        *db_number = num;
        Ok(Value::ok())
    }
}

} // verus!
