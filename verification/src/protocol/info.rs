//! CLIENT INFO

use crate::error::CacheCatError;
use crate::value;
use crate::value::Value;
use vstd::prelude::*;

verus! {

/// CLIENT INFO command handler
pub struct ClientInfoCommand;

impl ClientInfoCommand {
    /// Replies with the bytes of the word `test`, whatever the arguments.
    pub fn execute(&self, _items: &[Value]) -> (reply: Result<Value, CacheCatError>)
        ensures
            reply is Ok,
            reply->Ok_0@ == value::bulk_reply(seq![116u8, 101u8, 115u8, 116u8]),
    {
        let data: Vec<u8> = vec![116u8, 101u8, 115u8, 116u8];
        assert(data@ =~= seq![116u8, 101u8, 115u8, 116u8]);
        Ok(Value::bulk(data))
    }
}

} // verus!
