//! What scripts may do.

use crate::value;
use crate::value::{Reply, Value};
use vstd::prelude::*;

verus! {

/// The texts that strings are.
pub open spec fn texts(list: Seq<String>) -> Seq<Seq<char>> {
    list.map_values(|item: String| item@)
}

/// The names that scripts must not see: whatever reaches outside the interpreter.
pub open spec fn hidden_names() -> Seq<Seq<char>> {
    seq!["os"@, "io"@, "package"@, "require"@, "dofile"@, "loadfile"@]
}

/// The names of the globals that are taken away from scripts.
pub fn hidden_globals() -> (names: Vec<String>)
    ensures
        texts(names@) == hidden_names(),
{
    let names: Vec<String> = vec![
        "os".to_owned(),
        "io".to_owned(),
        "package".to_owned(),
        "require".to_owned(),
        "dofile".to_owned(),
        "loadfile".to_owned(),
    ];
    assert(texts(names@) =~= hidden_names());
    names
}

/// Runs the commands of scripts.
pub struct RedisHandler;

impl RedisHandler {
    /// The command that a script calls with these arguments; or what is wrong with the
    /// call.
    pub fn call(&self, args: Vec<String>) -> (command: Result<Vec<Value>, &'static str>)
        ensures
            match command {
                Ok(items) => {
                    &&& args@.len() > 0
                    &&& value::replies(items@) == texts(args@).map_values(
                        |arg: Seq<char>| value::text_reply(arg),
                    )
                },
                Err(wrong) => {
                    &&& args@.len() == 0
                    &&& wrong@ == "redis.call requires at least one argument"@
                },
            },
    {
        if args.len() == 0 {
            return Err("redis.call requires at least one argument");
        }
        let ghost expected = texts(args@).map_values(|arg: Seq<char>| value::text_reply(arg));
        let mut items: Vec<Value> = Vec::new();
        let mut i: usize = 0;
        while i < args.len()
            invariant
                i <= args.len(),
                expected == texts(args@).map_values(|arg: Seq<char>| value::text_reply(arg)),
                value::replies(items@) == expected.take(i as int),
            decreases args.len() - i,
        {
            broadcast use value::lemma_replies_push;

            let arg = args[i].clone();
            items.push(Value::SimpleString(arg));
            assert(expected.take(i + 1) =~= expected.take(i as int).push(expected[i as int]));
            i = i + 1;
        }
        assert(expected.take(i as int) =~= expected);
        Ok(items)
    }
}

} // verus!
