//! The values of the wire protocol.

use vstd::prelude::*;

verus! {

/// A protocol value.
#[derive(Debug, PartialEq, Eq)]
pub enum Value {
    SimpleString(String),
    Error(String),
    Integer(i64),
    BulkString(Option<Vec<u8>>),
    Array(Option<Vec<Value>>),
}

/// A protocol value as plain data.
#[verifier::ext_equal]
pub enum Reply {
    SimpleString(Seq<char>),
    Error(Seq<char>),
    Integer(i64),
    BulkString(Option<Seq<u8>>),
    Array(Option<Seq<Reply>>),
}

/// What a protocol value is.
pub open spec fn reply_of(value: Value) -> Reply
    decreases value,
{
    match value {
        Value::SimpleString(text) => Reply::SimpleString(text@),
        Value::Error(text) => Reply::Error(text@),
        Value::Integer(n) => Reply::Integer(n),
        Value::BulkString(None) => Reply::BulkString(None),
        Value::BulkString(Some(data)) => Reply::BulkString(Some(data@)),
        Value::Array(None) => Reply::Array(None),
        Value::Array(Some(items)) => Reply::Array(Some(replies(items@))),
    }
}

/// What protocol values are, one after the other.
pub open spec fn replies(items: Seq<Value>) -> Seq<Reply>
    decreases items,
{
    if items.len() == 0 {
        Seq::empty()
    } else {
        replies(items.drop_last()).push(reply_of(items.last()))
    }
}

impl View for Value {
    type V = Reply;

    open spec fn view(&self) -> Reply {
        reply_of(*self)
    }
}

/// Each item of a list is seen at its place.
pub proof fn lemma_replies(items: Seq<Value>)
    ensures
        replies(items).len() == items.len(),
        forall|i: int| 0 <= i < items.len() ==> #[trigger] replies(items)[i] == items[i]@,
    decreases items.len(),
{
    if items.len() > 0 {
        lemma_replies(items.drop_last());
    }
}

/// Adding an item to a list adds what it is.
pub broadcast proof fn lemma_replies_push(items: Seq<Value>, item: Value)
    ensures
        #[trigger] replies(items.push(item)) == replies(items).push(item@),
{
    assert(items.push(item).drop_last() =~= items);
}

/// A text reply.
pub open spec fn text_reply(text: Seq<char>) -> Reply {
    Reply::SimpleString(text)
}

/// A reply of bytes.
pub open spec fn bulk_reply(data: Seq<u8>) -> Reply {
    Reply::BulkString(Some(data))
}

/// A reply that lists others.
pub open spec fn array_reply(items: Seq<Reply>) -> Reply {
    Reply::Array(Some(items))
}

impl Value {
    /// The reply of a command that has nothing else to say.
    pub fn ok() -> (value: Value)
        ensures
            value@ == text_reply("OK"@),
    {
        Value::SimpleString("OK".to_owned())
    }

    /// An error reply with a text.
    pub fn error(text: &str) -> (value: Value)
        ensures
            value@ == Reply::Error(text@),
    {
        Value::Error(text.to_owned())
    }

    /// A text reply.
    pub fn text(text: &str) -> (value: Value)
        ensures
            value@ == text_reply(text@),
    {
        Value::SimpleString(text.to_owned())
    }

    /// A reply of bytes.
    pub fn bulk(data: Vec<u8>) -> (value: Value)
        ensures
            value@ == bulk_reply(data@),
    {
        Value::BulkString(Some(data))
    }

    /// A reply that lists others.
    pub fn array(items: Vec<Value>) -> (value: Value)
        ensures
            value@ == array_reply(replies(items@)),
    {
        Value::Array(Some(items))
    }
}

impl Value {
    /// A copy of the value.
    fn duplicate(&self) -> (copy: Value)
        ensures
            copy@ == self@,
        decreases self,
    {
        match self {
            Value::SimpleString(text) => Value::SimpleString(text.clone()),
            Value::Error(text) => Value::Error(text.clone()),
            Value::Integer(n) => Value::Integer(*n),
            Value::BulkString(None) => Value::BulkString(None),
            Value::BulkString(Some(data)) => {
                let copied = data.clone();
                assert(copied@ =~= data@);
                Value::BulkString(Some(copied))
            },
            Value::Array(None) => Value::Array(None),
            Value::Array(Some(items)) => {
                let mut copied: Vec<Value> = Vec::new();
                let mut i: usize = 0;
                assert(items@.take(0) =~= Seq::empty());
                while i < items.len()
                    invariant
                        i <= items.len(),
                        *self == Value::Array(Some(*items)),
                        replies(copied@) == replies(items@.take(i as int)),
                    decreases items.len() - i,
                {
                    broadcast use lemma_replies_push;

                    assert(decreases_to!(*self => self->Array_0));
                    assert(decreases_to!(self->Array_0 => self->Array_0->0));
                    assert(decreases_to!(*items => items@));
                    assert(decreases_to!(items@ => items@[i as int]));
                    copied.push(items[i].duplicate());
                    assert(items@.take(i + 1) =~= items@.take(i as int).push(items@[i as int]));
                    i = i + 1;
                }
                assert(items@.take(i as int) =~= items@);
                Value::Array(Some(copied))
            },
        }
    }
}

impl Clone for Value {
    fn clone(&self) -> (copy: Value)
        ensures
            copy@ == self@,
    {
        self.duplicate()
    }
}

/// A protocol value is what it says, and an array is the list of its items.
pub proof fn law_values_are_what_they_say(
    text: String,
    n: i64,
    data: Vec<u8>,
    items: Vec<Value>,
    i: int,
)
    ensures
        Value::SimpleString(text)@ == Reply::SimpleString(text@),
        Value::Error(text)@ == Reply::Error(text@),
        Value::Integer(n)@ == Reply::Integer(n),
        Value::BulkString(None)@ == Reply::BulkString(None),
        Value::BulkString(Some(data))@ == Reply::BulkString(Some(data@)),
        Value::Array(None)@ == Reply::Array(None),
        Value::Array(Some(items))@ is Array,
        Value::Array(Some(items))@->Array_0 is Some,
        Value::Array(Some(items))@->Array_0->0.len() == items@.len(),
        0 <= i < items@.len() ==> Value::Array(Some(items))@->Array_0->0[i] == items@[i]@,
{
    lemma_replies(items@);
}

/// The kinds of reply are told apart.
pub proof fn law_kinds_of_reply(text: Seq<char>, data: Seq<u8>, items: Seq<Reply>)
    ensures
        text_reply(text) == Reply::SimpleString(text),
        bulk_reply(data) == Reply::BulkString(Some(data)),
        array_reply(items) == Reply::Array(Some(items)),
{
}

} // verus!
