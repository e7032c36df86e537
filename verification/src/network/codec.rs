//! Values in and out of a connection's buffers.

use crate::network::buffer;
use crate::value::Value;
use vstd::prelude::*;

verus! {

/// Takes values out of a buffer and puts them into one.
pub struct RespCodec;

impl RespCodec {
    /// Hands out the value that stands at the front of the buffer, if a whole one does,
    /// and drops its bytes. `parsed` is the value with the number of its bytes.
    pub fn decode(&mut self, src: &mut bytes::BytesMut, parsed: Option<(Value, usize)>) -> (value:
        Option<Value>)
        requires
            parsed matches Some((_, consumed)) ==> consumed <= buffer::buffered(*old(src)).len(),
        ensures
            match parsed {
                Some((front, consumed)) => {
                    &&& value == Some(front)
                    &&& buffer::buffered(*final(src)) == buffer::buffered(*old(src)).skip(
                        consumed as int,
                    )
                },
                None => {
                    &&& value is None
                    &&& buffer::buffered(*final(src)) == buffer::buffered(*old(src))
                },
            },
    {
        match parsed {
            Some((value, consumed)) => {
                buffer::advance(src, consumed);
                Some(value)
            },
            None => None,
        }
    }

    /// Puts an encoded value at the end of the buffer.
    pub fn encode(&mut self, encoded: &[u8], dst: &mut bytes::BytesMut)
        requires
            buffer::buffered(*old(dst)).len() + encoded@.len() <= isize::MAX,
        ensures
            buffer::buffered(*final(dst)) == buffer::buffered(*old(dst)) + encoded@,
    {
        buffer::extend(dst, encoded);
    }

    /// As `decode`, for a number of bytes that nobody vouches for: where the buffer does
    /// not hold so many, it stays as it is.
    pub fn try_decode(&mut self, src: &mut bytes::BytesMut, parsed: Option<(Value, usize)>) -> (
    value: Result<Option<Value>, Value>)
        ensures
            match parsed {
                Some((front, consumed)) => if consumed <= buffer::buffered(*old(src)).len() {
                    &&& value == Ok::<Option<Value>, Value>(Some(front))
                    &&& buffer::buffered(*final(src)) == buffer::buffered(*old(src)).skip(
                        consumed as int,
                    )
                } else {
                    &&& value == Err::<Option<Value>, Value>(front)
                    &&& buffer::buffered(*final(src)) == buffer::buffered(*old(src))
                },
                None => {
                    &&& value == Ok::<Option<Value>, Value>(None)
                    &&& buffer::buffered(*final(src)) == buffer::buffered(*old(src))
                },
            },
    {
        match parsed {
            Some((value, consumed)) => {
                if consumed <= buffer::len(src) {
                    Ok(self.decode(src, Some((value, consumed))))
                } else {
                    Err(value)
                }
            },
            None => Ok(None),
        }
    }

    /// As `encode`; says whether the buffer can grow so far, and leaves it as it is where
    /// it cannot.
    pub fn try_encode(&mut self, encoded: &[u8], dst: &mut bytes::BytesMut) -> (done: bool)
        ensures
            done == (buffer::buffered(*old(dst)).len() + encoded@.len() <= isize::MAX),
            buffer::buffered(*final(dst)) == (if done {
                buffer::buffered(*old(dst)) + encoded@
            } else {
                buffer::buffered(*old(dst))
            }),
    {
        let held = buffer::len(dst);
        let room = isize::MAX as usize;
        if held <= room && encoded.len() <= room - held {
            self.encode(encoded, dst);
            true
        } else {
            false
        }
    }
}

} // verus!
