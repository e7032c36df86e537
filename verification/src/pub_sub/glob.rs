//! Glob patterns over byte strings.

use vstd::prelude::*;

verus! {

/// The star, which stands for any bytes, also none.
pub const ANY: u8 = 42;

/// The question mark, which stands for any one byte.
pub const ONE: u8 = 63;

/// Whether a pattern covers the whole of a channel name. Every byte but the two
/// special ones stands for itself.
pub open spec fn covers(pattern: Seq<u8>, channel: Seq<u8>) -> bool
    decreases pattern.len(),
{
    if pattern.len() == 0 {
        channel.len() == 0
    } else if pattern[0] == ANY {
        exists|i: int|
            0 <= i <= channel.len() && covers(pattern.skip(1), #[trigger] channel.skip(i))
    } else {
        &&& channel.len() > 0
        &&& pattern[0] == ONE || pattern[0] == channel[0]
        &&& covers(pattern.skip(1), channel.skip(1))
    }
}

/// Whether the pattern covers the channel name.
pub fn matches_pattern(channel: &[u8], pattern: &[u8]) -> (matched: bool)
    ensures
        matched == covers(pattern@, channel@),
    decreases pattern@.len(),
{
    if pattern.len() == 0 {
        return channel.len() == 0;
    }
    let rest = vstd::slice::slice_subrange(pattern, 1, pattern.len());
    assert(rest@ =~= pattern@.skip(1));
    if pattern[0] == ANY {
        let mut i: usize = 0;
        loop
            invariant
                i <= channel@.len(),
                rest@ == pattern@.skip(1),
                rest@.len() < pattern@.len(),
                pattern@[0] == ANY,
                pattern@.len() > 0,
                forall|j: int| 0 <= j < i ==> !covers(rest@, #[trigger] channel@.skip(j)),
            decreases channel@.len() - i,
        {
            let tail = vstd::slice::slice_subrange(channel, i, channel.len());
            assert(tail@ =~= channel@.skip(i as int));
            if matches_pattern(tail, rest) {
                return true;
            }
            if i == channel.len() {
                return false;
            }
            i = i + 1;
        }
    } else if channel.len() == 0 || (pattern[0] != ONE && channel[0] != pattern[0]) {
        false
    } else {
        let tail = vstd::slice::slice_subrange(channel, 1, channel.len());
        assert(tail@ =~= channel@.skip(1));
        matches_pattern(tail, rest)
    }
}

/// A pattern without special bytes covers the name that it spells, and no other.
pub proof fn law_plain_pattern_is_a_name(pattern: Seq<u8>, channel: Seq<u8>)
    requires
        forall|i: int|
            0 <= i < pattern.len() ==> #[trigger] pattern[i] != ANY && pattern[i] != ONE,
    ensures
        covers(pattern, channel) <==> pattern == channel,
    decreases pattern.len(),
{
    if pattern.len() > 0 && channel.len() > 0 {
        law_plain_pattern_is_a_name(pattern.skip(1), channel.skip(1));
        if pattern[0] == channel[0] && pattern.skip(1) == channel.skip(1) {
            assert(pattern =~= seq![pattern[0]] + pattern.skip(1));
            assert(channel =~= seq![channel[0]] + channel.skip(1));
        }
    }
    if pattern.len() == 0 && channel.len() == 0 {
        assert(pattern =~= channel);
    }
}

/// The pattern of a lone star covers every name.
pub proof fn law_star_covers_everything(channel: Seq<u8>)
    ensures
        covers(seq![ANY], channel),
{
    let pattern = seq![ANY];
    assert(channel.skip(channel.len() as int).len() == 0);
    assert(pattern.skip(1).len() == 0);
    assert(covers(pattern.skip(1), channel.skip(channel.len() as int)));
}

/// A question mark before a pattern takes up one byte of the name, whichever it is.
pub proof fn law_question_mark_takes_one_byte(pattern: Seq<u8>, channel: Seq<u8>)
    ensures
        covers(seq![ONE] + pattern, channel) <==> channel.len() > 0 && covers(
            pattern,
            channel.skip(1),
        ),
{
    assert((seq![ONE] + pattern).skip(1) =~= pattern);
}

/// A star before a pattern takes up any part of the front of the name.
pub proof fn law_star_takes_any_front(pattern: Seq<u8>, front: Seq<u8>, channel: Seq<u8>)
    requires
        covers(pattern, channel),
    ensures
        covers(seq![ANY] + pattern, front + channel),
{
    let whole = seq![ANY] + pattern;
    assert(whole.skip(1) =~= pattern);
    assert((front + channel).skip(front.len() as int) =~= channel);
    assert(covers(whole.skip(1), (front + channel).skip(front.len() as int)));
}

/// An empty pattern covers the empty name alone.
pub proof fn law_empty_pattern_covers_nothing_else(channel: Seq<u8>)
    ensures
        covers(Seq::empty(), channel) <==> channel.len() == 0,
{
}

/// A byte that is not special stands for itself, whatever pattern follows it: the name
/// begins with that byte, and the rest of the pattern covers the rest of the name.
pub proof fn law_plain_byte_stands_for_itself(byte: u8, pattern: Seq<u8>, channel: Seq<u8>)
    requires
        byte != 42,
        byte != 63,
    ensures
        covers(seq![byte] + pattern, channel) <==> channel.len() > 0 && channel[0] == byte
            && covers(pattern, channel.skip(1)),
{
    assert((seq![byte] + pattern).skip(1) =~= pattern);
}

/// The star and the question mark are the special bytes; a star covers a name exactly if
/// the rest of the pattern covers some end of it, and a question mark exactly if the
/// rest of the pattern covers all but its first byte.
pub proof fn law_special_bytes(pattern: Seq<u8>, channel: Seq<u8>)
    ensures
        covers(seq![42u8] + pattern, channel) <==> exists|i: int|
            0 <= i <= channel.len() && covers(pattern, #[trigger] channel.skip(i)),
        covers(seq![63u8] + pattern, channel) <==> channel.len() > 0 && covers(
            pattern,
            channel.skip(1),
        ),
{
    assert((seq![42u8] + pattern).skip(1) =~= pattern);
    assert((seq![63u8] + pattern).skip(1) =~= pattern);
}

/// A plain beginning of a pattern is the beginning of every name that it covers.
pub proof fn law_plain_beginning_is_kept(plain: Seq<u8>, pattern: Seq<u8>, channel: Seq<u8>)
    requires
        forall|i: int| 0 <= i < plain.len() ==> #[trigger] plain[i] != 42 && plain[i] != 63,
    ensures
        covers(plain + pattern, channel) <==> channel.len() >= plain.len() && channel.take(
            plain.len() as int,
        ) == plain && covers(pattern, channel.skip(plain.len() as int)),
    decreases plain.len(),
{
    if plain.len() == 0 {
        assert(plain + pattern =~= pattern);
        assert(channel.skip(0) =~= channel);
        assert(channel.take(0) =~= plain);
    } else {
        let rest = plain.skip(1);
        assert(plain + pattern =~= seq![plain[0]] + (rest + pattern));
        law_plain_byte_stands_for_itself(plain[0], rest + pattern, channel);
        if channel.len() > 0 {
            law_plain_beginning_is_kept(rest, pattern, channel.skip(1));
            let n = plain.len() as int;
            if channel.len() >= n {
                assert(channel.skip(1).skip(n - 1) =~= channel.skip(n));
                assert(channel.take(n) =~= seq![channel[0]] + channel.skip(1).take(n - 1));
                assert(plain =~= seq![plain[0]] + rest);
                if channel.take(n) == plain {
                    assert(channel.take(n)[0] == plain[0]);
                    assert(channel.take(n).skip(1) =~= channel.skip(1).take(n - 1));
                }
            }
        }
    }
}

} // verus!
