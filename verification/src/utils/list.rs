//! Ranges of a list by index, where a negative index counts from the end.

use std::collections::VecDeque;

use vstd::prelude::*;

verus! {

/// The position that an index means in a list of length `len`.
pub open spec fn resolved_index(index: int, len: int) -> int {
    if index < 0 {
        len + index
    } else {
        index
    }
}

/// The first position of the range that starts at an index.
pub open spec fn range_start(start: int, len: int) -> int {
    if resolved_index(start, len) < 0 {
        0
    } else {
        resolved_index(start, len)
    }
}

/// The last position of the range that ends at an index.
pub open spec fn range_end(end: int, len: int) -> int {
    if resolved_index(end, len) > len - 1 {
        len - 1
    } else {
        resolved_index(end, len)
    }
}

/// How many items a range has.
pub open spec fn range_len(start: int, end: int, len: int) -> int {
    if range_start(start, len) > range_end(end, len) {
        0
    } else {
        range_end(end, len) - range_start(start, len) + 1
    }
}

/// Clones of the items from `start` to `end`, both included.
pub fn lrange<T: Clone>(deque: &VecDeque<T>, start: i64, end: i64) -> (items: Vec<T>)
    requires
        deque@.len() <= i64::MAX,
    ensures
        items@.len() == range_len(start as int, end as int, deque@.len() as int),
        forall|i: int|
            0 <= i < items@.len() ==> cloned(
                deque@[range_start(start as int, deque@.len() as int) + i],
                #[trigger] items@[i],
            ),
{
    let len = deque.len() as i64;
    let mut items: Vec<T> = Vec::new();
    if len == 0 {
        return items;
    }
    let mut first = if start < 0 {
        len + start
    } else {
        start
    };
    let mut last = if end < 0 {
        len + end
    } else {
        end
    };
    if first < 0 {
        first = 0;
    }
    if last > len - 1 {
        last = len - 1;
    }
    if first > last {
        return items;
    }
    let count = (last - first + 1) as usize;
    let offset = first as usize;
    let total = deque.len();
    while items.len() < count
        invariant
            offset == range_start(start as int, deque@.len() as int),
            count == range_len(start as int, end as int, deque@.len() as int),
            total == deque@.len(),
            offset + count <= total,
            items@.len() <= count,
            forall|i: int|
                0 <= i < items@.len() ==> cloned(deque@[offset + i], #[trigger] items@[i]),
        decreases count - items.len(),
    {
        let item = deque[offset + items.len()].clone();
        items.push(item);
    }
    items
}

/// A range lies within the list; from the first index to the last one it is the whole
/// list.
pub proof fn law_ranges_lie_within(start: int, end: int, len: int)
    requires
        len >= 0,
    ensures
        range_len(start, end, len) > 0 ==> 0 <= range_start(start, len) && range_start(start, len)
            + range_len(start, end, len) <= len,
        range_start(0, len) == 0,
        range_len(0, -1, len) == len,
{
}

/// A position is in a range exactly if it is in the list, not before the first index and
/// not after the last one; a negative index counts from the end.
pub proof fn law_what_a_range_holds(start: int, end: int, len: int, position: int)
    requires
        len >= 0,
    ensures
        ({
            let from = if start < 0 {
                start + len
            } else {
                start
            };
            let to = if end < 0 {
                end + len
            } else {
                end
            };
            range_start(start, len) <= position < range_start(start, len) + range_len(
                start,
                end,
                len,
            ) <==> 0 <= position < len && from <= position <= to
        }),
        range_len(start, end, len) >= 0,
{
}

} // verus!
