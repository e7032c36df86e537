//! Lists of byte strings.

use vstd::prelude::*;

verus! {

/// The byte strings that a list holds.
pub open spec fn names(list: Seq<Vec<u8>>) -> Seq<Seq<u8>> {
    list.map_values(|name: Vec<u8>| name@)
}

/// Copies a list.
pub(crate) fn copy_of(list: &Vec<Vec<u8>>) -> (copy: Vec<Vec<u8>>)
    ensures
        names(copy@) == names(list@),
{
    let mut copy: Vec<Vec<u8>> = Vec::new();
    let mut i: usize = 0;
    while i < list.len()
        invariant
            i <= list.len(),
            names(copy@) == names(list@).take(i as int),
        decreases list.len() - i,
    {
        let ghost before = copy@;
        let item = list[i].clone();
        assert(item@ =~= list@[i as int]@);
        copy.push(item);
        proof {
            assert(names(copy@) =~= names(before).push(item@));
            assert(names(list@).take(i + 1) =~= names(list@).take(i as int).push(item@));
        }
        i = i + 1;
    }
    assert(names(list@).take(i as int) =~= names(list@));
    copy
}

/// What a list contains that is one longer.
pub(crate) proof fn lemma_push_contains<T>(list: Seq<T>, last: T, item: T)
    ensures
        list.push(last).contains(item) <==> list.contains(item) || item == last,
{
    if list.push(last).contains(item) {
        let i = choose|i: int| 0 <= i < list.push(last).len() && list.push(last)[i] == item;
        if i < list.len() {
            assert(list[i] == item);
        }
    }
    if list.contains(item) {
        let i = choose|i: int| 0 <= i < list.len() && list[i] == item;
        assert(list.push(last)[i] == item);
    }
    assert(list.push(last)[list.len() as int] == last);
}

/// The byte strings of a list stand at their places.
pub proof fn law_names_keep_their_places(list: Seq<Vec<u8>>, i: int)
    requires
        0 <= i < list.len(),
    ensures
        names(list).len() == list.len(),
        names(list)[i] == list[i]@,
{
}

} // verus!
