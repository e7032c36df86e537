use cache_cat::cache::cas::{
    AtomicRequest, BaseOperation, CompResult, ComputeCommand, MyCache, Op, UpdateType,
};
use cache_cat::cache::hash::HSetReq;
use cache_cat::cache::list::LPushReq;
use cache_cat::cache::score::rank_of;
use cache_cat::cache::sorted_set::{SortedSet, ZAddReq};
use cache_cat::cache::value_object::{HashValue, MyValue, ValueObject};
use cache_cat::utils::list::lrange;
use cache_cat::utils::times::{gap_seconds, now_ms, time_gap, time_of};
use cache_cat::value::Value;
use std::collections::VecDeque;

fn items(list: &[&str]) -> Vec<Vec<u8>> {
    list.iter().map(|item| item.as_bytes().to_vec()).collect()
}

fn push(elements: &[&str]) -> LPushReq {
    LPushReq {
        key: b"l".to_vec(),
        elements: items(elements),
    }
}

fn value(data: ValueObject, version: u64) -> Option<MyValue> {
    Some(MyValue {
        data,
        expires_at: 9,
        version,
    })
}

fn list(elements: &[&str], version: u64) -> Option<MyValue> {
    value(ValueObject::List(VecDeque::from(items(elements))), version)
}

fn put(op: Op) -> MyValue {
    match op {
        Op::Put(value) => value,
        Op::Nop => panic!("nothing to put"),
    }
}

fn listed(value: &MyValue) -> Vec<Vec<u8>> {
    match &value.data {
        ValueObject::List(list) => list.iter().cloned().collect(),
        other => panic!("not a list: {:?}", other),
    }
}

fn noted(update: UpdateType) -> Vec<(BaseOperation, u64)> {
    match update {
        UpdateType::Snapshot(queue) => queue
            .into_iter()
            .map(|AtomicRequest { request, version }| (request, version))
            .collect(),
        _ => vec![],
    }
}

#[test]
fn a_new_list_holds_the_elements_as_they_came() {
    let stored = put(MyCache::l_push(push(&["a", "b"]), &mut UpdateType::Plain, None));
    assert_eq!(listed(&stored), items(&["a", "b"]));
    assert_eq!((stored.version, stored.expires_at), (1, 0));
    assert_eq!(
        MyCache::compute_reply::<LPushReq>(&CompResult::Inserted(stored)),
        Value::Integer(2)
    );
}

#[test]
fn elements_are_pushed_onto_the_front() {
    let stored = put(MyCache::l_push(
        push(&["a", "b"]),
        &mut UpdateType::Plain,
        list(&["z"], 5),
    ));
    assert_eq!(listed(&stored), items(&["b", "a", "z"]));
    assert_eq!((stored.version, stored.expires_at), (5, 9));
    assert_eq!(
        MyCache::compute_reply::<LPushReq>(&CompResult::ReplacedWith(stored)),
        Value::Integer(3)
    );
}

#[test]
fn pushing_is_noted_down_with_its_version() {
    let mut update = UpdateType::Snapshot(vec![]);
    let stored = put(MyCache::l_push(push(&["a"]), &mut update, list(&["z"], 5)));
    assert_eq!(stored.version, 6);
    put(MyCache::l_push(push(&["b"]), &mut update, None));
    let kept = MyCache::l_push(push(&["c"]), &mut update, value(ValueObject::Int(1), 8));
    assert!(matches!(kept, Op::Nop));
    let noted = noted(update);
    let versions: Vec<u64> = noted.iter().map(|(_, version)| *version).collect();
    assert_eq!(versions, vec![6, 1, 9]);
    match &noted[0].0 {
        BaseOperation::LPush(req) => {
            assert_eq!(req.key, b"l".to_vec());
            assert_eq!(req.elements, items(&["a"]));
        }
        other => panic!("not a push: {:?}", other),
    }
}

#[test]
fn the_other_push_notes_down_what_it_changes() {
    let mut update = UpdateType::Snapshot(vec![]);
    let stored = put(MyCache::l_push_(push(&["a", "b"]), &mut update, list(&["z"], 5)));
    assert_eq!(listed(&stored), items(&["b", "a", "z"]));
    assert_eq!(stored.version, 6);
    put(MyCache::l_push_(push(&["b"]), &mut update, None));
    let kept = MyCache::l_push_(push(&["c"]), &mut update, value(ValueObject::Int(1), 8));
    assert!(matches!(kept, Op::Nop));
    let versions: Vec<u64> = noted(update).iter().map(|(_, version)| *version).collect();
    assert_eq!(versions, vec![6, 1]);
}

#[test]
fn a_version_is_made_once() {
    let made = put(MyCache::l_push(
        push(&["a"]),
        &mut UpdateType::CAS(6),
        list(&[], 5),
    ));
    assert_eq!(made.version, 6);
    let again = MyCache::l_push(push(&["a"]), &mut UpdateType::CAS(6), Some(made));
    assert!(matches!(again, Op::Nop));
    let other = MyCache::l_push_(push(&["a"]), &mut UpdateType::CAS(6), list(&[], 6));
    assert!(matches!(other, Op::Nop));
    let first = put(MyCache::l_push_(push(&["a"]), &mut UpdateType::CAS(6), None));
    assert_eq!(first.version, 1);
}

#[test]
fn replies_tell_what_became_of_the_key() {
    let reply = |result| MyCache::compute_reply::<LPushReq>(&result);
    assert_eq!(
        reply(CompResult::Unchanged(value(ValueObject::Int(1), 1).unwrap())),
        Value::Error("Key exists but is not a List".to_string())
    );
    assert_eq!(
        reply(CompResult::StillNone),
        Value::Error("Unexpected: key not found".to_string())
    );
    assert_eq!(
        reply(CompResult::Removed),
        Value::Error("Unexpected: value removed".to_string())
    );
    assert_eq!(
        MyCache::write_reply(&CompResult::StillNone, Value::Integer(1)),
        Value::Error("Key not found".to_string())
    );
    assert_eq!(
        MyCache::write_reply(&CompResult::Removed, Value::Integer(1)),
        Value::Integer(1)
    );
    assert_eq!(push(&[]).key(), b"l".to_vec());
}

fn hset(fields: &[(&str, i64)]) -> HSetReq {
    HSetReq {
        key: b"h".to_vec(),
        elements: fields
            .iter()
            .map(|(field, n)| (field.as_bytes().to_vec(), HashValue::Int(*n)))
            .collect(),
    }
}

fn field(value: &MyValue, name: &str) -> Option<HashValue> {
    match &value.data {
        ValueObject::Hash(map) => map.get(&name.as_bytes().to_vec()).cloned(),
        other => panic!("not a hash: {:?}", other),
    }
}

#[test]
fn a_new_hash_counts_its_elements() {
    let (op, reply) = MyCache::h_set(
        hset(&[("a", 1), ("b", 2), ("a", 3)]),
        &mut UpdateType::Plain,
        None,
    );
    let stored = put(op);
    assert_eq!(reply, Value::Integer(3));
    assert_eq!(field(&stored, "a"), Some(HashValue::Int(3)));
    assert_eq!(field(&stored, "b"), Some(HashValue::Int(2)));
    assert_eq!(field(&stored, "c"), None);
    assert_eq!(stored.version, 1);
}

#[test]
fn setting_fields_counts_the_new_ones() {
    let (op, _) = MyCache::h_set(hset(&[("a", 1), ("b", 2)]), &mut UpdateType::Plain, None);
    let mut update = UpdateType::Snapshot(vec![]);
    let (op, reply) = MyCache::h_set(
        hset(&[("a", 5), ("c", 6), ("c", 7)]),
        &mut update,
        Some(put(op)),
    );
    let stored = put(op);
    assert_eq!(reply, Value::Integer(1));
    assert_eq!(field(&stored, "a"), Some(HashValue::Int(5)));
    assert_eq!(field(&stored, "b"), Some(HashValue::Int(2)));
    assert_eq!(field(&stored, "c"), Some(HashValue::Int(7)));
    assert_eq!(stored.version, 2);
    assert_eq!(noted(update)[0].1, 2);
}

#[test]
fn a_hash_command_leaves_other_values_alone() {
    let (op, reply) = MyCache::h_set(
        hset(&[("a", 1)]),
        &mut UpdateType::Plain,
        value(ValueObject::Int(1), u64::MAX),
    );
    assert!(matches!(op, Op::Nop));
    assert_eq!(
        reply,
        Value::Error(
            "WRONGTYPE Operation against a key holding the wrong kind of value".to_string()
        )
    );
    let (op, reply) = MyCache::h_set(
        hset(&[("a", 1)]),
        &mut UpdateType::CAS(3),
        value(ValueObject::Int(1), 5),
    );
    assert!(matches!(op, Op::Nop));
    assert_eq!(reply, Value::Integer(0));
}

fn zadd(members: &[(&str, f64)]) -> ZAddReq {
    ZAddReq {
        key: b"z".to_vec(),
        members: members
            .iter()
            .map(|(member, score)| (member.as_bytes().to_vec(), score.to_bits()))
            .collect(),
        nx: false,
        xx: false,
        gt: false,
        lt: false,
        ch: false,
    }
}

#[test]
fn ranks_order_as_numbers() {
    let rank = |n: f64| rank_of(n.to_bits());
    let ordered = [
        f64::NEG_INFINITY,
        -1e300,
        -1.5,
        -f64::MIN_POSITIVE,
        0.0,
        5e-324,
        1.5,
        2.0,
        f64::INFINITY,
        f64::NAN,
    ];
    for pair in ordered.windows(2) {
        assert!(rank(pair[0]) < rank(pair[1]));
    }
    assert_eq!(rank(0.0), rank(-0.0));
    assert_eq!(rank(f64::NAN), rank(-f64::NAN));
    assert_eq!(rank_of(0), 0x8000_0000_0000_0000);
    for a in ordered {
        for b in [-0.0, 0.0, 1.5, -f64::NAN, f64::NAN, f64::NEG_INFINITY] {
            assert_eq!(
                rank(a).cmp(&rank(b)),
                ordered_float::OrderedFloat(a).cmp(&ordered_float::OrderedFloat(b))
            );
        }
    }
}

#[test]
fn scores_are_kept_as_they_came() {
    let nan = f64::from_bits(0xfff8_0000_0000_0001);
    let mut set = SortedSet::new();
    assert_eq!(set.zadd(zadd(&[("a", 0.0), ("b", -0.0), ("c", nan)])), 3);
    let bits: Vec<u64> = set.members().into_iter().map(|(_, score)| score).collect();
    assert_eq!(bits, vec![0.0f64.to_bits(), (-0.0f64).to_bits(), nan.to_bits()]);
    let above = ZAddReq { gt: true, ch: true, ..zadd(&[("b", 0.0)]) };
    assert_eq!(set.zadd(above), 0);
    assert_eq!(set.members()[1].1, (-0.0f64).to_bits());
}

#[test]
fn members_are_listed_by_score_and_then_by_time() {
    let mut set = SortedSet::new();
    set.zadd(zadd(&[("a", 2.0), ("b", -1.0), ("c", 2.0), ("d", 0.5)]));
    set.zadd(zadd(&[("a", 2.0)]));
    let list = |set: &SortedSet| -> Vec<(Vec<u8>, f64)> {
        set.members()
            .into_iter()
            .map(|(member, score)| (member, f64::from_bits(score)))
            .collect()
    };
    let expected = vec![
        (b"b".to_vec(), -1.0),
        (b"d".to_vec(), 0.5),
        (b"c".to_vec(), 2.0),
        (b"a".to_vec(), 2.0),
    ];
    assert_eq!(list(&set), expected);
    assert_eq!(list(&set.clone()), expected);
    let mut rebuilt = SortedSet::new();
    rebuilt.zadd(ZAddReq {
        members: set.members(),
        ..zadd(&[])
    });
    assert_eq!(list(&rebuilt), expected);
}

#[test]
fn copies_of_values_are_equal() {
    let stored = put(MyCache::l_push(push(&["a", "b"]), &mut UpdateType::Plain, None));
    assert_eq!(listed(&stored.clone()), items(&["a", "b"]));
    let (op, _) = MyCache::h_set(hset(&[("x", 1)]), &mut UpdateType::Plain, None);
    assert_eq!(field(&put(op).clone(), "x"), Some(HashValue::Int(1)));
}

#[test]
fn members_are_counted_as_new_or_changed() {
    let mut set = SortedSet::new();
    assert_eq!(set.zadd(zadd(&[("a", 1.0), ("b", 2.0), ("a", 3.0)])), 2);
    assert_eq!(
        set.zadd(ZAddReq {
            ch: true,
            ..zadd(&[("a", 3.0), ("c", 1.0)])
        }),
        2
    );
    assert_eq!(set.zadd(zadd(&[])), 0);
}

fn changed(req: ZAddReq, before: &[(&str, f64)]) -> i64 {
    let mut set = SortedSet::new();
    set.zadd(zadd(before));
    set.zadd(ZAddReq { ch: true, ..req })
}

#[test]
fn conditions_decide_which_members_change() {
    let before = [("a", 1.0), ("b", 2.0)];
    let members = [("a", 1.5), ("b", 1.5), ("c", 1.5)];
    assert_eq!(changed(zadd(&members), &before), 3);
    assert_eq!(changed(ZAddReq { nx: true, ..zadd(&members) }, &before), 1);
    assert_eq!(changed(ZAddReq { xx: true, ..zadd(&members) }, &before), 2);
    assert_eq!(changed(ZAddReq { gt: true, ..zadd(&members) }, &before), 2);
    assert_eq!(changed(ZAddReq { lt: true, ..zadd(&members) }, &before), 2);
    assert_eq!(
        changed(ZAddReq { gt: true, lt: true, ..zadd(&members) }, &before),
        1
    );
    assert_eq!(
        changed(ZAddReq { nx: true, xx: true, ..zadd(&members) }, &before),
        0
    );
    assert_eq!(changed(ZAddReq { gt: true, ..zadd(&[("a", 1.0)]) }, &before), 0);
}

#[test]
fn a_sorted_set_is_changed_where_it_stands() {
    let (stored, reply) = MyCache::z_add(zadd(&[("a", 1.0)]), &mut UpdateType::Plain, None);
    assert_eq!(reply, Value::Integer(1));
    assert_eq!((stored.version, stored.expires_at), (1, 0));
    let mut update = UpdateType::Snapshot(vec![]);
    let (stored, reply) = MyCache::z_add(zadd(&[("a", 2.0), ("b", 1.0)]), &mut update, Some(stored));
    assert_eq!(reply, Value::Integer(1));
    assert_eq!(stored.version, 1);
    assert!(noted(update).is_empty());
    let (kept, reply) = MyCache::z_add(
        zadd(&[("a", 2.0)]),
        &mut UpdateType::Plain,
        value(ValueObject::Int(3), 4),
    );
    assert_eq!(reply, Value::Error("zadd: key is not a zset".to_string()));
    assert!(matches!(kept.data, ValueObject::Int(3)));
    assert_eq!(kept.version, 4);
}

#[test]
fn a_range_of_a_list_counts_from_both_ends() {
    let list: VecDeque<i32> = (0..5).collect();
    assert_eq!(lrange(&list, 0, -1), vec![0, 1, 2, 3, 4]);
    assert_eq!(lrange(&list, 1, 2), vec![1, 2]);
    assert_eq!(lrange(&list, -2, -1), vec![3, 4]);
    assert_eq!(lrange(&list, -100, 100), vec![0, 1, 2, 3, 4]);
    assert_eq!(lrange(&list, 3, 2), Vec::<i32>::new());
    assert_eq!(lrange(&list, 5, 9), Vec::<i32>::new());
    assert_eq!(lrange(&list, 0, i64::MIN + 1), Vec::<i32>::new());
    assert_eq!(lrange(&VecDeque::<i32>::new(), 0, -1), Vec::<i32>::new());
}

#[test]
fn gaps_are_counted_in_whole_seconds() {
    assert_eq!(gap_seconds(5_999, 3_000), 2);
    assert_eq!(gap_seconds(3_000, 5_000), 0);
    assert_eq!(time_of(Some(7)), 7);
    assert_eq!(time_of(None), 0);
    let now = now_ms();
    assert!(now > 1_600_000_000_000);
    assert_eq!(time_gap(u64::MAX), 0);
    assert!(time_gap(now - 10_000) >= 10);
}

#[test]
fn replaying_a_noted_command_does_the_same() {
    let mut update = UpdateType::Snapshot(vec![]);
    let first = put(MyCache::l_push(push(&["a"]), &mut update, list(&["z"], 5)));
    let version = noted(update)[0].1;
    let again = put(MyCache::l_push(
        push(&["a"]),
        &mut UpdateType::CAS(version),
        list(&["z"], 5),
    ));
    assert_eq!(listed(&again), listed(&first));
    assert_eq!(again.version, first.version);

    let start = || put(MyCache::h_set(hset(&[("a", 1)]), &mut UpdateType::Plain, None).0);
    let mut update = UpdateType::Snapshot(vec![]);
    let (op, reply) = MyCache::h_set(hset(&[("b", 2)]), &mut update, Some(start()));
    let version = noted(update)[0].1;
    let (same, same_reply) = MyCache::h_set(
        hset(&[("b", 2)]),
        &mut UpdateType::CAS(version),
        Some(start()),
    );
    assert_eq!(same_reply, reply);
    assert_eq!(put(same).version, put(op).version);
}

#[test]
fn requests_add_up() {
    let mut at_once = SortedSet::new();
    at_once.zadd(zadd(&[("a", 1.0), ("b", 2.0), ("a", 3.0)]));
    let mut in_turn = SortedSet::new();
    in_turn.zadd(zadd(&[("a", 1.0), ("b", 2.0)]));
    in_turn.zadd(zadd(&[("a", 3.0)]));
    assert_eq!(in_turn.members(), at_once.members());
}

#[test]
fn conditions_keep_scores() {
    let score = |set: &SortedSet| f64::from_bits(set.members()[0].1);
    let after = |req: ZAddReq| {
        let mut set = SortedSet::new();
        set.zadd(zadd(&[("a", 1.0)]));
        set.zadd(req);
        score(&set)
    };
    assert_eq!(after(zadd(&[("a", 5.0), ("a", 2.0)])), 2.0);
    assert_eq!(after(ZAddReq { nx: true, ..zadd(&[("a", 5.0)]) }), 1.0);
    assert_eq!(after(ZAddReq { gt: true, ..zadd(&[("a", 0.5)]) }), 1.0);
    assert_eq!(after(ZAddReq { gt: true, ..zadd(&[("a", 1.5)]) }), 1.5);
    assert_eq!(after(ZAddReq { lt: true, ..zadd(&[("a", 1.5)]) }), 1.0);
    assert_eq!(after(ZAddReq { lt: true, ..zadd(&[("a", 0.5)]) }), 0.5);
    let mut set = SortedSet::new();
    assert_eq!(set.zadd(ZAddReq { xx: true, ..zadd(&[("a", 1.0)]) }), 0);
    assert!(set.members().is_empty());
}
