use cache_cat::mocha::{
    EntrySnapshot, ExpirePolicy, Expiry, Mocha, MochaCompute, MochaOperation,
};
use std::sync::atomic::{AtomicU64, Ordering};
use std::sync::{Arc, Mutex};

// ---------- helpers ----------
fn advance_clock(clock: &Arc<AtomicU64>, delta: u64) {
    clock.fetch_add(delta, Ordering::Relaxed);
}

fn new_clock() -> Arc<AtomicU64> {
    Arc::new(AtomicU64::new(0))
}

fn text(bytes: &Vec<u8>) -> String {
    String::from_utf8(bytes.clone()).unwrap()
}

fn number(n: i32) -> Vec<u8> {
    n.to_be_bytes().to_vec()
}

fn runtime() -> tokio::runtime::Runtime {
    tokio::runtime::Builder::new_multi_thread()
        .worker_threads(4)
        .build()
        .unwrap()
}

// ---------- basic insert / get ----------
#[test]
fn test_insert_and_get() {
    let clock = new_clock();
    let mut cache = Mocha::new(clock.clone());
    cache.insert_persistent("key1".into(), "val1".into());
    assert_eq!(cache.get(&"key1".into()), Some("val1".into()));
    assert!(cache.contains_key_alive(&"key1".into()));
}

#[test]
fn test_insert_with_ttl_not_expired() {
    let clock = new_clock();
    let mut cache = Mocha::new(clock.clone());
    cache.insert("key1".into(), "val1".into(), 10);
    advance_clock(&clock, 5);
    assert_eq!(cache.get(&"key1".into()), Some("val1".into()));
}

#[test]
fn test_insert_with_ttl_expired_on_access() {
    let clock = new_clock();
    let mut cache = Mocha::new(clock.clone());
    cache.insert("key1".into(), "val1".into(), 10);
    advance_clock(&clock, 15);
    assert_eq!(cache.get(&"key1".into()), None);
    assert!(!cache.contains_key_alive(&"key1".into()));
}

#[test]
fn test_insert_absolute_expiry() {
    let clock = new_clock();
    let mut cache = Mocha::new(clock.clone());
    cache.insert_absolute("key1".into(), "val1".into(), 100);
    advance_clock(&clock, 99);
    assert!(cache.get(&"key1".into()).is_some());
    advance_clock(&clock, 2);
    assert!(cache.get(&"key1".into()).is_none());
}

#[test]
fn test_persistent_never_expires() {
    let clock = new_clock();
    let mut cache = Mocha::new(clock.clone());
    cache.insert_persistent("key1".into(), "val1".into());
    advance_clock(&clock, 100_000);
    assert_eq!(cache.get(&"key1".into()), Some("val1".into()));
}

// ---------- snapshot / expiry ----------
#[test]
fn test_entry_snapshot_expiry() {
    let clock = new_clock();
    let mut cache = Mocha::new(clock.clone());
    let snap = cache.insert("k".into(), "v".into(), 50);
    assert!(snap.expire_at.is_some());
    assert!(snap.expiry().is_some());
    assert_eq!(snap.expiry().unwrap().at, 50);
    assert!(snap.generation > 0);
}

#[test]
fn test_ttl_remaining() {
    let clock = new_clock();
    let mut cache = Mocha::new(clock.clone());
    cache.insert("k".into(), "v".into(), 100);
    advance_clock(&clock, 30);
    assert_eq!(cache.ttl_remaining(&"k".into()), Some(70));
    advance_clock(&clock, 70);
    println!("{:?}", cache.ttl_remaining(&"k".into()));
    assert_eq!(cache.ttl_remaining(&"k".into()), None);
    advance_clock(&clock, 1);
    assert_eq!(cache.ttl_remaining(&"k".into()), None);
}

#[test]
fn test_expire_at_and_persist() {
    let clock = new_clock();
    let mut cache = Mocha::new(clock.clone());
    cache.insert_persistent("k".into(), "v".into());
    let expiry = cache.expire_at(&"k".into(), 200);
    assert!(expiry.is_some());
    assert_eq!(expiry.unwrap().at, 200);
    cache.persist(&"k".into());
    assert!(cache.get_entry(&"k".into()).unwrap().expire_at.is_none());
}

// ---------- remove ----------
#[test]
fn test_remove_existing() {
    let clock = new_clock();
    let mut cache = Mocha::new(clock.clone());
    cache.insert_persistent("k".into(), "v".into());
    assert_eq!(cache.remove(&"k".into()), Some("v".into()));
    assert!(cache.get(&"k".into()).is_none());
}

#[test]
fn test_remove_expired() {
    let clock = new_clock();
    let mut cache = Mocha::new(clock.clone());
    cache.insert("k".into(), "v".into(), 10);
    advance_clock(&clock, 20);
    assert_eq!(cache.remove(&"k".into()), None);
}

#[test]
fn test_remove_entry_snapshot() {
    let clock = new_clock();
    let mut cache = Mocha::new(clock.clone());
    cache.insert_persistent("k".into(), "v".into());
    let snap = cache.remove_entry(&"k".into()).unwrap();
    assert_eq!(snap.value, b"v".to_vec());
    assert!(snap.expire_at.is_none());
}

// ---------- update_or_insert_with ----------
#[test]
fn test_update_or_insert_with_inserts_when_absent() {
    let clock = new_clock();
    let mut cache = Mocha::new(clock.clone());
    let snap = cache.update_or_insert_with(
        "k".into(),
        |v: &Vec<u8>| format!("{}-updated", text(v)).into_bytes(),
        || "inserted".into(),
        ExpirePolicy::Persistent,
    );
    assert_eq!(snap.value, b"inserted".to_vec());
}

#[test]
fn test_update_or_insert_with_updates_existing() {
    let clock = new_clock();
    let mut cache = Mocha::new(clock.clone());
    cache.insert_persistent("k".into(), "initial".into());
    let snap = cache.update_or_insert_with(
        "k".into(),
        |v: &Vec<u8>| format!("{}-updated", text(v)).into_bytes(),
        || unreachable!(),
        ExpirePolicy::Persistent,
    );
    assert_eq!(snap.value, b"initial-updated".to_vec());
}

#[test]
fn test_update_or_insert_with_skips_expired() {
    let clock = new_clock();
    let mut cache = Mocha::new(clock.clone());
    cache.insert("k".into(), "old".into(), 5);
    advance_clock(&clock, 10);
    let snap = cache.update_or_insert_with(
        "k".into(),
        |_: &Vec<u8>| unreachable!(),
        || "fresh".into(),
        ExpirePolicy::Persistent,
    );
    assert_eq!(snap.value, b"fresh".to_vec());
}

// ---------- compute ----------
#[test]
fn test_compute_insert() {
    let clock = new_clock();
    let mut cache = Mocha::new(clock.clone());

    // Use `::<_, ()>` to specify T = ()
    let result = cache.compute::<_, ()>("k".into(), |opt| match opt {
        None => MochaOperation::Insert {
            value: "new".into(),
            expire: ExpirePolicy::Persistent,
        },
        Some(_) => MochaOperation::Abort(()),
    });

    match result {
        MochaCompute::Inserted(key, snap) => {
            assert_eq!(key, b"k".to_vec());
            assert_eq!(snap.value, b"new".to_vec());
        }
        _ => panic!("Expected Inserted"),
    }
}

#[test]
fn test_compute_update() {
    let clock = new_clock();
    let mut cache = Mocha::new(clock.clone());
    cache.insert_persistent("k".into(), "old".into());

    let result = cache.compute::<_, ()>("k".into(), |opt| {
        let entry = opt.unwrap();
        MochaOperation::Insert {
            value: format!("{}-patched", text(entry.value)).into_bytes(),
            expire: ExpirePolicy::Persistent,
        }
    });

    match result {
        MochaCompute::Updated { old, new } => {
            assert_eq!(old.1.value, b"old".to_vec());
            assert_eq!(new.1.value, b"old-patched".to_vec());
        }
        _ => panic!("Expected Updated"),
    }
}

#[test]
fn test_compute_remove() {
    let clock = new_clock();
    let mut cache = Mocha::new(clock.clone());
    cache.insert_persistent("k".into(), "v".into());

    let result = cache.compute::<_, ()>("k".into(), |_| MochaOperation::Remove);

    match result {
        MochaCompute::Removed(key, snap) => {
            assert_eq!(key, b"k".to_vec());
            assert_eq!(snap.value, b"v".to_vec());
        }
        _ => panic!("Expected Removed"),
    }
    assert!(cache.get(&"k".into()).is_none());
}

#[test]
fn test_compute_abort() {
    let clock = new_clock();
    let mut cache = Mocha::new(clock.clone());
    // Here T is inferred from the abort value (u32)
    let result = cache.compute("k".into(), |_| MochaOperation::Abort(42u32));
    match result {
        MochaCompute::Aborted(code) => assert_eq!(code, 42),
        _ => panic!("Expected Aborted"),
    }
}

// ---------- active expire ----------
#[test]
fn test_active_expire_cycle_removes_expired_keys() {
    let clock = new_clock();
    let mut cache = Mocha::new(clock.clone());

    cache.insert("k1".into(), "v1".into(), 10);
    cache.insert("k2".into(), "v2".into(), 10);
    cache.insert_persistent("k3".into(), "v3".into());

    advance_clock(&clock, 15);
    cache.active_expire_cycle();

    assert!(cache.get(&"k1".into()).is_none());
    assert!(cache.get(&"k2".into()).is_none());
    assert_eq!(cache.get(&"k3".into()), Some("v3".into()));
}

#[test]
fn test_active_expire_cycle_stops_when_no_expiries() {
    let clock = new_clock();
    let mut cache = Mocha::new(clock.clone());
    cache.insert_persistent("p1".into(), "v".into());
    cache.active_expire_cycle(); // just ensure no panic
}

#[test]
fn test_active_expire_cycle_respects_generation() {
    let clock = new_clock();
    let mut cache = Mocha::new(clock.clone());

    cache.insert("k".into(), "v1".into(), 10);       // gen 1
    advance_clock(&clock, 5);
    cache.insert("k".into(), "v2".into(), 20);       // gen 2, expire at 25
    advance_clock(&clock, 15);                       // now = 20

    cache.active_expire_cycle();
    assert_eq!(cache.get(&"k".into()), Some("v2".into()));

    advance_clock(&clock, 10);                       // now = 30, expired
    cache.active_expire_cycle();
    assert!(cache.get(&"k".into()).is_none());
}

// ---------- expire index cleanup ----------
#[test]
fn test_expire_index_cleanup_on_update() {
    let clock = new_clock();
    let mut cache = Mocha::new(clock.clone());
    cache.insert("k".into(), "v1".into(), 10);
    cache.insert_persistent("k".into(), "v2".into());
    let snap = cache.get_entry(&"k".into()).unwrap();
    assert!(snap.expire_at.is_none());
}

#[test]
fn test_expire_index_cleanup_on_remove() {
    let clock = new_clock();
    let mut cache = Mocha::new(clock.clone());
    cache.insert("k".into(), "v".into(), 10);
    cache.remove(&"k".into());
    cache.insert_persistent("k".into(), "new".into());
    assert_eq!(cache.get(&"k".into()), Some("new".into()));
}

// ---------- concurrency ----------
#[test]
fn test_concurrent_inserts_and_reads() {
    let clock = new_clock();
    let cache = Arc::new(Mutex::new(Mocha::new(clock.clone())));

    runtime().block_on(async {
        let mut handles = vec![];

        for i in 0..10 {
            let cache = cache.clone();
            let clock = clock.clone();
            handles.push(tokio::spawn(async move {
                for j in 0..100 {
                    let key: i32 = i * 1000 + j;
                    cache
                        .lock()
                        .unwrap()
                        .insert_persistent(number(key), number(key * 10));
                    if j % 10 == 0 {
                        advance_clock(&clock, 1);
                    }
                }
            }));
        }

        for h in handles {
            h.await.unwrap();
        }
    });

    for i in 0..10 {
        for j in 0..100 {
            let key: i32 = i * 1000 + j;
            assert_eq!(
                cache.lock().unwrap().get(&number(key)),
                Some(number(key * 10))
            );
        }
    }
}

#[test]
fn test_concurrent_insert_and_expire() {
    let clock = new_clock();
    let cache = Arc::new(Mutex::new(Mocha::new(clock.clone())));

    runtime().block_on(async {
        let cache_clone = cache.clone();
        let clock_clone = clock.clone();
        let writer = tokio::spawn(async move {
            for i in 0..100 {
                let key = format!("k{}", i);
                cache_clone.lock().unwrap().insert(
                    key.into_bytes(),
                    format!("v{}", i).into_bytes(),
                    50 + i as u64,
                );
                advance_clock(&clock_clone, 2);
            }
        });

        writer.await.unwrap();
        advance_clock(&clock, 200);

        for _ in 0..5 {
            cache.lock().unwrap().active_expire_cycle();
            tokio::task::yield_now().await;
        }
    });

    for i in 0..100 {
        let key = format!("k{}", i);
        assert!(
            cache.lock().unwrap().get(&key.clone().into_bytes()).is_none(),
            "key {} should be expired",
            key
        );
    }
}

#[test]
fn test_sample_expiries() {
    let clock = new_clock();
    let mut cache = Mocha::new(clock.clone());
    for i in 0..50 {
        cache.insert(
            format!("k{}", i).into_bytes(),
            format!("v{}", i).into_bytes(),
            100,
        );
    }
    let samples = cache.sample_expiries(20);
    assert_eq!(samples.len(), 20);
    for (k, expiry) in &samples {
        assert!(k.starts_with(b"k"));
        assert_eq!(expiry.at, 100);
    }
}

#[test]
fn test_sample_expiries_empty_when_no_expiring_keys() {
    let clock = new_clock();
    let mut cache = Mocha::new(clock.clone());
    cache.insert_persistent("k".into(), "v".into());
    assert!(cache.sample_expiries(10).is_empty());
}

// ---------- edge ----------
#[test]
fn test_insert_same_key_multiple_times() {
    let clock = new_clock();
    let mut cache = Mocha::new(clock.clone());
    let s1 = cache.insert("k".into(), "a".into(), 10);
    let s2 = cache.insert("k".into(), "b".into(), 20);
    assert_ne!(s1.generation, s2.generation);
    assert_eq!(cache.get(&"k".into()), Some("b".into()));
}

#[test]
fn test_generation_monotonically_increases() {
    let clock = new_clock();
    let mut cache = Mocha::new(clock.clone());
    let mut last_gen = 0;
    for i in 0..10 {
        let snap = cache.insert_persistent(
            format!("k{}", i).into_bytes(),
            i.to_string().into_bytes(),
        );
        assert!(snap.generation > last_gen);
        last_gen = snap.generation;
    }
}

// ---------- writes ----------
#[test]
fn a_write_is_read_back_and_other_keys_stay() {
    let clock = new_clock();
    let mut cache = Mocha::new(clock.clone());
    cache.insert_persistent("a".into(), "1".into());
    let written = cache.insert("b".into(), "2".into(), 10);
    assert_eq!(
        written,
        EntrySnapshot {
            value: b"2".to_vec(),
            expire_at: Some(10),
            generation: 2
        }
    );
    assert_eq!(cache.get_entry(&"b".into()), Some(written));
    assert_eq!(cache.get(&"a".into()), Some("1".into()));
    assert_eq!(cache.get(&"c".into()), None);
}

#[test]
fn a_ttl_past_the_end_of_the_clock_is_cut_off() {
    let clock = new_clock();
    let mut cache = Mocha::new(clock.clone());
    advance_clock(&clock, 5);
    let written = cache.insert("k".into(), "v".into(), u64::MAX);
    assert_eq!(written.expire_at, Some(u64::MAX));
}

#[test]
fn an_entry_expires_at_its_time_and_not_before() {
    let clock = new_clock();
    let mut cache = Mocha::new(clock.clone());
    cache.insert("k".into(), "v".into(), 10);
    advance_clock(&clock, 9);
    assert_eq!(cache.ttl_remaining(&"k".into()), Some(1));
    assert!(cache.contains_key(&"k".into()));
    advance_clock(&clock, 1);
    assert_eq!(cache.get_if_alive(&"k".into()), None);
    assert!(!cache.contains_key(&"k".into()));
    assert_eq!(cache.get_entry(&"k".into()), None);
}

#[test]
fn a_snapshot_restores_an_entry() {
    let clock = new_clock();
    let mut cache = Mocha::new(clock.clone());
    let written = cache.insert("k".into(), "v".into(), 10);
    cache.clear();
    assert_eq!(cache.get(&"k".into()), None);
    let restored = cache.insert_snapshot("k".into(), written);
    assert_eq!(restored.value, b"v".to_vec());
    assert_eq!(restored.expire_at, Some(10));
    assert_eq!(cache.get(&"k".into()), Some("v".into()));
}

#[test]
fn try_insert_only_takes_a_free_key() {
    let clock = new_clock();
    let mut cache = Mocha::new(clock.clone());
    assert!(cache
        .try_insert("k".into(), "v".into(), ExpirePolicy::Ttl(10))
        .is_ok());
    assert_eq!(
        cache.try_insert("k".into(), "w".into(), ExpirePolicy::Persistent),
        Err(b"w".to_vec())
    );
    advance_clock(&clock, 20);
    assert_eq!(
        cache.try_insert("k".into(), "w".into(), ExpirePolicy::Persistent),
        Err(b"w".to_vec())
    );
    cache.remove(&"k".into());
    assert!(cache
        .try_insert("k".into(), "w".into(), ExpirePolicy::Persistent)
        .is_ok());
    assert_eq!(cache.get(&"k".into()), Some("w".into()));
}

#[test]
fn an_expiry_can_only_be_given_to_an_entry_that_is_alive() {
    let clock = new_clock();
    let mut cache = Mocha::new(clock.clone());
    assert_eq!(cache.expire_at(&"k".into(), 5), None);
    assert_eq!(cache.persist(&"k".into()), None);
    cache.insert("k".into(), "v".into(), 10);
    advance_clock(&clock, 10);
    assert_eq!(cache.expire_at(&"k".into(), 50), None);
    assert_eq!(cache.get(&"k".into()), None);
}

#[test]
fn a_computation_sees_nothing_of_an_expired_entry() {
    let clock = new_clock();
    let mut cache = Mocha::new(clock.clone());
    cache.insert("k".into(), "v".into(), 10);
    advance_clock(&clock, 10);
    let result = cache.compute::<_, ()>("k".into(), |found| {
        assert!(found.is_none());
        MochaOperation::Remove
    });
    assert_eq!(result, MochaCompute::Unchanged);
    assert!(cache
        .try_insert("k".into(), "w".into(), ExpirePolicy::Persistent)
        .is_ok());
}

#[test]
fn a_computation_can_keep_the_expiry() {
    let clock = new_clock();
    let mut cache = Mocha::new(clock.clone());
    cache.insert("k".into(), "v".into(), 10);
    cache.insert_persistent("other".into(), "o".into());
    let result = cache.compute::<_, ()>("k".into(), |found| {
        let entry = found.unwrap();
        MochaOperation::Insert {
            value: "w".into(),
            expire: entry.get_expire_policy(),
        }
    });
    match result {
        MochaCompute::Updated { old, new } => {
            assert_eq!(old.1.expire_at, Some(10));
            assert_eq!(new.1.expire_at, Some(10));
            assert!(new.1.generation > old.1.generation);
        }
        _ => panic!("Expected Updated"),
    }
    assert_eq!(cache.get(&"other".into()), Some("o".into()));
}

// ---------- walks ----------
#[test]
fn walks_show_what_is_alive() {
    let clock = new_clock();
    let mut cache = Mocha::new(clock.clone());
    cache.insert("gone".into(), "x".into(), 5);
    cache.insert("a".into(), "1".into(), 50);
    cache.insert_persistent("b".into(), "2".into());
    advance_clock(&clock, 5);

    let mut keys = cache.keys();
    keys.sort();
    assert_eq!(keys, vec![b"a".to_vec(), b"b".to_vec()]);

    let mut listed = cache.iter_snapshots();
    listed.sort_by(|x, y| x.0.cmp(&y.0));
    assert_eq!(listed.len(), 2);
    assert_eq!(listed[0].1.expire_at, Some(50));
    assert_eq!(listed[1].1.value, b"2".to_vec());
    assert_eq!(cache.iter().len(), 2);

    let mut seen = Vec::new();
    cache.for_each(|key, entry| seen.push((key.clone(), entry.value.clone(), entry.expire_at)));
    seen.sort();
    assert_eq!(
        seen,
        vec![
            (b"a".to_vec(), b"1".to_vec(), Some(50)),
            (b"b".to_vec(), b"2".to_vec(), None)
        ]
    );

    let mut generations = Vec::new();
    cache.for_each_snapshot(|_, snapshot| generations.push(snapshot.generation));
    generations.sort();
    assert_eq!(generations, vec![2, 3]);
}

#[test]
fn clearing_counts_the_entries() {
    let clock = new_clock();
    let mut cache = Mocha::new(clock.clone());
    cache.insert("a".into(), "1".into(), 5);
    cache.insert_persistent("b".into(), "2".into());
    advance_clock(&clock, 9);
    assert_eq!(cache.clear(), 2);
    assert_eq!(cache.clear(), 0);
    assert!(cache.sample_expiries(10).is_empty());
}

// ---------- sampling ----------
#[test]
fn a_sample_names_the_expiry_of_its_entry() {
    let clock = new_clock();
    let mut cache = Mocha::new(clock.clone());
    let written = cache.insert("k".into(), "v".into(), 7);
    assert_eq!(
        cache.sample_expiries(1),
        vec![(
            b"k".to_vec(),
            Expiry {
                at: 7,
                generation: written.generation
            }
        )]
    );
    cache.persist(&"k".into());
    assert!(cache.sample_expiries(1).is_empty());
}

#[test]
fn a_round_clears_a_small_table_and_spares_the_living() {
    let clock = new_clock();
    let mut cache = Mocha::new(clock.clone());
    for i in 0..5 {
        cache.insert(number(i), number(i), 10);
    }
    cache.insert("late".into(), "v".into(), 100);
    advance_clock(&clock, 10);
    assert!(cache.active_expire_round());
    for i in 0..5 {
        assert!(cache
            .try_insert(number(i), number(i), ExpirePolicy::Persistent)
            .is_ok());
    }
    assert_eq!(cache.get(&"late".into()), Some("v".into()));
}

// ---------- generations ----------
#[test]
fn no_generation_is_given_twice() {
    let clock = new_clock();
    let mut cache = Mocha::new(clock.clone());
    let mut given = vec![cache.insert("a".into(), "1".into(), 5).generation];
    assert!(cache
        .try_insert("a".into(), "2".into(), ExpirePolicy::Persistent)
        .is_err());
    given.push(cache.insert_persistent("b".into(), "3".into()).generation);
    cache.remove(&"b".into());
    advance_clock(&clock, 9);
    cache.active_expire_cycle();
    cache.clear();
    given.push(cache.insert_absolute("a".into(), "4".into(), 50).generation);
    given.push(cache.persist(&"a".into()).unwrap().generation);
    assert_eq!(given, vec![1, 3, 4, 5]);
}

// ---------- what is not called ----------
#[test]
fn walks_do_not_touch_what_has_expired() {
    let clock = new_clock();
    let mut cache = Mocha::new(clock.clone());
    cache.insert("k".into(), "v".into(), 5);
    advance_clock(&clock, 5);
    cache.for_each(|_, _| unreachable!());
    cache.for_each_snapshot(|_, _| unreachable!());
}
