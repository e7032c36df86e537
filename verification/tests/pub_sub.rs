use cache_cat::pub_sub::{PubSub, Publication};
use cache_cat::value::Value;

fn text(word: &str) -> Value {
    Value::SimpleString(word.to_string())
}

fn bulk(data: &[u8]) -> Value {
    Value::BulkString(Some(data.to_vec()))
}

fn array(items: Vec<Value>) -> Value {
    Value::Array(Some(items))
}

fn names(list: &[&str]) -> Vec<Vec<u8>> {
    list.iter().map(|name| name.as_bytes().to_vec()).collect()
}

fn targets(pub_sub: &PubSub, channel: &[u8]) -> Vec<u64> {
    let mut targets = pub_sub.publish(channel, text("x")).targets;
    targets.sort();
    targets
}

#[test]
fn subscribing_tells_the_count_of_each_channel() {
    let mut pub_sub = PubSub::new();
    assert_eq!(
        pub_sub.subscribe(names(&["a", "b"]), 1),
        array(vec![
            text("subscribe"),
            bulk(b"a"),
            Value::Integer(1),
            text("subscribe"),
            bulk(b"b"),
            Value::Integer(1),
        ])
    );
    assert_eq!(
        pub_sub.subscribe(names(&["a", "a"]), 2),
        array(vec![
            text("subscribe"),
            bulk(b"a"),
            Value::Integer(2),
            text("subscribe"),
            bulk(b"a"),
            Value::Integer(2),
        ])
    );
    assert_eq!(targets(&pub_sub, b"a"), vec![1, 2]);
    assert_eq!(targets(&pub_sub, b"b"), vec![1]);
    assert_eq!(targets(&pub_sub, b"c"), Vec::<u64>::new());
}

#[test]
fn unsubscribing_tells_the_count_before() {
    let mut pub_sub = PubSub::new();
    pub_sub.subscribe(names(&["a"]), 1);
    pub_sub.subscribe(names(&["a"]), 2);
    assert_eq!(
        pub_sub.unsubscribe(names(&["a", "a", "none"]), 1),
        array(vec![
            text("unsubscribe"),
            bulk(b"a"),
            Value::Integer(2),
            text("unsubscribe"),
            bulk(b"a"),
            Value::Integer(2),
            text("unsubscribe"),
            bulk(b"none"),
            Value::Integer(0),
        ])
    );
    assert_eq!(targets(&pub_sub, b"a"), vec![2]);
    assert!(!pub_sub.has_client(1));
    assert!(pub_sub.has_client(2));
}

#[test]
fn unsubscribing_takes_subscribing_back() {
    let mut pub_sub = PubSub::new();
    pub_sub.subscribe(names(&["a"]), 1);
    pub_sub.subscribe(names(&["a", "b"]), 2);
    pub_sub.unsubscribe(names(&["a", "b"]), 2);
    assert_eq!(targets(&pub_sub, b"a"), vec![1]);
    assert_eq!(targets(&pub_sub, b"b"), Vec::<u64>::new());
    assert!(!pub_sub.has_client(2));
}

#[test]
fn all_channels_are_left_at_once() {
    let mut pub_sub = PubSub::new();
    pub_sub.subscribe(names(&["a", "b"]), 1);
    pub_sub.subscribe(names(&["a"]), 2);
    let left = pub_sub.unsubscribe_all_channels(1);
    let Value::Array(Some(mut told)) = left else {
        panic!("not an array");
    };
    told.sort_by_key(|item| format!("{:?}", item));
    assert_eq!(
        told,
        vec![
            array(vec![text("unsubscribe"), bulk(b"a"), Value::Integer(2)]),
            array(vec![text("unsubscribe"), bulk(b"b"), Value::Integer(1)]),
        ]
    );
    assert_eq!(targets(&pub_sub, b"a"), vec![2]);
    assert!(!pub_sub.has_client(1));
    assert_eq!(pub_sub.unsubscribe_all_channels(7), array(vec![]));
}

#[test]
fn patterns_reach_the_channels_that_they_cover() {
    let mut pub_sub = PubSub::new();
    assert_eq!(
        pub_sub.psubscribe(names(&["news.*", "?"]), 1),
        array(vec![
            array(vec![text("psubscribe"), bulk(b"news.*"), Value::Integer(1)]),
            array(vec![text("psubscribe"), bulk(b"?"), Value::Integer(1)]),
        ])
    );
    pub_sub.subscribe(names(&["news.art"]), 1);
    pub_sub.subscribe(names(&["news.art"]), 2);
    assert_eq!(targets(&pub_sub, b"news.art"), vec![1, 2]);
    assert_eq!(targets(&pub_sub, b"news.x"), vec![1]);
    assert_eq!(targets(&pub_sub, b"z"), vec![1]);
    pub_sub.unsubscribe(names(&["news.art"]), 1);
    assert_eq!(targets(&pub_sub, b"news.art"), vec![1, 2]);
}

#[test]
fn a_pattern_is_left_by_a_subscriber_only() {
    let mut pub_sub = PubSub::new();
    pub_sub.psubscribe(names(&["n*"]), 1);
    pub_sub.psubscribe(names(&["n*"]), 2);
    assert_eq!(
        pub_sub.punsubscribe(b"n*", 1),
        Ok(array(vec![
            text("punsubscribe"),
            bulk(b"n*"),
            Value::Integer(2)
        ]))
    );
    assert!(!pub_sub.has_client(1));
    let refused = Err(Value::Error("no such pattern subscription".to_string()));
    assert_eq!(pub_sub.punsubscribe(b"n*", 1), refused);
    assert_eq!(pub_sub.punsubscribe(b"m*", 2), refused);
    assert_eq!(targets(&pub_sub, b"news"), vec![2]);
}

#[test]
fn a_message_names_its_channel() {
    let mut pub_sub = PubSub::new();
    pub_sub.subscribe(names(&["a"]), 3);
    let publication = pub_sub.publish_message(b"a", b"hi".to_vec());
    assert_eq!(publication.targets, vec![3]);
    assert_eq!(
        publication.message,
        array(vec![text("message"), bulk(b"a"), bulk(b"hi")])
    );
    assert_eq!(
        Publication::reply(&vec![true, false, true]),
        Value::Integer(2)
    );
    assert_eq!(Publication::reply(&vec![]), Value::Integer(0));
}

#[test]
fn a_client_that_is_gone_is_gone_everywhere() {
    let mut pub_sub = PubSub::new();
    pub_sub.subscribe(names(&["a", "b"]), 1);
    pub_sub.psubscribe(names(&["*"]), 1);
    pub_sub.subscribe(names(&["a"]), 2);
    pub_sub.remove_client(1);
    assert!(!pub_sub.has_client(1));
    assert_eq!(targets(&pub_sub, b"a"), vec![2]);
    assert_eq!(targets(&pub_sub, b"b"), Vec::<u64>::new());
    assert!(pub_sub.channels_of(1).is_empty());
}

#[test]
fn a_client_may_be_there_without_subscriptions() {
    let mut pub_sub = PubSub::new();
    pub_sub.get_or_create_client(4);
    assert!(pub_sub.has_client(4));
    assert_eq!(pub_sub.subscribe(vec![], 5), array(vec![]));
    assert!(pub_sub.has_client(5));
    assert_eq!(pub_sub.unsubscribe(vec![], 5), array(vec![]));
    assert!(!pub_sub.has_client(5));
}

#[test]
fn a_copy_of_a_value_is_equal() {
    let value = array(vec![
        text("a"),
        Value::Error("e".to_string()),
        bulk(b"b"),
        Value::BulkString(None),
        Value::Array(None),
        array(vec![Value::Integer(-1)]),
    ]);
    assert_eq!(value.clone(), value);
}
