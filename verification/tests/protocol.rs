use cache_cat::cache::value_object::{HashValue, MyValue, ValueObject};
use cache_cat::error::{CacheCatError, ProtocolError};
use cache_cat::protocol::client::{Client, Operation, ReadOperation};
use cache_cat::protocol::hvals::{Execution, HValsCommand, HValsParams};
use cache_cat::protocol::info::ClientInfoCommand;
use cache_cat::protocol::lua_env::{hidden_globals, RedisHandler};
use cache_cat::protocol::select::SelectCommand;
use cache_cat::protocol::sentinels::SentinelSentinelsCommand;
use cache_cat::utils::bytes_map::BytesMap;
use cache_cat::utils::text::decimal;
use cache_cat::value::Value;

fn text(word: &str) -> Value {
    Value::SimpleString(word.to_string())
}

fn bulk(data: &[u8]) -> Value {
    Value::BulkString(Some(data.to_vec()))
}

fn wrong(error: ProtocolError) -> CacheCatError {
    CacheCatError::Protocol(error)
}

fn select(db_number: u16, items: &[Value]) -> (u16, Result<Value, CacheCatError>) {
    let mut db = db_number;
    let reply = SelectCommand.execute(&mut db, items);
    (db, reply)
}

#[test]
fn select_takes_a_number() {
    assert_eq!(select(9, &[text("SELECT"), Value::Integer(3)]), (3, Ok(text("OK"))));
    assert_eq!(
        select(9, &[text("SELECT"), Value::Integer(65_537)]),
        (1, Ok(text("OK")))
    );
    assert_eq!(select(9, &[text("SELECT"), text("12")]), (12, Ok(text("OK"))));
    assert_eq!(select(9, &[text("SELECT"), text("+65535")]), (65_535, Ok(text("OK"))));
    assert_eq!(select(9, &[text("SELECT")]), (0, Ok(text("OK"))));
}

#[test]
fn select_reads_bytes_and_selects_the_first_database() {
    assert_eq!(select(9, &[text("SELECT"), bulk(b"4")]), (0, Ok(text("OK"))));
    let refused = || Err(wrong(ProtocolError::WrongArgCount("select")));
    assert_eq!(select(9, &[text("SELECT"), bulk(b"x")]), (9, refused()));
    assert_eq!(select(9, &[text("SELECT"), bulk(b"65536")]), (9, refused()));
    assert_eq!(select(9, &[text("SELECT"), bulk(&[0xff])]), (9, refused()));
    assert_eq!(select(9, &[text("SELECT"), bulk(b"")]), (9, refused()));
}

#[test]
fn select_refuses_what_is_no_number() {
    let refused = || Err(wrong(ProtocolError::SyntaxError));
    assert_eq!(select(9, &[text("SELECT"), text("-1")]), (9, refused()));
    assert_eq!(select(9, &[text("SELECT"), text("1a")]), (9, refused()));
    assert_eq!(select(9, &[text("SELECT"), Value::Array(None)]), (9, refused()));
    assert_eq!(
        select(9, &[text("SELECT"), text("1"), text("2")]),
        (9, Err(wrong(ProtocolError::WrongArgCount("select"))))
    );
}

#[test]
fn client_info_replies_with_a_word() {
    assert_eq!(ClientInfoCommand.execute(&[]), Ok(bulk(b"test")));
}

#[test]
fn sentinels_lists_none() {
    let master = "mymaster".to_string();
    let ask = |items: &[Value]| SentinelSentinelsCommand.execute(items, &master);
    let verb = || vec![text("SENTINEL"), text("SENTINELS")];
    assert_eq!(
        ask(&verb()),
        Err(wrong(ProtocolError::WrongArgCount("SENTINEL SENTINELS")))
    );
    for name in [text("mymaster"), bulk(b"mymaster"), text("other")] {
        let mut items = verb();
        items.push(name);
        assert_eq!(ask(&items), Ok(Value::Array(None)));
    }
    let mut items = verb();
    items.push(Value::Integer(1));
    assert_eq!(
        ask(&items),
        Err(wrong(ProtocolError::InvalidArgument("master name")))
    );
}

#[test]
fn hvals_reads_its_key() {
    assert_eq!(
        HValsCommand::parse_args(&[text("HVALS"), bulk(&[0, 255])]),
        Ok(HValsParams { key: vec![0, 255] })
    );
    assert_eq!(
        HValsCommand::parse_args(&[text("HVALS"), text("h\u{e9}"), text("more")]),
        Ok(HValsParams {
            key: vec![b'h', 0xc3, 0xa9]
        })
    );
    assert_eq!(
        HValsCommand::parse_args(&[text("HVALS")]),
        Err(ProtocolError::WrongArgCount("hvals"))
    );
    assert_eq!(
        HValsCommand::parse_args(&[text("HVALS"), Value::BulkString(None)]),
        Err(ProtocolError::InvalidArgument("key"))
    );
}

#[test]
fn hvals_shows_itself_as_a_line() {
    let line = |key: &[u8]| HValsParams { key: key.to_vec() }.to_string();
    assert_eq!(line(b"users"), "HVALS users");
    assert_eq!(line(&[b'a', 0xff]), "HVALS a\u{fffd}");
}

#[test]
fn hvals_waits_in_a_transaction() {
    let mut client = Client::new(7);
    client.transaction_queue = Some(vec![]);
    let execution = HValsCommand.execute(&mut client, &[text("HVALS"), text("h")]);
    assert!(matches!(execution, Ok(Execution::Done(reply)) if reply == text("QUEUED")));
    let queue = client.transaction_queue.as_ref().unwrap();
    assert_eq!(queue.len(), 1);
    let Operation::Read(ReadOperation::HVals(queued)) = &queue[0];
    assert_eq!(queued.key, b"h".to_vec());
    let execution = HValsCommand.execute(&mut client, &[text("HVALS")]);
    assert!(matches!(
        execution,
        Err(CacheCatError::Protocol(ProtocolError::WrongArgCount("hvals")))
    ));
    assert_eq!(client.transaction_queue.unwrap().len(), 1);
}

#[test]
fn hvals_reads_from_the_database_of_its_client() {
    let mut client = Client::new(7);
    client.db_number = 3;
    match HValsCommand.execute(&mut client, &[text("HVALS"), text("h")]) {
        Ok(Execution::Read { key, db_number }) => {
            assert_eq!(key, b"h".to_vec());
            assert_eq!(db_number, 3);
        }
        other => panic!("not reading: {:?}", other),
    }
}

#[test]
fn hvals_lists_the_values_of_a_hash() {
    let mut map = BytesMap::new();
    map.insert(b"name".to_vec(), HashValue::Str(b"cat".to_vec()));
    map.insert(b"age".to_vec(), HashValue::Int(-12));
    let stored = |data| {
        Some(MyValue {
            data,
            expires_at: 0,
            version: 1,
        })
    };
    assert_eq!(
        HValsCommand::reply(&stored(ValueObject::Hash(map))),
        Ok(Value::Array(Some(vec![bulk(b"cat"), bulk(b"-12")])))
    );
    assert_eq!(HValsCommand::reply(&None), Ok(Value::Array(Some(vec![]))));
    assert_eq!(
        HValsCommand::reply(&stored(ValueObject::Int(1))),
        Err(wrong(ProtocolError::WrongType))
    );
}

#[test]
fn numbers_are_written_in_decimal() {
    for n in [0, 7, -7, 10, 1234567890, i64::MAX, i64::MIN] {
        assert_eq!(decimal(n), n.to_string().into_bytes());
    }
}

#[test]
fn scripts_call_commands_with_arguments() {
    assert_eq!(
        RedisHandler.call(vec!["GET".to_string(), "k".to_string()]),
        Ok(vec![text("GET"), text("k")])
    );
    assert_eq!(
        RedisHandler.call(vec![]),
        Err("redis.call requires at least one argument")
    );
    assert_eq!(
        hidden_globals(),
        vec!["os", "io", "package", "require", "dofile", "loadfile"]
    );
}
