use cache_cat::network::codec::RespCodec;
use cache_cat::network::connection::{
    command_name, lead, listen_to, next_client_id, Action, Change, Event, Next, Phase,
};
use cache_cat::value::Value;

fn text(word: &str) -> Value {
    Value::SimpleString(word.to_string())
}

fn command(name: &[u8]) -> Value {
    Value::Array(Some(vec![
        Value::BulkString(Some(name.to_vec())),
        text("x"),
    ]))
}

fn error(message: &str) -> Value {
    Value::Error(message.to_string())
}

fn sent_value(action: Action) -> Value {
    match action {
        Action::Send(value) => value,
        other => panic!("not sending: {:?}", other),
    }
}

fn listening_to(value: Value) -> (Phase, Action) {
    lead(Phase::Listening, Event::Frame(value))
}

#[test]
fn a_command_is_run_and_its_reply_is_sent() {
    let (phase, action) = lead(Phase::Reading, Event::Frame(command(b"get")));
    assert_eq!(phase, Phase::Executing);
    match action {
        Action::Execute(value) => assert_eq!(value, command(b"get")),
        other => panic!("not executing: {:?}", other),
    }
    let (phase, action) = lead(phase, Event::Immediate(text("reply")));
    assert_eq!(sent_value(action), text("reply"));
    assert!(matches!(
        lead(phase, Event::Sent),
        (Phase::Reading, Action::Read)
    ));
    assert!(matches!(
        lead(phase, Event::SendFailed),
        (Phase::Closed, Action::Close)
    ));
}

#[test]
fn a_broken_frame_or_a_lost_client_ends_the_connection() {
    assert!(matches!(
        lead(Phase::Reading, Event::BrokenFrame),
        (Phase::Closed, Action::Close)
    ));
    assert!(matches!(
        lead(Phase::Reading, Event::Disconnected),
        (Phase::Closed, Action::Close)
    ));
    for event in [Event::BrokenFrame, Event::Disconnected, Event::StreamClosed] {
        assert!(matches!(
            lead(Phase::Listening, event),
            (Phase::Reading, Action::Read)
        ));
    }
}

#[test]
fn a_subscription_makes_the_connection_listen() {
    let (phase, action) = lead(Phase::Executing, Event::Subscribed(text("ok")));
    assert_eq!(sent_value(action), text("ok"));
    let (adopting, action) = lead(phase, Event::Sent);
    assert!(matches!(action, Action::Adopt));
    assert!(matches!(
        lead(adopting, Event::Adopted { empty: true }),
        (Phase::Listening, Action::Listen)
    ));
    assert!(matches!(
        lead(phase, Event::SendFailed),
        (Phase::Closed, Action::Close)
    ));
}

#[test]
fn messages_are_sent_while_listening() {
    let (phase, action) = lead(Phase::Listening, Event::Message(Some(text("hi"))));
    assert_eq!(sent_value(action), text("hi"));
    assert!(matches!(
        lead(phase, Event::Sent),
        (Phase::Listening, Action::Listen)
    ));
    assert!(matches!(
        lead(phase, Event::SendFailed),
        (Phase::Reading, Action::Read)
    ));
    assert!(matches!(
        lead(Phase::Listening, Event::Message(None)),
        (Phase::Reading, Action::Read)
    ));
}

#[test]
fn names_are_put_in_upper_case() {
    assert_eq!(command_name(&command(b"pSubScribe")), Ok("PSUBSCRIBE".to_string()));
    assert_eq!(
        command_name(&Value::Array(Some(vec![text("ping")]))),
        Ok("PING".to_string())
    );
    assert_eq!(
        command_name(&command(&[0xff, b'a'])),
        Ok("\u{fffd}A".to_string())
    );
    assert_eq!(
        command_name(&Value::Array(Some(vec![Value::Integer(1)]))),
        Err("invalid command format")
    );
    assert_eq!(
        command_name(&Value::Array(Some(vec![]))),
        Err("ERR failed to parse command")
    );
    assert_eq!(
        command_name(&Value::Array(None)),
        Err("ERR failed to parse command")
    );
    assert_eq!(command_name(&text("PING")), Err("ERR failed to parse command"));
}

#[test]
fn subscription_commands_are_run_while_listening() {
    for (name, change) in [
        ("subscribe", Change::Join),
        ("PSUBSCRIBE", Change::Join),
        ("Unsubscribe", Change::Leave),
        ("punsubscribe", Change::Leave),
    ] {
        let (phase, action) = listening_to(command(name.as_bytes()));
        assert_eq!(phase, Phase::Changing(change));
        match action {
            Action::Execute(value) => assert_eq!(value, command(name.as_bytes())),
            other => panic!("not executing: {:?}", other),
        }
        let (phase, action) = lead(phase, Event::Subscribed(text("told")));
        assert_eq!(sent_value(action), text("told"));
        assert_eq!(
            phase,
            Phase::Sending {
                sent: Next::Adopt(change),
                failed: Next::Read
            }
        );
        let (phase, _) = lead(phase, Event::Sent);
        let (phase, _) = lead(phase, Event::Adopted { empty: true });
        assert_eq!(
            phase,
            if change == Change::Leave {
                Phase::Reading
            } else {
                Phase::Listening
            }
        );
        let (phase, action) = lead(Phase::Changing(change), Event::Immediate(text("told")));
        assert_eq!(sent_value(action), text("told"));
        assert!(matches!(
            lead(phase, Event::Sent),
            (Phase::Listening, Action::Listen)
        ));
    }
    assert!(matches!(
        lead(Phase::Adopting(Change::Leave), Event::Adopted { empty: false }),
        (Phase::Listening, Action::Listen)
    ));
}

#[test]
fn ping_is_run_while_listening() {
    let (phase, _) = listening_to(command(b"PING"));
    assert_eq!(phase, Phase::Pinging);
    let (_, action) = lead(phase, Event::Immediate(text("PONG")));
    assert_eq!(sent_value(action), text("PONG"));
    let (then, action) = lead(phase, Event::Subscribed(text("odd")));
    assert_eq!(sent_value(action), error("ERR invalid PING response"));
    assert!(matches!(
        lead(then, Event::SendFailed),
        (Phase::Listening, Action::Listen)
    ));
}

#[test]
fn quit_and_reset_end_listening() {
    for (name, answer) in [("QUIT", "OK"), ("RESET", "RESET")] {
        let (phase, action) = listen_to(&name.to_string(), command(name.as_bytes()));
        assert_eq!(sent_value(action), text(answer));
        assert!(matches!(
            lead(phase, Event::Sent),
            (Phase::Reading, Action::Read)
        ));
        assert!(matches!(
            lead(phase, Event::SendFailed),
            (Phase::Reading, Action::Read)
        ));
    }
}

#[test]
fn other_commands_are_refused_while_listening() {
    let (phase, action) = listening_to(command(b"get"));
    assert_eq!(
        sent_value(action),
        error(
            "ERR Can't execute 'GET': only (P)SUBSCRIBE / (P)UNSUBSCRIBE / PING / QUIT are \
             allowed in this context"
        )
    );
    assert!(matches!(
        lead(phase, Event::Sent),
        (Phase::Listening, Action::Listen)
    ));
    assert!(matches!(
        lead(phase, Event::SendFailed),
        (Phase::Reading, Action::Read)
    ));
    let (phase, action) = listening_to(Value::Integer(3));
    assert_eq!(sent_value(action), error("ERR failed to parse command"));
    assert!(matches!(
        lead(phase, Event::SendFailed),
        (Phase::Listening, Action::Listen)
    ));
}

#[test]
fn clients_are_numbered_from_one() {
    assert_eq!(next_client_id(0), 1);
    assert_eq!(next_client_id(41), 42);
}

#[test]
fn decoding_drops_the_bytes_of_the_value() {
    let mut codec = RespCodec;
    let mut buffer = bytes::BytesMut::from(&b"+OK\r\n:7"[..]);
    assert_eq!(codec.decode(&mut buffer, None), None);
    assert_eq!(&buffer[..], b"+OK\r\n:7");
    assert_eq!(codec.decode(&mut buffer, Some((text("OK"), 5))), Some(text("OK")));
    assert_eq!(&buffer[..], b":7");
    assert_eq!(
        codec.try_decode(&mut buffer, Some((Value::Integer(7), 3))),
        Err(Value::Integer(7))
    );
    assert_eq!(&buffer[..], b":7");
    assert_eq!(
        codec.try_decode(&mut buffer, Some((Value::Integer(7), 2))),
        Ok(Some(Value::Integer(7)))
    );
    assert!(buffer.is_empty());
    assert_eq!(codec.try_decode(&mut buffer, None), Ok(None));
}

#[test]
fn encoding_appends_the_bytes_of_the_value() {
    let mut codec = RespCodec;
    let mut buffer = bytes::BytesMut::from(&b"+A\r\n"[..]);
    codec.encode(b"+B\r\n", &mut buffer);
    assert_eq!(&buffer[..], b"+A\r\n+B\r\n");
    assert!(codec.try_encode(b"+C\r\n", &mut buffer));
    assert_eq!(&buffer[..], b"+A\r\n+B\r\n+C\r\n");
}
