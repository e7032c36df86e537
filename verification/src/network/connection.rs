//! What a connection does: a machine that is told what happened and says what to do.
//!
//! A connection reads a command, runs it and sends the reply. Once a command has
//! subscribed its client to something, the connection listens: it sends what is
//! published and takes only the commands that have to do with subscriptions, until it
//! leaves that mode again. Whoever runs the machine does the reading, the running and
//! the sending.

use crate::utils::text;
use crate::value;
use crate::value::{Reply, Value};
use vstd::prelude::*;

verus! {

/// A command that may change the subscriptions of a listening connection.
#[derive(Clone, Copy, Debug, PartialEq, Eq, Structural)]
pub enum Change {
    /// SUBSCRIBE or PSUBSCRIBE.
    Join,
    /// UNSUBSCRIBE or PUNSUBSCRIBE.
    Leave,
}

/// What comes after something was sent.
#[derive(Clone, Copy, Debug, PartialEq, Eq, Structural)]
pub enum Next {
    /// Read the next command.
    Read,
    /// Wait for a command or a message.
    Listen,
    /// Take messages from the stream that the command gave.
    Adopt(Change),
    /// End the connection.
    Close,
}

/// Where a connection stands.
#[derive(Clone, Copy, Debug, PartialEq, Eq, Structural)]
pub enum Phase {
    /// Waits for a command.
    Reading,
    /// Waits for the result of a command.
    Executing,
    /// Waits until something is sent.
    Sending { sent: Next, failed: Next },
    /// Waits for a command or a message.
    Listening,
    /// Listens, and waits for the result of a command that changes subscriptions.
    Changing(Change),
    /// Listens, and waits for the result of a PING.
    Pinging,
    /// Waits for the state of the stream that it takes messages from.
    Adopting(Change),
    /// Has ended.
    Closed,
}

/// What happened.
#[derive(Debug)]
pub enum Event {
    /// A command came in.
    Frame(Value),
    /// Something came in that is not a value.
    BrokenFrame,
    /// The client is gone.
    Disconnected,
    /// The command has this reply.
    Immediate(Value),
    /// The command has this reply, and messages come in from now on.
    Subscribed(Value),
    /// It was sent.
    Sent,
    /// It could not be sent.
    SendFailed,
    /// The stream was taken; whether it holds no message.
    Adopted { empty: bool },
    /// The stream has a message, or says that there are no subscriptions left.
    Message(Option<Value>),
    /// The stream has ended.
    StreamClosed,
}

/// What to do.
#[derive(Debug)]
pub enum Action {
    /// Read the next command.
    Read,
    /// Run a command.
    Execute(Value),
    /// Send a value.
    Send(Value),
    /// Take messages from the stream that the command gave.
    Adopt,
    /// Wait for a command or a message.
    Listen,
    /// End the connection.
    Close,
}

/// What happened, as plain data.
#[verifier::ext_equal]
pub enum EventModel {
    Frame(Reply),
    BrokenFrame,
    Disconnected,
    Immediate(Reply),
    Subscribed(Reply),
    Sent,
    SendFailed,
    Adopted { empty: bool },
    Message(Option<Reply>),
    StreamClosed,
}

/// What to do, as plain data.
#[verifier::ext_equal]
pub enum ActionModel {
    Read,
    Execute(Reply),
    Send(Reply),
    Adopt,
    Listen,
    Close,
}

impl View for Event {
    type V = EventModel;

    open spec fn view(&self) -> EventModel {
        match *self {
            Event::Frame(value) => EventModel::Frame(value@),
            Event::BrokenFrame => EventModel::BrokenFrame,
            Event::Disconnected => EventModel::Disconnected,
            Event::Immediate(reply) => EventModel::Immediate(reply@),
            Event::Subscribed(reply) => EventModel::Subscribed(reply@),
            Event::Sent => EventModel::Sent,
            Event::SendFailed => EventModel::SendFailed,
            Event::Adopted { empty } => EventModel::Adopted { empty },
            Event::Message(None) => EventModel::Message(None),
            Event::Message(Some(message)) => EventModel::Message(Some(message@)),
            Event::StreamClosed => EventModel::StreamClosed,
        }
    }
}

impl View for Action {
    type V = ActionModel;

    open spec fn view(&self) -> ActionModel {
        match *self {
            Action::Read => ActionModel::Read,
            Action::Execute(value) => ActionModel::Execute(value@),
            Action::Send(value) => ActionModel::Send(value@),
            Action::Adopt => ActionModel::Adopt,
            Action::Listen => ActionModel::Listen,
            Action::Close => ActionModel::Close,
        }
    }
}

impl Phase {
    /// Whether an event can happen in this phase.
    pub open spec fn awaits(self, event: EventModel) -> bool {
        match self {
            Phase::Reading => event is Frame || event is BrokenFrame || event is Disconnected,
            Phase::Executing => event is Immediate || event is Subscribed,
            Phase::Sending { .. } => event is Sent || event is SendFailed,
            Phase::Listening => event is Frame || event is BrokenFrame || event is Disconnected
                || event is Message || event is StreamClosed,
            Phase::Changing(_) => event is Immediate || event is Subscribed,
            Phase::Pinging => event is Immediate || event is Subscribed,
            Phase::Adopting(_) => event is Adopted,
            Phase::Closed => false,
        }
    }
}

/// What comes next.
pub open spec fn begun(next: Next) -> (Phase, ActionModel) {
    match next {
        Next::Read => (Phase::Reading, ActionModel::Read),
        Next::Listen => (Phase::Listening, ActionModel::Listen),
        Next::Adopt(change) => (Phase::Adopting(change), ActionModel::Adopt),
        Next::Close => (Phase::Closed, ActionModel::Close),
    }
}

/// Sends something, and then goes on, whether it could be sent or not.
pub open spec fn telling(reply: Reply, sent: Next, failed: Next) -> (Phase, ActionModel) {
    (Phase::Sending { sent, failed }, ActionModel::Send(reply))
}

/// The name of a command in upper case; or what is wrong with the command.
pub open spec fn name_of(command: Reply) -> Result<Seq<char>, Seq<char>> {
    match command {
        Reply::Array(Some(items)) => if items.len() == 0 {
            Err("ERR failed to parse command"@)
        } else {
            match items[0] {
                Reply::BulkString(Some(data)) => Ok(text::uppercase(text::lossy(data))),
                Reply::SimpleString(word) => Ok(text::uppercase(word)),
                _ => Err("invalid command format"@),
            }
        },
        _ => Err("ERR failed to parse command"@),
    }
}

/// What a client is told of a command that a listening connection does not take.
pub open spec fn refusal(name: Seq<char>) -> Reply {
    Reply::Error(
        "ERR Can't execute '"@ + name
            + "': only (P)SUBSCRIBE / (P)UNSUBSCRIBE / PING / QUIT are allowed in this context"@,
    )
}

/// What a listening connection does with a command of this name.
pub open spec fn listening_to(name: Seq<char>, command: Reply) -> (Phase, ActionModel) {
    if name == "SUBSCRIBE"@ || name == "PSUBSCRIBE"@ {
        (Phase::Changing(Change::Join), ActionModel::Execute(command))
    } else if name == "UNSUBSCRIBE"@ || name == "PUNSUBSCRIBE"@ {
        (Phase::Changing(Change::Leave), ActionModel::Execute(command))
    } else if name == "PING"@ {
        (Phase::Pinging, ActionModel::Execute(command))
    } else if name == "QUIT"@ {
        telling(value::text_reply("OK"@), Next::Read, Next::Read)
    } else if name == "RESET"@ {
        telling(value::text_reply("RESET"@), Next::Read, Next::Read)
    } else {
        telling(refusal(name), Next::Listen, Next::Read)
    }
}

/// What a listening connection does with a command.
pub open spec fn listening_to_command(command: Reply) -> (Phase, ActionModel) {
    match name_of(command) {
        Ok(name) => listening_to(name, command),
        Err(wrong) => telling(Reply::Error(wrong), Next::Listen, Next::Listen),
    }
}

/// Where an event leads, and what is to be done.
pub open spec fn led(phase: Phase, event: EventModel) -> (Phase, ActionModel) {
    match (phase, event) {
        (Phase::Reading, EventModel::Frame(command)) => (
            Phase::Executing,
            ActionModel::Execute(command),
        ),
        (Phase::Reading, _) => begun(Next::Close),
        (Phase::Executing, EventModel::Immediate(reply)) => telling(reply, Next::Read, Next::Close),
        (Phase::Executing, EventModel::Subscribed(reply)) => telling(
            reply,
            Next::Adopt(Change::Join),
            Next::Close,
        ),
        (Phase::Sending { sent, .. }, EventModel::Sent) => begun(sent),
        (Phase::Sending { failed, .. }, _) => begun(failed),
        (Phase::Listening, EventModel::Message(Some(message))) => telling(
            message,
            Next::Listen,
            Next::Read,
        ),
        (Phase::Listening, EventModel::Frame(command)) => listening_to_command(command),
        (Phase::Listening, _) => begun(Next::Read),
        (Phase::Changing(change), EventModel::Subscribed(reply)) => telling(
            reply,
            Next::Adopt(change),
            Next::Read,
        ),
        (Phase::Changing(_), EventModel::Immediate(reply)) => telling(
            reply,
            Next::Listen,
            Next::Read,
        ),
        (Phase::Pinging, EventModel::Immediate(reply)) => telling(reply, Next::Listen, Next::Read),
        (Phase::Pinging, _) => telling(
            Reply::Error("ERR invalid PING response"@),
            Next::Listen,
            Next::Listen,
        ),
        (Phase::Adopting(change), EventModel::Adopted { empty }) => if change == Change::Leave
            && empty {
            begun(Next::Read)
        } else {
            begun(Next::Listen)
        },
        _ => begun(Next::Close),
    }
}

/// Goes on.
fn begin(next: Next) -> (step: (Phase, Action))
    ensures
        (step.0, step.1@) == begun(next),
{
    match next {
        Next::Read => (Phase::Reading, Action::Read),
        Next::Listen => (Phase::Listening, Action::Listen),
        Next::Adopt(change) => (Phase::Adopting(change), Action::Adopt),
        Next::Close => (Phase::Closed, Action::Close),
    }
}

/// Sends something.
fn tell(reply: Value, sent: Next, failed: Next) -> (step: (Phase, Action))
    ensures
        (step.0, step.1@) == telling(reply@, sent, failed),
{
    (Phase::Sending { sent, failed }, Action::Send(reply))
}

/// The name of a command in upper case; or what is wrong with the command.
pub fn command_name(command: &Value) -> (name: Result<String, &'static str>)
    ensures
        match name {
            Ok(word) => name_of(command@) == Ok::<Seq<char>, Seq<char>>(word@),
            Err(wrong) => name_of(command@) == Err::<Seq<char>, Seq<char>>(wrong@),
        },
{
    match command {
        Value::Array(Some(items)) => {
            proof {
                value::lemma_replies(items@);
            }
            if items.len() == 0 {
                return Err("ERR failed to parse command");
            }
            match &items[0] {
                Value::BulkString(Some(data)) => {
                    let word = text::lossy_text(data.as_slice());
                    Ok(text::upper_text(word.as_str()))
                },
                Value::SimpleString(word) => Ok(text::upper_text(word.as_str())),
                _ => Err("invalid command format"),
            }
        },
        _ => Err("ERR failed to parse command"),
    }
}

/// What a listening connection does with a command of this name.
pub fn listen_to(name: &String, command: Value) -> (step: (Phase, Action))
    ensures
        (step.0, step.1@) == listening_to(name@, command@),
{
    if text::is_word(name, "SUBSCRIBE") || text::is_word(name, "PSUBSCRIBE") {
        (Phase::Changing(Change::Join), Action::Execute(command))
    } else if text::is_word(name, "UNSUBSCRIBE") || text::is_word(name, "PUNSUBSCRIBE") {
        (Phase::Changing(Change::Leave), Action::Execute(command))
    } else if text::is_word(name, "PING") {
        (Phase::Pinging, Action::Execute(command))
    } else if text::is_word(name, "QUIT") {
        tell(Value::text("OK"), Next::Read, Next::Read)
    } else if text::is_word(name, "RESET") {
        tell(Value::text("RESET"), Next::Read, Next::Read)
    } else {
        let mut message = "ERR Can't execute '".to_owned();
        message.append(name.as_str());
        message.append(
            "': only (P)SUBSCRIBE / (P)UNSUBSCRIBE / PING / QUIT are allowed in this context",
        );
        tell(Value::Error(message), Next::Listen, Next::Read)
    }
}

/// Where an event leads, and what is to be done.
pub fn lead(phase: Phase, event: Event) -> (step: (Phase, Action))
    requires
        phase.awaits(event@),
    ensures
        (step.0, step.1@) == led(phase, event@),
{
    match (phase, event) {
        (Phase::Reading, Event::Frame(command)) => (Phase::Executing, Action::Execute(command)),
        (Phase::Reading, _) => begin(Next::Close),
        (Phase::Executing, Event::Immediate(reply)) => tell(reply, Next::Read, Next::Close),
        (Phase::Executing, Event::Subscribed(reply)) => tell(
            reply,
            Next::Adopt(Change::Join),
            Next::Close,
        ),
        (Phase::Sending { sent, .. }, Event::Sent) => begin(sent),
        (Phase::Sending { failed, .. }, _) => begin(failed),
        (Phase::Listening, Event::Message(Some(message))) => tell(
            message,
            Next::Listen,
            Next::Read,
        ),
        (Phase::Listening, Event::Frame(command)) => match command_name(&command) {
            Ok(name) => listen_to(&name, command),
            Err(wrong) => tell(Value::error(wrong), Next::Listen, Next::Listen),
        },
        (Phase::Listening, _) => begin(Next::Read),
        (Phase::Changing(change), Event::Subscribed(reply)) => tell(
            reply,
            Next::Adopt(change),
            Next::Read,
        ),
        (Phase::Changing(_), Event::Immediate(reply)) => tell(reply, Next::Listen, Next::Read),
        (Phase::Pinging, Event::Immediate(reply)) => tell(reply, Next::Listen, Next::Read),
        (Phase::Pinging, _) => tell(
            Value::error("ERR invalid PING response"),
            Next::Listen,
            Next::Listen,
        ),
        (Phase::Adopting(change), Event::Adopted { empty }) => if change == Change::Leave
            && empty {
            begin(Next::Read)
        } else {
            begin(Next::Listen)
        },
        _ => begin(Next::Close),
    }
}

/// The id of the next client, given that of the last one; the first is one.
pub fn next_client_id(last: u64) -> (id: u64)
    requires
        last < u64::MAX,
    ensures
        id == last + 1,
{
    last + 1
}

/// Whether a listening connection runs commands of this name.
pub open spec fn runs_while_listening(name: Seq<char>) -> bool {
    ||| name == "SUBSCRIBE"@
    ||| name == "PSUBSCRIBE"@
    ||| name == "UNSUBSCRIBE"@
    ||| name == "PUNSUBSCRIBE"@
    ||| name == "PING"@
}

/// A command is run as it came in; a listening connection runs only those that have to
/// do with subscriptions, and PING.
pub proof fn law_what_is_run(phase: Phase, event: EventModel)
    requires
        led(phase, event).1 is Execute,
    ensures
        event == EventModel::Frame(led(phase, event).1->Execute_0),
        phase is Reading || phase is Listening,
        phase is Listening ==> name_of(event->Frame_0) is Ok && runs_while_listening(
            name_of(event->Frame_0)->Ok_0,
        ),
{
}

/// A connection that does not listen runs every command.
pub proof fn law_every_command_is_run(command: Reply)
    ensures
        led(Phase::Reading, EventModel::Frame(command)) == (
            Phase::Executing,
            ActionModel::Execute(command),
        ),
{
}

/// A command that a listening connection does not take is answered, and the connection
/// goes on listening, unless the answer cannot be sent.
pub proof fn law_refused_command_is_answered(command: Reply)
    requires
        name_of(command) is Ok,
        !runs_while_listening(name_of(command)->Ok_0),
        name_of(command)->Ok_0 != "QUIT"@,
        name_of(command)->Ok_0 != "RESET"@,
    ensures
        ({
            let (phase, action) = led(Phase::Listening, EventModel::Frame(command));
            &&& action == ActionModel::Send(refusal(name_of(command)->Ok_0))
            &&& led(phase, EventModel::Sent) == (Phase::Listening, ActionModel::Listen)
            &&& led(phase, EventModel::SendFailed) == (Phase::Reading, ActionModel::Read)
        }),
{
}

/// QUIT and RESET are answered, and then the connection does not listen any more.
pub proof fn law_quit_ends_listening(command: Reply)
    requires
        name_of(command) is Ok,
        name_of(command)->Ok_0 == "QUIT"@ || name_of(command)->Ok_0 == "RESET"@,
    ensures
        ({
            let (phase, action) = led(Phase::Listening, EventModel::Frame(command));
            let answer = if name_of(command)->Ok_0 == "QUIT"@ {
                "OK"@
            } else {
                "RESET"@
            };
            &&& action == ActionModel::Send(value::text_reply(answer))
            &&& led(phase, EventModel::Sent) == (Phase::Reading, ActionModel::Read)
            &&& led(phase, EventModel::SendFailed) == (Phase::Reading, ActionModel::Read)
        }),
{
    reveal_strlit("QUIT");
    reveal_strlit("RESET");
    reveal_strlit("SUBSCRIBE");
    reveal_strlit("PSUBSCRIBE");
    reveal_strlit("UNSUBSCRIBE");
    reveal_strlit("PUNSUBSCRIBE");
    reveal_strlit("PING");
    assert("PING"@[0] == 'P' && "QUIT"@[0] == 'Q' && "RESET"@[0] == 'R');
}

/// The reply to a command is sent as it is; a connection that does not listen ends if
/// it cannot be sent, and one that listens stops listening.
pub proof fn law_replies_are_sent(phase: Phase, reply: Reply)
    requires
        phase is Executing || phase is Changing || phase is Pinging,
    ensures
        ({
            let (then, action) = led(phase, EventModel::Immediate(reply));
            &&& action == ActionModel::Send(reply)
            &&& led(then, EventModel::SendFailed).0 == (if phase is Executing {
                Phase::Closed
            } else {
                Phase::Reading
            })
        }),
{
}

/// Whether a connection listens, or is about to.
pub open spec fn listens(phase: Phase) -> bool {
    match phase {
        Phase::Listening | Phase::Changing(_) | Phase::Pinging | Phase::Adopting(_) => true,
        Phase::Sending { sent, failed } => sent is Listen || sent is Adopt || failed is Listen
            || failed is Adopt,
        _ => false,
    }
}

/// A connection comes to listen only by a command that subscribes.
pub proof fn law_listening_begins_with_a_subscription(phase: Phase, event: EventModel)
    requires
        phase.awaits(event),
        !listens(phase),
        listens(led(phase, event).0),
    ensures
        phase is Executing,
        event is Subscribed,
{
}

/// The reply to a command that subscribes is sent, and then the connection listens; what
/// is published meanwhile is sent as it is.
pub proof fn law_subscription_is_answered(reply: Reply, message: Reply, empty: bool)
    ensures
        ({
            let (sending, action) = led(Phase::Executing, EventModel::Subscribed(reply));
            let (adopting, taken) = led(sending, EventModel::Sent);
            &&& action == ActionModel::Send(reply)
            &&& taken == ActionModel::Adopt
            &&& led(adopting, EventModel::Adopted { empty }) == (
                Phase::Listening,
                ActionModel::Listen,
            )
        }),
        led(Phase::Listening, EventModel::Message(Some(message))).1 == ActionModel::Send(message),
{
}

/// Whatever happens, the machine asks next for something that it awaits; once it has
/// ended it awaits nothing.
pub proof fn law_actions_lead_to_awaited_events(phase: Phase, event: EventModel, next: EventModel)
    requires
        phase.awaits(event),
    ensures
        ({
            let (then, action) = led(phase, event);
            &&& action is Close <==> then is Closed
            &&& action is Read ==> then is Reading
            &&& action is Listen ==> then is Listening
            &&& action is Adopt ==> then is Adopting
            &&& action is Send ==> then is Sending
            &&& action is Execute ==> (then is Executing || then is Changing || then is Pinging)
            &&& then is Closed ==> !then.awaits(next)
        }),
{
}

/// Once something was sent, or could not be, the connection goes on as it was to.
pub proof fn law_what_follows_sending(other: Next, change: Change)
    ensures
        led(Phase::Sending { sent: Next::Read, failed: other }, EventModel::Sent) == (
            Phase::Reading,
            ActionModel::Read,
        ),
        led(Phase::Sending { sent: Next::Listen, failed: other }, EventModel::Sent) == (
            Phase::Listening,
            ActionModel::Listen,
        ),
        led(Phase::Sending { sent: Next::Adopt(change), failed: other }, EventModel::Sent) == (
            Phase::Adopting(change),
            ActionModel::Adopt,
        ),
        led(Phase::Sending { sent: Next::Close, failed: other }, EventModel::Sent) == (
            Phase::Closed,
            ActionModel::Close,
        ),
        led(Phase::Sending { sent: other, failed: Next::Read }, EventModel::SendFailed) == (
            Phase::Reading,
            ActionModel::Read,
        ),
        led(Phase::Sending { sent: other, failed: Next::Listen }, EventModel::SendFailed) == (
            Phase::Listening,
            ActionModel::Listen,
        ),
        led(Phase::Sending { sent: other, failed: Next::Adopt(change) }, EventModel::SendFailed)
            == (Phase::Adopting(change), ActionModel::Adopt),
        led(Phase::Sending { sent: other, failed: Next::Close }, EventModel::SendFailed) == (
            Phase::Closed,
            ActionModel::Close,
        ),
{
}

/// A connection that reads ends where the client is lost or sends what is no value; one
/// that listens then reads again, and so it does where the messages end.
pub proof fn law_what_ends_a_connection(event: EventModel)
    ensures
        event is BrokenFrame || event is Disconnected ==> led(Phase::Reading, event) == (
            Phase::Closed,
            ActionModel::Close,
        ),
        event is BrokenFrame || event is Disconnected || event is StreamClosed || event
            == EventModel::Message(None) ==> led(Phase::Listening, event) == (
            Phase::Reading,
            ActionModel::Read,
        ),
{
}

/// A message is sent as it is; then the connection listens again, or reads if it could
/// not be sent.
pub proof fn law_messages_are_passed_on(message: Reply)
    ensures
        ({
            let (phase, action) = led(Phase::Listening, EventModel::Message(Some(message)));
            &&& action == ActionModel::Send(message)
            &&& led(phase, EventModel::Sent) == (Phase::Listening, ActionModel::Listen)
            &&& led(phase, EventModel::SendFailed) == (Phase::Reading, ActionModel::Read)
        }),
{
}

/// The reply to a command is sent as it is. A connection that does not listen then reads,
/// or ends if it could not be sent; one that listens goes on, or reads if it could not
/// be sent.
pub proof fn law_what_follows_a_reply(reply: Reply, change: Change)
    ensures
        ({
            let (phase, action) = led(Phase::Executing, EventModel::Immediate(reply));
            &&& action == ActionModel::Send(reply)
            &&& led(phase, EventModel::Sent) == (Phase::Reading, ActionModel::Read)
            &&& led(phase, EventModel::SendFailed) == (Phase::Closed, ActionModel::Close)
        }),
        ({
            let (phase, action) = led(Phase::Changing(change), EventModel::Immediate(reply));
            &&& action == ActionModel::Send(reply)
            &&& led(phase, EventModel::Sent) == (Phase::Listening, ActionModel::Listen)
            &&& led(phase, EventModel::SendFailed) == (Phase::Reading, ActionModel::Read)
        }),
        ({
            let (phase, action) = led(Phase::Pinging, EventModel::Immediate(reply));
            &&& action == ActionModel::Send(reply)
            &&& led(phase, EventModel::Sent) == (Phase::Listening, ActionModel::Listen)
            &&& led(phase, EventModel::SendFailed) == (Phase::Reading, ActionModel::Read)
        }),
{
}

/// The reply to a command that gives a new stream is sent as it is, and then the stream is
/// taken. A connection that could not send it ends if it did not listen yet, and else
/// reads. A PING that gives a stream is answered with an error, and the connection goes
/// on listening.
pub proof fn law_what_follows_a_stream(reply: Reply, change: Change)
    ensures
        ({
            let (phase, action) = led(Phase::Executing, EventModel::Subscribed(reply));
            &&& action == ActionModel::Send(reply)
            &&& led(phase, EventModel::Sent) == (Phase::Adopting(Change::Join), ActionModel::Adopt)
            &&& led(phase, EventModel::SendFailed) == (Phase::Closed, ActionModel::Close)
        }),
        ({
            let (phase, action) = led(Phase::Changing(change), EventModel::Subscribed(reply));
            &&& action == ActionModel::Send(reply)
            &&& led(phase, EventModel::Sent) == (Phase::Adopting(change), ActionModel::Adopt)
            &&& led(phase, EventModel::SendFailed) == (Phase::Reading, ActionModel::Read)
        }),
        ({
            let (phase, action) = led(Phase::Pinging, EventModel::Subscribed(reply));
            &&& action == ActionModel::Send(Reply::Error("ERR invalid PING response"@))
            &&& led(phase, EventModel::Sent) == (Phase::Listening, ActionModel::Listen)
            &&& led(phase, EventModel::SendFailed) == (Phase::Listening, ActionModel::Listen)
        }),
{
}

/// A connection that takes a stream listens to it, unless the stream comes of leaving and
/// holds nothing: that ends the listening.
pub proof fn law_when_listening_ends_by_leaving(change: Change, empty: bool)
    ensures
        change is Leave && empty ==> led(Phase::Adopting(change), EventModel::Adopted { empty })
            == (Phase::Reading, ActionModel::Read),
        change is Join || !empty ==> led(Phase::Adopting(change), EventModel::Adopted { empty })
            == (Phase::Listening, ActionModel::Listen),
{
}

/// The name of a command is its first item, bytes or text, in upper case; a command whose
/// first item is neither has no name, nor has what is no list, or an empty one, and each
/// is answered with its own error while the connection goes on listening.
pub proof fn law_names_of_commands(
    items: Seq<Reply>,
    data: Seq<u8>,
    word: Seq<char>,
    command: Reply,
)
    ensures
        items.len() > 0 && items[0] == Reply::BulkString(Some(data)) ==> name_of(
            Reply::Array(Some(items)),
        ) == Ok::<Seq<char>, Seq<char>>(text::uppercase(text::lossy(data))),
        items.len() > 0 && items[0] == Reply::SimpleString(word) ==> name_of(
            Reply::Array(Some(items)),
        ) == Ok::<Seq<char>, Seq<char>>(text::uppercase(word)),
        items.len() > 0 && !(items[0] is SimpleString) && !(items[0] is BulkString
            && items[0]->BulkString_0 is Some) ==> name_of(Reply::Array(Some(items))) == Err::<
            Seq<char>,
            Seq<char>,
        >("invalid command format"@),
        items.len() == 0 ==> name_of(Reply::Array(Some(items))) == Err::<Seq<char>, Seq<char>>(
            "ERR failed to parse command"@,
        ),
        !(command is Array) || command == Reply::Array(None) ==> name_of(command) == Err::<
            Seq<char>,
            Seq<char>,
        >("ERR failed to parse command"@),
        name_of(command) is Err ==> {
            let (phase, action) = led(Phase::Listening, EventModel::Frame(command));
            &&& action == ActionModel::Send(Reply::Error(name_of(command)->Err_0))
            &&& led(phase, EventModel::Sent) == (Phase::Listening, ActionModel::Listen)
            &&& led(phase, EventModel::SendFailed) == (Phase::Listening, ActionModel::Listen)
        },
{
}

/// While a connection listens, the commands that join are run as joining, those that leave
/// as leaving, and PING as PING, each as it came.
pub proof fn law_commands_while_listening(command: Reply)
    requires
        name_of(command) is Ok,
    ensures
        ({
            let name = name_of(command)->Ok_0;
            let step = led(Phase::Listening, EventModel::Frame(command));
            &&& name == "SUBSCRIBE"@ || name == "PSUBSCRIBE"@ ==> step == (
                Phase::Changing(Change::Join),
                ActionModel::Execute(command),
            )
            &&& name == "UNSUBSCRIBE"@ || name == "PUNSUBSCRIBE"@ ==> step == (
                Phase::Changing(Change::Leave),
                ActionModel::Execute(command),
            )
            &&& name == "PING"@ ==> step == (Phase::Pinging, ActionModel::Execute(command))
            &&& step == listening_to(name, command)
        }),
{
    reveal_strlit("SUBSCRIBE");
    reveal_strlit("PSUBSCRIBE");
    reveal_strlit("UNSUBSCRIBE");
    reveal_strlit("PUNSUBSCRIBE");
    reveal_strlit("PING");
    assert("SUBSCRIBE"@.len() == 9 && "PSUBSCRIBE"@.len() == 10 && "UNSUBSCRIBE"@.len() == 11
        && "PUNSUBSCRIBE"@.len() == 12 && "PING"@.len() == 4);
}

/// A refusal names the command between two fixed texts.
pub proof fn law_refusals_name_the_command(name: Seq<char>, command: Reply)
    requires
        !runs_while_listening(name),
        name != "QUIT"@,
        name != "RESET"@,
    ensures
        refusal(name) is Error,
        refusal(name)->Error_0 == "ERR Can't execute '"@ + name
            + "': only (P)SUBSCRIBE / (P)UNSUBSCRIBE / PING / QUIT are allowed in this context"@,
        listening_to(name, command).1 == ActionModel::Send(refusal(name)),
{
}

/// Events and actions are what they say.
pub proof fn law_events_are_what_they_say(value: Value, empty: bool)
    ensures
        Event::Frame(value)@ == EventModel::Frame(value@),
        Event::BrokenFrame@ == EventModel::BrokenFrame,
        Event::Disconnected@ == EventModel::Disconnected,
        Event::Immediate(value)@ == EventModel::Immediate(value@),
        Event::Subscribed(value)@ == EventModel::Subscribed(value@),
        Event::Sent@ == EventModel::Sent,
        Event::SendFailed@ == EventModel::SendFailed,
        (Event::Adopted { empty })@ == (EventModel::Adopted { empty }),
        Event::Message(None)@ == EventModel::Message(None),
        Event::Message(Some(value))@ == EventModel::Message(Some(value@)),
        Event::StreamClosed@ == EventModel::StreamClosed,
        Action::Read@ == ActionModel::Read,
        Action::Execute(value)@ == ActionModel::Execute(value@),
        Action::Send(value)@ == ActionModel::Send(value@),
        Action::Adopt@ == ActionModel::Adopt,
        Action::Listen@ == ActionModel::Listen,
        Action::Close@ == ActionModel::Close,
{
}

/// What a phase waits for: a command or its loss where the connection reads, a result
/// where a command runs, the end of sending where it sends, and also messages where it
/// listens.
pub proof fn law_what_is_awaited(change: Change, sent: Next, failed: Next, event: EventModel)
    ensures
        ({
            let frame = event is Frame || event is BrokenFrame || event is Disconnected;
            let result = event is Immediate || event is Subscribed;
            &&& Phase::Reading.awaits(event) <==> frame
            &&& Phase::Listening.awaits(event) <==> frame || event is Message || event is StreamClosed
            &&& Phase::Executing.awaits(event) <==> result
            &&& Phase::Changing(change).awaits(event) <==> result
            &&& Phase::Pinging.awaits(event) <==> result
            &&& (Phase::Sending { sent, failed }).awaits(event) <==> event is Sent || event is SendFailed
            &&& Phase::Adopting(change).awaits(event) <==> event is Adopted
            &&& !Phase::Closed.awaits(event)
        }),
{
}

} // verus!
