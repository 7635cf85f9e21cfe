//! The telnet friend-database session: the texts shown to the client, the
//! commands read from what the client types, the replies to them, and the
//! heartbeat that closes silent connections.
//!
//! The connection itself (sockets, the database, timers) stays with the
//! caller, which reads input, asks this module what it means, performs the
//! database operation, and writes the reply this module gives.

use vstd::prelude::*;
use vstd::utf8::{decode_utf8, valid_utf8};
use crate::std_text::{decode_utf8_text, string_from_chars};
use crate::text::{chars_equal, chars_of, split_whitespace, split_whitespace_chars};

verus! {

broadcast use vstd::string::group_string_axioms;

/// The greeting written once a client connects: clear the screen, then the
/// title in bold.
pub open spec fn greeting_text() -> Seq<char> {
    "\x1B[2J\x1B[H"@ + "\x1B[1m"@ + "Welcome to the Telnet Friend Database!"@ + "\x1B[0m"@ + "\n"@
}

/// The list of commands, written before each read of input.
pub open spec fn menu_text() -> Seq<char> {
    "Available Commands:\n1) ADD <name> <phone> "@ + "\x1B[35m"@ + "- Add a new friend"@ + "\x1B[0m"@
        + "\n2) GET <name> "@ + "\x1B[35m"@ + "- Retrieve a friend's phone number"@ + "\x1B[0m"@
        + "\n3) DELETE <name> "@ + "\x1B[35m"@ + "- Remove a friend from the database"@ + "\x1B[0m"@
        + "\nEXIT "@ + "\x1B[35m"@ + "- Disconnect from the server"@ + "\x1B[0m"@ + "\n"@
}

/// The heartbeat's question to the client.
pub open spec fn ping_text() -> Seq<char> {
    "PING\nPlease respond with "@ + "\x1B[1m"@ + "\x1B[36m"@ + "PONG"@ + "\x1B[0m"@
        + " if you are still active: \n"@
}

/// The greeting written once a client connects.
pub fn greeting() -> (s: String)
    ensures
        s@ == greeting_text(),
{
    let mut s = "\x1B[2J\x1B[H".to_string();
    s.append("\x1B[1m");
    s.append("Welcome to the Telnet Friend Database!");
    s.append("\x1B[0m");
    s.append("\n");
    s
}

/// The list of commands.
pub fn menu() -> (s: String)
    ensures
        s@ == menu_text(),
{
    let mut s = "Available Commands:\n1) ADD <name> <phone> ".to_string();
    s.append("\x1B[35m");
    s.append("- Add a new friend");
    s.append("\x1B[0m");
    s.append("\n2) GET <name> ");
    s.append("\x1B[35m");
    s.append("- Retrieve a friend's phone number");
    s.append("\x1B[0m");
    s.append("\n3) DELETE <name> ");
    s.append("\x1B[35m");
    s.append("- Remove a friend from the database");
    s.append("\x1B[0m");
    s.append("\nEXIT ");
    s.append("\x1B[35m");
    s.append("- Disconnect from the server");
    s.append("\x1B[0m");
    s.append("\n");
    s
}

/// The heartbeat's question to the client.
pub fn ping_message() -> (s: String)
    ensures
        s@ == ping_text(),
{
    let mut s = "PING\nPlease respond with ".to_string();
    s.append("\x1B[1m");
    s.append("\x1B[36m");
    s.append("PONG");
    s.append("\x1B[0m");
    s.append(" if you are still active: \n");
    s
}


/// What a line of client input asks for.
#[derive(Debug)]
pub enum ClientCommand {
    /// An answer to the heartbeat.
    Pong,
    /// Add a friend with a phone number.
    Add { name: String, phone: String },
    /// Look up a friend's phone number.
    Get { name: String },
    /// Remove a friend.
    Delete { name: String },
    /// End the session.
    Exit,
    /// A known command without the arguments it needs; it gets no answer.
    Incomplete,
    /// Anything else.
    Invalid,
}

/// The words of the client's input: its whitespace-separated tokens when it
/// is valid UTF-8, none otherwise.
pub open spec fn input_words(input: Seq<u8>) -> Seq<Seq<char>> {
    if valid_utf8(input) {
        split_whitespace(decode_utf8(input))
    } else {
        seq![]
    }
}

/// Whether `c` is what the words ask for. The command word is matched in
/// the spellings `PONG`/`pong`, `ADD`/`add`/`Add`, `GET`/`get`/`Get`,
/// `DELETE`/`delete`/`Delete` and `EXIT`/`exit`; the arguments follow it.
pub open spec fn command_of(words: Seq<Seq<char>>, c: ClientCommand) -> bool {
    if words.len() == 0 {
        c is Invalid
    } else {
        let w = words[0];
        if w == "PONG"@ || w == "pong"@ {
            c is Pong
        } else if w == "ADD"@ || w == "add"@ || w == "Add"@ {
            if words.len() >= 3 {
                c matches ClientCommand::Add { name, phone } && name@ == words[1] && phone@ == words[2]
            } else {
                c is Incomplete
            }
        } else if w == "GET"@ || w == "get"@ || w == "Get"@ {
            if words.len() >= 2 {
                c matches ClientCommand::Get { name } && name@ == words[1]
            } else {
                c is Incomplete
            }
        } else if w == "DELETE"@ || w == "delete"@ || w == "Delete"@ {
            if words.len() >= 2 {
                c matches ClientCommand::Delete { name } && name@ == words[1]
            } else {
                c is Incomplete
            }
        } else if w == "EXIT"@ || w == "exit"@ {
            c is Exit
        } else {
            c is Invalid
        }
    }
}

/// Whether `word` is one of the spellings given.
fn is_one_of(word: &Vec<char>, spellings: &Vec<&str>) -> (b: bool)
    ensures
        b == exists|k: int| 0 <= k < spellings.len() && word@ == (#[trigger] spellings@[k])@,
{
    let mut k: usize = 0;
    while k < spellings.len()
        invariant
            k <= spellings.len(),
            forall|m: int| 0 <= m < k ==> word@ != (#[trigger] spellings@[m])@,
        decreases spellings.len() - k,
    {
        if chars_equal(word, &chars_of(spellings[k])) {
            return true;
        }
        k = k + 1;
    }
    false
}

/// Reads what the client's input asks for.
pub fn parse_command(input: &[u8]) -> (c: ClientCommand)
    ensures
        command_of(input_words(input@), c),
{
    let chars = match decode_utf8_text(input) {
        Some(text) => chars_of(text.as_str()),
        None => Vec::new(),
    };
    let words = split_whitespace_chars(&chars);
    proof {
        if !valid_utf8(input@) {
            assert(chars@ =~= Seq::<char>::empty());
            assert(split_whitespace(chars@) =~= Seq::<Seq<char>>::empty());
        }
    }
    if words.len() == 0 {
        return ClientCommand::Invalid;
    }
    let w = &words[0];
    if is_one_of(w, &vec!["PONG", "pong"]) {
        ClientCommand::Pong
    } else if is_one_of(w, &vec!["ADD", "add", "Add"]) {
        if words.len() >= 3 {
            ClientCommand::Add { name: string_from_chars(&words[1]), phone: string_from_chars(&words[2]) }
        } else {
            ClientCommand::Incomplete
        }
    } else if is_one_of(w, &vec!["GET", "get", "Get"]) {
        if words.len() >= 2 {
            ClientCommand::Get { name: string_from_chars(&words[1]) }
        } else {
            ClientCommand::Incomplete
        }
    } else if is_one_of(w, &vec!["DELETE", "delete", "Delete"]) {
        if words.len() >= 2 {
            ClientCommand::Delete { name: string_from_chars(&words[1]) }
        } else {
            ClientCommand::Incomplete
        }
    } else if is_one_of(w, &vec!["EXIT", "exit"]) {
        ClientCommand::Exit
    } else {
        ClientCommand::Invalid
    }
}


/// The reply to an `ADD`: the friend and number that were added, or the
/// database's error (as the caller renders it).
pub open spec fn add_reply_text(name: Seq<char>, phone: Seq<char>, outcome: Result<(), Seq<char>>) -> Seq<char> {
    match outcome {
        Ok(_) => "Added "@ + name + " with number "@ + phone + "\n"@,
        Err(e) => "Error adding friend to the database:"@ + e + "\n"@,
    }
}

/// The reply to a `GET`: the friend and number found, a note that there is
/// none, or the database's error.
pub open spec fn get_reply_text(name: Seq<char>, outcome: Result<Option<Seq<char>>, Seq<char>>) -> Seq<char> {
    match outcome {
        Ok(Some(phone)) => name + " : "@ + phone + "\n"@,
        Ok(None) => "Error friend not found\n"@,
        Err(e) => "Error retrieving friend:"@ + e + "\n"@,
    }
}

/// The reply to a `DELETE`: the friend removed, or the database's error.
pub open spec fn delete_reply_text(name: Seq<char>, outcome: Result<(), Seq<char>>) -> Seq<char> {
    match outcome {
        Ok(_) => name + " has been removed from the database.\n"@,
        Err(e) => "Error removing friend:"@ + e + "\n"@,
    }
}

/// The text of a database outcome that carries nothing but an error.
pub open spec fn unit_outcome(outcome: Result<(), String>) -> Result<(), Seq<char>> {
    match outcome {
        Ok(_) => Ok(()),
        Err(e) => Err(e@),
    }
}

/// The text of a database lookup outcome.
pub open spec fn lookup_outcome(outcome: Result<Option<String>, String>) -> Result<Option<Seq<char>>, Seq<char>> {
    match outcome {
        Ok(Some(p)) => Ok(Some(p@)),
        Ok(None) => Ok(None),
        Err(e) => Err(e@),
    }
}

/// The reply to an `ADD`, given what the database answered.
pub fn add_reply(name: &str, phone: &str, outcome: &Result<(), String>) -> (s: String)
    ensures
        s@ == add_reply_text(name@, phone@, unit_outcome(*outcome)),
{
    match outcome {
        Ok(_) => {
            let mut s = "Added ".to_string();
            s.append(name);
            s.append(" with number ");
            s.append(phone);
            s.append("\n");
            s
        },
        Err(e) => {
            let mut s = "Error adding friend to the database:".to_string();
            s.append(e.as_str());
            s.append("\n");
            s
        },
    }
}

/// The reply to a `GET`, given what the database answered.
pub fn get_reply(name: &str, outcome: &Result<Option<String>, String>) -> (s: String)
    ensures
        s@ == get_reply_text(name@, lookup_outcome(*outcome)),
{
    match outcome {
        Ok(Some(phone)) => {
            let mut s = name.to_string();
            s.append(" : ");
            s.append(phone.as_str());
            s.append("\n");
            s
        },
        Ok(None) => "Error friend not found\n".to_string(),
        Err(e) => {
            let mut s = "Error retrieving friend:".to_string();
            s.append(e.as_str());
            s.append("\n");
            s
        },
    }
}

/// The reply to a `DELETE`, given what the database answered.
pub fn delete_reply(name: &str, outcome: &Result<(), String>) -> (s: String)
    ensures
        s@ == delete_reply_text(name@, unit_outcome(*outcome)),
{
    match outcome {
        Ok(_) => {
            let mut s = name.to_string();
            s.append(" has been removed from the database.\n");
            s
        },
        Err(e) => {
            let mut s = "Error removing friend:".to_string();
            s.append(e.as_str());
            s.append("\n");
            s
        },
    }
}

/// The reply to `EXIT`, written before the connection is closed.
pub fn goodbye() -> (s: String)
    ensures
        s@ == "Goodbye!\n"@,
{
    "Goodbye!\n".to_string()
}

/// The reply to input that is no command.
pub fn invalid_input() -> (s: String)
    ensures
        s@ == "Invalid input. Please enter a valid command.\n"@,
{
    "Invalid input. Please enter a valid command.\n".to_string()
}


/// Where the heartbeat of a connection stands.
#[derive(Debug, PartialEq, Eq, Structural)]
pub enum HeartbeatPhase {
    /// Waiting out the interval before the next ping.
    Resting,
    /// A ping is being written to the client.
    Pinging,
    /// Waiting, for at most the timeout, for the client's answer.
    Listening,
    /// The heartbeat has ended.
    Stopped,
}

/// What happened since the heartbeat last stepped.
#[derive(Debug, PartialEq, Eq, Structural)]
pub enum HeartbeatEvent {
    /// The interval between pings has passed.
    IntervalElapsed,
    /// The ping was written.
    PingWritten,
    /// Writing the ping failed.
    PingFailed,
    /// The session signalled (or its channel closed) before the timeout.
    Answered,
    /// The timeout passed without a signal.
    TimedOut,
}

/// What the caller does next for the heartbeat.
#[derive(Debug)]
pub enum HeartbeatAction {
    /// Write this ping to the client.
    WritePing(String),
    /// Wait, for at most the timeout, for the session's signal.
    AwaitAnswer,
    /// Wait out the interval.
    Rest,
    /// Close the client's connection and end the heartbeat.
    CloseConnection,
    /// End the heartbeat, leaving the connection as it is.
    Finish,
    /// Nothing: the event does not fit the phase.
    Ignore,
}

/// The phase after an event.
pub open spec fn next_phase(phase: HeartbeatPhase, event: HeartbeatEvent) -> HeartbeatPhase {
    match (phase, event) {
        (HeartbeatPhase::Resting, HeartbeatEvent::IntervalElapsed) => HeartbeatPhase::Pinging,
        (HeartbeatPhase::Pinging, HeartbeatEvent::PingWritten) => HeartbeatPhase::Listening,
        (HeartbeatPhase::Pinging, HeartbeatEvent::PingFailed) => HeartbeatPhase::Stopped,
        (HeartbeatPhase::Listening, HeartbeatEvent::Answered) => HeartbeatPhase::Resting,
        (HeartbeatPhase::Listening, HeartbeatEvent::TimedOut) => HeartbeatPhase::Stopped,
        (p, _) => p,
    }
}

/// Whether `action` is what follows an event in a phase.
pub open spec fn action_after(phase: HeartbeatPhase, event: HeartbeatEvent, action: HeartbeatAction) -> bool {
    match (phase, event) {
        (HeartbeatPhase::Resting, HeartbeatEvent::IntervalElapsed) => action matches HeartbeatAction::WritePing(
            m,
        ) && m@ == ping_text(),
        (HeartbeatPhase::Pinging, HeartbeatEvent::PingWritten) => action is AwaitAnswer,
        (HeartbeatPhase::Pinging, HeartbeatEvent::PingFailed) => action is Finish,
        (HeartbeatPhase::Listening, HeartbeatEvent::Answered) => action is Rest,
        (HeartbeatPhase::Listening, HeartbeatEvent::TimedOut) => action is CloseConnection,
        _ => action is Ignore,
    }
}

/// The heartbeat's rule: after each interval, ping the client; if the ping
/// cannot be written, stop; if no answer comes within the timeout, close the
/// connection and stop; otherwise rest again.
pub fn heartbeat_step(phase: HeartbeatPhase, event: HeartbeatEvent) -> (r: (HeartbeatPhase, HeartbeatAction))
    ensures
        r.0 == next_phase(phase, event),
        action_after(phase, event, r.1),
{
    match (phase, event) {
        (HeartbeatPhase::Resting, HeartbeatEvent::IntervalElapsed) => (
            HeartbeatPhase::Pinging,
            HeartbeatAction::WritePing(ping_message()),
        ),
        (HeartbeatPhase::Pinging, HeartbeatEvent::PingWritten) => (
            HeartbeatPhase::Listening,
            HeartbeatAction::AwaitAnswer,
        ),
        (HeartbeatPhase::Pinging, HeartbeatEvent::PingFailed) => (
            HeartbeatPhase::Stopped,
            HeartbeatAction::Finish,
        ),
        (HeartbeatPhase::Listening, HeartbeatEvent::Answered) => (
            HeartbeatPhase::Resting,
            HeartbeatAction::Rest,
        ),
        (HeartbeatPhase::Listening, HeartbeatEvent::TimedOut) => (
            HeartbeatPhase::Stopped,
            HeartbeatAction::CloseConnection,
        ),
        (p, _) => (p, HeartbeatAction::Ignore),
    }
}

/// The event after writing a ping, given what the write returned: a
/// negative count means the write failed.
pub fn event_after_write(written: isize) -> (e: HeartbeatEvent)
    ensures
        e == (if written < 0 {
            HeartbeatEvent::PingFailed
        } else {
            HeartbeatEvent::PingWritten
        }),
{
    if written < 0 {
        HeartbeatEvent::PingFailed
    } else {
        HeartbeatEvent::PingWritten
    }
}

/// The event after waiting for the session's signal: `None` when the
/// timeout passed, `Some(Some(()))` for a signal, `Some(None)` when the
/// session's channel is closed, which counts as an answer too.
pub fn event_after_wait(answer: Option<Option<()>>) -> (e: HeartbeatEvent)
    ensures
        e == (match answer {
            None => HeartbeatEvent::TimedOut,
            Some(_) => HeartbeatEvent::Answered,
        }),
{
    match answer {
        None => HeartbeatEvent::TimedOut,
        Some(_) => HeartbeatEvent::Answered,
    }
}

/// The phase after a run of events, one step at a time.
pub open spec fn heartbeat_run(phase: HeartbeatPhase, events: Seq<HeartbeatEvent>) -> HeartbeatPhase
    decreases events.len(),
{
    if events.len() == 0 {
        phase
    } else {
        heartbeat_run(next_phase(phase, events[0]), events.drop_first())
    }
}

/// An event of a client that keeps up: no ping fails to be written and no
/// answer is missed.
pub open spec fn kept_up(event: HeartbeatEvent) -> bool {
    !(event is PingFailed) && !(event is TimedOut)
}

/// A heartbeat whose pings are all written and answered in time never stops,
/// however long it runs, and so never closes the connection (which only an
/// unanswered ping does).
pub proof fn lemma_answered_heartbeat_never_stops(phase: HeartbeatPhase, events: Seq<HeartbeatEvent>)
    requires
        phase != HeartbeatPhase::Stopped,
        forall|i: int| 0 <= i < events.len() ==> kept_up(#[trigger] events[i]),
    ensures
        heartbeat_run(phase, events) != HeartbeatPhase::Stopped,
    decreases events.len(),
{
    if events.len() > 0 {
        assert(kept_up(events[0]));
        assert forall|i: int| 0 <= i < events.drop_first().len() implies kept_up(#[trigger] events.drop_first()[i]) by {
            assert(kept_up(events[i + 1]));
        }
        lemma_answered_heartbeat_never_stops(next_phase(phase, events[0]), events.drop_first());
    }
}

/// A resting heartbeat pings after the interval, listens once the ping is
/// written, and rests again when the answer comes; a failed ping or a
/// missed answer stops it.
pub proof fn lemma_heartbeat_cycle()
    ensures
        heartbeat_run(
            HeartbeatPhase::Resting,
            seq![HeartbeatEvent::IntervalElapsed, HeartbeatEvent::PingWritten, HeartbeatEvent::Answered],
        ) == HeartbeatPhase::Resting,
        heartbeat_run(HeartbeatPhase::Resting, seq![HeartbeatEvent::IntervalElapsed]) == HeartbeatPhase::Pinging,
        heartbeat_run(
            HeartbeatPhase::Resting,
            seq![HeartbeatEvent::IntervalElapsed, HeartbeatEvent::PingWritten],
        ) == HeartbeatPhase::Listening,
        heartbeat_run(
            HeartbeatPhase::Resting,
            seq![HeartbeatEvent::IntervalElapsed, HeartbeatEvent::PingFailed],
        ) == HeartbeatPhase::Stopped,
        heartbeat_run(
            HeartbeatPhase::Resting,
            seq![HeartbeatEvent::IntervalElapsed, HeartbeatEvent::PingWritten, HeartbeatEvent::TimedOut],
        ) == HeartbeatPhase::Stopped,
{
    reveal_with_fuel(heartbeat_run, 4);
    let e = HeartbeatEvent::IntervalElapsed;
    let w = HeartbeatEvent::PingWritten;
    assert(seq![e, w, HeartbeatEvent::Answered].drop_first() =~= seq![w, HeartbeatEvent::Answered]);
    assert(seq![w, HeartbeatEvent::Answered].drop_first() =~= seq![HeartbeatEvent::Answered]);
    assert(seq![HeartbeatEvent::Answered].drop_first() =~= Seq::<HeartbeatEvent>::empty());
    assert(seq![e].drop_first() =~= Seq::<HeartbeatEvent>::empty());
    assert(seq![e, w].drop_first() =~= seq![w]);
    assert(seq![w].drop_first() =~= Seq::<HeartbeatEvent>::empty());
    assert(seq![e, HeartbeatEvent::PingFailed].drop_first() =~= seq![HeartbeatEvent::PingFailed]);
    assert(seq![HeartbeatEvent::PingFailed].drop_first() =~= Seq::<HeartbeatEvent>::empty());
    assert(seq![e, w, HeartbeatEvent::TimedOut].drop_first() =~= seq![w, HeartbeatEvent::TimedOut]);
    assert(seq![w, HeartbeatEvent::TimedOut].drop_first() =~= seq![HeartbeatEvent::TimedOut]);
    assert(seq![HeartbeatEvent::TimedOut].drop_first() =~= Seq::<HeartbeatEvent>::empty());
}

/// A stopped heartbeat stays stopped and does nothing, whatever happens.
pub proof fn lemma_heartbeat_stop_is_final(event: HeartbeatEvent, action: HeartbeatAction)
    requires
        action_after(HeartbeatPhase::Stopped, event, action),
    ensures
        next_phase(HeartbeatPhase::Stopped, event) == HeartbeatPhase::Stopped,
        action is Ignore,
{
}

/// The connection is closed only after a ping went unanswered within the
/// timeout, and the heartbeat then stops.
pub proof fn lemma_heartbeat_closes_only_on_timeout(
    phase: HeartbeatPhase,
    event: HeartbeatEvent,
    action: HeartbeatAction,
)
    requires
        action_after(phase, event, action),
        action is CloseConnection,
    ensures
        phase == HeartbeatPhase::Listening,
        event == HeartbeatEvent::TimedOut,
        next_phase(phase, event) == HeartbeatPhase::Stopped,
{
}


/// What the session does after a read.
#[derive(Debug)]
pub enum SessionAction {
    /// Signal the heartbeat that the client answered.
    NotifyHeartbeat,
    /// Add a friend, then write `add_reply` of the outcome.
    AddFriend { name: String, phone: String },
    /// Look a friend up, then write `get_reply` of the outcome.
    GetFriend { name: String },
    /// Remove a friend, then write `delete_reply` of the outcome.
    DeleteFriend { name: String },
    /// Write this text.
    Write(String),
    /// Write this text, close the connection and end the session.
    WriteAndClose(String),
    /// Do nothing; show the commands and read again.
    Wait,
    /// End the session: the read failed or the client hung up.
    End,
}

/// Whether `a` is what the session does for the words the client sent.
pub open spec fn action_of(words: Seq<Seq<char>>, a: SessionAction) -> bool {
    let invalid = "Invalid input. Please enter a valid command.\n"@;
    if words.len() == 0 {
        a matches SessionAction::Write(t) && t@ == invalid
    } else {
        let w = words[0];
        if w == "PONG"@ || w == "pong"@ {
            a is NotifyHeartbeat
        } else if w == "ADD"@ || w == "add"@ || w == "Add"@ {
            if words.len() >= 3 {
                a matches SessionAction::AddFriend { name, phone } && name@ == words[1] && phone@ == words[2]
            } else {
                a is Wait
            }
        } else if w == "GET"@ || w == "get"@ || w == "Get"@ {
            if words.len() >= 2 {
                a matches SessionAction::GetFriend { name } && name@ == words[1]
            } else {
                a is Wait
            }
        } else if w == "DELETE"@ || w == "delete"@ || w == "Delete"@ {
            if words.len() >= 2 {
                a matches SessionAction::DeleteFriend { name } && name@ == words[1]
            } else {
                a is Wait
            }
        } else if w == "EXIT"@ || w == "exit"@ {
            a matches SessionAction::WriteAndClose(t) && t@ == "Goodbye!\n"@
        } else {
            a matches SessionAction::Write(t) && t@ == invalid
        }
    }
}

/// What the session does after a read that returned `bytes_read` into
/// `buffer`: end on a count of zero or less, else act on the bytes read.
pub open spec fn step_of(bytes_read: int, buffer: Seq<u8>, a: SessionAction) -> bool {
    if bytes_read <= 0 {
        a is End
    } else {
        action_of(input_words(buffer.take(bytes_read)), a)
    }
}

/// Whether an action ends the session.
pub open spec fn ends_session(a: SessionAction) -> bool {
    a is End || a is WriteAndClose
}

/// The session's rule after each read: a failed read or a hang-up ends it;
/// otherwise the command read decides.
pub fn session_step(bytes_read: isize, buffer: &[u8]) -> (a: SessionAction)
    requires
        bytes_read <= buffer.len(),
    ensures
        step_of(bytes_read as int, buffer@, a),
{
    if bytes_read <= 0 {
        return SessionAction::End;
    }
    let n = bytes_read as usize;
    let input = crate::text::subrange_bytes(buffer, n);
    match parse_command(input.as_slice()) {
        ClientCommand::Pong => SessionAction::NotifyHeartbeat,
        ClientCommand::Add { name, phone } => SessionAction::AddFriend { name, phone },
        ClientCommand::Get { name } => SessionAction::GetFriend { name },
        ClientCommand::Delete { name } => SessionAction::DeleteFriend { name },
        ClientCommand::Exit => SessionAction::WriteAndClose(goodbye()),
        ClientCommand::Incomplete => SessionAction::Wait,
        ClientCommand::Invalid => SessionAction::Write(invalid_input()),
    }
}

/// The session ends only after a failed read or a hang-up, or when the
/// client says `EXIT` (or `exit`).
pub proof fn lemma_session_ends_only_on_exit_or_hangup(bytes_read: int, buffer: Seq<u8>, a: SessionAction)
    requires
        step_of(bytes_read, buffer, a),
        ends_session(a),
    ensures
        bytes_read <= 0 || {
            let words = input_words(buffer.take(bytes_read));
            words.len() > 0 && (words[0] == "EXIT"@ || words[0] == "exit"@)
        },
{
}


/// The first characters that tell the command words apart.
proof fn lemma_command_spellings()
    ensures
        "PONG"@.len() == 4 && "PONG"@[0] == 'P',
        "pong"@.len() == 4 && "pong"@[0] == 'p',
        "ADD"@.len() == 3 && "ADD"@[0] == 'A',
        "add"@.len() == 3 && "add"@[0] == 'a',
        "Add"@.len() == 3 && "Add"@[0] == 'A',
        "GET"@.len() == 3 && "GET"@[0] == 'G',
        "get"@.len() == 3 && "get"@[0] == 'g',
        "Get"@.len() == 3 && "Get"@[0] == 'G',
        "DELETE"@.len() == 6,
        "delete"@.len() == 6,
        "Delete"@.len() == 6,
        "EXIT"@.len() == 4 && "EXIT"@[0] == 'E',
        "exit"@.len() == 4 && "exit"@[0] == 'e',
{
    reveal_strlit("PONG");
    reveal_strlit("pong");
    reveal_strlit("ADD");
    reveal_strlit("add");
    reveal_strlit("Add");
    reveal_strlit("GET");
    reveal_strlit("get");
    reveal_strlit("Get");
    reveal_strlit("DELETE");
    reveal_strlit("delete");
    reveal_strlit("Delete");
    reveal_strlit("EXIT");
    reveal_strlit("exit");
}

/// What each command word makes of the words after it: `PONG`/`pong` is
/// the heartbeat's answer; `ADD`/`add`/`Add` takes a name and a phone
/// number; `GET`/`get`/`Get` and `DELETE`/`delete`/`Delete` take a name;
/// `EXIT`/`exit` ends the session; a command without the words it needs is
/// incomplete; no words, or any other first word, is invalid input.
pub proof fn lemma_command_words(words: Seq<Seq<char>>, c: ClientCommand)
    requires
        command_of(words, c),
    ensures
        words.len() == 0 ==> c is Invalid,
        words.len() > 0 && (words[0] == "PONG"@ || words[0] == "pong"@) ==> c is Pong,
        words.len() >= 3 && (words[0] == "ADD"@ || words[0] == "add"@ || words[0] == "Add"@) ==> (c matches ClientCommand::Add { name, phone } && name@ == words[1] && phone@ == words[2]),
        0 < words.len() < 3 && (words[0] == "ADD"@ || words[0] == "add"@ || words[0] == "Add"@) ==> c is Incomplete,
        words.len() >= 2 && (words[0] == "GET"@ || words[0] == "get"@ || words[0] == "Get"@) ==> (c matches ClientCommand::Get { name } && name@ == words[1]),
        words.len() == 1 && (words[0] == "GET"@ || words[0] == "get"@ || words[0] == "Get"@) ==> c is Incomplete,
        words.len() >= 2 && (words[0] == "DELETE"@ || words[0] == "delete"@ || words[0] == "Delete"@) ==> (c matches ClientCommand::Delete { name } && name@ == words[1]),
        words.len() == 1 && (words[0] == "DELETE"@ || words[0] == "delete"@ || words[0] == "Delete"@) ==> c is Incomplete,
        words.len() > 0 && (words[0] == "EXIT"@ || words[0] == "exit"@) ==> c is Exit,
        words.len() > 0 && !(words[0] == "PONG"@ || words[0] == "pong"@ || words[0] == "ADD"@ || words[0] == "add"@
            || words[0] == "Add"@ || words[0] == "GET"@ || words[0] == "get"@ || words[0] == "Get"@
            || words[0] == "DELETE"@ || words[0] == "delete"@ || words[0] == "Delete"@ || words[0] == "EXIT"@
            || words[0] == "exit"@) ==> c is Invalid,
{
    lemma_command_spellings();
}

/// What the session does after each read, for every command word: a failed
/// read ends it; `PONG`/`pong` signals the heartbeat; `ADD`/`add`/`Add`
/// with a name and a number adds that friend; `GET`/`get`/`Get` and
/// `DELETE`/`delete`/`Delete` with a name look that friend up or remove
/// them; `EXIT`/`exit` says goodbye and closes; a command missing its words
/// does nothing; anything else is answered as invalid input.
pub proof fn lemma_session_words(bytes_read: int, buffer: Seq<u8>, a: SessionAction)
    requires
        step_of(bytes_read, buffer, a),
    ensures
        bytes_read <= 0 ==> a is End,
        ({
            let words = input_words(buffer.take(bytes_read));
            let invalid = "Invalid input. Please enter a valid command.\n"@;
            &&& bytes_read > 0 && words.len() == 0 ==> (a matches SessionAction::Write(t) && t@ == invalid)
            &&& bytes_read > 0 && words.len() > 0 && (words[0] == "PONG"@ || words[0] == "pong"@) ==> a is NotifyHeartbeat
            &&& bytes_read > 0 && words.len() >= 3 && (words[0] == "ADD"@ || words[0] == "add"@ || words[0] == "Add"@) ==> (a matches SessionAction::AddFriend { name, phone } && name@ == words[1] && phone@ == words[2])
            &&& bytes_read > 0 && 0 < words.len() < 3 && (words[0] == "ADD"@ || words[0] == "add"@ || words[0] == "Add"@) ==> a is Wait
            &&& bytes_read > 0 && words.len() >= 2 && (words[0] == "GET"@ || words[0] == "get"@ || words[0] == "Get"@) ==> (a matches SessionAction::GetFriend { name } && name@ == words[1])
            &&& bytes_read > 0 && words.len() == 1 && (words[0] == "GET"@ || words[0] == "get"@ || words[0] == "Get"@) ==> a is Wait
            &&& bytes_read > 0 && words.len() >= 2 && (words[0] == "DELETE"@ || words[0] == "delete"@ || words[0] == "Delete"@) ==> (a matches SessionAction::DeleteFriend { name } && name@ == words[1])
            &&& bytes_read > 0 && words.len() == 1 && (words[0] == "DELETE"@ || words[0] == "delete"@ || words[0] == "Delete"@) ==> a is Wait
            &&& bytes_read > 0 && words.len() > 0 && (words[0] == "EXIT"@ || words[0] == "exit"@) ==> (a matches SessionAction::WriteAndClose(t) && t@ == "Goodbye!\n"@)
            &&& bytes_read > 0 && words.len() > 0 && !(words[0] == "PONG"@ || words[0] == "pong"@ || words[0] == "ADD"@
                || words[0] == "add"@ || words[0] == "Add"@ || words[0] == "GET"@ || words[0] == "get"@
                || words[0] == "Get"@ || words[0] == "DELETE"@ || words[0] == "delete"@ || words[0] == "Delete"@
                || words[0] == "EXIT"@ || words[0] == "exit"@) ==> (a matches SessionAction::Write(t) && t@ == invalid)
        }),
{
    lemma_command_spellings();
}

} // verus!
