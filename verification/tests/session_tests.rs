use practicals::rate_limit::check_request;
use practicals::session::{
    add_reply, delete_reply, event_after_wait, event_after_write, get_reply, goodbye, greeting,
    heartbeat_step, invalid_input, menu, parse_command, ping_message, session_step, ClientCommand,
    HeartbeatAction, HeartbeatEvent, HeartbeatPhase, SessionAction,
};

#[test]
fn greeting_menu_and_ping_texts() {
    assert_eq!(greeting(), "\x1B[2J\x1B[H\x1B[1mWelcome to the Telnet Friend Database!\x1B[0m\n");
    let expected = format!(
        "Available Commands:\n1) ADD <name> <phone> {p}- Add a new friend{r}\n2) GET <name> {p}- Retrieve a friend's phone number{r}\n3) DELETE <name> {p}- Remove a friend from the database{r}\nEXIT {p}- Disconnect from the server{r}\n",
        p = "\x1B[35m",
        r = "\x1B[0m"
    );
    assert_eq!(menu(), expected);
    assert_eq!(
        ping_message(),
        "PING\nPlease respond with \x1B[1m\x1B[36mPONG\x1B[0m if you are still active: \n"
    );
}

#[test]
fn add_command_with_arguments() {
    match parse_command(b"ADD alice 555-1234\r\n") {
        ClientCommand::Add { name, phone } => {
            assert_eq!(name, "alice");
            assert_eq!(phone, "555-1234");
        }
        other => panic!("unexpected {:?}", other),
    }
    assert!(matches!(parse_command(b"add bob 1"), ClientCommand::Add { .. }));
    assert!(matches!(parse_command(b"Add bob 1 extra"), ClientCommand::Add { .. }));
}

#[test]
fn commands_need_their_arguments() {
    assert!(matches!(parse_command(b"ADD alice"), ClientCommand::Incomplete));
    assert!(matches!(parse_command(b"GET"), ClientCommand::Incomplete));
    assert!(matches!(parse_command(b"delete\n"), ClientCommand::Incomplete));
}

#[test]
fn get_and_delete_commands() {
    match parse_command(b"  get   carol ") {
        ClientCommand::Get { name } => assert_eq!(name, "carol"),
        other => panic!("unexpected {:?}", other),
    }
    match parse_command(b"Delete dave") {
        ClientCommand::Delete { name } => assert_eq!(name, "dave"),
        other => panic!("unexpected {:?}", other),
    }
}

#[test]
fn pong_and_exit_commands() {
    assert!(matches!(parse_command(b"PONG\r\n"), ClientCommand::Pong));
    assert!(matches!(parse_command(b"pong"), ClientCommand::Pong));
    assert!(matches!(parse_command(b"EXIT"), ClientCommand::Exit));
    assert!(matches!(parse_command(b"exit now"), ClientCommand::Exit));
}

#[test]
fn other_input_is_invalid() {
    assert!(matches!(parse_command(b""), ClientCommand::Invalid));
    assert!(matches!(parse_command(b"   \r\n"), ClientCommand::Invalid));
    assert!(matches!(parse_command(b"Pong"), ClientCommand::Invalid));
    assert!(matches!(parse_command(b"Exit"), ClientCommand::Invalid));
    assert!(matches!(parse_command(b"aDD x y"), ClientCommand::Invalid));
    assert!(matches!(parse_command(&[0xff, 0xfe, b'A']), ClientCommand::Invalid));
}

#[test]
fn replies_to_database_outcomes() {
    assert_eq!(add_reply("alice", "555", &Ok(())), "Added alice with number 555\n");
    assert_eq!(
        add_reply("alice", "555", &Err("Full".to_string())),
        "Error adding friend to the database:Full\n"
    );
    assert_eq!(get_reply("alice", &Ok(Some("555".to_string()))), "alice : 555\n");
    assert_eq!(get_reply("alice", &Ok(None)), "Error friend not found\n");
    assert_eq!(get_reply("alice", &Err("Io".to_string())), "Error retrieving friend:Io\n");
    assert_eq!(delete_reply("alice", &Ok(())), "alice has been removed from the database.\n");
    assert_eq!(delete_reply("alice", &Err("Gone".to_string())), "Error removing friend:Gone\n");
    assert_eq!(goodbye(), "Goodbye!\n");
    assert_eq!(invalid_input(), "Invalid input. Please enter a valid command.\n");
}

#[test]
fn heartbeat_cycle() {
    let (phase, action) = heartbeat_step(HeartbeatPhase::Resting, HeartbeatEvent::IntervalElapsed);
    assert_eq!(phase, HeartbeatPhase::Pinging);
    match action {
        HeartbeatAction::WritePing(m) => assert_eq!(m, ping_message()),
        other => panic!("unexpected {:?}", other),
    }
    let (phase, action) = heartbeat_step(phase, HeartbeatEvent::PingWritten);
    assert_eq!(phase, HeartbeatPhase::Listening);
    assert!(matches!(action, HeartbeatAction::AwaitAnswer));
    let (phase, action) = heartbeat_step(phase, HeartbeatEvent::Answered);
    assert_eq!(phase, HeartbeatPhase::Resting);
    assert!(matches!(action, HeartbeatAction::Rest));
}

#[test]
fn heartbeat_closes_after_timeout() {
    let (phase, action) = heartbeat_step(HeartbeatPhase::Listening, HeartbeatEvent::TimedOut);
    assert_eq!(phase, HeartbeatPhase::Stopped);
    assert!(matches!(action, HeartbeatAction::CloseConnection));
}

#[test]
fn heartbeat_stops_when_ping_fails() {
    let (phase, action) = heartbeat_step(HeartbeatPhase::Pinging, HeartbeatEvent::PingFailed);
    assert_eq!(phase, HeartbeatPhase::Stopped);
    assert!(matches!(action, HeartbeatAction::Finish));
}

#[test]
fn stopped_heartbeat_stays_stopped() {
    for event in [
        HeartbeatEvent::IntervalElapsed,
        HeartbeatEvent::PingWritten,
        HeartbeatEvent::PingFailed,
        HeartbeatEvent::Answered,
        HeartbeatEvent::TimedOut,
    ] {
        let (phase, action) = heartbeat_step(HeartbeatPhase::Stopped, event);
        assert_eq!(phase, HeartbeatPhase::Stopped);
        assert!(matches!(action, HeartbeatAction::Ignore));
    }
}

#[test]
fn rate_limit_reply_carries_verdict() {
    let id = "req-9".to_string();
    let yes = check_request(&id, true);
    assert_eq!(yes.request_id, "req-9");
    assert!(yes.allowed);
    let no = check_request(&id, false);
    assert_eq!(no.request_id, "req-9");
    assert!(!no.allowed);
}

#[test]
fn session_ends_on_failed_read() {
    let buffer = [b'E', b'X', b'I', b'T'];
    assert!(matches!(session_step(0, &buffer), SessionAction::End));
    assert!(matches!(session_step(-1, &buffer), SessionAction::End));
}

#[test]
fn session_reads_only_the_bytes_read() {
    let mut buffer = [0u8; 32];
    buffer[..14].copy_from_slice(b"ADD ann 12 xyz");
    match session_step(10, &buffer) {
        SessionAction::AddFriend { name, phone } => {
            assert_eq!(name, "ann");
            assert_eq!(phone, "12");
        }
        other => panic!("unexpected {:?}", other),
    }
    assert!(matches!(session_step(7, &buffer), SessionAction::Wait));
}

#[test]
fn session_actions_for_commands() {
    assert!(matches!(session_step(4, b"pong"), SessionAction::NotifyHeartbeat));
    match session_step(9, b"GET alice") {
        SessionAction::GetFriend { name } => assert_eq!(name, "alice"),
        other => panic!("unexpected {:?}", other),
    }
    match session_step(10, b"delete bob") {
        SessionAction::DeleteFriend { name } => assert_eq!(name, "bob"),
        other => panic!("unexpected {:?}", other),
    }
    match session_step(4, b"exit") {
        SessionAction::WriteAndClose(text) => assert_eq!(text, "Goodbye!\n"),
        other => panic!("unexpected {:?}", other),
    }
    match session_step(5, b"hello") {
        SessionAction::Write(text) => assert_eq!(text, "Invalid input. Please enter a valid command.\n"),
        other => panic!("unexpected {:?}", other),
    }
    match session_step(2, b"\r\n") {
        SessionAction::Write(text) => assert_eq!(text, invalid_input()),
        other => panic!("unexpected {:?}", other),
    }
    assert!(matches!(session_step(3, b"GET"), SessionAction::Wait));
}

#[test]
fn heartbeat_events_from_outcomes() {
    assert_eq!(event_after_write(-1), HeartbeatEvent::PingFailed);
    assert_eq!(event_after_write(0), HeartbeatEvent::PingWritten);
    assert_eq!(event_after_write(12), HeartbeatEvent::PingWritten);
    assert_eq!(event_after_wait(None), HeartbeatEvent::TimedOut);
    assert_eq!(event_after_wait(Some(Some(()))), HeartbeatEvent::Answered);
    assert_eq!(event_after_wait(Some(None)), HeartbeatEvent::Answered);
}

#[test]
fn answered_heartbeat_keeps_going() {
    let mut phase = HeartbeatPhase::Resting;
    let cycle = ||[HeartbeatEvent::IntervalElapsed, HeartbeatEvent::PingWritten, HeartbeatEvent::Answered];
    for _ in 0..50 {
        for event in cycle() {
            let (next, action) = heartbeat_step(phase, event);
            assert_ne!(next, HeartbeatPhase::Stopped);
            assert!(!matches!(action, HeartbeatAction::CloseConnection));
            phase = next;
        }
    }
    assert_eq!(phase, HeartbeatPhase::Resting);
}
