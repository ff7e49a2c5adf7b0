use tcp_handshake::{
    format_hello_message, Action, ClientHandshake, ClientPhase, Event, HandshakeError,
    ServerHandshake, ServerPhase,
};

fn received(n: i32) -> Event {
    Event::Received(format_hello_message(n))
}

#[test]
fn client_and_server_complete_from_one_hundred() {
    let mut client = ClientHandshake::new(100);
    let mut server = ServerHandshake::new();

    assert_eq!(server.step(Event::Begin), Action::Receive);
    let a = client.step(Event::Begin);
    assert_eq!(a, Action::Send(100));
    assert_eq!(client.step(Event::Sent), Action::Receive);

    let reply = server.step(Event::Received(format_hello_message(100)));
    assert_eq!(reply, Action::Send(101));
    assert_eq!(server.step(Event::Sent), Action::Receive);

    let last = client.step(Event::Received(format_hello_message(101)));
    assert_eq!(last, Action::Send(102));
    assert_eq!(client.step(Event::Sent), Action::Done);
    assert_eq!(client.phase, ClientPhase::Complete);

    assert_eq!(server.step(received(102)), Action::Done);
    assert_eq!(server.phase, ServerPhase::Complete);
    assert_eq!(server.final_mismatch, None);
}

#[test]
fn client_rejects_reply_nine_nine_nine() {
    let mut client = ClientHandshake::new(100);
    client.step(Event::Begin);
    client.step(Event::Sent);
    let a = client.step(received(999));
    assert_eq!(
        a,
        Action::Fail(HandshakeError::SequenceMismatch { expected: 101, received: 999 })
    );
    assert_eq!(client.phase, ClientPhase::Failed);
}

#[test]
fn server_logs_but_accepts_wrong_final_number() {
    let mut server = ServerHandshake::new();
    server.step(Event::Begin);
    assert_eq!(server.step(received(100)), Action::Send(101));
    server.step(Event::Sent);
    assert_eq!(server.step(received(500)), Action::Done);
    assert_eq!(server.phase, ServerPhase::Complete);
    assert_eq!(server.final_mismatch, Some((102, 500)));
}

#[test]
fn server_fails_on_malformed_final_message() {
    let mut server = ServerHandshake::new();
    server.step(Event::Begin);
    server.step(received(1));
    server.step(Event::Sent);
    let a = server.step(Event::Received("HELLO x".to_string()));
    assert_eq!(a, Action::Fail(HandshakeError::InvalidSequenceNumber("x".to_string())));
    assert_eq!(server.phase, ServerPhase::Failed);
}

#[test]
fn server_fails_on_malformed_hello() {
    let mut server = ServerHandshake::new();
    server.step(Event::Begin);
    let a = server.step(Event::Received("HI 5".to_string()));
    assert_eq!(
        a,
        Action::Fail(HandshakeError::InvalidMessageFormat { message: "HI 5".to_string() })
    );
}

#[test]
fn timeout_fails_the_session() {
    let mut server = ServerHandshake::new();
    server.step(Event::Begin);
    assert_eq!(server.step(Event::Failed(HandshakeError::Timeout)), Action::Fail(HandshakeError::Timeout));
    assert_eq!(server.phase, ServerPhase::Failed);

    let mut client = ClientHandshake::new(7);
    client.step(Event::Begin);
    client.step(Event::Sent);
    assert_eq!(client.step(Event::Failed(HandshakeError::Timeout)), Action::Fail(HandshakeError::Timeout));
    assert!(!client.accepts(&Event::Sent));
}

#[test]
fn a_timed_out_session_leaves_the_next_one_untouched() {
    let mut first = ServerHandshake::new();
    first.step(Event::Begin);
    first.step(Event::Failed(HandshakeError::Timeout));
    let mut second = ServerHandshake::new();
    second.step(Event::Begin);
    assert_eq!(second.step(received(5)), Action::Send(6));
}

#[test]
fn disconnect_fails_the_session() {
    let mut client = ClientHandshake::new(1);
    client.step(Event::Begin);
    client.step(Event::Sent);
    assert_eq!(
        client.step(Event::Failed(HandshakeError::ClientDisconnected)),
        Action::Fail(HandshakeError::ClientDisconnected)
    );
}

#[test]
fn sequence_numbers_wrap_at_the_top() {
    let mut server = ServerHandshake::new();
    server.step(Event::Begin);
    assert_eq!(server.step(received(i32::MAX)), Action::Send(i32::MIN));
    let mut client = ClientHandshake::new(i32::MAX - 1);
    client.step(Event::Begin);
    client.step(Event::Sent);
    assert_eq!(client.step(received(i32::MAX)), Action::Send(i32::MIN));
}

#[test]
fn many_sessions_keep_their_own_numbers() {
    let mut servers: Vec<ServerHandshake> = Vec::new();
    let mut clients: Vec<ClientHandshake> = Vec::new();
    for i in 0..32 {
        let mut s = ServerHandshake::new();
        s.step(Event::Begin);
        servers.push(s);
        let mut c = ClientHandshake::new(i * 10);
        assert_eq!(c.step(Event::Begin), Action::Send(i * 10));
        c.step(Event::Sent);
        clients.push(c);
    }
    for i in (0..32).rev() {
        let idx = i as usize;
        assert_eq!(servers[idx].step(received(i * 10)), Action::Send(i * 10 + 1));
        servers[idx].step(Event::Sent);
        assert_eq!(clients[idx].step(received(i * 10 + 1)), Action::Send(i * 10 + 2));
        assert_eq!(servers[idx].step(received(i * 10 + 2)), Action::Done);
        assert_eq!(servers[idx].final_mismatch, None);
    }
}

#[test]
fn sessions_accept_only_the_events_of_their_phase() {
    let client = ClientHandshake::new(3);
    assert!(client.accepts(&Event::Begin));
    assert!(!client.accepts(&Event::Sent));
    assert!(!client.accepts(&received(4)));
    let server = ServerHandshake::new();
    assert!(server.accepts(&Event::Begin));
    assert!(!server.accepts(&received(4)));
}
