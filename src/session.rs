use vstd::prelude::*;

use crate::error::HandshakeError;
use crate::protocol::{
    hello_text, hello_value, lemma_hello_round_trip, next_seq, parse_error_of, parse_hello_message,
};

verus! {

/// What the transport reports back to a session after it carried out an action.
#[derive(Debug, Clone, PartialEq, Eq)]
pub enum Event {
    /// The session may begin.
    Begin,
    /// The last message asked for went out whole.
    Sent,
    /// One frame came in; this is its text.
    Received(String),
    /// The transport failed (I/O error, peer gone, deadline passed).
    Failed(HandshakeError),
}

/// What a session asks its transport to do next.
#[derive(Debug, Clone, PartialEq, Eq)]
pub enum Action {
    /// Send the message `HELLO <n>`.
    Send(i32),
    /// Read one frame.
    Receive,
    /// The handshake has succeeded; release the connection.
    Done,
    /// The handshake has failed with this error; release the connection.
    Fail(HandshakeError),
}

/// Where the client side of a handshake stands.
#[derive(Debug, Clone, Copy, PartialEq, Eq, Structural)]
pub enum ClientPhase {
    Start,
    SentHello,
    AwaitingReply,
    SentFinal,
    Complete,
    Failed,
}

/// Where the server side of a handshake stands.
#[derive(Debug, Clone, Copy, PartialEq, Eq, Structural)]
pub enum ServerPhase {
    Start,
    AwaitingHello,
    SentReply,
    AwaitingFinal,
    Complete,
    Failed,
}

/// The client side of one handshake: send `HELLO x`, expect `HELLO x+1`,
/// answer `HELLO x+2`.
#[derive(Debug, Clone, Copy, PartialEq, Eq)]
pub struct ClientHandshake {
    pub initial_seq: i32,
    pub phase: ClientPhase,
}

/// The server side of one handshake: expect `HELLO x`, answer `HELLO x+1`,
/// expect `HELLO x+2`.
#[derive(Debug, Clone, Copy, PartialEq, Eq)]
pub struct ServerHandshake {
    /// The number that this side sent, once it has sent one.
    pub server_seq: i32,
    pub phase: ServerPhase,
    /// Where the last message carried a number other than the one owed: that
    /// number owed, then the one received.  This does not fail the handshake.
    pub final_mismatch: Option<(i32, i32)>,
}

/// The events that the client side can take in the phase `p`.
pub open spec fn client_accepts(p: ClientPhase, e: Event) -> bool {
    match e {
        Event::Begin => p == ClientPhase::Start,
        Event::Sent => p == ClientPhase::SentHello || p == ClientPhase::SentFinal,
        Event::Received(_) => p == ClientPhase::AwaitingReply,
        Event::Failed(_) => p != ClientPhase::Complete && p != ClientPhase::Failed,
    }
}

/// One step of the client side: from `pre`, the event `e` leads to `post`, and
/// the transport is asked for `a`.
pub open spec fn client_step(pre: ClientHandshake, e: Event, post: ClientHandshake, a: Action) -> bool {
    &&& post.initial_seq == pre.initial_seq
    &&& match e {
        Event::Begin => post.phase == ClientPhase::SentHello && a == Action::Send(pre.initial_seq),
        Event::Sent => if pre.phase == ClientPhase::SentHello {
            post.phase == ClientPhase::AwaitingReply && a == Action::Receive
        } else {
            post.phase == ClientPhase::Complete && a == Action::Done
        },
        Event::Received(t) => match hello_value(t@) {
            Some(y) => if y == next_seq(pre.initial_seq) {
                post.phase == ClientPhase::SentFinal && a == Action::Send(next_seq(y))
            } else {
                post.phase == ClientPhase::Failed && a == Action::Fail(
                    HandshakeError::SequenceMismatch { expected: next_seq(pre.initial_seq), received: y },
                )
            },
            None => post.phase == ClientPhase::Failed && match a {
                Action::Fail(err) => parse_error_of(err, t@),
                _ => false,
            },
        },
        Event::Failed(err) => post.phase == ClientPhase::Failed && a == Action::Fail(err),
    }
}

/// The events that the server side can take in the phase `p`.
pub open spec fn server_accepts(p: ServerPhase, e: Event) -> bool {
    match e {
        Event::Begin => p == ServerPhase::Start,
        Event::Sent => p == ServerPhase::SentReply,
        Event::Received(_) => p == ServerPhase::AwaitingHello || p == ServerPhase::AwaitingFinal,
        Event::Failed(_) => p != ServerPhase::Complete && p != ServerPhase::Failed,
    }
}

/// One step of the server side: from `pre`, the event `e` leads to `post`, and
/// the transport is asked for `a`.
pub open spec fn server_step(pre: ServerHandshake, e: Event, post: ServerHandshake, a: Action) -> bool {
    match e {
        Event::Begin => post == ServerHandshake { phase: ServerPhase::AwaitingHello, ..pre }
            && a == Action::Receive,
        Event::Sent => post == ServerHandshake { phase: ServerPhase::AwaitingFinal, ..pre }
            && a == Action::Receive,
        Event::Received(t) => match hello_value(t@) {
            Some(x) => if pre.phase == ServerPhase::AwaitingHello {
                post == ServerHandshake {
                    server_seq: next_seq(x),
                    phase: ServerPhase::SentReply,
                    ..pre
                } && a == Action::Send(next_seq(x))
            } else {
                post == ServerHandshake {
                    phase: ServerPhase::Complete,
                    final_mismatch: if x == next_seq(pre.server_seq) {
                        None
                    } else {
                        Some((next_seq(pre.server_seq), x))
                    },
                    ..pre
                } && a == Action::Done
            },
            None => post == ServerHandshake { phase: ServerPhase::Failed, ..pre } && match a {
                Action::Fail(err) => parse_error_of(err, t@),
                _ => false,
            },
        },
        Event::Failed(err) => post == ServerHandshake { phase: ServerPhase::Failed, ..pre }
            && a == Action::Fail(err),
    }
}

/// When both sides follow the protocol the handshake succeeds on both: the
/// server answers the hello that carries `n` with `n + 1`, the client accepts
/// that answer and sends `n + 2`, and the server completes on it with no
/// mismatch.
pub proof fn lemma_handshake_agreement(n: i32, client: ClientHandshake, server: ServerHandshake)
    requires
        client.initial_seq == n,
        client.phase == ClientPhase::AwaitingReply,
        server.phase == ServerPhase::AwaitingHello,
    ensures
        forall|t: String, s1: ServerHandshake, a: Action|
            t@ == hello_text(n) && #[trigger] server_step(server, Event::Received(t), s1, a) ==> {
                &&& a == Action::Send(next_seq(n))
                &&& s1.phase == ServerPhase::SentReply
                &&& s1.server_seq == next_seq(n)
            },
        forall|t: String, c1: ClientHandshake, a: Action|
            t@ == hello_text(next_seq(n)) && #[trigger] client_step(client, Event::Received(t), c1, a)
                ==> {
                &&& a == Action::Send(next_seq(next_seq(n)))
                &&& c1.phase == ClientPhase::SentFinal
            },
        forall|s2: ServerHandshake, t: String, s3: ServerHandshake, a: Action|
            s2.phase == ServerPhase::AwaitingFinal && s2.server_seq == next_seq(n) && t@ == hello_text(
                next_seq(next_seq(n)),
            ) && #[trigger] server_step(s2, Event::Received(t), s3, a) ==> {
                &&& a == Action::Done
                &&& s3.phase == ServerPhase::Complete
                &&& s3.final_mismatch is None
            },
{
    lemma_hello_round_trip(n);
    lemma_hello_round_trip(next_seq(n));
    lemma_hello_round_trip(next_seq(next_seq(n)));
}

/// A client that hears any number but the one after its own fails with a
/// sequence mismatch that names both.
pub proof fn lemma_client_rejects_wrong_reply(client: ClientHandshake, y: i32)
    requires
        client.phase == ClientPhase::AwaitingReply,
        y != next_seq(client.initial_seq),
    ensures
        forall|t: String, c1: ClientHandshake, a: Action|
            t@ == hello_text(y) && #[trigger] client_step(client, Event::Received(t), c1, a) ==> {
                &&& c1.phase == ClientPhase::Failed
                &&& a == Action::Fail(
                    HandshakeError::SequenceMismatch { expected: next_seq(client.initial_seq), received: y },
                )
            },
{
    lemma_hello_round_trip(y);
}

impl ClientHandshake {
    /// A client session that will open with `initial_seq`.
    pub fn new(initial_seq: i32) -> (r: ClientHandshake)
        ensures
            r.initial_seq == initial_seq,
            r.phase == ClientPhase::Start,
    {
        ClientHandshake { initial_seq, phase: ClientPhase::Start }
    }

    /// Whether the session can take `event` in its present phase.
    pub fn accepts(&self, event: &Event) -> (r: bool)
        ensures
            r == client_accepts(self.phase, *event),
    {
        match event {
            Event::Begin => self.phase == ClientPhase::Start,
            Event::Sent => self.phase == ClientPhase::SentHello || self.phase == ClientPhase::SentFinal,
            Event::Received(_) => self.phase == ClientPhase::AwaitingReply,
            Event::Failed(_) => self.phase != ClientPhase::Complete && self.phase != ClientPhase::Failed,
        }
    }

    /// Takes one event and says what the transport must do next.
    pub fn step(&mut self, event: Event) -> (a: Action)
        requires
            client_accepts(old(self).phase, event),
        ensures
            client_step(*old(self), event, *final(self), a),
    {
        match event {
            Event::Begin => {
                self.phase = ClientPhase::SentHello;
                Action::Send(self.initial_seq)
            },
            Event::Sent => {
                if self.phase == ClientPhase::SentHello {
                    self.phase = ClientPhase::AwaitingReply;
                    Action::Receive
                } else {
                    self.phase = ClientPhase::Complete;
                    Action::Done
                }
            },
            Event::Received(text) => {
                match parse_hello_message(text.as_str()) {
                    Ok(received) => {
                        let expected = self.initial_seq.wrapping_add(1);
                        if received != expected {
                            self.phase = ClientPhase::Failed;
                            Action::Fail(HandshakeError::SequenceMismatch { expected, received })
                        } else {
                            self.phase = ClientPhase::SentFinal;
                            Action::Send(received.wrapping_add(1))
                        }
                    },
                    Err(err) => {
                        self.phase = ClientPhase::Failed;
                        Action::Fail(err)
                    },
                }
            },
            Event::Failed(err) => {
                self.phase = ClientPhase::Failed;
                Action::Fail(err)
            },
        }
    }
}

impl ServerHandshake {
    /// A server session that has not yet heard from its client.
    pub fn new() -> (r: ServerHandshake)
        ensures
            r.phase == ServerPhase::Start,
            r.final_mismatch is None,
    {
        ServerHandshake { server_seq: 0, phase: ServerPhase::Start, final_mismatch: None }
    }

    /// Whether the session can take `event` in its present phase.
    pub fn accepts(&self, event: &Event) -> (r: bool)
        ensures
            r == server_accepts(self.phase, *event),
    {
        match event {
            Event::Begin => self.phase == ServerPhase::Start,
            Event::Sent => self.phase == ServerPhase::SentReply,
            Event::Received(_) => self.phase == ServerPhase::AwaitingHello || self.phase
                == ServerPhase::AwaitingFinal,
            Event::Failed(_) => self.phase != ServerPhase::Complete && self.phase != ServerPhase::Failed,
        }
    }

    /// Takes one event and says what the transport must do next.
    pub fn step(&mut self, event: Event) -> (a: Action)
        requires
            server_accepts(old(self).phase, event),
        ensures
            server_step(*old(self), event, *final(self), a),
    {
        match event {
            Event::Begin => {
                self.phase = ServerPhase::AwaitingHello;
                Action::Receive
            },
            Event::Sent => {
                self.phase = ServerPhase::AwaitingFinal;
                Action::Receive
            },
            Event::Received(text) => {
                match parse_hello_message(text.as_str()) {
                    Ok(received) => {
                        if self.phase == ServerPhase::AwaitingHello {
                            self.server_seq = received.wrapping_add(1);
                            self.phase = ServerPhase::SentReply;
                            Action::Send(self.server_seq)
                        } else {
                            let expected = self.server_seq.wrapping_add(1);
                            self.final_mismatch = if received != expected {
                                Some((expected, received))
                            } else {
                                None
                            };
                            self.phase = ServerPhase::Complete;
                            Action::Done
                        }
                    },
                    Err(err) => {
                        self.phase = ServerPhase::Failed;
                        Action::Fail(err)
                    },
                }
            },
            Event::Failed(err) => {
                self.phase = ServerPhase::Failed;
                Action::Fail(err)
            },
        }
    }
}

} // verus!
