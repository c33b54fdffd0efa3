//! The handshake as a whole: what a server and a client make of each other.

use crate::cipher::{blowfish_block, valid_key_len, BLOCK_SIZE};
use crate::config::Principal;
use crate::encoding::decoded;
use crate::rfs_client::{
    lemma_line_without_terminator, ClientPhase, ClientState, RfsClientSession,
};
use crate::rfs_common::{
    failure_line, success_line, Action, Challenge, Event, EventView, HandshakeError,
};
use crate::rfs_server::{
    challenge_line_text, expected_response, server_next, RfsServer, ServerPhase, ServerState,
};
use crate::text::without_terminator;
use vstd::prelude::*;
use vstd::string::*;

verus! {

/// How a handshake ends for a client that claims `name` and answers with
/// `secret`, given the server's registry and challenge.
///
/// It succeeds exactly when the challenge is one block long, the name is
/// registered with a secret that can key the cipher, and the client's
/// response is the one that the registered secret gives.
pub open spec fn handshake_verdict(
    registry: Map<Seq<char>, Principal>,
    name: Seq<char>,
    secret: Seq<u8>,
    challenge: Seq<u8>,
) -> Result<(), HandshakeError> {
    if challenge.len() != BLOCK_SIZE {
        Err(HandshakeError::ProtocolError)
    } else if !registry.dom().contains(name) {
        Err(HandshakeError::UnknownPrincipal)
    } else if !valid_key_len(registry[name].secret.len()) {
        Err(HandshakeError::InvalidKey)
    } else if blowfish_block(secret, challenge) == expected_response(
        registry[name].secret,
        challenge,
    ) {
        Ok(())
    } else {
        Err(HandshakeError::AuthenticationError)
    }
}

/// The state in which the server ends: a session with the registered
/// principal, its cipher keyed with the registered secret, or a rejection.
pub open spec fn server_outcome(
    registry: Map<Seq<char>, Principal>,
    name: Seq<char>,
    secret: Seq<u8>,
    challenge: Seq<u8>,
) -> ServerPhase {
    match handshake_verdict(registry, name, secret, challenge) {
        Ok(_) => ServerPhase::Authenticated { name, secret: registry[name].secret },
        Err(reason) => ServerPhase::Rejected { reason },
    }
}

/// The state in which the client ends. A client is told of a wrong response;
/// any other failure it sees as a lost connection.
pub open spec fn client_outcome(
    registry: Map<Seq<char>, Principal>,
    name: Seq<char>,
    secret: Seq<u8>,
    challenge: Seq<u8>,
) -> ClientPhase {
    match handshake_verdict(registry, name, secret, challenge) {
        Ok(_) => ClientPhase::Authenticated,
        Err(HandshakeError::AuthenticationError) => ClientPhase::Rejected {
            reason: HandshakeError::AuthenticationError,
        },
        Err(_) => ClientPhase::Rejected { reason: HandshakeError::Disconnected },
    }
}

/// Runs a whole handshake between `server` and `client` in memory, every line
/// of one side handed to the other, and returns the states in which the two
/// end.
///
/// With the registered secret on the client's side the handshake always ends
/// authenticated on both sides. With a response other than the expected one
/// it always ends rejected, and there is no session.
pub fn run_handshake(server: &RfsServer, client: &RfsClientSession, challenge: Challenge) -> (r: (
    ServerState,
    ClientState,
))
    ensures
        r.0@ == server_outcome(server.registry(), client.name(), client.secret(), challenge@),
        r.1@ == client_outcome(server.registry(), client.name(), client.secret(), challenge@),
{
    let challenge_line = challenge_line_text(&challenge);
    let (s0, a0) = server.open(challenge);
    let (c0, _) = client.open();
    match a0 {
        Action::Send(_) => {},
        _ => {
            let (c1, _) = client.step(c0, Event::Closed);
            return (s0, c1);
        },
    }
    let (s1, _) = server.step(s0, Event::Sent);
    let (c1, _) = client.step(c0, Event::Line("Please identify yourself\n".to_owned()));
    let (c2, ca2) = client.step(c1, Event::Line(challenge_line));
    let id_line = match ca2 {
        Action::Send(text) => text,
        _ => {
            let (s2, _) = server.step(s1, Event::Closed);
            return (s2, c2);
        },
    };
    proof {
        lemma_line_without_terminator(client.name());
    }
    let (c3, ca3) = client.step(c2, Event::Sent);
    let (s2, sa2) = server.step(s1, Event::Line(id_line));
    match sa2 {
        Action::Receive => {},
        _ => {
            let (c4, _) = client.step(c3, Event::Closed);
            return (s2, c4);
        },
    }
    let response_line = match ca3 {
        Action::Send(text) => text,
        _ => {
            let (s3, _) = server.step(s2, Event::Closed);
            return (s3, c3);
        },
    };
    let (c4, _) = client.step(c3, Event::Sent);
    let (s3, sa3) = server.step(s2, Event::Line(response_line));
    proof {
        reveal_strlit("Client authenticated\n");
        reveal_strlit("Authentication failure. Aborting.\n");
        assert(success_line() != failure_line()) by {
            assert(success_line()[0] == 'C');
            assert(failure_line()[0] == 'A');
        }
    }
    match sa3 {
        Action::Send(verdict) => {
            let (s4, _) = server.step(s3, Event::Sent);
            let (c5, _) = client.step(c4, Event::Line(verdict));
            (s4, c5)
        },
        _ => {
            let (c5, _) = client.step(c4, Event::Closed);
            (s3, c5)
        },
    }
}

/// A client that holds the registered secret is authenticated: its response
/// is the expected one, whatever the challenge.
pub proof fn lemma_matching_secret_authenticates(
    registry: Map<Seq<char>, Principal>,
    name: Seq<char>,
    challenge: Seq<u8>,
)
    requires
        registry.dom().contains(name),
        valid_key_len(registry[name].secret.len()),
        challenge.len() == BLOCK_SIZE,
    ensures
        handshake_verdict(registry, name, registry[name].secret, challenge) == Ok::<
            (),
            HandshakeError,
        >(()),
        server_outcome(registry, name, registry[name].secret, challenge)
            is Authenticated,
        client_outcome(registry, name, registry[name].secret, challenge)
            is Authenticated,
{
}

/// A client whose response is not the expected one is rejected, and no
/// session comes to be: the server ends in a state without one.
pub proof fn lemma_wrong_response_rejected(
    registry: Map<Seq<char>, Principal>,
    name: Seq<char>,
    secret: Seq<u8>,
    challenge: Seq<u8>,
)
    ensures
        (registry.dom().contains(name) && blowfish_block(secret, challenge) != blowfish_block(
            registry[name].secret,
            challenge,
        )) ==> {
            &&& handshake_verdict(registry, name, secret, challenge).is_err()
            &&& server_outcome(registry, name, secret, challenge) is Rejected
            &&& client_outcome(registry, name, secret, challenge) is Rejected
        },
        !registry.dom().contains(name) ==> server_outcome(registry, name, secret, challenge)
            is Rejected,
{
}

/// The server's verdict on a response line: the line is accepted exactly
/// when it decodes to the expected response. An accepted client is
/// authenticated once the success line went out, and the session's cipher is
/// then keyed with its secret.
pub proof fn lemma_verdict_on_response_line(
    name: Seq<char>,
    secret: Seq<u8>,
    expected: Seq<u8>,
    line: Seq<char>,
    registry: Map<Seq<char>, Principal>,
)
    ensures
        ({
            let first = server_next(
                ServerPhase::IdentityReceived { name, secret, cipher_key: secret, expected },
                EventView::Line(line),
                registry,
            ).0;
            if decoded(without_terminator(line)) == Some(expected) {
                &&& first == (ServerPhase::ResponseReceived { name, secret, cipher_key: secret })
                &&& server_next(first, EventView::Sent, registry).0 == (ServerPhase::Authenticated {
                    name,
                    secret,
                })
            } else {
                first is Rejected
            }
        }),
{
}

/// A lost connection never leaves a session: whatever the state, unless the
/// client was authenticated before, the handshake ends rejected. That holds
/// also where the response was right and only the success line could not be
/// sent.
pub proof fn lemma_lost_connection_rejects(
    phase: ServerPhase,
    registry: Map<Seq<char>, Principal>,
)
    requires
        !(phase is Authenticated),
    ensures
        server_next(phase, EventView::Closed, registry).0 is Rejected,
{
}

/// Whether the secret and the cipher of a server state are those of the
/// registry entry of the name that the state holds.
pub open spec fn bound_to_registry(phase: ServerPhase, registry: Map<Seq<char>, Principal>) -> bool {
    match phase {
        ServerPhase::IdentityReceived { name, secret, cipher_key, .. } => {
            &&& registry.dom().contains(name)
            &&& secret == registry[name].secret
            &&& cipher_key == secret
            &&& valid_key_len(cipher_key.len())
        },
        ServerPhase::ResponseReceived { name, secret, cipher_key } => {
            &&& registry.dom().contains(name)
            &&& secret == registry[name].secret
            &&& cipher_key == secret
            &&& valid_key_len(cipher_key.len())
        },
        ServerPhase::Authenticated { name, secret } => {
            &&& registry.dom().contains(name)
            &&& secret == registry[name].secret
            &&& valid_key_len(secret.len())
        },
        _ => true,
    }
}

/// Whatever the events, a server that starts from a state bound to the
/// registry stays bound to it: a session is a session with a registered
/// principal, under the secret that the registry holds for it.
pub proof fn lemma_step_keeps_cipher_bound(
    phase: ServerPhase,
    event: EventView,
    registry: Map<Seq<char>, Principal>,
)
    requires
        bound_to_registry(phase, registry),
    ensures
        bound_to_registry(server_next(phase, event, registry).0, registry),
{
}

/// A session comes to be only after the success line went out: a step that
/// ends authenticated started from an accepted response and the report that
/// the line was sent, or was authenticated already.
pub proof fn lemma_session_only_after_success_line(
    phase: ServerPhase,
    event: EventView,
    registry: Map<Seq<char>, Principal>,
)
    requires
        server_next(phase, event, registry).0 is Authenticated,
    ensures
        phase is Authenticated || (phase is ResponseReceived && event is Sent),
{
}

} // verus!
