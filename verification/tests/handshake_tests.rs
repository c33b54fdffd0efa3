use blowfish::cipher::generic_array::GenericArray;
use blowfish::cipher::{BlockEncrypt, KeyInit};
use blowfish::Blowfish;
use rfs::config::{Config, Field, RfsConfig};
use rfs::handshake::run_handshake;
use rfs::message::WriteFile;
use rfs::message_signer::{BlowfishSigner, MessageSigner};
use rfs::rfs_client::{
    get_challenge, get_challenge_response, send_challenge_response, send_identity, ClientState,
    RfsClientSession,
};
use rfs::rfs_common::{get_cipher, Action, Client, Event, HandshakeError, Identity, Named};
use rfs::rfs_server::{
    challenge_line_text, client_expected_challenge_response, generate_challenge, send_id_request,
    RfsServer, ServerState,
};

fn blowfish_direct(key: &[u8], block: &[u8]) -> Vec<u8> {
    let keyed: Blowfish = Blowfish::new_from_slice(key).unwrap();
    let mut buf = GenericArray::clone_from_slice(block);
    keyed.encrypt_block(&mut buf);
    buf.to_vec()
}

fn registry(lines: &[&str]) -> RfsConfig {
    let lines: Vec<String> = lines.iter().map(|l| l.to_string()).collect();
    RfsConfig::load(&lines).0
}

fn sample_registry() -> RfsConfig {
    registry(&["server:srv1:AQIDBA==:localhost:4242", "client:alice:AwAAAA=="])
}

fn registry_with_tiny_secret() -> RfsConfig {
    let mut config = registry(&["server:srv1:AQIDBA==:localhost:4242"]);
    assert!(config.add_field(Field::Client { name: "tiny".to_string(), key: vec![1] }).is_ok());
    config
}

fn accepted(server: &RfsServer, name_line: &str, secret: &[u8]) -> (ServerState, Action) {
    let (state, _) = server.open(challenge());
    let (state, _) = server.step(state, Event::Sent);
    let (state, _) = server.step(state, Event::Line(name_line.to_string()));
    let line = send_challenge_response(&blowfish_direct(secret, &challenge()));
    server.step(state, Event::Line(line))
}

fn sample_server() -> RfsServer {
    RfsServer::new("srv1".to_string(), sample_registry()).unwrap()
}

fn challenge() -> Vec<u8> {
    vec![1, 2, 3, 4, 5, 6, 7, 8]
}

fn sent(action: Action) -> String {
    match action {
        Action::Send(text) => text,
        _ => panic!("nothing was sent"),
    }
}

#[test]
fn generated_challenge_is_one_block() {
    let c = generate_challenge().unwrap();
    assert_eq!(c.len(), 8);
}

#[test]
fn generated_challenges_differ() {
    let a = generate_challenge().unwrap();
    let b = generate_challenge().unwrap();
    let c = generate_challenge().unwrap();
    assert!(a != b || b != c);
    assert_ne!(a, vec![0; 8]);
}

#[test]
fn id_request_text() {
    assert_eq!(
        send_id_request(&challenge()),
        "Please identify yourself\nChallenge is: \"AQIDBAUGBwg=\"\n"
    );
    assert_eq!(challenge_line_text(&challenge()), "Challenge is: \"AQIDBAUGBwg=\"\n");
}

#[test]
fn client_reads_the_challenge_line() {
    assert_eq!(get_challenge("Challenge is: \"AQIDBAUGBwg=\"\n"), Ok(challenge()));
    assert_eq!(get_challenge(&challenge_line_text(&vec![0xff; 8])), Ok(vec![0xff; 8]));
    assert_eq!(get_challenge("\"AwAAAA==\""), Ok(vec![3, 0, 0, 0]));
    assert_eq!(get_challenge("x\"\"y"), Ok(vec![]));
}

#[test]
fn malformed_challenge_line_is_a_protocol_error() {
    assert_eq!(get_challenge("Challenge is: AQIDBAUGBwg=\n"), Err(HandshakeError::ProtocolError));
    assert_eq!(get_challenge(""), Err(HandshakeError::ProtocolError));
    assert_eq!(get_challenge("Challenge is: \"???\"\n"), Err(HandshakeError::ProtocolError));
    assert_eq!(get_challenge("Challenge is: \"AQIDBAUGBwg=\n"), Err(HandshakeError::ProtocolError));
}

#[test]
fn client_lines() {
    assert_eq!(send_identity(&"alice".to_string()), "alice\n");
    assert_eq!(send_challenge_response(&challenge()), "AQIDBAUGBwg=\n");
}

#[test]
fn challenge_response_of_sample_secret() {
    let cipher = get_cipher(&vec![3, 0, 0, 0]).ok().unwrap();
    let response = get_challenge_response(&challenge(), &cipher).unwrap();
    assert_eq!(response, blowfish_direct(&[3, 0, 0, 0], &challenge()));
    assert_eq!(
        get_challenge_response(&vec![1, 2, 3], &cipher),
        Err(HandshakeError::ProtocolError)
    );
}

#[test]
fn expected_response_of_an_identity() {
    let alice = Client::new("alice".to_string(), vec![3, 0, 0, 0]);
    let (cipher, expected) = client_expected_challenge_response(alice, &challenge()).ok().unwrap();
    assert_eq!(cipher.secret(), vec![3, 0, 0, 0]);
    assert_eq!(expected.len(), 8);
    assert_eq!(expected, blowfish_direct(&[3, 0, 0, 0], &challenge()));
    let short = Client::new("short".to_string(), vec![1]);
    assert!(matches!(
        client_expected_challenge_response(short, &challenge()),
        Err(HandshakeError::InvalidKey)
    ));
    let alice = Client::new("alice".to_string(), vec![3, 0, 0, 0]);
    assert!(matches!(
        client_expected_challenge_response(alice, &vec![1, 2, 3]),
        Err(HandshakeError::ProtocolError)
    ));
    let field = Field::Client { name: "bob".to_string(), key: vec![0, 0, 0, 0] };
    let (_, expected) = client_expected_challenge_response(field, &challenge()).ok().unwrap();
    assert_eq!(expected, blowfish_direct(&[0, 0, 0, 0], &challenge()));
}

#[test]
fn server_needs_a_server_entry() {
    assert!(RfsServer::new("srv1".to_string(), sample_registry()).is_some());
    assert!(RfsServer::new("alice".to_string(), sample_registry()).is_none());
    assert!(RfsServer::new("nobody".to_string(), sample_registry()).is_none());
}

#[test]
fn server_knows_its_endpoint_and_registry() {
    let server = sample_server();
    assert_eq!(server.address(), Some("localhost:4242".to_string()));
    assert!(matches!(server.identity(), Some(Field::Server { name, .. }) if name == "srv1"));
    assert_eq!(server.get_config_key("alice".to_string()).ok(), Some(vec![3, 0, 0, 0]));
    assert!(server.get_config_key("bob".to_string()).is_err());
    let alice = server.get_identity("alice".to_string()).unwrap();
    assert_eq!(alice.get_name(), "alice");
    assert_eq!(alice.get_secret(), &vec![3, 0, 0, 0]);
    assert!(server.get_identity("bob".to_string()).is_none());
}

#[test]
fn server_authenticates_the_sample_client() {
    let server = sample_server();
    let (state, action) = server.open(challenge());
    assert!(matches!(&state, ServerState::ChallengeSent { challenge: c } if c == &challenge()));
    assert_eq!(sent(action), "Please identify yourself\nChallenge is: \"AQIDBAUGBwg=\"\n");
    let (state, action) = server.step(state, Event::Sent);
    assert!(matches!(state, ServerState::ChallengeSent { .. }));
    assert!(matches!(action, Action::Receive));
    let (state, action) = server.step(state, Event::Line("alice\n".to_string()));
    assert!(matches!(&state, ServerState::IdentityReceived { expected, .. }
        if expected == &blowfish_direct(&[3, 0, 0, 0], &challenge())));
    assert!(matches!(action, Action::Receive));
    let response = blowfish_direct(&[3, 0, 0, 0], &challenge());
    let line = send_challenge_response(&response);
    let (state, action) = server.step(state, Event::Line(line));
    assert!(matches!(state, ServerState::ResponseReceived { .. }));
    assert_eq!(sent(action), "Client authenticated\n");
    let (state, action) = server.step(state, Event::Sent);
    assert!(matches!(action, Action::Stop));
    match state {
        ServerState::Authenticated { session } => {
            assert_eq!(session.peer().get_name(), "alice");
            assert_eq!(session.peer().get_secret(), &vec![3, 0, 0, 0]);
            assert_eq!(session.cipher().secret(), vec![3, 0, 0, 0]);
            let signed = session.signer().sign(WriteFile::new(vec![1, 2, 3, 4, 5], 0, "filename"));
            let own = BlowfishSigner::new(vec![3, 0, 0, 0]).ok().unwrap();
            assert!(own.verify(signed.unwrap()).is_ok());
        }
        _ => panic!("not authenticated"),
    }
}

#[test]
fn server_authenticates_the_zero_secret() {
    let server = RfsServer::new(
        "srv1".to_string(),
        registry(&["server:srv1:AQIDBA==:localhost:4242", "client:alice:AAAAAA=="]),
    )
    .unwrap();
    let (state, _) = server.open(challenge());
    let (state, _) = server.step(state, Event::Line("alice\n".to_string()));
    let good = send_challenge_response(&blowfish_direct(&[0, 0, 0, 0], &challenge()));
    let (state, action) = server.step(state, Event::Line(good));
    assert!(matches!(state, ServerState::ResponseReceived { .. }));
    assert_eq!(sent(action), "Client authenticated\n");
    let (state, _) = server.step(state, Event::Sent);
    assert!(matches!(state, ServerState::Authenticated { .. }));
}

#[test]
fn no_session_when_the_success_line_cannot_be_sent() {
    let server = sample_server();
    let (state, action) = accepted(&server, "alice\n", &[3, 0, 0, 0]);
    assert!(matches!(state, ServerState::ResponseReceived { .. }));
    assert_eq!(sent(action), "Client authenticated\n");
    let (state, action) = server.step(state, Event::Closed);
    assert!(matches!(state, ServerState::Rejected { reason: HandshakeError::Disconnected }));
    assert!(matches!(action, Action::Stop));
}

#[test]
fn no_session_for_a_line_in_place_of_the_send_report() {
    let server = sample_server();
    let (state, _) = accepted(&server, "alice\n", &[3, 0, 0, 0]);
    let (state, action) = server.step(state, Event::Line("more\n".to_string()));
    assert!(matches!(state, ServerState::Rejected { reason: HandshakeError::ProtocolError }));
    assert!(matches!(action, Action::Stop));
}

#[test]
fn no_session_with_a_cipher_that_is_keyed_otherwise() {
    let server = sample_server();
    let alice = Client::new("alice".to_string(), vec![3, 0, 0, 0]);
    let other = get_cipher(&vec![9, 9, 9, 9]).ok().unwrap();
    let (state, action) = RfsServer::decide(alice, other, vec![1, 2], vec![1, 2]);
    assert!(matches!(state, ServerState::ResponseReceived { .. }));
    assert_eq!(sent(action), "Client authenticated\n");
    let (state, _) = server.step(state, Event::Sent);
    assert!(matches!(state, ServerState::Rejected { reason: HandshakeError::InvalidKey }));
}

#[test]
fn a_name_without_terminator_is_looked_up_whole() {
    let server = sample_server();
    let (state, _) = accepted(&server, "alice", &[3, 0, 0, 0]);
    assert!(matches!(state, ServerState::ResponseReceived { .. }));
    let server = RfsServer::new(
        "srv1".to_string(),
        registry(&["server:srv1:AQIDBA==:localhost:4242", "client:alic:AwAAAA=="]),
    )
    .unwrap();
    let (state, _) = server.open(challenge());
    let (state, _) = server.step(state, Event::Line("alice".to_string()));
    assert!(matches!(state, ServerState::Rejected { reason: HandshakeError::UnknownPrincipal }));
}

#[test]
fn a_response_without_terminator_is_read_whole() {
    let server = sample_server();
    let (state, _) = server.open(challenge());
    let (state, _) = server.step(state, Event::Line("alice\n".to_string()));
    let line = send_challenge_response(&blowfish_direct(&[3, 0, 0, 0], &challenge()));
    let (state, _) = server.step(state, Event::Line(line.trim_end().to_string()));
    assert!(matches!(state, ServerState::ResponseReceived { .. }));
}

#[test]
fn server_rejects_a_wrong_secret() {
    let server = sample_server();
    let (state, _) = server.open(challenge());
    let (state, _) = server.step(state, Event::Sent);
    let (state, _) = server.step(state, Event::Line("alice\n".to_string()));
    let wrong = send_challenge_response(&blowfish_direct(&[0, 0, 0, 0], &challenge()));
    let (state, action) = server.step(state, Event::Line(wrong));
    assert!(matches!(
        state,
        ServerState::Rejected { reason: HandshakeError::AuthenticationError }
    ));
    assert_eq!(sent(action), "Authentication failure. Aborting.\n");
}

#[test]
fn server_rejects_an_unknown_name() {
    let server = sample_server();
    let (state, _) = server.open(challenge());
    let (state, action) = server.step(state, Event::Line("mallory\n".to_string()));
    assert!(matches!(state, ServerState::Rejected { reason: HandshakeError::UnknownPrincipal }));
    assert!(matches!(action, Action::Stop));
}

#[test]
fn server_rejects_a_response_that_is_not_base64() {
    let server = sample_server();
    let (state, _) = server.open(challenge());
    let (state, _) = server.step(state, Event::Line("alice\n".to_string()));
    let (state, action) = server.step(state, Event::Line("not base64\n".to_string()));
    assert!(matches!(state, ServerState::Rejected { reason: HandshakeError::ProtocolError }));
    assert_eq!(sent(action), "Authentication failure. Aborting.\n");
}

#[test]
fn server_rejects_a_response_of_another_length() {
    let server = sample_server();
    let (state, _) = server.open(challenge());
    let (state, _) = server.step(state, Event::Line("alice\n".to_string()));
    let (state, _) = server.step(state, Event::Line("AwAAAA==\n".to_string()));
    assert!(matches!(
        state,
        ServerState::Rejected { reason: HandshakeError::AuthenticationError }
    ));
}

#[test]
fn server_rejects_a_principal_whose_secret_cannot_key_the_cipher() {
    let server = RfsServer::new("srv1".to_string(), registry_with_tiny_secret()).unwrap();
    let (state, _) = server.open(challenge());
    let (state, action) = server.step(state, Event::Line("tiny\n".to_string()));
    assert!(matches!(state, ServerState::Rejected { reason: HandshakeError::InvalidKey }));
    assert!(matches!(action, Action::Stop));
}

#[test]
fn server_refuses_a_challenge_that_is_not_one_block() {
    let server = sample_server();
    let (state, action) = server.open(vec![1, 2, 3]);
    assert!(matches!(state, ServerState::Rejected { reason: HandshakeError::ProtocolError }));
    assert!(matches!(action, Action::Stop));
}

#[test]
fn server_sees_a_lost_connection() {
    let server = sample_server();
    let (state, _) = server.open(challenge());
    let (state, action) = server.step(state, Event::Closed);
    assert!(matches!(state, ServerState::Rejected { reason: HandshakeError::Disconnected }));
    assert!(matches!(action, Action::Stop));
    let (state, _) = server.open(challenge());
    let (state, _) = server.step(state, Event::Line("alice\n".to_string()));
    let (state, _) = server.step(state, Event::Closed);
    assert!(matches!(state, ServerState::Rejected { reason: HandshakeError::Disconnected }));
    let (state, _) = server.step(ServerState::Listening, Event::Closed);
    assert!(matches!(state, ServerState::Rejected { reason: HandshakeError::Disconnected }));
}

#[test]
fn server_refuses_events_out_of_turn() {
    let server = sample_server();
    let (state, _) = server.step(ServerState::Listening, Event::Line("alice\n".to_string()));
    assert!(matches!(state, ServerState::Rejected { reason: HandshakeError::ProtocolError }));
    let (state, _) = server.open(challenge());
    let (state, _) = server.step(state, Event::Line("alice\n".to_string()));
    let (state, action) = server.step(state, Event::Sent);
    assert!(matches!(state, ServerState::Rejected { reason: HandshakeError::ProtocolError }));
    assert!(matches!(action, Action::Stop));
}

#[test]
fn finished_server_stays_as_it_is() {
    let server = sample_server();
    let (state, _) = server.open(challenge());
    let (state, _) = server.step(state, Event::Line("mallory\n".to_string()));
    let (state, action) = server.step(state, Event::Line("alice\n".to_string()));
    assert!(matches!(state, ServerState::Rejected { reason: HandshakeError::UnknownPrincipal }));
    assert!(matches!(action, Action::Stop));
    let (state, _) = server.open(challenge());
    let (state, _) = server.step(state, Event::Line("alice\n".to_string()));
    let good = send_challenge_response(&blowfish_direct(&[3, 0, 0, 0], &challenge()));
    let (state, _) = server.step(state, Event::Line(good));
    let (state, _) = server.step(state, Event::Sent);
    assert!(matches!(state, ServerState::Authenticated { .. }));
    let (state, action) = server.step(state, Event::Closed);
    assert!(matches!(state, ServerState::Authenticated { .. }));
    assert!(matches!(action, Action::Stop));
    let (state, action) = accepted(&server, "alice\n", &[0, 0, 0, 0]);
    assert!(matches!(state, ServerState::Rejected { reason: HandshakeError::AuthenticationError }));
    assert_eq!(sent(action), "Authentication failure. Aborting.\n");
    let (state, action) = server.step(state, Event::Sent);
    assert!(matches!(state, ServerState::Rejected { reason: HandshakeError::AuthenticationError }));
    assert!(matches!(action, Action::Stop));
}

#[test]
fn client_session_setup() {
    let session =
        RfsClientSession::new("srv1".to_string(), "alice".to_string(), sample_registry())
            .unwrap();
    assert_eq!(session.server_address(), "localhost:4242");
    assert_eq!(session.identity().get_name(), "alice");
    assert_eq!(session.identity().get_secret(), &vec![3, 0, 0, 0]);
    assert_eq!(session.config().len(), 2);
    assert!(RfsClientSession::new("srv1".to_string(), "bob".to_string(), sample_registry())
        .is_none());
    assert!(RfsClientSession::new("alice".to_string(), "alice".to_string(), sample_registry())
        .is_none());
    assert!(RfsClientSession::new("srv9".to_string(), "alice".to_string(), sample_registry())
        .is_none());
    assert!(RfsClientSession::new(
        "srv1".to_string(),
        "tiny".to_string(),
        registry_with_tiny_secret()
    )
    .is_none());
}

#[test]
fn client_answers_the_sample_challenge() {
    let client =
        RfsClientSession::new("srv1".to_string(), "alice".to_string(), sample_registry())
            .unwrap();
    let (state, action) = client.open();
    assert!(matches!(state, ClientState::Connected));
    assert!(matches!(action, Action::Receive));
    let (state, action) =
        client.step(state, Event::Line("Please identify yourself\n".to_string()));
    assert!(matches!(state, ClientState::AwaitingChallenge));
    assert!(matches!(action, Action::Receive));
    let (state, action) =
        client.step(state, Event::Line("Challenge is: \"AQIDBAUGBwg=\"\n".to_string()));
    assert!(matches!(&state, ClientState::IdentitySent { response }
        if response == &blowfish_direct(&[3, 0, 0, 0], &challenge())));
    assert_eq!(sent(action), "alice\n");
    let (state, action) = client.step(state, Event::Sent);
    assert!(matches!(state, ClientState::ResponseSent));
    assert_eq!(
        sent(action),
        send_challenge_response(&blowfish_direct(&[3, 0, 0, 0], &challenge()))
    );
    let (state, action) = client.step(state, Event::Sent);
    assert!(matches!(state, ClientState::ResponseSent));
    assert!(matches!(action, Action::Receive));
    let (state, action) = client.step(state, Event::Line("Client authenticated\n".to_string()));
    assert!(matches!(state, ClientState::Authenticated));
    assert!(matches!(action, Action::Stop));
}

#[test]
fn client_takes_any_other_verdict_as_rejection() {
    let client =
        RfsClientSession::new("srv1".to_string(), "alice".to_string(), sample_registry())
            .unwrap();
    let (state, _) = client.step(
        ClientState::ResponseSent,
        Event::Line("Authentication failure. Aborting.\n".to_string()),
    );
    assert!(matches!(
        state,
        ClientState::Rejected { reason: HandshakeError::AuthenticationError }
    ));
    let (state, _) =
        client.step(ClientState::ResponseSent, Event::Line("Client authenticated".to_string()));
    assert!(matches!(
        state,
        ClientState::Rejected { reason: HandshakeError::AuthenticationError }
    ));
}

#[test]
fn client_rejects_a_malformed_challenge_line() {
    let client =
        RfsClientSession::new("srv1".to_string(), "alice".to_string(), sample_registry())
            .unwrap();
    let (state, action) =
        client.step(ClientState::AwaitingChallenge, Event::Line("no quotes here\n".to_string()));
    assert!(matches!(state, ClientState::Rejected { reason: HandshakeError::ProtocolError }));
    assert!(matches!(action, Action::Stop));
    let (state, _) = client
        .step(ClientState::AwaitingChallenge, Event::Line("Challenge is: \"AwAAAA==\"\n".to_string()));
    assert!(matches!(state, ClientState::Rejected { reason: HandshakeError::ProtocolError }));
}

#[test]
fn client_sees_a_lost_connection_and_events_out_of_turn() {
    let client =
        RfsClientSession::new("srv1".to_string(), "alice".to_string(), sample_registry())
            .unwrap();
    let (state, _) = client.step(ClientState::Connected, Event::Closed);
    assert!(matches!(state, ClientState::Rejected { reason: HandshakeError::Disconnected }));
    let (state, _) = client.step(ClientState::Connected, Event::Sent);
    assert!(matches!(state, ClientState::Rejected { reason: HandshakeError::ProtocolError }));
    let (state, _) = client.step(
        ClientState::IdentitySent { response: vec![0; 8] },
        Event::Line("early\n".to_string()),
    );
    assert!(matches!(state, ClientState::Rejected { reason: HandshakeError::ProtocolError }));
    let (state, action) = client.step(ClientState::Authenticated, Event::Closed);
    assert!(matches!(state, ClientState::Authenticated));
    assert!(matches!(action, Action::Stop));
}

#[test]
fn handshake_with_matching_secrets_authenticates() {
    let server = sample_server();
    let client =
        RfsClientSession::new("srv1".to_string(), "alice".to_string(), sample_registry())
            .unwrap();
    let (s, c) = run_handshake(&server, &client, challenge());
    assert!(matches!(c, ClientState::Authenticated));
    match s {
        ServerState::Authenticated { session } => {
            assert_eq!(session.peer().get_name(), "alice");
            assert_eq!(session.cipher().secret(), vec![3, 0, 0, 0]);
        }
        _ => panic!("not authenticated"),
    }
    for _ in 0..5 {
        let fresh = generate_challenge().unwrap();
        let (s, c) = run_handshake(&server, &client, fresh);
        assert!(matches!(s, ServerState::Authenticated { .. }));
        assert!(matches!(c, ClientState::Authenticated));
    }
}

#[test]
fn handshake_with_a_wrong_secret_is_rejected() {
    let server = sample_server();
    let other = registry(&["server:srv1:AQIDBA==:localhost:4242", "client:alice:AAAAAA=="]);
    let client = RfsClientSession::new("srv1".to_string(), "alice".to_string(), other).unwrap();
    let (s, c) = run_handshake(&server, &client, challenge());
    assert!(matches!(s, ServerState::Rejected { reason: HandshakeError::AuthenticationError }));
    assert!(matches!(c, ClientState::Rejected { reason: HandshakeError::AuthenticationError }));
}

#[test]
fn handshake_of_an_unregistered_client_is_rejected() {
    let server = sample_server();
    let other = registry(&["server:srv1:AQIDBA==:localhost:4242", "client:mallory:AwAAAA=="]);
    let client = RfsClientSession::new("srv1".to_string(), "mallory".to_string(), other).unwrap();
    let (s, c) = run_handshake(&server, &client, challenge());
    assert!(matches!(s, ServerState::Rejected { reason: HandshakeError::UnknownPrincipal }));
    assert!(matches!(c, ClientState::Rejected { reason: HandshakeError::Disconnected }));
}

#[test]
fn handshake_with_a_bad_challenge_is_rejected() {
    let server = sample_server();
    let client =
        RfsClientSession::new("srv1".to_string(), "alice".to_string(), sample_registry())
            .unwrap();
    let (s, c) = run_handshake(&server, &client, vec![1, 2, 3, 4]);
    assert!(matches!(s, ServerState::Rejected { reason: HandshakeError::ProtocolError }));
    assert!(matches!(c, ClientState::Rejected { reason: HandshakeError::Disconnected }));
}

#[test]
fn secrets_that_repeat_key_the_cipher_alike() {
    let server = RfsServer::new(
        "srv1".to_string(),
        registry(&["server:srv1:AQIDBA==:localhost:4242", "client:alice:AQIDBAECAwQ="]),
    )
    .unwrap();
    let other = registry(&["server:srv1:AQIDBA==:localhost:4242", "client:alice:AQIDBA=="]);
    let client = RfsClientSession::new("srv1".to_string(), "alice".to_string(), other).unwrap();
    let (s, c) = run_handshake(&server, &client, challenge());
    assert!(matches!(s, ServerState::Authenticated { .. }));
    assert!(matches!(c, ClientState::Authenticated));
}
