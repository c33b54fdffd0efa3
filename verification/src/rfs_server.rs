//! The server side of the handshake.
//!
//! The server sends a fresh challenge, reads the name that the client claims,
//! looks the name up, computes the response that the holder of that
//! principal's secret would give, reads the client's response and compares.
//! The decisions are a function from state and event to next state and
//! action; the caller owns the connection and performs the actions.

use crate::cipher::{blowfish_block, valid_key_len, KeyedCipher, BLOCK_SIZE};
use crate::config::{Config, Field, Principal, RfsConfig, RfsConfigError};
use crate::encoding::{base64_text, decode, decoded, encode, encoded_len, max_decode_len};
use crate::rfs_client::{challenge_of, lemma_quoted_segment_of_challenge_line};
use crate::message_signer::{same_bytes, BlowfishSigner};
use crate::rfs_common::{
    failure_line, get_cipher, remove_newline, success_line, Action, ActionView, BlowfishKey,
    Challenge, Client, Event, EventView, HandshakeError, Identity, Named,
};
use crate::text::without_terminator;
use rand::Rng;
use vstd::prelude::*;
use vstd::string::*;

verus! {

/// Opens the operating system's random source with `OsRng::new` and draws
/// `n` bytes from it with `Rng::fill_bytes`.
///
/// Trusted: where the source can be opened, exactly `n` bytes come back.
/// Nothing is said of their values.
#[verifier::external_body]
fn os_random_bytes(n: usize) -> (out: Option<Vec<u8>>)
    ensures
        out matches Some(v) ==> v@.len() == n,
{
    match rand::OsRng::new() {
        Ok(mut rng) => {
            let mut buf = vec![0u8; n];
            rng.fill_bytes(&mut buf);
            Some(buf)
        },
        Err(_) => None,
    }
}

/// Draws a fresh challenge from the operating system's random source.
///
/// `None` where the source cannot be opened. A challenge is one block long;
/// its value is whatever the source gave.
pub fn generate_challenge() -> (challenge: Option<Challenge>)
    ensures
        challenge matches Some(c) ==> c@.len() == BLOCK_SIZE,
{
    os_random_bytes(BLOCK_SIZE)
}

/// The first line that the server sends.
pub open spec fn prompt_line() -> Seq<char> {
    "Please identify yourself\n"@
}

/// The line that carries the challenge.
pub open spec fn challenge_line(challenge: Seq<u8>) -> Seq<char> {
    "Challenge is: \""@ + base64_text(challenge) + "\"\n"@
}

/// What the server sends to open a handshake: the prompt line, then the
/// challenge line.
pub open spec fn id_request_text(challenge: Seq<u8>) -> Seq<char> {
    prompt_line() + challenge_line(challenge)
}

/// The response that the holder of `secret` gives to `challenge`.
pub open spec fn expected_response(secret: Seq<u8>, challenge: Seq<u8>) -> Seq<u8> {
    blowfish_block(secret, challenge)
}

/// The line that carries `challenge`.
///
/// A client that reads the line finds the challenge in it again.
pub fn challenge_line_text(challenge: &Challenge) -> (text: String)
    ensures
        text@ == challenge_line(challenge@),
        encoded_len(challenge@.len()) <= max_decode_len() ==> challenge_of(text@) == Some(
            challenge@,
        ),
{
    let encoded = encode(challenge);
    let text = "Challenge is: \"".to_owned().concat(encoded.as_str()).concat("\"\n");
    proof {
        lemma_quoted_segment_of_challenge_line(encoded@);
    }
    text
}

/// The text that opens a handshake with `challenge`: the prompt line, then
/// the challenge line.
pub fn send_id_request(challenge: &Challenge) -> (text: String)
    ensures
        text@ == id_request_text(challenge@),
{
    "Please identify yourself\n".to_owned().concat(challenge_line_text(challenge).as_str())
}

/// The cipher bound to an identity's secret, and the response that is
/// expected of that identity for `challenge`.
///
/// Fails with `ProtocolError` exactly when the challenge is not one block
/// long, else with `InvalidKey` exactly when the secret cannot key the cipher.
pub fn client_expected_challenge_response<I>(i: I, challenge: &Challenge) -> (r: Result<
    (KeyedCipher, Challenge),
    HandshakeError,
>) where I: Identity
    ensures
        match r {
            Ok((bf, expected)) => {
                &&& challenge@.len() == BLOCK_SIZE
                &&& valid_key_len(i.secret_of()@.len())
                &&& bf.key() == i.secret_of()@
                &&& expected@ == expected_response(i.secret_of()@, challenge@)
                &&& expected@.len() == BLOCK_SIZE
            },
            Err(e) => if challenge@.len() != BLOCK_SIZE {
                e == HandshakeError::ProtocolError
            } else {
                !valid_key_len(i.secret_of()@.len()) && e == HandshakeError::InvalidKey
            },
        },
{
    if challenge.len() != BLOCK_SIZE {
        return Err(HandshakeError::ProtocolError);
    }
    match get_cipher(i.get_secret()) {
        Ok(bf) => {
            let expected = bf.encrypt_exact(challenge);
            Ok((bf, expected))
        },
        Err(_) => Err(HandshakeError::InvalidKey),
    }
}

/// The authenticated result of a handshake: the peer and the cipher bound to
/// the peer's secret.
///
/// A session comes to be in one way only: by the step that follows the
/// success line, and its cipher is always keyed with the secret of its peer.
pub struct Session {
    peer: Client,
    cipher: KeyedCipher,
}

impl Session {
    #[verifier::type_invariant]
    spec fn bound(&self) -> bool {
        self.cipher.key() == self.peer.secret_of()@
    }

    /// The name of the authenticated peer.
    pub closed spec fn peer_name(&self) -> Seq<char> {
        self.peer.name_of()@
    }

    /// The secret of the authenticated peer.
    pub closed spec fn peer_secret(&self) -> Seq<u8> {
        self.peer.secret_of()@
    }

    /// A session with `peer`, where `cipher` is keyed with the secret of
    /// `peer`; none otherwise.
    fn bind(peer: Client, cipher: KeyedCipher) -> (session: Option<Session>)
        ensures
            match session {
                Some(s) => {
                    &&& cipher.key() == peer.secret_of()@
                    &&& s.peer_name() == peer.name_of()@
                    &&& s.peer_secret() == peer.secret_of()@
                },
                None => cipher.key() != peer.secret_of()@,
            },
    {
        let key = cipher.secret();
        if same_bytes(&key, peer.get_secret()) {
            Some(Session { peer, cipher })
        } else {
            None
        }
    }

    /// The authenticated peer.
    pub fn peer(&self) -> (peer: &Client)
        ensures
            peer.name_of()@ == self.peer_name(),
            peer.secret_of()@ == self.peer_secret(),
    {
        &self.peer
    }

    /// The cipher of the session, keyed with the secret of the peer.
    pub fn cipher(&self) -> (cipher: &KeyedCipher)
        ensures
            cipher.key() == self.peer_secret(),
    {
        proof {
            use_type_invariant(self);
        }
        &self.cipher
    }

    /// A signer for the messages of this session, keyed with the secret of
    /// the peer.
    pub fn signer(&self) -> (signer: BlowfishSigner)
        ensures
            signer.key() == self.peer_secret(),
    {
        proof {
            use_type_invariant(self);
        }
        BlowfishSigner::with_cipher(self.cipher.clone())
    }
}

/// Where the server stands in a handshake.
pub enum ServerState {
    /// Nothing was sent yet.
    Listening,
    /// The challenge is out; the client's name is due.
    ChallengeSent { challenge: Challenge },
    /// The client's name is known and registered; its response is due.
    IdentityReceived { identity: Client, cipher: KeyedCipher, expected: Challenge },
    /// The client's response is in and is the expected one; the success line
    /// is on its way. There is no session yet.
    ResponseReceived { identity: Client, cipher: KeyedCipher },
    /// The client gave the expected response and was told so.
    Authenticated { session: Session },
    /// The handshake failed.
    Rejected { reason: HandshakeError },
}

/// A server state, as contracts speak of it.
pub enum ServerPhase {
    Listening,
    ChallengeSent { challenge: Seq<u8> },
    IdentityReceived { name: Seq<char>, secret: Seq<u8>, cipher_key: Seq<u8>, expected: Seq<u8> },
    ResponseReceived { name: Seq<char>, secret: Seq<u8>, cipher_key: Seq<u8> },
    /// The session's cipher is keyed with `secret`.
    Authenticated { name: Seq<char>, secret: Seq<u8> },
    Rejected { reason: HandshakeError },
}

impl View for ServerState {
    type V = ServerPhase;

    open spec fn view(&self) -> ServerPhase {
        match self {
            ServerState::Listening => ServerPhase::Listening,
            ServerState::ChallengeSent { challenge } => ServerPhase::ChallengeSent {
                challenge: challenge@,
            },
            ServerState::IdentityReceived { identity, cipher, expected } => {
                ServerPhase::IdentityReceived {
                    name: identity.name_of()@,
                    secret: identity.secret_of()@,
                    cipher_key: cipher.key(),
                    expected: expected@,
                }
            },
            ServerState::ResponseReceived { identity, cipher } => ServerPhase::ResponseReceived {
                name: identity.name_of()@,
                secret: identity.secret_of()@,
                cipher_key: cipher.key(),
            },
            ServerState::Authenticated { session } => ServerPhase::Authenticated {
                name: session.peer_name(),
                secret: session.peer_secret(),
            },
            ServerState::Rejected { reason } => ServerPhase::Rejected { reason: *reason },
        }
    }
}

/// The state and the action with which the server opens a handshake.
///
/// A challenge that is not one block long is refused.
pub open spec fn server_opening(challenge: Seq<u8>) -> (ServerPhase, ActionView) {
    if challenge.len() == BLOCK_SIZE {
        (ServerPhase::ChallengeSent { challenge }, ActionView::Send(id_request_text(challenge)))
    } else {
        (ServerPhase::Rejected { reason: HandshakeError::ProtocolError }, ActionView::Stop)
    }
}

/// What the server makes of the name that a client claims.
///
/// An unknown name ends the handshake without a word. So does a principal
/// whose secret cannot key the cipher.
pub open spec fn identified(
    registry: Map<Seq<char>, Principal>,
    challenge: Seq<u8>,
    name: Seq<char>,
) -> (ServerPhase, ActionView) {
    if !registry.dom().contains(name) {
        (ServerPhase::Rejected { reason: HandshakeError::UnknownPrincipal }, ActionView::Stop)
    } else if challenge.len() != BLOCK_SIZE {
        (ServerPhase::Rejected { reason: HandshakeError::ProtocolError }, ActionView::Stop)
    } else if !valid_key_len(registry[name].secret.len()) {
        (ServerPhase::Rejected { reason: HandshakeError::InvalidKey }, ActionView::Stop)
    } else {
        (
            ServerPhase::IdentityReceived {
                name,
                secret: registry[name].secret,
                cipher_key: registry[name].secret,
                expected: expected_response(registry[name].secret, challenge),
            },
            ActionView::Receive,
        )
    }
}

/// The verdict on a response. An expected response is answered with the
/// success line, and the client is not authenticated before that line went
/// out. Any other response is rejected with the failure line.
pub open spec fn decided(
    name: Seq<char>,
    secret: Seq<u8>,
    cipher_key: Seq<u8>,
    expected: Seq<u8>,
    response: Seq<u8>,
) -> (ServerPhase, ActionView) {
    if response == expected {
        (
            ServerPhase::ResponseReceived { name, secret, cipher_key },
            ActionView::Send(success_line()),
        )
    } else {
        (
            ServerPhase::Rejected { reason: HandshakeError::AuthenticationError },
            ActionView::Send(failure_line()),
        )
    }
}

/// What the server makes of the success line having gone out: the session
/// comes to be, with the cipher that is keyed with the peer's secret. A
/// cipher that is keyed otherwise gives no session.
pub open spec fn confirmed(name: Seq<char>, secret: Seq<u8>, cipher_key: Seq<u8>) -> (
    ServerPhase,
    ActionView,
) {
    if cipher_key == secret {
        (ServerPhase::Authenticated { name, secret }, ActionView::Stop)
    } else {
        (ServerPhase::Rejected { reason: HandshakeError::InvalidKey }, ActionView::Stop)
    }
}

/// The server's next state and action for an event.
///
/// Lines come with their terminator, which is stripped. A response that is
/// not base64 is refused with the failure line. A lost connection ends the
/// handshake in rejection wherever it stands, also when only the success line
/// was still to go out; so does an event that is not due. A handshake that is
/// over stays as it is.
pub open spec fn server_next(
    phase: ServerPhase,
    event: EventView,
    registry: Map<Seq<char>, Principal>,
) -> (ServerPhase, ActionView) {
    match phase {
        ServerPhase::Authenticated { .. } | ServerPhase::Rejected { .. } => (
            phase,
            ActionView::Stop,
        ),
        _ => match event {
            EventView::Closed => (
                ServerPhase::Rejected { reason: HandshakeError::Disconnected },
                ActionView::Stop,
            ),
            EventView::Sent => match phase {
                ServerPhase::ChallengeSent { .. } => (phase, ActionView::Receive),
                ServerPhase::ResponseReceived { name, secret, cipher_key } => confirmed(
                    name,
                    secret,
                    cipher_key,
                ),
                _ => (
                    ServerPhase::Rejected { reason: HandshakeError::ProtocolError },
                    ActionView::Stop,
                ),
            },
            EventView::Line(line) => match phase {
                ServerPhase::ChallengeSent { challenge } => identified(
                    registry,
                    challenge,
                    without_terminator(line),
                ),
                ServerPhase::IdentityReceived { name, secret, cipher_key, expected } => match decoded(
                    without_terminator(line),
                ) {
                    Some(response) => decided(name, secret, cipher_key, expected, response),
                    None => (
                        ServerPhase::Rejected { reason: HandshakeError::ProtocolError },
                        ActionView::Send(failure_line()),
                    ),
                },
                _ => (
                    ServerPhase::Rejected { reason: HandshakeError::ProtocolError },
                    ActionView::Stop,
                ),
            },
        },
    }
}

fn rejected(reason: HandshakeError) -> (r: (ServerState, Action))
    ensures
        r.0@ == (ServerPhase::Rejected { reason }),
        r.1@ == ActionView::Stop,
{
    (ServerState::Rejected { reason }, Action::Stop)
}

/// A server: its name and the registry that it authenticates against.
pub struct RfsServer {
    name: String,
    config: RfsConfig,
}

impl RfsServer {
    /// The name of this server.
    pub closed spec fn name(&self) -> Seq<char> {
        self.name@
    }

    /// The registry of this server.
    pub closed spec fn registry(&self) -> Map<Seq<char>, Principal> {
        self.config@
    }

    /// A server under `name`, where the registry knows `name` as a server.
    pub fn new(name: String, config: RfsConfig) -> (server: Option<Self>)
        ensures
            match server {
                Some(s) => {
                    &&& config@.dom().contains(name@)
                    &&& config@[name@].endpoint.is_some()
                    &&& s.name() == name@
                    &&& s.registry() == config@
                },
                None => !config@.dom().contains(name@) || config@[name@].endpoint.is_none(),
            },
    {
        let is_server = match config.get_from_name(name.clone()) {
            Ok(Field::Server { .. }) => true,
            Ok(Field::Client { .. }) => false,
            Err(_) => false,
        };
        if is_server {
            Some(RfsServer { name, config })
        } else {
            None
        }
    }

    /// The endpoint to listen on, as `address:port`.
    pub fn address(&self) -> (address: Option<String>)
        ensures
            match address {
                Some(a) => {
                    &&& self.registry().dom().contains(self.name())
                    &&& self.registry()[self.name()].endpoint matches Some((host, port))
                    &&& a@ == crate::config::endpoint_text(host, port)
                },
                None => !self.registry().dom().contains(self.name()) || self.registry()[self.name()].endpoint.is_none(),
            },
    {
        self.config.get_server_address(self.name.clone())
    }

    /// The registry entry of this server.
    pub fn identity(&self) -> (field: Option<Field>)
        ensures
            match field {
                Some(f) => self.registry().dom().contains(self.name()) && self.registry()[self.name()] == f@,
                None => !self.registry().dom().contains(self.name()),
            },
    {
        match self.config.get_from_name(self.name.clone()) {
            Ok(f) => Some(f.clone()),
            Err(_) => None,
        }
    }

    /// The secret registered under `name`.
    pub fn get_config_key(&self, name: String) -> (r: Result<BlowfishKey, RfsConfigError>)
        ensures
            match r {
                Ok(key) => self.registry().dom().contains(name@) && key@ == self.registry()[name@].secret,
                Err(_) => !self.registry().dom().contains(name@),
            },
    {
        match self.config.get_from_name(name) {
            Ok(f) => Ok(f.get_secret().clone()),
            Err(e) => Err(e),
        }
    }

    /// The identity registered under the name `s`.
    pub fn get_identity(&self, s: String) -> (identity: Option<Client>)
        ensures
            match identity {
                Some(c) => {
                    &&& self.registry().dom().contains(s@)
                    &&& c.name_of()@ == s@
                    &&& c.secret_of()@ == self.registry()[s@].secret
                },
                None => !self.registry().dom().contains(s@),
            },
    {
        match self.get_config_key(s.clone()) {
            Ok(key) => Some(Client::new(s, key)),
            Err(_) => None,
        }
    }

    /// Opens a handshake with `challenge`.
    pub fn open(&self, challenge: Challenge) -> (r: (ServerState, Action))
        ensures
            (r.0@, r.1@) == server_opening(challenge@),
    {
        if challenge.len() == BLOCK_SIZE {
            let text = send_id_request(&challenge);
            (ServerState::ChallengeSent { challenge }, Action::Send(text))
        } else {
            rejected(HandshakeError::ProtocolError)
        }
    }

    /// The verdict on a response: it is accepted exactly when `response`
    /// holds the same bytes as `expected`. The success line is then due, and
    /// the state keeps `identity` and `cipher` for the session that follows
    /// it; there is no session yet.
    pub fn decide(identity: Client, cipher: KeyedCipher, expected: Challenge, response: Challenge) -> (r: (
        ServerState,
        Action,
    ))
        ensures
            (r.0@, r.1@) == decided(
                identity.name_of()@,
                identity.secret_of()@,
                cipher.key(),
                expected@,
                response@,
            ),
    {
        if same_bytes(&response, &expected) {
            (
                ServerState::ResponseReceived { identity, cipher },
                Action::Send("Client authenticated\n".to_owned()),
            )
        } else {
            (
                ServerState::Rejected { reason: HandshakeError::AuthenticationError },
                Action::Send("Authentication failure. Aborting.\n".to_owned()),
            )
        }
    }

    /// The session that follows the success line.
    fn confirm(identity: Client, cipher: KeyedCipher) -> (r: (ServerState, Action))
        ensures
            (r.0@, r.1@) == confirmed(identity.name_of()@, identity.secret_of()@, cipher.key()),
    {
        match Session::bind(identity, cipher) {
            Some(session) => (ServerState::Authenticated { session }, Action::Stop),
            None => rejected(HandshakeError::InvalidKey),
        }
    }

    /// Takes the handshake one step further.
    ///
    /// An expected response that was computed is one block long.
    pub fn step(&self, state: ServerState, event: Event) -> (r: (ServerState, Action))
        ensures
            (r.0@, r.1@) == server_next(state@, event@, self.registry()),
            r.0@ matches ServerPhase::IdentityReceived { expected, .. } ==> expected.len()
                == BLOCK_SIZE,
    {
        match state {
            ServerState::Authenticated { session } => (
                ServerState::Authenticated { session },
                Action::Stop,
            ),
            ServerState::Rejected { reason } => (ServerState::Rejected { reason }, Action::Stop),
            ServerState::ResponseReceived { identity, cipher } => match event {
                Event::Closed => rejected(HandshakeError::Disconnected),
                Event::Sent => Self::confirm(identity, cipher),
                Event::Line(_) => rejected(HandshakeError::ProtocolError),
            },
            ServerState::Listening => match event {
                Event::Closed => rejected(HandshakeError::Disconnected),
                _ => rejected(HandshakeError::ProtocolError),
            },
            ServerState::ChallengeSent { challenge } => match event {
                Event::Closed => rejected(HandshakeError::Disconnected),
                Event::Sent => (ServerState::ChallengeSent { challenge }, Action::Receive),
                Event::Line(line) => {
                    let name = remove_newline(line);
                    match self.get_identity(name) {
                        None => rejected(HandshakeError::UnknownPrincipal),
                        Some(identity) => {
                            match client_expected_challenge_response(identity.clone(), &challenge) {
                                Ok((cipher, expected)) => (
                                    ServerState::IdentityReceived { identity, cipher, expected },
                                    Action::Receive,
                                ),
                                Err(e) => rejected(e),
                            }
                        },
                    }
                },
            },
            ServerState::IdentityReceived { identity, cipher, expected } => match event {
                Event::Closed => rejected(HandshakeError::Disconnected),
                Event::Sent => rejected(HandshakeError::ProtocolError),
                Event::Line(line) => {
                    let text = remove_newline(line);
                    match decode(text.as_str()) {
                        Some(response) => Self::decide(identity, cipher, expected, response),
                        None => (
                            ServerState::Rejected { reason: HandshakeError::ProtocolError },
                            Action::Send("Authentication failure. Aborting.\n".to_owned()),
                        ),
                    }
                },
            },
        }
    }
}

} // verus!
