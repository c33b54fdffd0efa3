//! The client side of the handshake.
//!
//! The client reads the server's prompt and challenge, claims its name,
//! answers the challenge with its own secret and reads the verdict. The
//! decisions are a function from state and event to next state and action;
//! the caller owns the connection and performs the actions.

use crate::cipher::{blowfish_block, valid_key_len, KeyedCipher, BLOCK_SIZE};
use crate::config::{endpoint_text, Config, Field, Principal, RfsConfig};
use crate::encoding::{
    base64_text, decode, decoded, encode, encoded_len, is_base64_char, max_decode_len,
};
use crate::rfs_common::{
    get_cipher, success_line, Action, ActionView, Challenge, Event, EventView, HandshakeError,
    Identity, Named,
};
use crate::text::{
    has_char, lemma_split_append_field, lemma_split_nonempty, lemma_split_without_sep, split,
    split_fields, views, without_terminator,
};
use vstd::prelude::*;
use vstd::string::*;

verus! {

/// The text between the first and the second quotation mark of `line`, or up
/// to the end of the line where there is no second one. `None` where the line
/// holds no quotation mark.
pub open spec fn quoted_segment(line: Seq<char>) -> Option<Seq<char>> {
    let pieces = split_fields(line, '"');
    if pieces.len() >= 2 {
        Some(pieces[1])
    } else {
        None
    }
}

/// The challenge that a challenge line carries: what its quoted segment
/// decodes to. `None` for a line without quoted segment, and for one whose
/// segment is not base64.
pub open spec fn challenge_of(line: Seq<char>) -> Option<Seq<u8>> {
    match quoted_segment(line) {
        Some(text) => decoded(text),
        None => None,
    }
}

/// The line with which a client claims `name`.
pub open spec fn identity_line(name: Seq<char>) -> Seq<char> {
    name + "\n"@
}

/// The line that carries a response.
pub open spec fn response_line(response: Seq<u8>) -> Seq<char> {
    base64_text(response) + "\n"@
}

/// A challenge line hands back the base64 text that was put between its
/// quotation marks.
pub proof fn lemma_quoted_segment_of_challenge_line(text: Seq<char>)
    requires
        forall|i: int| 0 <= i < text.len() ==> is_base64_char(#[trigger] text[i]),
    ensures
        quoted_segment("Challenge is: \""@ + text + "\"\n"@) == Some(text),
{
    reveal_strlit("Challenge is: \"");
    reveal_strlit("\"\n");
    let open = "Challenge is: \""@;
    let close = "\"\n"@;
    let line = open + text + close;
    let label = open.drop_last();
    let end = close.drop_first();
    assert(!has_char(label, '"'));
    assert(!has_char(text, '"')) by {
        if has_char(text, '"') {
            let i = choose|i: int| 0 <= i < text.len() && text[i] == '"';
            assert(is_base64_char(text[i]));
        }
    }
    assert(!has_char(end, '"'));
    lemma_split_without_sep(label, '"');
    lemma_split_append_field(label, '"', text);
    lemma_split_append_field(label.push('"') + text, '"', end);
    assert(line =~= (label.push('"') + text).push('"') + end);
    assert(split_fields(line, '"') == seq![label].push(text).push(end));
}

/// Stripping the terminator of a line that ends in a newline gives the text
/// before the newline.
pub proof fn lemma_line_without_terminator(text: Seq<char>)
    ensures
        without_terminator(text + "\n"@) == text,
{
    reveal_strlit("\n");
    let line = text + "\n"@;
    assert(line.last() == '\n');
    assert(line.drop_last() =~= text);
}

/// Reads the challenge out of the server's challenge line.
///
/// Fails with `ProtocolError` exactly when the line carries none.
pub fn get_challenge(challenge_line: &str) -> (r: Result<Challenge, HandshakeError>)
    ensures
        match r {
            Ok(c) => challenge_of(challenge_line@) == Some(c@),
            Err(e) => challenge_of(challenge_line@).is_none() && e == HandshakeError::ProtocolError,
        },
{
    let pieces = split(challenge_line, '"');
    proof {
        lemma_split_nonempty(challenge_line@, '"');
        assert(views(pieces@).len() == pieces@.len());
        if pieces@.len() >= 2 {
            assert(views(pieces@)[1] == pieces@[1]@);
        }
    }
    if pieces.len() < 2 {
        return Err(HandshakeError::ProtocolError);
    }
    match decode(pieces[1].as_str()) {
        Some(c) => Ok(c),
        None => Err(HandshakeError::ProtocolError),
    }
}

/// The text with which a client claims `name`.
///
/// A server that strips the terminator has the name again.
pub fn send_identity(name: &String) -> (text: String)
    ensures
        text@ == identity_line(name@),
        without_terminator(text@) == name@,
{
    proof {
        lemma_line_without_terminator(name@);
    }
    name.clone().concat("\n")
}

/// The text that carries the response `c`.
///
/// A server that strips the terminator and decodes has the response again.
pub fn send_challenge_response(c: &Challenge) -> (text: String)
    ensures
        text@ == response_line(c@),
        encoded_len(c@.len()) <= max_decode_len() ==> decoded(without_terminator(text@)) == Some(c@),
{
    let encoded = encode(c);
    proof {
        lemma_line_without_terminator(encoded@);
    }
    encoded.concat("\n")
}

/// The response to the challenge `c` under the cipher `b`.
///
/// Fails with `ProtocolError` exactly when the challenge is not one block
/// long.
pub fn get_challenge_response(c: &Challenge, b: &KeyedCipher) -> (r: Result<
    Challenge,
    HandshakeError,
>)
    ensures
        match r {
            Ok(response) => {
                &&& c@.len() == BLOCK_SIZE
                &&& response@ == blowfish_block(b.key(), c@)
                &&& response@.len() == BLOCK_SIZE
            },
            Err(e) => c@.len() != BLOCK_SIZE && e == HandshakeError::ProtocolError,
        },
{
    match b.encrypt_block(c) {
        Ok(response) => Ok(response),
        Err(_) => Err(HandshakeError::ProtocolError),
    }
}

/// Where the client stands in a handshake.
pub enum ClientState {
    /// The connection is up; the server's prompt is due.
    Connected,
    /// The prompt is in; the challenge line is due.
    AwaitingChallenge,
    /// The name is on its way; the response goes next.
    IdentitySent { response: Challenge },
    /// The response is on its way; the verdict is due.
    ResponseSent,
    /// The server accepted the response.
    Authenticated,
    /// The handshake failed.
    Rejected { reason: HandshakeError },
}

/// A client state, as contracts speak of it.
pub enum ClientPhase {
    Connected,
    AwaitingChallenge,
    IdentitySent { response: Seq<u8> },
    ResponseSent,
    Authenticated,
    Rejected { reason: HandshakeError },
}

impl View for ClientState {
    type V = ClientPhase;

    open spec fn view(&self) -> ClientPhase {
        match self {
            ClientState::Connected => ClientPhase::Connected,
            ClientState::AwaitingChallenge => ClientPhase::AwaitingChallenge,
            ClientState::IdentitySent { response } => ClientPhase::IdentitySent {
                response: response@,
            },
            ClientState::ResponseSent => ClientPhase::ResponseSent,
            ClientState::Authenticated => ClientPhase::Authenticated,
            ClientState::Rejected { reason } => ClientPhase::Rejected { reason: *reason },
        }
    }
}

/// The state and the action with which a client enters a handshake.
pub open spec fn client_opening() -> (ClientPhase, ActionView) {
    (ClientPhase::Connected, ActionView::Receive)
}

/// What the client makes of the challenge line: it computes its response and
/// claims its name. A line without challenge, or with one that is not one
/// block long, ends the handshake.
pub open spec fn answered(line: Seq<char>, name: Seq<char>, secret: Seq<u8>) -> (
    ClientPhase,
    ActionView,
) {
    match challenge_of(line) {
        Some(challenge) => if challenge.len() == BLOCK_SIZE {
            (
                ClientPhase::IdentitySent { response: blowfish_block(secret, challenge) },
                ActionView::Send(identity_line(name)),
            )
        } else {
            (ClientPhase::Rejected { reason: HandshakeError::ProtocolError }, ActionView::Stop)
        },
        None => (ClientPhase::Rejected { reason: HandshakeError::ProtocolError }, ActionView::Stop),
    }
}

/// The client's next state and action for an event.
///
/// A lost connection ends the handshake, and so does an event that is not
/// due. A verdict other than the success line is a rejection. A handshake
/// that is over stays as it is.
pub open spec fn client_next(
    phase: ClientPhase,
    event: EventView,
    name: Seq<char>,
    secret: Seq<u8>,
) -> (ClientPhase, ActionView) {
    match phase {
        ClientPhase::Authenticated | ClientPhase::Rejected { .. } => (phase, ActionView::Stop),
        _ => match event {
            EventView::Closed => (
                ClientPhase::Rejected { reason: HandshakeError::Disconnected },
                ActionView::Stop,
            ),
            EventView::Sent => match phase {
                ClientPhase::IdentitySent { response } => (
                    ClientPhase::ResponseSent,
                    ActionView::Send(response_line(response)),
                ),
                ClientPhase::ResponseSent => (ClientPhase::ResponseSent, ActionView::Receive),
                _ => (
                    ClientPhase::Rejected { reason: HandshakeError::ProtocolError },
                    ActionView::Stop,
                ),
            },
            EventView::Line(line) => match phase {
                ClientPhase::Connected => (ClientPhase::AwaitingChallenge, ActionView::Receive),
                ClientPhase::AwaitingChallenge => answered(line, name, secret),
                ClientPhase::ResponseSent => if line == success_line() {
                    (ClientPhase::Authenticated, ActionView::Stop)
                } else {
                    (
                        ClientPhase::Rejected { reason: HandshakeError::AuthenticationError },
                        ActionView::Stop,
                    )
                },
                _ => (
                    ClientPhase::Rejected { reason: HandshakeError::ProtocolError },
                    ActionView::Stop,
                ),
            },
        },
    }
}

fn rejected(reason: HandshakeError) -> (r: (ClientState, Action))
    ensures
        r.0@ == (ClientPhase::Rejected { reason }),
        r.1@ == ActionView::Stop,
{
    (ClientState::Rejected { reason }, Action::Stop)
}

/// A client that is set to authenticate with a server: its registry, its
/// identity, the server's endpoint and the cipher bound to its own secret.
pub struct RfsClientSession {
    config: RfsConfig,
    identity: Field,
    server_address: String,
    bf: KeyedCipher,
}

impl RfsClientSession {
    /// The name that this client claims.
    pub closed spec fn name(&self) -> Seq<char> {
        self.identity@.name
    }

    /// The secret that this client answers with.
    pub closed spec fn secret(&self) -> Seq<u8> {
        self.identity@.secret
    }

    /// The registry that this client was set up from.
    pub closed spec fn registry(&self) -> Map<Seq<char>, Principal> {
        self.config@
    }

    #[verifier::type_invariant]
    spec fn bound(&self) -> bool {
        &&& self.bf.key() == self.identity@.secret
        &&& self.config@.dom().contains(self.identity@.name)
        &&& self.config@[self.identity@.name] == self.identity@
    }

    /// The endpoint of the server, as `address:port`.
    pub closed spec fn endpoint(&self) -> Seq<char> {
        self.server_address@
    }

    /// A client session for the registered client `clientName` with the
    /// registered server `serverName`.
    ///
    /// `None` exactly when the client's name is not registered, the server's
    /// name is not registered as a server, or the client's secret cannot key
    /// the cipher.
    #[allow(non_snake_case)]
    pub fn new(serverName: String, clientName: String, config: RfsConfig) -> (session: Option<Self>)
        ensures
            match session {
                Some(s) => {
                    &&& config@.dom().contains(clientName@)
                    &&& config@.dom().contains(serverName@)
                    &&& config@[serverName@].endpoint matches Some((host, port))
                    &&& valid_key_len(config@[clientName@].secret.len())
                    &&& s.name() == clientName@
                    &&& s.secret() == config@[clientName@].secret
                    &&& s.endpoint() == endpoint_text(host, port)
                    &&& s.registry() == config@
                },
                None => {
                    ||| !config@.dom().contains(clientName@)
                    ||| !config@.dom().contains(serverName@)
                    ||| config@[serverName@].endpoint.is_none()
                    ||| !valid_key_len(config@[clientName@].secret.len())
                },
            },
    {
        let identity = match config.get_from_name(clientName) {
            Ok(id) => id.clone(),
            Err(_) => {
                return None;
            },
        };
        let server_address = match config.get_server_address(serverName) {
            Some(address) => address,
            None => {
                return None;
            },
        };
        let bf = match get_cipher(identity.get_secret()) {
            Ok(bf) => bf,
            Err(_) => {
                return None;
            },
        };
        Some(RfsClientSession { config, identity, server_address, bf })
    }

    /// The endpoint to connect to.
    pub fn server_address(&self) -> (address: &String)
        ensures
            address@ == self.endpoint(),
    {
        &self.server_address
    }

    /// The identity of this client: its entry in the registry.
    pub fn identity(&self) -> (identity: &Field)
        ensures
            identity@.name == self.name(),
            identity@.secret == self.secret(),
            self.registry().dom().contains(self.name()),
            self.registry()[self.name()] == identity@,
    {
        proof {
            use_type_invariant(self);
        }
        &self.identity
    }

    /// The registry that this client was set up from.
    pub fn config(&self) -> (config: &RfsConfig)
        ensures
            config@ == self.registry(),
    {
        &self.config
    }

    /// Enters a handshake: the server speaks first.
    pub fn open(&self) -> (r: (ClientState, Action))
        ensures
            (r.0@, r.1@) == client_opening(),
    {
        (ClientState::Connected, Action::Receive)
    }

    /// Answers the challenge line.
    fn answer(&self, line: &str) -> (r: (ClientState, Action))
        ensures
            (r.0@, r.1@) == answered(line@, self.name(), self.secret()),
            r.0@ matches ClientPhase::IdentitySent { response } ==> response.len() == BLOCK_SIZE,
    {
        proof {
            use_type_invariant(self);
        }
        match get_challenge(line) {
            Ok(challenge) => match get_challenge_response(&challenge, &self.bf) {
                Ok(response) => (
                    ClientState::IdentitySent { response },
                    Action::Send(send_identity(self.identity.get_name())),
                ),
                Err(e) => rejected(e),
            },
            Err(e) => rejected(e),
        }
    }

    /// Takes the handshake one step further.
    ///
    /// A response that was computed is one block long, and the response line
    /// that goes out carries the response in a form that the server can read
    /// back.
    pub fn step(&self, state: ClientState, event: Event) -> (r: (ClientState, Action))
        ensures
            (r.0@, r.1@) == client_next(state@, event@, self.name(), self.secret()),
            r.0@ matches ClientPhase::IdentitySent { response } ==> response.len() == BLOCK_SIZE,
            state@ matches ClientPhase::IdentitySent { response } ==> (event@ is Sent
                && encoded_len(response.len()) <= max_decode_len() ==> decoded(
                without_terminator(response_line(response)),
            ) == Some(response)),
    {
        match state {
            ClientState::Authenticated => (ClientState::Authenticated, Action::Stop),
            ClientState::Rejected { reason } => (ClientState::Rejected { reason }, Action::Stop),
            ClientState::Connected => match event {
                Event::Closed => rejected(HandshakeError::Disconnected),
                Event::Sent => rejected(HandshakeError::ProtocolError),
                Event::Line(_) => (ClientState::AwaitingChallenge, Action::Receive),
            },
            ClientState::AwaitingChallenge => match event {
                Event::Closed => rejected(HandshakeError::Disconnected),
                Event::Sent => rejected(HandshakeError::ProtocolError),
                Event::Line(line) => self.answer(line.as_str()),
            },
            ClientState::IdentitySent { response } => match event {
                Event::Closed => rejected(HandshakeError::Disconnected),
                Event::Sent => (
                    ClientState::ResponseSent,
                    Action::Send(send_challenge_response(&response)),
                ),
                Event::Line(_) => rejected(HandshakeError::ProtocolError),
            },
            ClientState::ResponseSent => match event {
                Event::Closed => rejected(HandshakeError::Disconnected),
                Event::Sent => (ClientState::ResponseSent, Action::Receive),
                Event::Line(line) => {
                    if line == "Client authenticated\n".to_owned() {
                        (ClientState::Authenticated, Action::Stop)
                    } else {
                        rejected(HandshakeError::AuthenticationError)
                    }
                },
            },
        }
    }
}

} // verus!
