//! Definitions shared by the client and the server side.

use crate::cipher::{valid_key_len, CipherError, KeyedCipher};
use crate::config::Field;
use crate::text::without_terminator;
use vstd::prelude::*;
use vstd::string::*;

verus! {

/// A principal's pre-shared secret.
pub type BlowfishKey = Vec<u8>;

/// A one-time nonce, one cipher block long.
pub type Challenge = Vec<u8>;

/// Returns a cipher bound to `key`.
///
/// Fails with `InvalidKey` exactly when the cipher cannot be keyed with a
/// secret of that length; an empty secret never keys it.
pub fn get_cipher(key: &BlowfishKey) -> (r: Result<KeyedCipher, CipherError>)
    ensures
        match r {
            Ok(c) => valid_key_len(key@.len()) && c.key() == key@ && c.wf(),
            Err(e) => !valid_key_len(key@.len()) && e == CipherError::InvalidKey,
        },
{
    KeyedCipher::new(key)
}

/// A trait for named things.
pub trait Named {
    type Name;

    /// The name, as contracts speak of it.
    spec fn name_of(&self) -> Self::Name;

    fn get_name(&self) -> (name: &Self::Name)
        ensures
            *name == self.name_of(),
    ;
}

/// Identity trait. Encapsulates a name and a secret.
pub trait Identity: Clone + Named<Name = String> + Sized {
    /// The secret, as contracts speak of it.
    spec fn secret_of(&self) -> BlowfishKey;

    fn get_secret(&self) -> (secret: &BlowfishKey)
        ensures
            *secret == self.secret_of(),
    ;
}

/// A client identity.
pub struct Client {
    key: BlowfishKey,
    name: String,
}

impl Client {
    pub fn new(n: String, k: BlowfishKey) -> (c: Client)
        ensures
            c.name_of() == n,
            c.secret_of() == k,
    {
        Client { name: n, key: k }
    }
}

impl Clone for Client {
    fn clone(&self) -> (c: Self)
        ensures
            c.name_of()@ == self.name_of()@,
            c.secret_of()@ == self.secret_of()@,
    {
        Client { name: self.name.clone(), key: self.key.clone() }
    }
}

impl Named for Client {
    type Name = String;

    closed spec fn name_of(&self) -> String {
        self.name
    }

    fn get_name(&self) -> (name: &String) {
        &self.name
    }
}

impl Identity for Client {
    closed spec fn secret_of(&self) -> BlowfishKey {
        self.key
    }

    fn get_secret(&self) -> (secret: &BlowfishKey) {
        &self.key
    }
}

/// Why a handshake ended without authentication.
#[derive(Clone, Copy, Debug, PartialEq, Eq, Structural)]
pub enum HandshakeError {
    /// The claimed name is not in the registry.
    UnknownPrincipal,
    /// The principal's secret cannot key the cipher.
    InvalidKey,
    /// A line does not have the form that the protocol asks for, or came
    /// when none was due.
    ProtocolError,
    /// The response is not the expected one.
    AuthenticationError,
    /// The peer went away, or the transport failed.
    Disconnected,
}

/// What the transport reports to a handshake.
pub enum Event {
    /// The text of the last action went out.
    Sent,
    /// A line came in, terminator included.
    Line(String),
    /// The peer went away, or reading or writing failed.
    Closed,
}

/// An event, as contracts speak of it.
pub enum EventView {
    Sent,
    Line(Seq<char>),
    Closed,
}

impl View for Event {
    type V = EventView;

    open spec fn view(&self) -> EventView {
        match self {
            Event::Sent => EventView::Sent,
            Event::Line(l) => EventView::Line(l@),
            Event::Closed => EventView::Closed,
        }
    }
}

/// What a handshake asks of the transport next.
pub enum Action {
    /// Write the text to the peer and report `Sent`.
    Send(String),
    /// Read one line from the peer and report it.
    Receive,
    /// Nothing more: the handshake is over.
    Stop,
}

/// An action, as contracts speak of it.
pub enum ActionView {
    Send(Seq<char>),
    Receive,
    Stop,
}

impl View for Action {
    type V = ActionView;

    open spec fn view(&self) -> ActionView {
        match self {
            Action::Send(t) => ActionView::Send(t@),
            Action::Receive => ActionView::Receive,
            Action::Stop => ActionView::Stop,
        }
    }
}

/// The line that tells a client that it is authenticated.
pub open spec fn success_line() -> Seq<char> {
    "Client authenticated\n"@
}

/// The line that tells a client that it is not.
pub open spec fn failure_line() -> Seq<char> {
    "Authentication failure. Aborting.\n"@
}

/// Strips the line terminator: a trailing newline is dropped. A line that
/// does not end in a newline, as the last line of a peer that went away may,
/// is returned as it is.
pub fn remove_newline(s: String) -> (line: String)
    ensures
        line@ == without_terminator(s@),
{
    let n: usize = s.as_str().unicode_len();
    if n > 0 && s.as_str().get_char(n - 1) == '\n' {
        let line = s.as_str().substring_char(0, n - 1).to_owned();
        proof {
            assert(s@.subrange(0, n - 1) == s@.drop_last());
        }
        line
    } else {
        s
    }
}

/// The greeting for a principal.
pub open spec fn welcome_text(name: Seq<char>, endpoint: Option<(Seq<char>, Seq<char>)>) -> Seq<
    char,
> {
    match endpoint {
        Some((address, port)) => "Welcome on server "@ + name + " at "@ + address + ":"@ + port,
        None => "Welcome on client "@ + name,
    }
}

/// The welcome message for a principal, for the caller to log.
pub fn welcome(s: Field) -> (text: String)
    ensures
        text@ == welcome_text(s@.name, s@.endpoint),
{
    match s {
        Field::Server { name, key: _, address, port } => {
            "Welcome on server ".to_owned().concat(name.as_str()).concat(" at ").concat(
                address.as_str(),
            ).concat(":").concat(port.as_str())
        },
        Field::Client { name, key: _ } => "Welcome on client ".to_owned().concat(name.as_str()),
    }
}

} // verus!
