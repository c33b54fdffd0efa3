//! The registry of principals: clients and servers with their secrets, and
//! for servers the endpoint they listen on.

use crate::cipher::{valid_key_len, KeyedCipher};
use crate::encoding::{decode, decoded};
use crate::rfs_common::{BlowfishKey, Identity, Named};
use crate::text::{lemma_split_nonempty, split, split_fields, views};
use vstd::prelude::*;
use vstd::string::*;

verus! {

/// What a registry entry says, as contracts speak of it.
pub struct Principal {
    pub name: Seq<char>,
    pub secret: Seq<u8>,
    /// Address and port, for a server entry.
    pub endpoint: Option<(Seq<char>, Seq<char>)>,
}

/// Fields of the config, either a client or a server.
pub enum Field {
    Client { name: String, key: BlowfishKey },
    Server { name: String, key: BlowfishKey, address: String, port: String },
}

impl View for Field {
    type V = Principal;

    open spec fn view(&self) -> Principal {
        match self {
            Field::Client { name, key } => Principal { name: name@, secret: key@, endpoint: None },
            Field::Server { name, key, address, port } => Principal {
                name: name@,
                secret: key@,
                endpoint: Some((address@, port@)),
            },
        }
    }
}

impl Clone for Field {
    fn clone(&self) -> (c: Self)
        ensures
            c@ == self@,
            c is Client <==> self is Client,
    {
        match self {
            Field::Client { name, key } => Field::Client { name: name.clone(), key: key.clone() },
            Field::Server { name, key, address, port } => Field::Server {
                name: name.clone(),
                key: key.clone(),
                address: address.clone(),
                port: port.clone(),
            },
        }
    }
}

impl Named for Field {
    type Name = String;

    open spec fn name_of(&self) -> String {
        match self {
            Field::Client { name, .. } => *name,
            Field::Server { name, .. } => *name,
        }
    }

    fn get_name(&self) -> (name: &String)
        ensures
            name@ == self@.name,
    {
        match self {
            Field::Client { name, .. } => name,
            Field::Server { name, .. } => name,
        }
    }
}

impl Identity for Field {
    open spec fn secret_of(&self) -> BlowfishKey {
        match self {
            Field::Client { key, .. } => *key,
            Field::Server { key, .. } => *key,
        }
    }

    fn get_secret(&self) -> (secret: &BlowfishKey)
        ensures
            secret@ == self@.secret,
    {
        match self {
            Field::Client { key, .. } => key,
            Field::Server { key, .. } => key,
        }
    }
}

/// What went wrong with a registry operation.
#[derive(Debug)]
pub enum RfsConfigErrorKind {
    /// No principal of that name is registered.
    NoSuchName { name: String },
    /// A principal of that name is registered already.
    DuplicateName { name: String },
}

/// The error type for registry operations.
#[derive(Debug)]
pub struct RfsConfigError {
    pub kind: RfsConfigErrorKind,
}

impl RfsConfigError {
    /// A short description of the error.
    pub fn description(&self) -> (text: &'static str)
        ensures
            self.kind is NoSuchName ==> text@
                == "There is no client or server with such name in the config."@,
            self.kind is DuplicateName ==> text@
                == "A client or server with this name is in the config already."@,
    {
        match self.kind {
            RfsConfigErrorKind::NoSuchName { .. } => {
                "There is no client or server with such name in the config."
            },
            RfsConfigErrorKind::DuplicateName { .. } => {
                "A client or server with this name is in the config already."
            },
        }
    }
}

/// The first of `entries` that goes by `name`.
pub open spec fn lookup_in(entries: Seq<Principal>, name: Seq<char>) -> Option<Principal>
    decreases entries.len(),
{
    if entries.len() == 0 {
        None
    } else {
        match lookup_in(entries.drop_last(), name) {
            Some(p) => Some(p),
            None => if entries.last().name == name {
                Some(entries.last())
            } else {
                None
            },
        }
    }
}

/// The mapping from name to principal that `entries` stand for.
pub open spec fn registry_of(entries: Seq<Principal>) -> Map<Seq<char>, Principal> {
    Map::new(
        |name: Seq<char>| lookup_in(entries, name).is_some(),
        |name: Seq<char>| lookup_in(entries, name).unwrap(),
    )
}

/// No two of `entries` share a name.
pub open spec fn distinct_names(entries: Seq<Principal>) -> bool {
    forall|i: int, j: int|
        0 <= i < j < entries.len() ==> (#[trigger] entries[i]).name != (#[trigger] entries[j]).name
}

/// A lookup finds the entry at `at` when no earlier entry goes by `name`.
pub proof fn lemma_lookup_first(entries: Seq<Principal>, name: Seq<char>, at: int)
    requires
        0 <= at <= entries.len(),
        forall|j: int| 0 <= j < at ==> (#[trigger] entries[j]).name != name,
        at < entries.len() ==> entries[at].name == name,
    ensures
        at < entries.len() ==> lookup_in(entries, name) == Some(entries[at]),
        at == entries.len() ==> lookup_in(entries, name).is_none(),
    decreases entries.len(),
{
    if entries.len() > 0 {
        let head = entries.drop_last();
        if at < head.len() {
            lemma_lookup_first(head, name, at);
        } else {
            assert forall|j: int| 0 <= j < head.len() implies (#[trigger] head[j]).name
                != name by {
                assert(head[j] == entries[j]);
            }
            lemma_lookup_first(head, name, head.len() as int);
        }
    }
}

/// A name that is found belongs to one of the entries, and is the name of
/// what was found.
pub proof fn lemma_lookup_found(entries: Seq<Principal>, name: Seq<char>)
    requires
        lookup_in(entries, name).is_some(),
    ensures
        lookup_in(entries, name).unwrap().name == name,
        exists|i: int| 0 <= i < entries.len() && entries[i] == lookup_in(entries, name).unwrap(),
    decreases entries.len(),
{
    if entries.len() > 0 {
        let head = entries.drop_last();
        if lookup_in(head, name).is_some() {
            lemma_lookup_found(head, name);
            let i = choose|i: int| 0 <= i < head.len() && head[i] == lookup_in(head, name).unwrap();
            assert(entries[i] == head[i]);
        } else {
            assert(entries[entries.len() - 1] == entries.last());
        }
    }
}

/// A configuration, which can be retrieved by a name and updated.
pub trait Config {
    type Name;

    type Field: Named;

    type ErrorType;

    fn get_from_name(&self, name: Self::Name) -> Result<&Self::Field, Self::ErrorType>;

    fn add_field(&mut self, f: Self::Field) -> Result<(), Self::ErrorType>;
}

/// A configuration for the RFS.
pub struct RfsConfig {
    fields: Vec<Field>,
}

impl RfsConfig {
    /// The entries in the order in which they were added.
    pub closed spec fn entries(&self) -> Seq<Principal> {
        Seq::new(self.fields@.len(), |i: int| self.fields@[i]@)
    }

    /// Every name is registered once.
    pub open spec fn wf(&self) -> bool {
        distinct_names(self.entries())
    }

    /// Construct a new empty configuration.
    pub fn new() -> (config: Self)
        ensures
            config.entries() == Seq::<Principal>::empty(),
            config@ == Map::<Seq<char>, Principal>::empty(),
            config.wf(),
    {
        let config = RfsConfig { fields: Vec::new() };
        proof {
            assert(config.entries() == Seq::<Principal>::empty());
            assert(config@ == Map::<Seq<char>, Principal>::empty());
        }
        config
    }

    /// Number of registered principals.
    pub fn len(&self) -> (n: usize)
        ensures
            n == self.entries().len(),
    {
        self.fields.len()
    }

    /// Position of the entry that goes by `name`, if there is one.
    fn position(&self, name: &String) -> (at: usize)
        ensures
            at <= self.fields@.len(),
            forall|j: int| 0 <= j < at ==> (#[trigger] self.entries()[j]).name != name@,
            at < self.fields@.len() ==> self.entries()[at as int].name == name@,
            at < self.fields@.len() ==> lookup_in(self.entries(), name@) == Some(
                self.entries()[at as int],
            ),
            at == self.fields@.len() ==> lookup_in(self.entries(), name@).is_none(),
    {
        let n: usize = self.fields.len();
        let mut i: usize = 0;
        while i < n
            invariant
                n == self.fields@.len(),
                i <= n,
                forall|j: int| 0 <= j < i ==> (#[trigger] self.entries()[j]).name != name@,
            decreases n - i,
        {
            if *self.fields[i].get_name() == *name {
                proof {
                    lemma_lookup_first(self.entries(), name@, i as int);
                }
                return i;
            }
            i = i + 1;
        }
        proof {
            lemma_lookup_first(self.entries(), name@, i as int);
        }
        i
    }

    /// The address of the named server, as `address:port`.
    ///
    /// `None` where no principal goes by that name, and where the one that
    /// does is a client.
    pub fn get_server_address(&self, server_name: String) -> (address: Option<String>)
        ensures
            match address {
                Some(a) => {
                    &&& self@.dom().contains(server_name@)
                    &&& self@[server_name@].endpoint matches Some((host, port))
                    &&& a@ == endpoint_text(host, port)
                },
                None => !self@.dom().contains(server_name@)
                    || self@[server_name@].endpoint.is_none(),
            },
    {
        match self.get_from_name(server_name) {
            Ok(Field::Client { .. }) => None,
            Ok(Field::Server { address, port, .. }) => {
                let text = address.clone().concat(":").concat(port.as_str());
                Some(text)
            },
            Err(_) => None,
        }
    }
}

/// An endpoint as one text: address, a colon, port.
pub open spec fn endpoint_text(address: Seq<char>, port: Seq<char>) -> Seq<char> {
    address + ":"@ + port
}

impl View for RfsConfig {
    type V = Map<Seq<char>, Principal>;

    open spec fn view(&self) -> Map<Seq<char>, Principal> {
        registry_of(self.entries())
    }
}

impl Clone for RfsConfig {
    fn clone(&self) -> (c: Self)
        ensures
            c.entries() == self.entries(),
            c@ == self@,
            c.wf() == self.wf(),
    {
        let n: usize = self.fields.len();
        let mut fields: Vec<Field> = Vec::new();
        let mut i: usize = 0;
        while i < n
            invariant
                n == self.fields@.len(),
                i <= n,
                fields@.len() == i,
                forall|j: int| 0 <= j < i ==> (#[trigger] fields@[j])@ == self.fields@[j]@,
            decreases n - i,
        {
            fields.push(self.fields[i].clone());
            i = i + 1;
        }
        let c = RfsConfig { fields };
        proof {
            assert(c.entries() =~= self.entries());
        }
        c
    }
}

impl Config for RfsConfig {
    type Name = String;

    type Field = Field;

    type ErrorType = RfsConfigError;

    /// Looks a principal up by name.
    ///
    /// Fails with `NoSuchName`, carrying the name, exactly when nobody is
    /// registered under it.
    fn get_from_name(&self, name: String) -> (r: Result<&Field, RfsConfigError>)
        ensures
            match r {
                Ok(f) => self@.dom().contains(name@) && self@[name@] == f@ && f@.name == name@,
                Err(e) => {
                    &&& !self@.dom().contains(name@)
                    &&& e.kind matches RfsConfigErrorKind::NoSuchName { name: n }
                    &&& n@ == name@
                },
            },
    {
        let at: usize = self.position(&name);
        if at < self.fields.len() {
            Ok(&self.fields[at])
        } else {
            Err(RfsConfigError { kind: RfsConfigErrorKind::NoSuchName { name } })
        }
    }

    /// Registers a principal.
    ///
    /// Fails with `DuplicateName` exactly when the name is taken; the registry
    /// is then left as it was. Otherwise the principal is added and every
    /// other name keeps its entry.
    fn add_field(&mut self, f: Field) -> (r: Result<(), RfsConfigError>)
        ensures
            match r {
                Ok(_) => {
                    &&& !old(self)@.dom().contains(f@.name)
                    &&& final(self).entries() == old(self).entries().push(f@)
                    &&& final(self)@ == old(self)@.insert(f@.name, f@)
                },
                Err(e) => {
                    &&& old(self)@.dom().contains(f@.name)
                    &&& final(self).entries() == old(self).entries()
                    &&& final(self)@ == old(self)@
                    &&& e.kind matches RfsConfigErrorKind::DuplicateName { name: n }
                    &&& n@ == f@.name
                },
            },
            old(self).wf() ==> final(self).wf(),
    {
        let at: usize = self.position(f.get_name());
        if at < self.fields.len() {
            Err(RfsConfigError { kind: RfsConfigErrorKind::DuplicateName { name: f.get_name().clone() } })
        } else {
            let ghost before = self.entries();
            let ghost p = f@;
            self.fields.push(f);
            proof {
                assert(self.entries() =~= before.push(p));
                assert(self.entries().drop_last() =~= before);
                assert forall|name: Seq<char>| #[trigger]
                    lookup_in(self.entries(), name) == (if name == p.name {
                        Some(p)
                    } else {
                        lookup_in(before, name)
                    }) by {
                    if lookup_in(before, name).is_some() {
                        lemma_lookup_found(before, name);
                    }
                }
                assert(self@ =~= registry_of(before).insert(p.name, p));
                if distinct_names(before) {
                    assert forall|i: int, j: int| 0 <= i < j < self.entries().len() implies (
                    #[trigger] self.entries()[i]).name != (#[trigger] self.entries()[j]).name by {
                        if j == before.len() {
                            assert(self.entries()[i] == before[i]);
                        } else {
                            assert(self.entries()[i] == before[i]);
                            assert(self.entries()[j] == before[j]);
                        }
                    }
                }
            }
            Ok(())
        }
    }
}

/// What one line of a registry file says.
pub enum LineMeaning {
    /// A principal to register.
    Entry(Principal),
    /// Neither a client nor a server line.
    Ignored,
    /// A client or server line with too few fields.
    TooFewFields,
    /// A client or server line whose key is not base64, or is a secret that
    /// the cipher cannot be keyed with.
    BadKey,
}

/// One parsed line of a registry file.
pub enum ParsedLine {
    /// A principal to register.
    Entry(Field),
    /// Neither a client nor a server line.
    Ignored,
    /// A client or server line with too few fields.
    TooFewFields,
    /// A client or server line whose key is not base64, or is a secret that
    /// the cipher cannot be keyed with.
    BadKey,
}

impl View for ParsedLine {
    type V = LineMeaning;

    open spec fn view(&self) -> LineMeaning {
        match self {
            ParsedLine::Entry(f) => LineMeaning::Entry(f@),
            ParsedLine::Ignored => LineMeaning::Ignored,
            ParsedLine::TooFewFields => LineMeaning::TooFewFields,
            ParsedLine::BadKey => LineMeaning::BadKey,
        }
    }
}

/// The secret that a key field stands for: what it decodes to, where that is
/// a secret that the cipher can be keyed with. An empty secret is none.
pub open spec fn secret_of_field(field: Seq<char>) -> Option<Seq<u8>> {
    match decoded(field) {
        Some(key) => if valid_key_len(key.len()) {
            Some(key)
        } else {
            None
        },
        None => None,
    }
}

/// How a line of a registry file reads.
///
/// Fields are separated by colons. A line that starts with the field `server`
/// needs a name, a base64 key, an address and a port; one that starts with
/// `client` needs a name and a base64 key. The key must be a secret that the
/// cipher can be keyed with. Further fields are not looked at. Any other line
/// says nothing.
pub open spec fn line_meaning(line: Seq<char>) -> LineMeaning {
    let f = split_fields(line, ':');
    if f[0] == "server"@ {
        if f.len() >= 5 {
            match secret_of_field(f[2]) {
                Some(key) => LineMeaning::Entry(
                    Principal { name: f[1], secret: key, endpoint: Some((f[3], f[4])) },
                ),
                None => LineMeaning::BadKey,
            }
        } else {
            LineMeaning::TooFewFields
        }
    } else if f[0] == "client"@ {
        if f.len() >= 3 {
            match secret_of_field(f[2]) {
                Some(key) => LineMeaning::Entry(
                    Principal { name: f[1], secret: key, endpoint: None },
                ),
                None => LineMeaning::BadKey,
            }
        } else {
            LineMeaning::TooFewFields
        }
    } else {
        LineMeaning::Ignored
    }
}

/// Reads the secret out of a key field.
fn read_secret(field: &str) -> (secret: Option<BlowfishKey>)
    ensures
        match secret {
            Some(key) => secret_of_field(field@) == Some(key@),
            None => secret_of_field(field@).is_none(),
        },
{
    match decode(field) {
        Some(key) => match KeyedCipher::new(&key) {
            Ok(_) => Some(key),
            Err(_) => None,
        },
        None => None,
    }
}

/// Reads one line of a registry file.
pub fn parse_line(line: &str) -> (parsed: ParsedLine)
    ensures
        parsed@ == line_meaning(line@),
        parsed matches ParsedLine::Entry(f) ==> (f is Server <==> f@.endpoint.is_some()),
{
    let fields = split(line, ':');
    proof {
        lemma_split_nonempty(line@, ':');
        assert(views(fields@).len() == fields@.len());
        assert forall|i: int| 0 <= i < fields@.len() implies #[trigger] fields@[i]@ == split_fields(
            line@,
            ':',
        )[i] by {
            assert(views(fields@)[i] == fields@[i]@);
        }
    }
    let is_server = fields[0] == "server".to_owned();
    let is_client = fields[0] == "client".to_owned();
    if is_server {
        if fields.len() >= 5 {
            match read_secret(fields[2].as_str()) {
                Some(key) => ParsedLine::Entry(
                    Field::Server {
                        name: fields[1].clone(),
                        key,
                        address: fields[3].clone(),
                        port: fields[4].clone(),
                    },
                ),
                None => ParsedLine::BadKey,
            }
        } else {
            ParsedLine::TooFewFields
        }
    } else if is_client {
        if fields.len() >= 3 {
            match read_secret(fields[2].as_str()) {
                Some(key) => ParsedLine::Entry(Field::Client { name: fields[1].clone(), key }),
                None => ParsedLine::BadKey,
            }
        } else {
            ParsedLine::TooFewFields
        }
    } else {
        ParsedLine::Ignored
    }
}

/// What became of one line while a registry was loaded.
#[derive(Clone, Copy, Debug, PartialEq, Eq, Structural)]
pub enum LineOutcome {
    /// The line registered a principal.
    Added,
    /// The line is neither a client nor a server line.
    Ignored,
    /// The line was skipped: it has too few fields.
    TooFewFields,
    /// The line was skipped: its key is not base64, or is a secret that the
    /// cipher cannot be keyed with.
    BadKey,
    /// The line was skipped: its name was registered by an earlier line.
    Duplicate,
}

/// What becomes of `line` when `before` is registered already.
pub open spec fn outcome_of(before: Seq<Principal>, line: Seq<char>) -> LineOutcome {
    match line_meaning(line) {
        LineMeaning::Entry(p) => if lookup_in(before, p.name).is_some() {
            LineOutcome::Duplicate
        } else {
            LineOutcome::Added
        },
        LineMeaning::Ignored => LineOutcome::Ignored,
        LineMeaning::TooFewFields => LineOutcome::TooFewFields,
        LineMeaning::BadKey => LineOutcome::BadKey,
    }
}

/// The entries that `lines` register, in file order: of two lines with one
/// name the first counts, and a line that cannot be read counts for nothing.
pub open spec fn loaded(lines: Seq<Seq<char>>) -> Seq<Principal>
    decreases lines.len(),
{
    if lines.len() == 0 {
        Seq::empty()
    } else {
        let before = loaded(lines.drop_last());
        match line_meaning(lines.last()) {
            LineMeaning::Entry(p) => if lookup_in(before, p.name).is_some() {
                before
            } else {
                before.push(p)
            },
            _ => before,
        }
    }
}

/// Every one of `entries` holds a secret that the cipher can be keyed with.
pub open spec fn secrets_fit(entries: Seq<Principal>) -> bool {
    forall|i: int| 0 <= i < entries.len() ==> valid_key_len((#[trigger] entries[i]).secret.len())
}

/// Whatever the lines, every principal that they register holds a secret
/// that the cipher can be keyed with; none holds an empty one.
pub proof fn lemma_loaded_secrets_fit(lines: Seq<Seq<char>>)
    ensures
        secrets_fit(loaded(lines)),
        forall|i: int| 0 <= i < loaded(lines).len() ==> (#[trigger] loaded(lines)[i]).secret.len() > 0,
    decreases lines.len(),
{
    if lines.len() > 0 {
        lemma_loaded_secrets_fit(lines.drop_last());
    }
}

/// Whether `line` registers a principal under `name`.
pub open spec fn registers(line: Seq<char>, name: Seq<char>) -> bool {
    line_meaning(line) matches LineMeaning::Entry(p) && p.name == name
}

/// A name that no line registers is not in the registry that the lines give.
pub proof fn lemma_unregistered_name_is_absent(lines: Seq<Seq<char>>, name: Seq<char>)
    requires
        forall|k: int| 0 <= k < lines.len() ==> !registers(#[trigger] lines[k], name),
    ensures
        lookup_in(loaded(lines), name).is_none(),
        !registry_of(loaded(lines)).dom().contains(name),
    decreases lines.len(),
{
    if lines.len() > 0 {
        let head = lines.drop_last();
        assert forall|k: int| 0 <= k < head.len() implies !registers(#[trigger] head[k], name) by {
            assert(head[k] == lines[k]);
        }
        lemma_unregistered_name_is_absent(head, name);
        assert(!registers(lines[lines.len() - 1], name));
        let before = loaded(head);
        match line_meaning(lines.last()) {
            LineMeaning::Entry(p) => {
                if lookup_in(before, p.name).is_none() {
                    assert(before.push(p).drop_last() == before);
                }
            },
            _ => {},
        }
    }
}

/// Of the lines that register one name the first counts: the registry holds
/// under that name what the first such line says, whatever later lines say.
pub proof fn lemma_first_line_wins(lines: Seq<Seq<char>>, at: int, p: Principal)
    requires
        0 <= at < lines.len(),
        line_meaning(lines[at]) == LineMeaning::Entry(p),
        forall|k: int| 0 <= k < at ==> !registers(#[trigger] lines[k], p.name),
    ensures
        lookup_in(loaded(lines), p.name) == Some(p),
        registry_of(loaded(lines)).dom().contains(p.name),
        registry_of(loaded(lines))[p.name] == p,
    decreases lines.len(),
{
    let head = lines.drop_last();
    let before = loaded(head);
    if at == lines.len() - 1 {
        assert forall|k: int| 0 <= k < head.len() implies !registers(#[trigger] head[k], p.name) by {
            assert(head[k] == lines[k]);
        }
        lemma_unregistered_name_is_absent(head, p.name);
        assert(lines.last() == lines[at]);
        assert(before.push(p).drop_last() == before);
    } else {
        assert(head[at] == lines[at]);
        assert forall|k: int| 0 <= k < at implies !registers(#[trigger] head[k], p.name) by {
            assert(head[k] == lines[k]);
        }
        lemma_first_line_wins(head, at, p);
        match line_meaning(lines.last()) {
            LineMeaning::Entry(q) => {
                if lookup_in(before, q.name).is_none() {
                    assert(before.push(q).drop_last() == before);
                }
            },
            _ => {},
        }
    }
}

impl RfsConfig {
    /// Every registered secret is one that the cipher can be keyed with. A
    /// registry that was loaded from lines is such a registry.
    pub open spec fn keyed(&self) -> bool {
        secrets_fit(self.entries())
    }

    /// Builds a registry from the lines of a registry file.
    ///
    /// Returns the registry and, for each line, what became of it. No line
    /// stops the load, and no principal with a secret that the cipher refuses
    /// is registered.
    pub fn load(lines: &Vec<String>) -> (r: (RfsConfig, Vec<LineOutcome>))
        ensures
            r.0.entries() == loaded(views(lines@)),
            r.0.wf(),
            r.0.keyed(),
            r.1@.len() == lines@.len(),
            forall|i: int|
                0 <= i < lines@.len() ==> #[trigger] r.1@[i] == outcome_of(
                    loaded(views(lines@).take(i)),
                    lines@[i]@,
                ),
    {
        let mut config = RfsConfig::new();
        let mut outcomes: Vec<LineOutcome> = Vec::new();
        let n: usize = lines.len();
        let mut i: usize = 0;
        proof {
            assert(views(lines@).take(0) == Seq::<Seq<char>>::empty());
        }
        while i < n
            invariant
                n == lines@.len(),
                i <= n,
                config.entries() == loaded(views(lines@).take(i as int)),
                config.wf(),
                outcomes@.len() == i,
                forall|k: int|
                    0 <= k < i ==> #[trigger] outcomes@[k] == outcome_of(
                        loaded(views(lines@).take(k)),
                        lines@[k]@,
                    ),
            decreases n - i,
        {
            proof {
                let next = views(lines@).take(i + 1);
                assert(next.drop_last() == views(lines@).take(i as int));
                assert(next.last() == lines@[i as int]@);
            }
            let outcome = match parse_line(lines[i].as_str()) {
                ParsedLine::Entry(f) => match config.add_field(f) {
                    Ok(_) => LineOutcome::Added,
                    Err(_) => LineOutcome::Duplicate,
                },
                ParsedLine::Ignored => LineOutcome::Ignored,
                ParsedLine::TooFewFields => LineOutcome::TooFewFields,
                ParsedLine::BadKey => LineOutcome::BadKey,
            };
            outcomes.push(outcome);
            i = i + 1;
        }
        proof {
            assert(views(lines@).take(n as int) == views(lines@));
            lemma_loaded_secrets_fit(views(lines@));
        }
        (config, outcomes)
    }
}

} // verus!
