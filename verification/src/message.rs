//! Application messages and their binary form.

use vstd::bytes::*;
use vstd::prelude::*;
use vstd::string::*;

verus! {

/// Largest binary form, in bytes, that a message may have.
pub const MAX_MESSAGE_LEN: usize = 512;

/// Why a message has no binary form to send.
#[derive(Clone, Copy, Debug, PartialEq, Eq, Structural)]
pub enum SerializationError {
    /// The binary form is longer than `MAX_MESSAGE_LEN` bytes.
    PayloadTooLarge,
    /// The message cannot be encoded at all.
    SerializationFailed,
}

/// Whether `prefix` is how `bytes` starts.
pub open spec fn is_prefix(prefix: Seq<u8>, bytes: Seq<u8>) -> bool {
    prefix.len() <= bytes.len() && bytes.subrange(0, prefix.len() as int) == prefix
}

/// An application message that can be sent as bytes.
pub trait Message: Sized {
    /// The binary form of the message, whatever its length; `None` where the
    /// message has none. A message has none unless its type says otherwise.
    open spec fn wire(&self) -> Option<Seq<u8>> {
        None
    }

    /// The binary form of the message.
    ///
    /// Fails with `PayloadTooLarge` exactly when the binary form is longer
    /// than `MAX_MESSAGE_LEN` bytes, and with `SerializationFailed` exactly
    /// when there is none.
    fn serialize(&self) -> (r: Result<Vec<u8>, SerializationError>)
        ensures
            match r {
                Ok(v) => self.wire() == Some(v@) && v@.len() <= MAX_MESSAGE_LEN,
                Err(SerializationError::PayloadTooLarge) => {
                    &&& self.wire() matches Some(w)
                    &&& w.len() > MAX_MESSAGE_LEN
                },
                Err(SerializationError::SerializationFailed) => self.wire().is_none(),
            },
    ;

    /// The message whose binary form `slice` starts with. Bytes after it are
    /// not looked at.
    fn deserialize(slice: &[u8]) -> (r: Option<Self>)
        ensures
            match r {
                Some(m) => m.wire() matches Some(w) && is_prefix(w, slice@),
                None => forall|m: Self|
                    (#[trigger] m.wire()).is_some() ==> !is_prefix(m.wire().unwrap(), slice@),
            },
    ;
}

/// What a write request says, as contracts speak of it.
pub struct WriteRequest {
    pub content: Seq<u8>,
    pub position: u64,
    pub filename: Seq<u8>,
}

/// The binary form of a write request: the content as a byte string, the
/// position, the file name as a byte string. A byte string is its length as
/// eight little-endian bytes followed by the bytes; the position is eight
/// little-endian bytes.
pub open spec fn wire_bytes(content: Seq<u8>, position: u64, filename: Seq<u8>) -> Seq<u8> {
    spec_u64_to_le_bytes(content.len() as u64) + content + spec_u64_to_le_bytes(position)
        + spec_u64_to_le_bytes(filename.len() as u64) + filename
}

/// Length of the binary form of a write request.
pub open spec fn wire_len(content_len: nat, filename_len: nat) -> nat {
    24 + content_len + filename_len
}

/// Calls `bincode::serialize` on the three fields with a `Bounded` size limit.
///
/// Trusted: the fields are written in order in bincode's little-endian
/// layout, and the call fails exactly when that takes more than `limit`
/// bytes.
#[verifier::external_body]
fn bincode_serialize(content: &Vec<u8>, position: u64, filename: &Vec<u8>, limit: u64) -> (out:
    Option<Vec<u8>>)
    ensures
        match out {
            Some(v) => v@ == wire_bytes(content@, position, filename@) && wire_len(
                content@.len(),
                filename@.len(),
            ) <= limit,
            None => wire_len(content@.len(), filename@.len()) > limit,
        },
{
    bincode::serialize(&(content, position, filename), bincode::Bounded(limit)).ok()
}

/// Calls `bincode::deserialize` for a byte string, an integer and a byte
/// string.
///
/// Trusted: the call succeeds exactly when `bytes` starts with the binary
/// form of three such fields, and then returns them.
#[verifier::external_body]
fn bincode_deserialize(bytes: &[u8]) -> (out: Option<(Vec<u8>, u64, Vec<u8>)>)
    ensures
        match out {
            Some(fields) => is_prefix(wire_bytes(fields.0@, fields.1, fields.2@), bytes@),
            None => forall|content: Seq<u8>, position: u64, filename: Seq<u8>|
                content.len() <= usize::MAX && filename.len() <= usize::MAX ==> !is_prefix(
                    #[trigger] wire_bytes(content, position, filename),
                    bytes@,
                ),
        },
{
    bincode::deserialize::<(Vec<u8>, u64, Vec<u8>)>(bytes).ok()
}

/// A request to write `content` at `position` of the file `filename`.
pub struct WriteFile {
    content: Vec<u8>,
    position: u64,
    filename: Vec<u8>,
}

impl View for WriteFile {
    type V = WriteRequest;

    closed spec fn view(&self) -> WriteRequest {
        WriteRequest {
            content: self.content@,
            position: self.position,
            filename: self.filename@,
        }
    }
}

impl WriteFile {
    /// A write request; the file name is kept as its UTF-8 bytes.
    pub fn new(content: Vec<u8>, position: u64, name: &str) -> (wf: Self)
        ensures
            wf@.content == content@,
            wf@.position == position,
            wf@.filename == name.spec_bytes(),
    {
        WriteFile { content: content, position: position, filename: name.as_bytes_vec() }
    }

    /// The bytes to write.
    pub fn content(&self) -> (content: &Vec<u8>)
        ensures
            content@ == self@.content,
    {
        &self.content
    }

    /// Where in the file to write.
    pub fn position(&self) -> (position: u64)
        ensures
            position == self@.position,
    {
        self.position
    }

    /// The file name, as bytes.
    pub fn filename(&self) -> (filename: &Vec<u8>)
        ensures
            filename@ == self@.filename,
    {
        &self.filename
    }
}

/// The binary form of a write request is 24 bytes longer than its content and
/// file name together.
pub proof fn lemma_wire_len(content: Seq<u8>, position: u64, filename: Seq<u8>)
    ensures
        wire_bytes(content, position, filename).len() == wire_len(content.len(), filename.len()),
{
    lemma_auto_spec_u64_to_from_le_bytes();
}

/// The parts of a binary form, by position.
proof fn lemma_wire_parts(content: Seq<u8>, position: u64, filename: Seq<u8>)
    ensures
        ({
            let w = wire_bytes(content, position, filename);
            let n = content.len() as int;
            &&& w.len() == 24 + n + filename.len()
            &&& w.subrange(0, 8) == spec_u64_to_le_bytes(content.len() as u64)
            &&& w.subrange(8, 8 + n) == content
            &&& w.subrange(8 + n, 16 + n) == spec_u64_to_le_bytes(position)
            &&& w.subrange(16 + n, 24 + n) == spec_u64_to_le_bytes(filename.len() as u64)
            &&& w.subrange(24 + n, w.len() as int) == filename
        }),
{
    lemma_auto_spec_u64_to_from_le_bytes();
    let w = wire_bytes(content, position, filename);
    let n = content.len() as int;
    assert(w.subrange(0, 8) =~= spec_u64_to_le_bytes(content.len() as u64));
    assert(w.subrange(8, 8 + n) =~= content);
    assert(w.subrange(8 + n, 16 + n) =~= spec_u64_to_le_bytes(position));
    assert(w.subrange(16 + n, 24 + n) =~= spec_u64_to_le_bytes(filename.len() as u64));
    assert(w.subrange(24 + n, w.len() as int) =~= filename);
}

/// A byte string starts with the binary form of at most one write request:
/// two requests whose binary forms both start it are the same request.
pub proof fn lemma_wire_prefix_unique(
    bytes: Seq<u8>,
    content1: Seq<u8>,
    position1: u64,
    filename1: Seq<u8>,
    content2: Seq<u8>,
    position2: u64,
    filename2: Seq<u8>,
)
    requires
        content1.len() <= u64::MAX,
        filename1.len() <= u64::MAX,
        content2.len() <= u64::MAX,
        filename2.len() <= u64::MAX,
        is_prefix(wire_bytes(content1, position1, filename1), bytes),
        is_prefix(wire_bytes(content2, position2, filename2), bytes),
    ensures
        content1 == content2,
        position1 == position2,
        filename1 == filename2,
{
    lemma_auto_spec_u64_to_from_le_bytes();
    lemma_wire_parts(content1, position1, filename1);
    lemma_wire_parts(content2, position2, filename2);
    let w1 = wire_bytes(content1, position1, filename1);
    let w2 = wire_bytes(content2, position2, filename2);
    let n1 = content1.len() as int;
    let n2 = content2.len() as int;
    assert(w1.subrange(0, 8) =~= bytes.subrange(0, 8));
    assert(w2.subrange(0, 8) =~= bytes.subrange(0, 8));
    assert(spec_u64_from_le_bytes(spec_u64_to_le_bytes(content1.len() as u64))
        == spec_u64_from_le_bytes(spec_u64_to_le_bytes(content2.len() as u64)));
    assert(n1 == n2);
    assert(w1.subrange(8, 8 + n1) =~= bytes.subrange(8, 8 + n1));
    assert(w2.subrange(8, 8 + n1) =~= bytes.subrange(8, 8 + n1));
    assert(w1.subrange(8 + n1, 16 + n1) =~= bytes.subrange(8 + n1, 16 + n1));
    assert(w2.subrange(8 + n1, 16 + n1) =~= bytes.subrange(8 + n1, 16 + n1));
    assert(spec_u64_from_le_bytes(spec_u64_to_le_bytes(position1)) == spec_u64_from_le_bytes(
        spec_u64_to_le_bytes(position2),
    ));
    assert(w1.subrange(16 + n1, 24 + n1) =~= bytes.subrange(16 + n1, 24 + n1));
    assert(w2.subrange(16 + n1, 24 + n1) =~= bytes.subrange(16 + n1, 24 + n1));
    assert(spec_u64_from_le_bytes(spec_u64_to_le_bytes(filename1.len() as u64))
        == spec_u64_from_le_bytes(spec_u64_to_le_bytes(filename2.len() as u64)));
    assert(filename1.len() == filename2.len());
    assert(w1.subrange(24 + n1, w1.len() as int) =~= bytes.subrange(24 + n1, w1.len() as int));
    assert(w2.subrange(24 + n1, w1.len() as int) =~= bytes.subrange(24 + n1, w1.len() as int));
}

impl Message for WriteFile {
    open spec fn wire(&self) -> Option<Seq<u8>> {
        Some(wire_bytes(self@.content, self@.position, self@.filename))
    }

    fn serialize(&self) -> (r: Result<Vec<u8>, SerializationError>) {
        proof {
            lemma_wire_len(self@.content, self@.position, self@.filename);
        }
        match bincode_serialize(&self.content, self.position, &self.filename, MAX_MESSAGE_LEN as u64) {
            Some(v) => Ok(v),
            None => Err(SerializationError::PayloadTooLarge),
        }
    }

    /// Reads a write request back: what was serialized comes out again,
    /// whatever follows it.
    fn deserialize(slice: &[u8]) -> (r: Option<Self>)
        ensures
            forall|content: Seq<u8>, position: u64, filename: Seq<u8>|
                content.len() <= u64::MAX && filename.len() <= u64::MAX && is_prefix(
                    #[trigger] wire_bytes(content, position, filename),
                    slice@,
                ) ==> r.is_some() && r.unwrap()@ == (WriteRequest { content, position, filename }),
    {
        match bincode_deserialize(slice) {
            Some(fields) => {
                let (content, position, filename) = fields;
                proof {
                    assert forall|c: Seq<u8>, p: u64, f: Seq<u8>|
                        c.len() <= u64::MAX && f.len() <= u64::MAX && is_prefix(
                            #[trigger] wire_bytes(c, p, f),
                            slice@,
                        ) implies c == content@ && p == position && f == filename@ by {
                        assert(content.len() == content@.len());
                        assert(filename.len() == filename@.len());
                        lemma_wire_prefix_unique(slice@, c, p, f, content@, position, filename@);
                    }
                }
                Some(WriteFile { content, position, filename })
            },
            None => {
                proof {
                    assert(slice.len() == slice@.len());
                    assert forall|c: Seq<u8>, p: u64, f: Seq<u8>|
                        c.len() <= u64::MAX && f.len() <= u64::MAX implies !is_prefix(
                            #[trigger] wire_bytes(c, p, f),
                            slice@,
                        ) by {
                        lemma_wire_len(c, p, f);
                    }
                    assert forall|m: Self| (#[trigger] m.wire()).is_some() implies !is_prefix(
                        m.wire().unwrap(),
                        slice@,
                    ) by {
                        assert(m.content.len() == m.content@.len());
                        assert(m.filename.len() == m.filename@.len());
                        assert(m.wire().unwrap() == wire_bytes(
                            m.content@,
                            m.position,
                            m.filename@,
                        ));
                        assert(!is_prefix(wire_bytes(m.content@, m.position, m.filename@), slice@));
                    }
                }
                None
            },
        }
    }
}

} // verus!
