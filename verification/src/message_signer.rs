//! Signing of messages, so that a receiver can tell that a message comes from
//! the holder of a shared secret.
//!
//! A message is serialized, all bytes of the serialized form are folded with
//! XOR into one checksum byte, and the block made of that byte and seven
//! zeros is encrypted under the secret. The tag is weak on purpose of
//! compatibility: payloads with the same checksum byte carry the same tag.

use crate::cipher::{blowfish_block, encrypts_only, CipherError, KeyedCipher, BLOCK_SIZE};
use crate::message::{Message, SerializationError, MAX_MESSAGE_LEN};
use crate::rfs_common::BlowfishKey;
use vstd::prelude::*;

verus! {

/// All of `bytes` folded with XOR; zero for no bytes.
pub open spec fn fold_xor(bytes: Seq<u8>) -> u8
    decreases bytes.len(),
{
    if bytes.len() == 0 {
        0
    } else {
        fold_xor(bytes.drop_last()) ^ bytes.last()
    }
}

/// The block that is encrypted for a checksum byte: the byte, then zeros.
pub open spec fn checksum_block(x: u8) -> Seq<u8> {
    seq![x, 0u8, 0u8, 0u8, 0u8, 0u8, 0u8, 0u8]
}

/// The tag of `payload` under `key`.
pub open spec fn signature_of(key: Seq<u8>, payload: Seq<u8>) -> Seq<u8> {
    blowfish_block(key, checksum_block(fold_xor(payload)))
}

/// Whether `signature` is the tag of payloads with the checksum of `payload`
/// and of no others: a payload with another checksum byte has another tag.
pub open spec fn tags_only(key: Seq<u8>, payload: Seq<u8>, signature: Seq<u8>) -> bool {
    &&& signature == signature_of(key, payload)
    &&& forall|other: Seq<u8>|
        fold_xor(other) != fold_xor(payload) ==> #[trigger] signature_of(key, other) != signature
}

/// Whether every change of one byte of `payload` makes `signature` a wrong
/// tag for it.
pub open spec fn notices_single_byte_change(
    key: Seq<u8>,
    payload: Seq<u8>,
    signature: Seq<u8>,
) -> bool {
    forall|at: int, byte: u8|
        0 <= at < payload.len() && byte != payload[at] ==> !accepts(
            key,
            #[trigger] payload.update(at, byte),
            signature,
        )
}

/// Whether a verifier that holds `key` accepts `signature` for `payload`.
pub open spec fn accepts(key: Seq<u8>, payload: Seq<u8>, signature: Seq<u8>) -> bool {
    signature == signature_of(key, payload)
}

/// What a signed message holds, as contracts speak of it.
pub struct SignedBytes {
    pub payload: Seq<u8>,
    pub signature: Seq<u8>,
}

/// A signed message. Typically built by a `MessageSigner`. It contains a
/// serialized [`Message`] and its tag.
#[derive(Debug)]
pub struct SignedMessage {
    serialized_message: Vec<u8>,
    signature: Vec<u8>,
}

impl View for SignedMessage {
    type V = SignedBytes;

    closed spec fn view(&self) -> SignedBytes {
        SignedBytes { payload: self.serialized_message@, signature: self.signature@ }
    }
}

impl SignedMessage {
    /// Pairs a serialized message with a tag, as a receiver does with what
    /// came over the wire.
    pub fn new(serialized_message: Vec<u8>, signature: Vec<u8>) -> (sm: Self)
        ensures
            sm@.payload == serialized_message@,
            sm@.signature == signature@,
    {
        SignedMessage { serialized_message, signature }
    }

    /// The serialized message.
    pub fn payload(&self) -> (payload: &Vec<u8>)
        ensures
            payload@ == self@.payload,
    {
        &self.serialized_message
    }

    /// The tag.
    pub fn signature(&self) -> (signature: &Vec<u8>)
        ensures
            signature@ == self@.signature,
    {
        &self.signature
    }
}

/// What went wrong with a signing operation.
#[derive(Clone, Copy, Debug, PartialEq, Eq, Structural)]
pub enum MessageSignerErrorKind {
    /// The tag is not the one that the verifier computes.
    SignatureDontMatch,
    /// The serialized message is longer than the bound.
    PayloadTooLarge,
    /// The message could not be serialized.
    SerializationFailed,
}

/// The error type for signing operations.
#[derive(Debug)]
pub struct MessageSignerError {
    pub kind: MessageSignerErrorKind,
}

impl MessageSignerError {
    /// A short description of the error.
    pub fn description(&self) -> (text: &'static str)
        ensures
            text@ == description_of(self.kind),
    {
        match self.kind {
            MessageSignerErrorKind::SignatureDontMatch => {
                "The provided signature and the computed signature don't match"
            },
            MessageSignerErrorKind::PayloadTooLarge => {
                "The serialized message is larger than the bound"
            },
            MessageSignerErrorKind::SerializationFailed => "The message could not be serialized",
        }
    }
}

/// The description that goes with each kind of error.
pub open spec fn description_of(kind: MessageSignerErrorKind) -> Seq<char> {
    match kind {
        MessageSignerErrorKind::SignatureDontMatch => {
            "The provided signature and the computed signature don't match"@
        },
        MessageSignerErrorKind::PayloadTooLarge => {
            "The serialized message is larger than the bound"@
        },
        MessageSignerErrorKind::SerializationFailed => "The message could not be serialized"@,
    }
}

/// This trait is implemented by structures which perform the signature of the
/// message.
pub trait MessageSigner {
    /// The tag that this signer puts on a serialized message.
    spec fn tag(&self, payload: Seq<u8>) -> Seq<u8>;

    /// Given a [`Message`], returns the signed message.
    ///
    /// The payload is the serialized message and the tag is this signer's tag
    /// for it, one cipher block long. Fails with `PayloadTooLarge` exactly
    /// when the serialized message is longer than `MAX_MESSAGE_LEN`, and with
    /// `SerializationFailed` exactly when the message has no serialized form.
    fn sign<M: Message>(&self, message: M) -> (r: Result<SignedMessage, MessageSignerError>)
        ensures
            match r {
                Ok(sm) => {
                    &&& message.wire() == Some(sm@.payload)
                    &&& sm@.payload.len() <= MAX_MESSAGE_LEN
                    &&& sm@.signature == self.tag(sm@.payload)
                    &&& sm@.signature.len() == BLOCK_SIZE
                },
                Err(e) => match e.kind {
                    MessageSignerErrorKind::PayloadTooLarge => {
                        &&& message.wire() matches Some(w)
                        &&& w.len() > MAX_MESSAGE_LEN
                    },
                    MessageSignerErrorKind::SerializationFailed => message.wire().is_none(),
                    MessageSignerErrorKind::SignatureDontMatch => false,
                },
            },
    ;

    /// Given a `SignedMessage`, checks that the tag is this signer's tag for
    /// the payload.
    ///
    /// Fails with `SignatureDontMatch` exactly when it is not.
    fn verify(&self, message: SignedMessage) -> (r: Result<(), MessageSignerError>)
        ensures
            match r {
                Ok(_) => message@.signature == self.tag(message@.payload),
                Err(e) => message@.signature != self.tag(message@.payload) && e.kind
                    == MessageSignerErrorKind::SignatureDontMatch,
            },
    ;
}

/// Folds all of `bytes` with XOR.
pub fn checksum(bytes: &Vec<u8>) -> (x: u8)
    ensures
        x == fold_xor(bytes@),
{
    let n: usize = bytes.len();
    let mut x: u8 = 0;
    let mut i: usize = 0;
    proof {
        assert(bytes@.take(0) == Seq::<u8>::empty());
    }
    while i < n
        invariant
            n == bytes@.len(),
            i <= n,
            x == fold_xor(bytes@.take(i as int)),
        decreases n - i,
    {
        proof {
            let next = bytes@.take(i + 1);
            assert(next.drop_last() == bytes@.take(i as int));
            assert(next.last() == bytes@[i as int]);
        }
        x = x ^ bytes[i];
        i = i + 1;
    }
    proof {
        assert(bytes@.take(n as int) == bytes@);
    }
    x
}

/// Whether two byte strings hold the same bytes. Every byte is looked at,
/// whatever the earlier ones were.
pub fn same_bytes(a: &Vec<u8>, b: &Vec<u8>) -> (same: bool)
    ensures
        same == (a@ == b@),
{
    if a.len() != b.len() {
        return false;
    }
    let n: usize = a.len();
    let mut same: bool = true;
    let mut i: usize = 0;
    proof {
        assert(a@.take(0) =~= b@.take(0));
    }
    while i < n
        invariant
            n == a@.len(),
            n == b@.len(),
            i <= n,
            same == (a@.take(i as int) == b@.take(i as int)),
        decreases n - i,
    {
        proof {
            let ta = a@.take(i + 1);
            let tb = b@.take(i + 1);
            assert(ta.drop_last() == a@.take(i as int));
            assert(tb.drop_last() == b@.take(i as int));
            if a@[i as int] == b@[i as int] && a@.take(i as int) == b@.take(i as int) {
                assert(ta =~= tb);
            }
            if ta == tb {
                assert(ta[i as int] == tb[i as int]);
            }
        }
        let here = a[i] == b[i];
        same = same && here;
        i = i + 1;
    }
    proof {
        assert(a@.take(n as int) == a@);
        assert(b@.take(n as int) == b@);
    }
    same
}

/// A `MessageSigner` which uses the Blowfish encryption method to sign the
/// checksum.
pub struct BlowfishSigner {
    bf: KeyedCipher,
}

impl BlowfishSigner {
    /// The secret that this signer signs with.
    pub closed spec fn key(&self) -> Seq<u8> {
        self.bf.key()
    }

    /// Create a `BlowfishSigner` for the given key.
    ///
    /// Fails with `InvalidKey` exactly when the cipher cannot be keyed with
    /// `bfk`.
    pub fn new(bfk: BlowfishKey) -> (r: Result<Self, CipherError>)
        ensures
            match r {
                Ok(s) => crate::cipher::valid_key_len(bfk@.len()) && s.key() == bfk@,
                Err(e) => !crate::cipher::valid_key_len(bfk@.len()) && e
                    == CipherError::InvalidKey,
            },
    {
        match KeyedCipher::new(&bfk) {
            Ok(bf) => Ok(BlowfishSigner { bf }),
            Err(e) => Err(e),
        }
    }

    /// Create a `BlowfishSigner` that signs with the secret of `cipher`.
    pub fn with_cipher(cipher: KeyedCipher) -> (s: Self)
        ensures
            s.key() == cipher.key(),
    {
        BlowfishSigner { bf: cipher }
    }

    /// The tag of a serialized message under this signer's secret: one block
    /// long, and the tag of no payload with another checksum byte.
    pub fn signature_for(&self, payload: &Vec<u8>) -> (signature: Vec<u8>)
        ensures
            signature@ == signature_of(self.key(), payload@),
            signature@.len() == BLOCK_SIZE,
            tags_only(self.key(), payload@, signature@),
    {
        let x: u8 = checksum(payload);
        let mut in_buf: Vec<u8> = Vec::new();
        in_buf.push(x);
        let mut i: usize = 1;
        while i < BLOCK_SIZE
            invariant
                1 <= i <= BLOCK_SIZE,
                in_buf@.len() == i,
                in_buf@[0] == x,
                forall|j: int| 1 <= j < i ==> in_buf@[j] == 0u8,
            decreases BLOCK_SIZE - i,
        {
            in_buf.push(0);
            i = i + 1;
        }
        proof {
            assert(in_buf@ =~= checksum_block(x));
        }
        let signature = self.bf.encrypt_exact(&in_buf);
        proof {
            assert forall|other: Seq<u8>| fold_xor(other) != fold_xor(payload@) implies 
                #[trigger] signature_of(self.key(), other) != signature@ by {
                let block = checksum_block(fold_xor(other));
                assert(block[0] != checksum_block(x)[0]);
                assert(block.len() == BLOCK_SIZE);
                assert(encrypts_only(self.key(), checksum_block(x), signature@));
            }
        }
        signature
    }
}

impl MessageSigner for BlowfishSigner {
    open spec fn tag(&self, payload: Seq<u8>) -> Seq<u8> {
        signature_of(self.key(), payload)
    }

    /// The tag that comes out is wrong for every payload that differs from
    /// the signed one in one byte.
    fn sign<M: Message>(&self, message: M) -> (r: Result<SignedMessage, MessageSignerError>)
        ensures
            r matches Ok(sm) ==> notices_single_byte_change(self.key(), sm@.payload, sm@.signature),
    {
        match message.serialize() {
            Ok(v) => {
                let signature = self.signature_for(&v);
                proof {
                    lemma_tag_notices_single_byte_change(self.key(), v@, signature@);
                }
                Ok(SignedMessage { serialized_message: v, signature })
            },
            Err(SerializationError::PayloadTooLarge) => Err(
                MessageSignerError { kind: MessageSignerErrorKind::PayloadTooLarge },
            ),
            Err(SerializationError::SerializationFailed) => Err(
                MessageSignerError { kind: MessageSignerErrorKind::SerializationFailed },
            ),
        }
    }

    /// A signed message that is accepted is refused after a change of any
    /// one byte of its payload.
    fn verify(&self, message: SignedMessage) -> (r: Result<(), MessageSignerError>)
        ensures
            r is Ok ==> notices_single_byte_change(
                self.key(),
                message@.payload,
                message@.signature,
            ),
    {
        let expected = self.signature_for(&message.serialized_message);
        if same_bytes(&expected, &message.signature) {
            proof {
                lemma_tag_notices_single_byte_change(
                    self.key(),
                    message@.payload,
                    message@.signature,
                );
            }
            Ok(())
        } else {
            Err(MessageSignerError { kind: MessageSignerErrorKind::SignatureDontMatch })
        }
    }
}

/// A message signed under a secret is accepted by every verifier that holds
/// the same secret: the tag that the signer puts on a payload is the tag that
/// the verifier computes for it.
pub proof fn lemma_sign_then_verify(
    signer: BlowfishSigner,
    verifier: BlowfishSigner,
    payload: Seq<u8>,
)
    requires
        signer.key() == verifier.key(),
    ensures
        signer.tag(payload) == verifier.tag(payload),
        accepts(verifier.key(), payload, signer.tag(payload)),
{
}

/// Changing one byte of a payload changes the checksum byte, and with it the
/// block that is encrypted for the tag.
pub proof fn lemma_single_byte_change(payload: Seq<u8>, at: int, byte: u8)
    requires
        0 <= at < payload.len(),
        byte != payload[at],
    ensures
        fold_xor(payload.update(at, byte)) != fold_xor(payload),
        checksum_block(fold_xor(payload.update(at, byte))) != checksum_block(fold_xor(payload)),
    decreases payload.len(),
{
    let changed = payload.update(at, byte);
    let head = payload.drop_last();
    if at == payload.len() - 1 {
        assert(changed.drop_last() == head);
        let h = fold_xor(head);
        let a = payload[at];
        assert(h ^ byte != h ^ a) by (bit_vector)
            requires
                byte != a,
        ;
    } else {
        lemma_single_byte_change(head, at, byte);
        assert(changed.drop_last() == head.update(at, byte));
        let h1 = fold_xor(head.update(at, byte));
        let h2 = fold_xor(head);
        let l = payload.last();
        assert(h1 ^ l != h2 ^ l) by (bit_vector)
            requires
                h1 != h2,
        ;
    }
    let x1 = fold_xor(changed);
    let x2 = fold_xor(payload);
    assert(checksum_block(x1)[0] == x1);
    assert(checksum_block(x2)[0] == x2);
}

/// A tag that belongs to one checksum byte only is wrong for every payload
/// that differs from the tagged one in one byte: one changed byte changes the
/// checksum.
pub proof fn lemma_tag_notices_single_byte_change(
    key: Seq<u8>,
    payload: Seq<u8>,
    signature: Seq<u8>,
)
    requires
        tags_only(key, payload, signature),
    ensures
        notices_single_byte_change(key, payload, signature),
{
    assert forall|at: int, byte: u8| 0 <= at < payload.len() && byte != payload[at] implies !accepts(
        key,
        #[trigger] payload.update(at, byte),
        signature,
    ) by {
        lemma_single_byte_change(payload, at, byte);
    }
}

/// The known weakness of the tag: payloads with the same checksum byte carry
/// the same tag, so a change that keeps the checksum goes unnoticed.
pub proof fn lemma_same_checksum_same_tag(key: Seq<u8>, payload1: Seq<u8>, payload2: Seq<u8>)
    requires
        fold_xor(payload1) == fold_xor(payload2),
    ensures
        signature_of(key, payload1) == signature_of(key, payload2),
        accepts(key, payload2, signature_of(key, payload1)),
{
}

} // verus!
