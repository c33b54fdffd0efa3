//! Single-block encryption under a principal's secret.
//!
//! The cipher is Blowfish with big-endian block layout. A [`KeyedCipher`]
//! holds the secret it is bound to and keys the cipher at each call, so a
//! value of it is fully described by its key.

use blowfish::cipher::generic_array::GenericArray;
use blowfish::cipher::{BlockEncrypt, KeyInit};
use blowfish::Blowfish;
use vstd::prelude::*;

verus! {

/// Number of bytes in one cipher block.
pub const BLOCK_SIZE: usize = 8;

/// Shortest key that the cipher accepts.
pub const MIN_KEY_LEN: usize = 4;

/// Longest key that the cipher accepts.
pub const MAX_KEY_LEN: usize = 56;

/// The Blowfish encryption of `block` under `key`.
///
/// Meaningful for keys of `MIN_KEY_LEN..=MAX_KEY_LEN` bytes and blocks of
/// `BLOCK_SIZE` bytes.
pub uninterp spec fn blowfish_block(key: Seq<u8>, block: Seq<u8>) -> Seq<u8>;

/// Whether `out` is the encryption of `block` and of no other block: under
/// one key the cipher maps different blocks to different blocks.
pub open spec fn encrypts_only(key: Seq<u8>, block: Seq<u8>, out: Seq<u8>) -> bool {
    &&& out == blowfish_block(key, block)
    &&& forall|other: Seq<u8>|
        other.len() == BLOCK_SIZE && other != block ==> #[trigger] blowfish_block(key, other)
            != out
}

/// Whether the cipher can be keyed with a secret of this length.
pub open spec fn valid_key_len(len: nat) -> bool {
    MIN_KEY_LEN <= len <= MAX_KEY_LEN
}

/// Why a cipher operation was refused.
#[derive(Clone, Copy, Debug, PartialEq, Eq, Structural)]
pub enum CipherError {
    /// The secret is empty, too short or too long to key the cipher.
    InvalidKey,
    /// The input is not exactly one block long.
    InvalidBlock,
}

/// Calls `Blowfish::new_from_slice` and reports whether it accepted the key.
///
/// Trusted: the key schedule is set up exactly for keys of 4 to 56 bytes and
/// refused with `InvalidLength` for every other length.
#[verifier::external_body]
fn blowfish_accepts_key(key: &Vec<u8>) -> (accepted: bool)
    ensures
        accepted == valid_key_len(key@.len()),
{
    let keyed: Result<Blowfish, _> = Blowfish::new_from_slice(key.as_slice());
    keyed.is_ok()
}

/// Keys Blowfish with `Blowfish::new_from_slice` and encrypts one block with
/// `BlockEncrypt::encrypt_block`.
///
/// Trusted: the result is the eight-byte Blowfish encryption of `block` under
/// `key`, a function of those two byte strings alone. Blowfish is a Feistel
/// cipher, so under one key encryption is a permutation of the blocks, which
/// the crate's decryption undoes: no other block gives the same result.
#[verifier::external_body]
fn blowfish_encrypt(key: &Vec<u8>, block: &Vec<u8>) -> (out: Vec<u8>)
    requires
        valid_key_len(key@.len()),
        block@.len() == BLOCK_SIZE,
    ensures
        out@ == blowfish_block(key@, block@),
        out@.len() == BLOCK_SIZE,
        encrypts_only(key@, block@, out@),
{
    let keyed: Blowfish = Blowfish::new_from_slice(key.as_slice()).unwrap();
    let mut buf = GenericArray::clone_from_slice(block.as_slice());
    keyed.encrypt_block(&mut buf);
    buf.to_vec()
}

/// A block cipher bound to one principal's secret.
pub struct KeyedCipher {
    key: Vec<u8>,
}

impl KeyedCipher {
    /// The secret this cipher is bound to.
    pub closed spec fn key(&self) -> Seq<u8> {
        self.key@
    }

    /// A keyed cipher always holds a secret that the cipher accepts.
    pub open spec fn wf(&self) -> bool {
        valid_key_len(self.key().len())
    }

    #[verifier::type_invariant]
    spec fn keyed(&self) -> bool {
        valid_key_len(self.key@.len())
    }

    /// Binds the cipher to `secret`.
    ///
    /// Fails with `InvalidKey` exactly when the secret is shorter than
    /// `MIN_KEY_LEN` bytes (an empty secret included) or longer than
    /// `MAX_KEY_LEN` bytes.
    pub fn new(secret: &Vec<u8>) -> (r: Result<KeyedCipher, CipherError>)
        ensures
            match r {
                Ok(c) => valid_key_len(secret@.len()) && c.key() == secret@ && c.wf(),
                Err(e) => !valid_key_len(secret@.len()) && e == CipherError::InvalidKey,
            },
    {
        if secret.len() == 0 {
            return Err(CipherError::InvalidKey);
        }
        if blowfish_accepts_key(secret) {
            Ok(KeyedCipher { key: secret.clone() })
        } else {
            Err(CipherError::InvalidKey)
        }
    }

    /// A copy of the secret this cipher is bound to.
    pub fn secret(&self) -> (k: Vec<u8>)
        ensures
            k@ == self.key(),
            self.wf(),
    {
        proof {
            use_type_invariant(self);
        }
        self.key.clone()
    }

    /// Encrypts exactly one block.
    ///
    /// Fails with `InvalidBlock` exactly when `input` is not `BLOCK_SIZE`
    /// bytes long. The result is one block long, depends on the key and the
    /// input alone, and is the encryption of no other block.
    pub fn encrypt_block(&self, input: &Vec<u8>) -> (r: Result<Vec<u8>, CipherError>)
        ensures
            self.wf(),
            match r {
                Ok(out) => {
                    &&& input@.len() == BLOCK_SIZE
                    &&& out@ == blowfish_block(self.key(), input@)
                    &&& out@.len() == BLOCK_SIZE
                    &&& encrypts_only(self.key(), input@, out@)
                },
                Err(e) => input@.len() != BLOCK_SIZE && e == CipherError::InvalidBlock,
            },
    {
        proof {
            use_type_invariant(self);
        }
        if input.len() != BLOCK_SIZE {
            return Err(CipherError::InvalidBlock);
        }
        Ok(self.encrypt_exact(input))
    }

    /// Encrypts an input that is known to be one block long.
    pub(crate) fn encrypt_exact(&self, input: &Vec<u8>) -> (out: Vec<u8>)
        requires
            input@.len() == BLOCK_SIZE,
        ensures
            out@ == blowfish_block(self.key(), input@),
            out@.len() == BLOCK_SIZE,
            encrypts_only(self.key(), input@, out@),
    {
        proof {
            use_type_invariant(self);
        }
        blowfish_encrypt(&self.key, input)
    }
}

impl Clone for KeyedCipher {
    fn clone(&self) -> (c: Self)
        ensures
            c.key() == self.key(),
    {
        proof {
            use_type_invariant(self);
        }
        KeyedCipher { key: self.key.clone() }
    }
}

} // verus!
