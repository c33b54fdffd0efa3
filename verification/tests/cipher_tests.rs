use blowfish::cipher::generic_array::GenericArray;
use blowfish::cipher::{BlockEncrypt, KeyInit};
use blowfish::Blowfish;
use rfs::cipher::{CipherError, KeyedCipher, BLOCK_SIZE, MAX_KEY_LEN, MIN_KEY_LEN};
use rfs::encoding::{decode, encode};
use rfs::rfs_common::get_cipher;

fn blowfish_direct(key: &[u8], block: &[u8]) -> Vec<u8> {
    let keyed: Blowfish = Blowfish::new_from_slice(key).unwrap();
    let mut buf = GenericArray::clone_from_slice(block);
    keyed.encrypt_block(&mut buf);
    buf.to_vec()
}

#[test]
fn empty_key_is_invalid() {
    assert!(matches!(KeyedCipher::new(&vec![]), Err(CipherError::InvalidKey)));
    assert!(matches!(get_cipher(&vec![]), Err(CipherError::InvalidKey)));
}

#[test]
fn key_length_limits() {
    assert_eq!(MIN_KEY_LEN, 4);
    assert_eq!(MAX_KEY_LEN, 56);
    assert!(matches!(KeyedCipher::new(&vec![1, 2, 3]), Err(CipherError::InvalidKey)));
    assert!(KeyedCipher::new(&vec![1, 2, 3, 4]).is_ok());
    assert!(KeyedCipher::new(&vec![7; 56]).is_ok());
    assert!(matches!(KeyedCipher::new(&vec![7; 57]), Err(CipherError::InvalidKey)));
}

#[test]
fn cipher_keeps_its_secret() {
    let cipher = KeyedCipher::new(&vec![3, 0, 0, 0]).unwrap();
    assert_eq!(cipher.secret(), vec![3, 0, 0, 0]);
    assert_eq!(cipher.clone().secret(), vec![3, 0, 0, 0]);
}

#[test]
fn encrypts_known_vectors() {
    let zeros = KeyedCipher::new(&vec![0; 8]).unwrap();
    assert_eq!(
        zeros.encrypt_block(&vec![0; 8]).unwrap(),
        vec![0x4e, 0xf9, 0x97, 0x45, 0x61, 0x98, 0xdd, 0x78]
    );
    let ones = KeyedCipher::new(&vec![0xff; 8]).unwrap();
    assert_eq!(
        ones.encrypt_block(&vec![0xff; 8]).unwrap(),
        vec![0x51, 0x86, 0x6f, 0xd5, 0xb8, 0x5e, 0xcb, 0x8a]
    );
}

#[test]
fn encrypt_block_is_not_the_identity() {
    let cipher = KeyedCipher::new(&vec![3, 0, 0, 0]).unwrap();
    let block = vec![1, 2, 3, 4, 5, 6, 7, 8];
    let out = cipher.encrypt_block(&block).unwrap();
    assert_eq!(out.len(), BLOCK_SIZE);
    assert_ne!(out, block);
    assert_eq!(out, blowfish_direct(&[3, 0, 0, 0], &block));
}

#[test]
fn encrypt_block_is_deterministic() {
    let a = KeyedCipher::new(&vec![3, 0, 0, 0]).unwrap();
    let b = KeyedCipher::new(&vec![3, 0, 0, 0]).unwrap();
    let block = vec![9, 8, 7, 6, 5, 4, 3, 2];
    assert_eq!(a.encrypt_block(&block).unwrap(), a.encrypt_block(&block).unwrap());
    assert_eq!(a.encrypt_block(&block).unwrap(), b.encrypt_block(&block).unwrap());
}

#[test]
fn encrypt_block_depends_on_the_key() {
    let a = KeyedCipher::new(&vec![3, 0, 0, 0]).unwrap();
    let b = KeyedCipher::new(&vec![0, 0, 0, 0]).unwrap();
    let block = vec![1, 2, 3, 4, 5, 6, 7, 8];
    assert_ne!(a.encrypt_block(&block).unwrap(), b.encrypt_block(&block).unwrap());
}

#[test]
fn wrong_block_length_is_refused() {
    let cipher = KeyedCipher::new(&vec![3, 0, 0, 0]).unwrap();
    assert!(matches!(cipher.encrypt_block(&vec![]), Err(CipherError::InvalidBlock)));
    assert!(matches!(cipher.encrypt_block(&vec![1; 7]), Err(CipherError::InvalidBlock)));
    assert!(matches!(cipher.encrypt_block(&vec![1; 9]), Err(CipherError::InvalidBlock)));
}

#[test]
fn base64_encodes_sample_secrets() {
    assert_eq!(encode(&vec![0, 0, 0, 0]), "AAAAAA==");
    assert_eq!(encode(&vec![3, 0, 0, 0]), "AwAAAA==");
    assert_eq!(encode(&vec![]), "");
    assert_eq!(encode(&vec![1, 2, 3, 4, 5, 6, 7, 8]), "AQIDBAUGBwg=");
}

#[test]
fn base64_decodes_sample_secrets() {
    assert_eq!(decode("AAAAAA=="), Some(vec![0, 0, 0, 0]));
    assert_eq!(decode("AwAAAA=="), Some(vec![3, 0, 0, 0]));
    assert_eq!(decode(""), Some(vec![]));
    assert_eq!(decode("AQIDBAUGBwg="), Some(vec![1, 2, 3, 4, 5, 6, 7, 8]));
}

#[test]
fn base64_refuses_what_is_not_base64() {
    assert_eq!(decode("not base64!"), None);
    assert_eq!(decode("AQIDBAUGBwg=\n"), None);
    assert_eq!(decode("\"AAAA\""), None);
}

#[test]
fn base64_round_trip() {
    let mut bytes: Vec<u8> = Vec::new();
    for n in 0..70u8 {
        let text = encode(&bytes);
        assert_eq!(text.len(), 4 * ((bytes.len() + 2) / 3));
        assert!(text.chars().all(|c| c.is_ascii_alphanumeric() || c == '+' || c == '/' || c == '='));
        assert_eq!(decode(&text), Some(bytes.clone()));
        bytes.push(n.wrapping_mul(37));
    }
}
