//! AES-128 ciphers kept together with the keys they were made from.

use aes_gcm::aes::cipher::InvalidLength;
use aes_gcm::aes::Aes128;
use aes_gcm::KeyInit;
use vstd::prelude::*;

verus! {

/// An AES-128 cipher together with the key it was made from. Its fields are
/// private to this module, and the only way to make one is `keyed_aes128`,
/// so every cipher is kept with the very key it was made from.
pub struct KeyedCipher {
    key_bytes: Vec<u8>,
    cipher: Aes128,
}

impl KeyedCipher {
    /// The key the cipher was made from.
    pub closed spec fn key(&self) -> Seq<u8> {
        self.key_bytes@
    }

    /// The cipher.
    pub closed spec fn aes(&self) -> Aes128 {
        self.cipher
    }

    /// The key the cipher was made from.
    pub fn key_bytes(&self) -> (k: &[u8])
        ensures
            k@ == self.key(),
    {
        self.key_bytes.as_slice()
    }

    /// The cipher.
    pub fn cipher(&self) -> (c: &Aes128)
        ensures
            *c == self.aes(),
    {
        &self.cipher
    }

    /// The cipher, giving up the key.
    pub fn into_cipher(self) -> (c: Aes128)
        ensures
            c == self.aes(),
    {
        self.cipher
    }
}

/// The AES-128 cipher with the given key: `Aes128::new_from_slice` of the
/// `aes` crate (trait `KeyInit`), kept beside a copy of the key. Claimed, as
/// its source shows: it fails exactly when the key is not 16 bytes long, and
/// the cipher it gives is kept with the very key it was made from.
#[verifier::external_body]
pub(crate) fn keyed_aes128(key: &[u8]) -> (r: Result<KeyedCipher, InvalidLength>)
    ensures
        r is Ok <==> key@.len() == 16,
        r matches Ok(c) ==> c.key() == key@,
{
    match Aes128::new_from_slice(key) {
        Ok(cipher) => Ok(KeyedCipher { key_bytes: key.to_vec(), cipher }),
        Err(e) => Err(e),
    }
}

} // verus!
