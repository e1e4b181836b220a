//! Encryption and decryption of chunks.

use vstd::prelude::*;

use crate::chunksplitter::ChunkSizeDictator;

mod default;

pub use self::default::{
    AesGcmSivWrapper, aes256_gcm_siv_seal, aes256_gcm_siv_open, sealed, opened, spec_nonce,
    spec_associated_data, adjusted_size, encrypted_len, ENCRYPTION_OVERHEAD, P_MAX, A_MAX,
    invalid_key_message, adjust_failure_message, encrypt_failure_message, decrypt_failure_message,
    lemma_adjusted_chunk_fits, lemma_equal_chunks_equal_ciphertexts,
    ascii_bytes, lemma_nonce_is_fixed_text, lemma_associated_data_is_fixed_text,
    lemma_adjusted_room_fills_chunk,
};

verus! {

/// Encrypts and decrypts buffers in place.
pub trait EncDec: ChunkSizeDictator {
    fn enc(&self, plaintext: &mut Vec<u8>) -> Result<(), String>;

    fn dec(&self, ciphertext: &mut Vec<u8>) -> Result<(), String>;
}

/// The AES-256-GCM-SIV cipher for `key`; refused unless the key is 32 bytes long.
pub fn new(key: &[u8]) -> (r: Result<AesGcmSivWrapper, String>)
    ensures
        r is Ok <==> key@.len() == 32,
        r matches Ok(w) ==> w.key_view() == key@,
        r matches Err(e) ==> e@ == invalid_key_message(),
{
    default::new(key)
}

} // verus!
