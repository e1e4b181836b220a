//! AES-256-GCM-SIV with a fixed nonce and fixed associated data.
//!
//! The nonce is the same for every chunk: with AES-GCM-SIV a repeated nonce
//! only reveals that two plaintexts are equal, and equal chunks then give
//! equal ciphertexts.

use vstd::prelude::*;

use aes_gcm_siv::aead::{AeadInPlace, KeyInit};
use aes_gcm_siv::{Aes256GcmSiv, Key, Nonce};

use crate::chunksplitter::ChunkSizeDictator;
use crate::decimal::{decimal, push_decimal};
use super::EncDec;

verus! {

#[verifier::external_type_specification]
#[verifier::external_body]
pub struct ExAeadError(aes_gcm_siv::aead::Error);

#[verifier::external_type_specification]
#[verifier::external_body]
pub struct ExInvalidLength(crypto_common::InvalidLength);

/// The bytes added to every chunk by encryption: the authentication tag.
pub const ENCRYPTION_OVERHEAD: u64 = 16;

/// The longest plaintext that AES-GCM-SIV encrypts (RFC 8452, section 6).
pub const P_MAX: u64 = 68719476736;

/// The longest associated data that AES-GCM-SIV accepts (RFC 8452, section 6).
pub const A_MAX: u64 = 68719476736;

/// The ciphertext that `encrypt_in_place` of AES-256-GCM-SIV gives for
/// `plaintext` under `key`, `nonce` and `aad`: the encrypted bytes, then the tag.
pub uninterp spec fn aes256_gcm_siv_seal(key: Seq<u8>, nonce: Seq<u8>, aad: Seq<u8>, plaintext: Seq<u8>) -> Seq<u8>;

/// What `decrypt_in_place` of AES-256-GCM-SIV gives for `ciphertext` under
/// `key`, `nonce` and `aad`: the plaintext, or `None` when it refuses.
pub uninterp spec fn aes256_gcm_siv_open(key: Seq<u8>, nonce: Seq<u8>, aad: Seq<u8>, ciphertext: Seq<u8>) -> Option<Seq<u8>>;

/// `KeyInit::new_from_slice` of `Aes256GcmSiv`: accepts the key exactly when
/// it is 32 bytes long (crypto-common compares the length with the key size).
/// The cipher it builds is dropped; the library keeps the key itself.
#[verifier::external_body]
fn aes256_gcm_siv_key_check(key: &[u8]) -> (r: Result<(), crypto_common::InvalidLength>)
    ensures
        r is Ok <==> key@.len() == 32,
{
    match Aes256GcmSiv::new_from_slice(key) {
        Ok(_cipher) => Ok(()),
        Err(e) => Err(e),
    }
}

/// `AeadInPlace::encrypt_in_place` of `Aes256GcmSiv` built from `key`.
/// Claims, from the sources of aes-gcm-siv and aead: it fails exactly when the
/// plaintext is longer than `P_MAX` or `aad` longer than `A_MAX`, and then
/// leaves the buffer as it was; otherwise the buffer becomes the ciphertext,
/// 16 bytes (the tag) longer than the plaintext, and decrypting that
/// ciphertext with the same key, nonce and `aad` gives the plaintext back.
#[verifier::external_body]
fn aes256_gcm_siv_encrypt_in_place(
    key: &[u8],
    nonce: &[u8],
    aad: &[u8],
    buffer: &mut Vec<u8>,
) -> (res: Result<(), aes_gcm_siv::aead::Error>)
    requires
        key@.len() == 32,
        nonce@.len() == 12,
    ensures
        res is Ok <==> (old(buffer)@.len() <= P_MAX && aad@.len() <= A_MAX),
        res is Ok ==> final(buffer)@ == aes256_gcm_siv_seal(key@, nonce@, aad@, old(buffer)@),
        res is Ok ==> final(buffer)@.len() == old(buffer)@.len() + 16,
        res is Ok ==> aes256_gcm_siv_open(key@, nonce@, aad@, final(buffer)@) == Some(old(buffer)@),
        res is Err ==> final(buffer)@ == old(buffer)@,
{
    let cipher = Aes256GcmSiv::new(Key::<Aes256GcmSiv>::from_slice(key));
    cipher.encrypt_in_place(Nonce::from_slice(nonce), aad, buffer)
}

/// `AeadInPlace::decrypt_in_place` of `Aes256GcmSiv` built from `key`.
/// Claims, from the sources of aes-gcm-siv and aead: it succeeds exactly when
/// `aes256_gcm_siv_open` gives a plaintext, which the buffer then holds, 16
/// bytes shorter than the ciphertext; a buffer shorter than the tag is
/// refused; on failure the buffer holds the ciphertext again.
#[verifier::external_body]
fn aes256_gcm_siv_decrypt_in_place(
    key: &[u8],
    nonce: &[u8],
    aad: &[u8],
    buffer: &mut Vec<u8>,
) -> (res: Result<(), aes_gcm_siv::aead::Error>)
    requires
        key@.len() == 32,
        nonce@.len() == 12,
    ensures
        res is Ok <==> aes256_gcm_siv_open(key@, nonce@, aad@, old(buffer)@) is Some,
        res is Ok ==> aes256_gcm_siv_open(key@, nonce@, aad@, old(buffer)@) == Some(final(buffer)@),
        res is Ok ==> final(buffer)@.len() + 16 == old(buffer)@.len(),
        old(buffer)@.len() < 16 ==> res is Err,
        res is Err ==> final(buffer)@ == old(buffer)@,
{
    let cipher = Aes256GcmSiv::new(Key::<Aes256GcmSiv>::from_slice(key));
    cipher.decrypt_in_place(Nonce::from_slice(nonce), aad, buffer)
}

/// The nonce of every encryption: the ASCII bytes of `123456789012`.
pub open spec fn spec_nonce() -> Seq<u8> {
    seq![49u8, 50u8, 51u8, 52u8, 53u8, 54u8, 55u8, 56u8, 57u8, 48u8, 49u8, 50u8]
}

/// The associated data of every encryption: the ASCII bytes of `simple-store`.
pub open spec fn spec_associated_data() -> Seq<u8> {
    seq![115u8, 105u8, 109u8, 112u8, 108u8, 101u8, 45u8, 115u8, 116u8, 111u8, 114u8, 101u8]
}

fn nonce() -> (n: Vec<u8>)
    ensures
        n@ == spec_nonce(),
{
    let n = vec![49u8, 50u8, 51u8, 52u8, 53u8, 54u8, 55u8, 56u8, 57u8, 48u8, 49u8, 50u8];
    assert(n@ =~= spec_nonce());
    n
}

fn associated_data() -> (a: Vec<u8>)
    ensures
        a@ == spec_associated_data(),
{
    let a = vec![115u8, 105u8, 109u8, 112u8, 108u8, 101u8, 45u8, 115u8, 116u8, 111u8, 114u8, 101u8];
    assert(a@ =~= spec_associated_data());
    a
}

/// The ciphertext of `plaintext` under `key`, with this library's nonce and associated data.
pub open spec fn sealed(key: Seq<u8>, plaintext: Seq<u8>) -> Seq<u8> {
    aes256_gcm_siv_seal(key, spec_nonce(), spec_associated_data(), plaintext)
}

/// The plaintext of `ciphertext` under `key`, with this library's nonce and associated data.
pub open spec fn opened(key: Seq<u8>, ciphertext: Seq<u8>) -> Option<Seq<u8>> {
    aes256_gcm_siv_open(key, spec_nonce(), spec_associated_data(), ciphertext)
}

/// The length of the ciphertext of a plaintext of `n` bytes.
pub open spec fn encrypted_len(n: nat) -> nat {
    n + ENCRYPTION_OVERHEAD as nat
}

/// The room left for plaintext in a chunk of `current_size` bytes, if any.
pub open spec fn adjusted_size(current_size: u64) -> Option<u64> {
    if current_size <= ENCRYPTION_OVERHEAD {
        None
    } else {
        Some((current_size - ENCRYPTION_OVERHEAD) as u64)
    }
}

pub open spec fn invalid_key_message() -> Seq<char> {
    "Invalid Length"@
}

pub open spec fn adjust_failure_message(current_size: u64) -> Seq<char> {
    "not enough size for encryption overhead: "@ + decimal(current_size as nat) + " <= "@ + decimal(
        ENCRYPTION_OVERHEAD as nat,
    )
}

pub open spec fn encrypt_failure_message() -> Seq<char> {
    "failed to ecnrypt: aead::Error"@
}

pub open spec fn decrypt_failure_message() -> Seq<char> {
    "failed to decrypt: Error"@
}

/// AES-256-GCM-SIV under one 32-byte key.
pub struct AesGcmSivWrapper {
    key: Vec<u8>,
}

impl AesGcmSivWrapper {
    #[verifier::type_invariant]
    spec fn inv(self) -> bool {
        self.key@.len() == 32
    }

    pub closed spec fn key_view(&self) -> Seq<u8> {
        self.key@
    }
}

/// The AES-256-GCM-SIV cipher for `key`; refused, with the cipher's own
/// message, unless the key is 32 bytes long.
pub fn new(key: &[u8]) -> (r: Result<AesGcmSivWrapper, String>)
    ensures
        r is Ok <==> key@.len() == 32,
        r matches Ok(w) ==> w.key_view() == key@,
        r matches Err(e) ==> e@ == invalid_key_message(),
{
    match aes256_gcm_siv_key_check(key) {
        Ok(()) => Ok(AesGcmSivWrapper { key: vstd::slice::slice_to_vec(key) }),
        Err(_) => {
            // the `Display` text of `crypto_common::InvalidLength`
            proof {
                reveal_strlit("Invalid Length");
            }
            Err(String::from_str("Invalid Length"))
        },
    }
}

impl ChunkSizeDictator for AesGcmSivWrapper {
    /// The room left for plaintext in a chunk of `current_size` bytes once the
    /// tag is added; refused when the tag alone fills the chunk.
    fn adjust_size(current_size: u64) -> (r: Result<u64, String>)
        ensures
            r is Ok <==> adjusted_size(current_size) is Some,
            r matches Ok(s) ==> adjusted_size(current_size) == Some(s),
            r matches Ok(s) ==> encrypted_len(s as nat) == current_size,
            r is Ok <==> current_size > ENCRYPTION_OVERHEAD,
            r matches Err(e) ==> e@ == adjust_failure_message(current_size),
    {
        if current_size <= ENCRYPTION_OVERHEAD {
            let mut m = String::from_str("not enough size for encryption overhead: ");
            push_decimal(&mut m, current_size);
            m.append(" <= ");
            push_decimal(&mut m, ENCRYPTION_OVERHEAD);
            proof {
                reveal_strlit("not enough size for encryption overhead: ");
                reveal_strlit(" <= ");
            }
            Err(m)
        } else {
            Ok(current_size - ENCRYPTION_OVERHEAD)
        }
    }
}

impl EncDec for AesGcmSivWrapper {
    /// Encrypts the buffer in place: it becomes the ciphertext, which
    /// decrypts back to the plaintext under the same key.
    fn enc(&self, plaintext: &mut Vec<u8>) -> (r: Result<(), String>)
        ensures
            r is Ok <==> old(plaintext)@.len() <= P_MAX,
            r is Ok ==> final(plaintext)@ == sealed(self.key_view(), old(plaintext)@),
            r is Ok ==> final(plaintext)@.len() == encrypted_len(old(plaintext)@.len()),
            r is Ok ==> opened(self.key_view(), final(plaintext)@) == Some(old(plaintext)@),
            r matches Err(e) ==> e@ == encrypt_failure_message() && final(plaintext)@ == old(plaintext)@,
    {
        proof {
            use_type_invariant(self);
        }
        let n = nonce();
        let a = associated_data();
        match aes256_gcm_siv_encrypt_in_place(self.key.as_slice(), n.as_slice(), a.as_slice(), plaintext) {
            Ok(()) => Ok(()),
            Err(_) => {
                // the `Display` text of `aead::Error`
                proof {
                    reveal_strlit("failed to ecnrypt: aead::Error");
                }
                Err(String::from_str("failed to ecnrypt: aead::Error"))
            },
        }
    }

    /// Decrypts the buffer in place; on failure it keeps the ciphertext.
    fn dec(&self, ciphertext: &mut Vec<u8>) -> (r: Result<(), String>)
        ensures
            r is Ok <==> opened(self.key_view(), old(ciphertext)@) is Some,
            r is Ok ==> opened(self.key_view(), old(ciphertext)@) == Some(final(ciphertext)@),
            r is Ok ==> encrypted_len(final(ciphertext)@.len()) == old(ciphertext)@.len(),
            old(ciphertext)@.len() < ENCRYPTION_OVERHEAD ==> r is Err,
            r matches Err(e) ==> e@ == decrypt_failure_message() && final(ciphertext)@ == old(ciphertext)@,
    {
        proof {
            use_type_invariant(self);
        }
        let n = nonce();
        let a = associated_data();
        match aes256_gcm_siv_decrypt_in_place(self.key.as_slice(), n.as_slice(), a.as_slice(), ciphertext) {
            Ok(()) => Ok(()),
            Err(_) => {
                // the `Debug` text of `aead::Error`
                proof {
                    reveal_strlit("failed to decrypt: Error");
                }
                Err(String::from_str("failed to decrypt: Error"))
            },
        }
    }
}

/// A plaintext cut to the room that `adjust_size` leaves in a chunk is, once
/// encrypted, no longer than the chunk.
pub proof fn lemma_adjusted_chunk_fits(current_size: u64, plaintext_len: nat)
    requires
        adjusted_size(current_size) is Some,
        plaintext_len <= adjusted_size(current_size)->0,
    ensures
        encrypted_len(plaintext_len) <= current_size,
{
}

/// With the nonce fixed, encrypting equal chunks under one key gives equal
/// ciphertexts, and a ciphertext decrypts to its own plaintext only.
pub proof fn lemma_equal_chunks_equal_ciphertexts(key: Seq<u8>, p1: Seq<u8>, p2: Seq<u8>)
    requires
        opened(key, sealed(key, p1)) == Some(p1),
        opened(key, sealed(key, p2)) == Some(p2),
    ensures
        (p1 == p2) <==> (sealed(key, p1) == sealed(key, p2)),
{
}

/// The bytes of an ASCII text, one byte per character.
pub open spec fn ascii_bytes(text: Seq<char>) -> Seq<u8> {
    text.map_values(|c: char| c as u8)
}

/// The nonce of every encryption and decryption is the text `123456789012`.
pub proof fn lemma_nonce_is_fixed_text()
    ensures
        spec_nonce() == ascii_bytes("123456789012"@),
        spec_nonce().len() == 12,
{
    reveal_strlit("123456789012");
    assert(spec_nonce() =~= ascii_bytes("123456789012"@));
}

/// The associated data of every encryption and decryption is the text `simple-store`.
pub proof fn lemma_associated_data_is_fixed_text()
    ensures
        spec_associated_data() == ascii_bytes("simple-store"@),
{
    reveal_strlit("simple-store");
    assert(spec_associated_data() =~= ascii_bytes("simple-store"@));
}

/// The room that `adjust_size` leaves in a chunk is all of it but the tag: a
/// plaintext of exactly that size encrypts to exactly the chunk size, and
/// the room exists exactly when the chunk is longer than the tag.
pub proof fn lemma_adjusted_room_fills_chunk(current_size: u64)
    ensures
        adjusted_size(current_size) is Some <==> current_size > 16,
        adjusted_size(current_size) matches Some(s) ==> encrypted_len(s as nat) == current_size
            && s + 16 == current_size,
{
}

} // verus!
