//! The hashing, hex, sealing and randomness that the silos and the filter
//! cache rely on, each a call into an outside crate behind a contract.
use aes_gcm::aead::{Aead, KeyInit};
use rand::RngCore;
use sha2::Digest;
use vstd::prelude::*;

verus! {

/// The SHA-256 digest of `data`, as `sha2::Sha256` computes it.
pub uninterp spec fn sha256_digest(data: Seq<u8>) -> Seq<u8>;

/// Hashes `data` with `sha2::Sha256` (`new`, `update`, `finalize`). The
/// contract names the digest and states its length, 32 bytes, which the
/// output type `GenericArray<u8, U32>` fixes; it says nothing else of it.
#[verifier::external_body]
pub(crate) fn sha256(data: &[u8]) -> (d: Vec<u8>)
    ensures
        d@ == sha256_digest(data@),
        d@.len() == 32,
{
    let mut hasher = sha2::Sha256::new();
    hasher.update(data);
    hasher.finalize().to_vec()
}

/// The lowercase hex digit of a value below 16.
pub open spec fn hex_char(n: u8) -> char {
    if n < 10 {
        (('0' as u8) + n) as char
    } else {
        (('a' as u8) + (n - 10)) as char
    }
}

/// The lowercase hex text of `data`: two digits a byte, high nibble first.
pub open spec fn hex_lower(data: Seq<u8>) -> Seq<char> {
    Seq::new(
        2 * data.len(),
        |i: int|
            if i % 2 == 0 {
                hex_char(data[i / 2] / 16)
            } else {
                hex_char(data[i / 2] % 16)
            },
    )
}

/// Encodes `data` with `hex::encode`, which writes each byte as two
/// lowercase hex digits, high nibble first (its table is
/// `b"0123456789abcdef"`).
#[verifier::external_body]
pub(crate) fn hex_encode(data: &[u8]) -> (s: String)
    ensures
        s@ == hex_lower(data@),
{
    hex::encode(data)
}

/// A hex digit in either case.
pub open spec fn is_hex_digit(c: char) -> bool {
    ('0' <= c && c <= '9') || ('a' <= c && c <= 'f') || ('A' <= c && c <= 'F')
}

/// The value of a hex digit.
pub open spec fn hex_value(c: char) -> int {
    if '0' <= c && c <= '9' {
        (c as int) - ('0' as int)
    } else if 'a' <= c && c <= 'f' {
        (c as int) - ('a' as int) + 10
    } else {
        (c as int) - ('A' as int) + 10
    }
}

/// Text that `hex::decode` accepts: an even number of hex digits.
pub open spec fn is_hex_text(s: Seq<char>) -> bool {
    &&& s.len() % 2 == 0
    &&& forall|i: int| 0 <= i < s.len() ==> is_hex_digit(#[trigger] s[i])
}

/// The bytes that hex text stands for, two digits a byte.
pub open spec fn hex_decoded(s: Seq<char>) -> Seq<u8> {
    Seq::new(s.len() / 2, |i: int| (hex_value(s[2 * i]) * 16 + hex_value(s[2 * i + 1])) as u8)
}

/// Decodes `s` with `hex::decode`, which fails on an odd length or on any
/// character that is not a hex digit, and otherwise reads each pair of
/// digits, in either case, as one byte.
#[verifier::external_body]
pub(crate) fn hex_decode(s: &str) -> (r: Option<Vec<u8>>)
    ensures
        r is Some <==> is_hex_text(s@),
        r matches Some(b) ==> b@ == hex_decoded(s@),
{
    match hex::decode(s) {
        Ok(b) => Some(b),
        Err(_) => None,
    }
}

/// The longest plaintext that AES-256-GCM seals (`aes_gcm::P_MAX`).
pub const SEAL_MAX: u64 = 0x10_0000_0000;

/// AES-256-GCM ciphertext of `plaintext` under `key` and `nonce`, with no
/// associated data, the 16-byte tag appended, as `aes_gcm::Aes256Gcm`
/// computes it.
pub uninterp spec fn aes256_gcm_seal(key: Seq<u8>, nonce: Seq<u8>, plaintext: Seq<u8>) -> Seq<u8>;

/// Encrypts with `aes_gcm::Aes256Gcm::encrypt`. Its source refuses a
/// plaintext longer than `P_MAX` (2^36 bytes) and otherwise returns the
/// ciphertext, as long as the plaintext, followed by the 16-byte tag. The
/// contract names the ciphertext and states that length; it says nothing of
/// its bytes.
#[verifier::external_body]
pub(crate) fn aes256_gcm_encrypt(key: &[u8], nonce: &[u8], plaintext: &[u8]) -> (r: Option<Vec<u8>>)
    requires
        key@.len() == 32,
        nonce@.len() == 12,
    ensures
        r is Some <==> plaintext@.len() <= SEAL_MAX,
        r matches Some(c) ==> c@ == aes256_gcm_seal(key@, nonce@, plaintext@) && c@.len()
            == plaintext@.len() + 16,
{
    let cipher = aes_gcm::Aes256Gcm::new(aes_gcm::Key::<aes_gcm::Aes256Gcm>::from_slice(key));
    match cipher.encrypt(aes_gcm::Nonce::from_slice(nonce), plaintext) {
        Ok(c) => Some(c),
        Err(_) => None,
    }
}

/// Decrypts with `aes_gcm::Aes256Gcm::decrypt`, with no associated data.
/// Its source succeeds exactly when the 16-byte tag at the end of the
/// ciphertext is the tag of the rest under the key and nonce (and the rest
/// is at most `C_MAX` bytes); a plaintext within `P_MAX` that it gives back
/// is then the one that seals to this ciphertext (counter mode maps each
/// plaintext to a ciphertext of its own), and a ciphertext sealed from a
/// plaintext within `P_MAX` always opens. Of a longer plaintext, which
/// `encrypt` would refuse, the contract says nothing.
#[verifier::external_body]
pub(crate) fn aes256_gcm_decrypt(key: &[u8], nonce: &[u8], ciphertext: &[u8]) -> (r: Option<Vec<u8>>)
    requires
        key@.len() == 32,
        nonce@.len() == 12,
    ensures
        r matches Some(p) ==> (p@.len() <= SEAL_MAX ==> ciphertext@ == aes256_gcm_seal(
            key@,
            nonce@,
            p@,
        )),
        r matches Some(p) ==> forall|q: Seq<u8>|
            q.len() <= SEAL_MAX && ciphertext@ == aes256_gcm_seal(key@, nonce@, q) ==> p@ == q,
        r is None ==> forall|q: Seq<u8>|
            q.len() <= SEAL_MAX ==> ciphertext@ != aes256_gcm_seal(key@, nonce@, q),
{
    let cipher = aes_gcm::Aes256Gcm::new(aes_gcm::Key::<aes_gcm::Aes256Gcm>::from_slice(key));
    match cipher.decrypt(aes_gcm::Nonce::from_slice(nonce), ciphertext) {
        Ok(p) => Some(p),
        Err(_) => None,
    }
}

/// The 32 bytes that HKDF-SHA256 (RFC 5869) expands from the input key
/// material `ikm` and the context `info`, with no salt, as the `hkdf` crate
/// computes them.
pub uninterp spec fn hkdf_sha256(ikm: Seq<u8>, info: Seq<u8>) -> Seq<u8>;

/// Derives 32 bytes with `hkdf::Hkdf::<sha2::Sha256>::new(None, ikm)` and
/// `expand(info, ..)`. Its source refuses only outputs longer than 255
/// digests, so a 32-byte output always comes. The contract names the bytes
/// and says nothing else of them.
#[verifier::external_body]
pub(crate) fn hkdf_sha256_expand(ikm: &[u8], info: &[u8]) -> (r: Option<Vec<u8>>)
    ensures
        r is Some,
        r matches Some(k) ==> k@ == hkdf_sha256(ikm@, info@) && k@.len() == 32,
{
    let hk = hkdf::Hkdf::<sha2::Sha256>::new(None, ikm);
    let mut okm = [0u8; 32];
    match hk.expand(info, &mut okm) {
        Ok(()) => Some(okm.to_vec()),
        Err(_) => None,
    }
}

/// Fills `buf` from `rand::thread_rng()`. The bytes depend on chance: the
/// contract states only that the length stays.
#[verifier::external_body]
pub(crate) fn fill_random(buf: &mut [u8])
    ensures
        final(buf)@.len() == old(buf)@.len(),
{
    rand::thread_rng().fill_bytes(buf);
}

} // verus!
