//! At-rest protection of saved passwords: AES-256-GCM under a persisted
//! 256-bit master key, with a fresh random 96-bit nonce for every encryption,
//! and both ciphertext and nonce stored as base64 text.

use vstd::prelude::*;
use vstd::string::*;
use vstd::utf8::*;
use aes_gcm::aead::{Aead, AeadCore, KeyInit, OsRng};
use base64::Engine;
use std::collections::HashMap;

verus! {

broadcast use {encode_utf8_decode_utf8, encode_utf8_valid_utf8};

/// Length in bytes of the master key.
pub const KEY_LEN: usize = 32;

/// Length in bytes of a nonce.
pub const NONCE_LEN: usize = 12;

/// Length in bytes of the authentication tag that follows the ciphertext.
pub const TAG_LEN: usize = 16;

/// Longest plaintext, in bytes, that AES-GCM seals (2^36).
pub const MAX_PLAINTEXT: u64 = 0x10_0000_0000;

/// Why a key could not be loaded, or a secret not be sealed or opened.
#[derive(Debug, Clone, Copy, PartialEq, Eq, Structural)]
pub enum CryptoError {
    /// The stored key does not have the length of a key.
    InvalidKeyFile,
    /// An empty password is never encrypted: empty means "no password".
    EmptySecret,
    /// The cipher refused to encrypt.
    EncryptionFailed,
    /// The ciphertext or the nonce is not valid base64.
    DecodeError,
    /// The decoded nonce does not have the length of a nonce.
    InvalidNonceLength,
    /// The cipher rejected the ciphertext: it was altered, or sealed under
    /// another key or nonce.
    AuthenticationFailed,
    /// The recovered plaintext is not UTF-8 text.
    InvalidUtf8,
}

/// A sealed secret as stored: ciphertext and nonce, each in base64.
#[derive(Debug, Clone)]
pub struct EncryptedData {
    pub ciphertext: String,
    pub nonce: String,
}

/// The stored form of a connection profile: the password is sealed.
#[derive(Debug, Clone)]
pub struct SecureConnectionData {
    pub id: String,
    pub name: String,
    pub url: String,
    pub username: Option<String>,
    pub encrypted_password: Option<EncryptedData>,
    pub headers: HashMap<String, String>,
}

/// What AES-256-GCM (no associated data) yields when sealing `plaintext`
/// under `key` and `nonce`.
pub uninterp spec fn aes_gcm_sealed(key: Seq<u8>, nonce: Seq<u8>, plaintext: Seq<u8>) -> Option<Seq<u8>>;

/// What AES-256-GCM (no associated data) yields when opening `ciphertext`
/// under `key` and `nonce`; nothing when authentication fails.
pub uninterp spec fn aes_gcm_opened(key: Seq<u8>, nonce: Seq<u8>, ciphertext: Seq<u8>) -> Option<Seq<u8>>;

/// The standard padded base64 text of some bytes.
pub uninterp spec fn base64_text(bytes: Seq<u8>) -> Seq<char>;

/// The bytes that a standard padded base64 text decodes to, if it is valid.
pub uninterp spec fn base64_bytes(text: Seq<char>) -> Option<Seq<u8>>;

/// The bytes of an optional buffer.
pub open spec fn opt_bytes(o: Option<Vec<u8>>) -> Option<Seq<u8>> {
    match o {
        Some(v) => Some(v@),
        None => None,
    }
}

/// Relies on `Aes256Gcm::encrypt` (aes-gcm): it fails only for a plaintext
/// longer than 2^36 bytes; the ciphertext depends on key, nonce and plaintext
/// alone, is the plaintext's length plus the 16-byte tag, and decrypting it
/// under the same key and nonce gives the plaintext back.
#[verifier::external_body]
fn seal(key: &[u8; KEY_LEN], nonce: &[u8; NONCE_LEN], plaintext: &[u8]) -> (r: Option<Vec<u8>>)
    ensures
        opt_bytes(r) == aes_gcm_sealed(key@, nonce@, plaintext@),
        plaintext@.len() <= MAX_PLAINTEXT ==> r is Some,
        r matches Some(c) ==> c@.len() == plaintext@.len() + TAG_LEN,
        r matches Some(c) ==> aes_gcm_opened(key@, nonce@, c@) == Some(plaintext@),
{
    let cipher = aes_gcm::Aes256Gcm::new(aes_gcm::Key::<aes_gcm::Aes256Gcm>::from_slice(key));
    cipher.encrypt(aes_gcm::Nonce::from_slice(nonce), plaintext).ok()
}

/// Relies on `Aes256Gcm::decrypt` (aes-gcm), which rejects a ciphertext whose
/// tag does not authenticate. `Nonce::from_slice` panics unless the nonce has
/// twelve bytes.
#[verifier::external_body]
fn open(key: &[u8; KEY_LEN], nonce: &[u8], ciphertext: &[u8]) -> (r: Option<Vec<u8>>)
    requires
        nonce@.len() == NONCE_LEN,
    ensures
        opt_bytes(r) == aes_gcm_opened(key@, nonce@, ciphertext@),
{
    let cipher = aes_gcm::Aes256Gcm::new(aes_gcm::Key::<aes_gcm::Aes256Gcm>::from_slice(key));
    cipher.decrypt(aes_gcm::Nonce::from_slice(nonce), ciphertext).ok()
}

/// Relies on `Aes256Gcm::generate_nonce` with the operating system's random
/// source: twelve random bytes.
#[verifier::external_body]
fn random_nonce() -> (r: [u8; NONCE_LEN]) {
    aes_gcm::Aes256Gcm::generate_nonce(&mut OsRng).into()
}

/// Relies on `Aes256Gcm::generate_key` with the operating system's random
/// source: thirty-two random bytes.
#[verifier::external_body]
fn random_key() -> (r: [u8; KEY_LEN]) {
    aes_gcm::Aes256Gcm::generate_key(&mut OsRng).into()
}

/// Relies on `base64::engine::general_purpose::STANDARD.encode`: the text
/// depends on the bytes alone, and the same engine decodes it back to them.
#[verifier::external_body]
fn encode_base64(bytes: &[u8]) -> (r: String)
    ensures
        r@ == base64_text(bytes@),
        base64_bytes(r@) == Some(bytes@),
{
    base64::engine::general_purpose::STANDARD.encode(bytes)
}

/// Relies on `base64::engine::general_purpose::STANDARD.decode`: the bytes,
/// or nothing for text that is not valid padded base64.
#[verifier::external_body]
fn decode_base64(text: &str) -> (r: Option<Vec<u8>>)
    ensures
        opt_bytes(r) == base64_bytes(text@),
{
    base64::engine::general_purpose::STANDARD.decode(text).ok()
}

/// Relies on `std::str::from_utf8`: text exactly when the bytes are valid UTF-8.
#[verifier::external_body]
fn utf8_str(bytes: &[u8]) -> (r: Option<&str>)
    ensures
        r is Some <==> valid_utf8(bytes@),
        r matches Some(s) ==> s@ == decode_utf8(bytes@),
{
    std::str::from_utf8(bytes).ok()
}

/// The outcome of opening a stored secret under `key`.
pub open spec fn decrypt_outcome(key: Seq<u8>, ciphertext: Seq<char>, nonce: Seq<char>) -> Result<
    Seq<char>,
    CryptoError,
> {
    match base64_bytes(nonce) {
        None => Err(CryptoError::DecodeError),
        Some(n) => match base64_bytes(ciphertext) {
            None => Err(CryptoError::DecodeError),
            Some(c) => if n.len() != NONCE_LEN {
                Err(CryptoError::InvalidNonceLength)
            } else {
                match aes_gcm_opened(key, n, c) {
                    None => Err(CryptoError::AuthenticationFailed),
                    Some(p) => if valid_utf8(p) {
                        Ok(decode_utf8(p))
                    } else {
                        Err(CryptoError::InvalidUtf8)
                    },
                }
            },
        },
    }
}

/// `data` seals `text` under `key`: its nonce and its ciphertext are the
/// base64 texts of a twelve-byte nonce and of a ciphertext, one tag longer
/// than the UTF-8 bytes of `text`, that opens to them under `key` and that
/// nonce.
pub open spec fn seals(key: Seq<u8>, text: Seq<char>, data: EncryptedData) -> bool {
    exists|n: Seq<u8>, c: Seq<u8>|
        {
            &&& n.len() == NONCE_LEN
            &&& #[trigger] base64_bytes(data.nonce@) == Some(n)
            &&& #[trigger] base64_bytes(data.ciphertext@) == Some(c)
            &&& c.len() == encode_utf8(text).len() + TAG_LEN
            &&& aes_gcm_opened(key, n, c) == Some(encode_utf8(text))
        }
}

/// Whether a password can be sealed: its UTF-8 form is within the cipher's
/// limit.
pub open spec fn sealable(text: Seq<char>) -> bool {
    encode_utf8(text).len() <= MAX_PLAINTEXT
}

/// Sealing a secret and opening the result under the same key gives the
/// secret back.
pub proof fn lemma_encrypt_decrypt_round_trip(key: Seq<u8>, text: Seq<char>, data: EncryptedData)
    requires
        seals(key, text, data),
    ensures
        decrypt_outcome(key, data.ciphertext@, data.nonce@) == Ok::<Seq<char>, CryptoError>(text),
{
    let (n, c) = choose|n: Seq<u8>, c: Seq<u8>|
        {
            &&& n.len() == NONCE_LEN
            &&& #[trigger] base64_bytes(data.nonce@) == Some(n)
            &&& #[trigger] base64_bytes(data.ciphertext@) == Some(c)
            &&& aes_gcm_opened(key, n, c) == Some(encode_utf8(text))
        };
    assert(valid_utf8(encode_utf8(text)));
    assert(decode_utf8(encode_utf8(text)) == text);
}

/// Holds the master key and seals and opens secrets with it.
pub struct CryptoManager {
    master_key: [u8; KEY_LEN],
}

impl CryptoManager {
    /// The key bytes.
    pub closed spec fn key(&self) -> Seq<u8> {
        self.master_key@
    }

    /// A manager over a key read back from storage; the stored bytes must be
    /// exactly one key long.
    pub fn from_key_bytes(bytes: &[u8]) -> (r: Result<CryptoManager, CryptoError>)
        ensures
            bytes@.len() != KEY_LEN ==> r == Err::<CryptoManager, CryptoError>(CryptoError::InvalidKeyFile),
            bytes@.len() == KEY_LEN ==> (r matches Ok(m) && m.key() == bytes@),
    {
        if bytes.len() != KEY_LEN {
            return Err(CryptoError::InvalidKeyFile);
        }
        let mut key: [u8; KEY_LEN] = [0u8; KEY_LEN];
        let mut i: usize = 0;
        while i < KEY_LEN
            invariant
                bytes@.len() == KEY_LEN,
                i <= KEY_LEN,
                forall|j: int| 0 <= j < i ==> key@[j] == bytes@[j],
            decreases KEY_LEN - i,
        {
            key[i] = bytes[i];
            i = i + 1;
        }
        assert(key@ =~= bytes@);
        Ok(CryptoManager { master_key: key })
    }

    /// A manager over a freshly generated random key.
    pub fn generate() -> (r: CryptoManager)
        ensures
            r.key().len() == KEY_LEN,
    {
        CryptoManager { master_key: random_key() }
    }

    /// The key bytes, for storing them.
    pub fn key_bytes(&self) -> (r: Vec<u8>)
        ensures
            r@ == self.key(),
    {
        let mut out: Vec<u8> = Vec::new();
        let mut i: usize = 0;
        while i < KEY_LEN
            invariant
                i <= KEY_LEN,
                out@ == self.master_key@.take(i as int),
            decreases KEY_LEN - i,
        {
            out.push(self.master_key[i]);
            i = i + 1;
            assert(out@ =~= self.master_key@.take(i as int));
        }
        assert(out@ =~= self.master_key@);
        out
    }

    /// Seals a non-empty password under the master key with a fresh nonce.
    pub fn encrypt_password(&self, password: &str) -> (r: Result<EncryptedData, CryptoError>)
        ensures
            password@.len() == 0 ==> r == Err::<EncryptedData, CryptoError>(CryptoError::EmptySecret),
            password@.len() > 0 ==> match r {
                Ok(data) => seals(self.key(), password@, data),
                Err(e) => e == CryptoError::EncryptionFailed,
            },
            password@.len() > 0 && sealable(password@) ==> r is Ok,
    {
        if password.is_empty() {
            return Err(CryptoError::EmptySecret);
        }
        let nonce = random_nonce();
        let mut plaintext = password.as_bytes_vec();
        let outcome = seal(&self.master_key, &nonce, plaintext.as_slice());
        secure_wipe_vec(&mut plaintext);
        match outcome {
            None => Err(CryptoError::EncryptionFailed),
            Some(sealed) => {
                let data = EncryptedData {
                    ciphertext: encode_base64(sealed.as_slice()),
                    nonce: encode_base64(nonce.as_slice()),
                };
                assert(base64_bytes(data.nonce@) == Some(nonce@));
                assert(base64_bytes(data.ciphertext@) == Some(sealed@));
                Ok(data)
            },
        }
    }

    /// Opens a stored secret under the master key.
    pub fn decrypt_password(&self, encrypted_data: &EncryptedData) -> (r: Result<String, CryptoError>)
        ensures
            match r {
                Ok(s) => decrypt_outcome(self.key(), encrypted_data.ciphertext@, encrypted_data.nonce@)
                    == Ok::<Seq<char>, CryptoError>(s@),
                Err(e) => decrypt_outcome(self.key(), encrypted_data.ciphertext@, encrypted_data.nonce@)
                    == Err::<Seq<char>, CryptoError>(e),
            },
    {
        let nonce = match decode_base64(encrypted_data.nonce.as_str()) {
            Some(n) => n,
            None => return Err(CryptoError::DecodeError),
        };
        let ciphertext = match decode_base64(encrypted_data.ciphertext.as_str()) {
            Some(c) => c,
            None => return Err(CryptoError::DecodeError),
        };
        if nonce.len() != NONCE_LEN {
            return Err(CryptoError::InvalidNonceLength);
        }
        let mut plaintext = match open(&self.master_key, nonce.as_slice(), ciphertext.as_slice()) {
            Some(p) => p,
            None => return Err(CryptoError::AuthenticationFailed),
        };
        let result = match utf8_str(plaintext.as_slice()) {
            Some(t) => Ok(t.to_owned()),
            None => Err(CryptoError::InvalidUtf8),
        };
        secure_wipe_vec(&mut plaintext);
        result
    }
}

/// Relies on `String::into_bytes`: the UTF-8 bytes of the text, moved
/// without a copy.
#[verifier::external_body]
fn string_bytes(s: String) -> (r: Vec<u8>)
    ensures
        r@ == encode_utf8(s@),
{
    s.into_bytes()
}

impl CryptoManager {
    /// Overwrites every byte with zero. The compiler may still keep copies
    /// elsewhere: this bounds the exposure, it does not rule it out.
    pub fn secure_wipe(data: &mut [u8])
        ensures
            final(data)@.len() == old(data)@.len(),
            forall|i: int| 0 <= i < final(data)@.len() ==> final(data)@[i] == 0,
    {
        let mut i: usize = 0;
        while i < data.len()
            invariant
                data@.len() == old(data)@.len(),
                i <= data@.len(),
                forall|j: int| 0 <= j < i ==> data@[j] == 0,
            decreases data@.len() - i,
        {
            data[i] = 0;
            i = i + 1;
        }
    }
}

/// Overwrites every byte of a buffer with zero.
fn secure_wipe_vec(data: &mut Vec<u8>)
    ensures
        final(data)@.len() == old(data)@.len(),
        forall|i: int| 0 <= i < final(data)@.len() ==> final(data)@[i] == 0,
{
    CryptoManager::secure_wipe(data.as_mut_slice());
}

/// A secret text whose bytes are overwritten with zeros when it is dropped.
pub struct SecureString {
    data: Vec<u8>,
}

impl SecureString {
    /// The UTF-8 bytes held.
    pub closed spec fn bytes(&self) -> Seq<u8> {
        self.data@
    }

    /// Takes over the bytes of `s`.
    pub fn new(s: String) -> (r: Self)
        ensures
            r.bytes() == encode_utf8(s@),
    {
        SecureString { data: string_bytes(s) }
    }

    /// The text held.
    pub fn as_str(&self) -> (r: Result<&str, CryptoError>)
        ensures
            valid_utf8(self.bytes()) ==> (r matches Ok(t) && t@ == decode_utf8(self.bytes())),
            !valid_utf8(self.bytes()) ==> r == Err::<&str, CryptoError>(CryptoError::InvalidUtf8),
    {
        match utf8_str(self.data.as_slice()) {
            Some(t) => Ok(t),
            None => Err(CryptoError::InvalidUtf8),
        }
    }

    /// What `as_str` returns for a secure string made from `s` is `s`.
    pub proof fn lemma_new_as_str(s: Seq<char>)
        ensures
            valid_utf8(encode_utf8(s)),
            decode_utf8(encode_utf8(s)) == s,
    {
    }
}

impl Drop for SecureString {
    /// Relies on `slice::fill` to overwrite the bytes with zeros on release.
    /// Verus takes a drop hook only where it provably opens no invariants and
    /// cannot unwind, which no specified standard-library call promises, so
    /// this hook is not checked. The compiler may still elide the writes.
    #[verifier::external_body]
    fn drop(&mut self)
        opens_invariants none
        no_unwind
    {
        self.data.fill(0);
    }
}

} // verus!
