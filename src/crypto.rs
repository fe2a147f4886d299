use aes_gcm::aead::{Aead, KeyInit};
use aes_gcm::Aes256Gcm;
use base64::Engine;
use rand::Rng;
use sha2::Digest;
use vstd::prelude::*;
use vstd::string::StringSliceAdditionalSpecFns;

use crate::error::{NoterError, Result};

verus! {

/// Length in bytes of the nonce that starts every envelope.
pub const NONCE_LEN: usize = 12;

/// Length in bytes of the authentication tag that ends every envelope.
pub const TAG_LEN: usize = 16;

/// Length in bytes of the symmetric key.
pub const KEY_LEN: usize = 32;

/// Longest plaintext that AES-256-GCM accepts, in bytes.
pub const MAX_PLAINTEXT_LEN: u64 = 68719476736;

/// The error of aes_gcm's encryption and decryption, carried through unopened.
#[verifier::external_type_specification]
#[verifier::external_body]
pub struct ExAeadError(aes_gcm::Error);

/// The error of base64's decoding, carried through unopened.
#[verifier::external_type_specification]
#[verifier::external_body]
pub struct ExDecodeError(base64::DecodeError);

/// The SHA-256 digest of a byte sequence.
pub uninterp spec fn sha256_of(b: Seq<u8>) -> Seq<u8>;

/// The AES-256-GCM ciphertext, tag appended, of `pt` under `key` and `nonce`.
pub uninterp spec fn gcm_seal(key: Seq<u8>, nonce: Seq<u8>, pt: Seq<u8>) -> Seq<u8>;

/// The AES-256-GCM opening of `ct` under `key` and `nonce`: `None` when the tag does not verify.
pub uninterp spec fn gcm_open(key: Seq<u8>, nonce: Seq<u8>, ct: Seq<u8>) -> Option<Seq<u8>>;

/// The standard, padded base64 text of a byte sequence.
pub uninterp spec fn b64_encode(b: Seq<u8>) -> Seq<char>;

/// The bytes that a standard, padded base64 text stands for: `None` when it is malformed.
pub uninterp spec fn b64_decode(s: Seq<char>) -> Option<Seq<u8>>;

/// The envelope text of `pt` sealed under `key` with `nonce`:
/// base64 of the nonce followed by the ciphertext and its tag.
pub open spec fn envelope(key: Seq<u8>, nonce: Seq<u8>, pt: Seq<u8>) -> Seq<char> {
    b64_encode(nonce + gcm_seal(key, nonce, pt))
}

/// What an envelope text opens to under `key`: `None` when the text is not base64,
/// is shorter than a nonce once decoded, or fails authentication.
pub open spec fn opened(key: Seq<u8>, text: Seq<char>) -> Option<Seq<u8>> {
    match b64_decode(text) {
        None => None,
        Some(d) => if d.len() < NONCE_LEN {
            None
        } else {
            gcm_open(key, d.take(NONCE_LEN as int), d.skip(NONCE_LEN as int))
        },
    }
}

/// Relies on sha2::Sha256: the 32-byte digest of the input.
#[verifier::external_body]
fn sha256(b: &[u8]) -> (r: Vec<u8>)
    ensures
        r@ == sha256_of(b@),
        r@.len() == KEY_LEN,
{
    sha2::Sha256::digest(b).to_vec()
}

/// Relies on rand::thread_rng: `len` bytes from the thread-local generator.
#[verifier::external_body]
fn random_bytes(len: usize) -> (r: Vec<u8>)
    ensures
        r@.len() == len,
{
    let mut b = vec![0u8; len];
    rand::thread_rng().fill(&mut b[..]);
    b
}

/// Relies on aes_gcm's `Aead::encrypt` for `Aes256Gcm`: it fails only on a plaintext
/// longer than its `P_MAX`, appends a tag, and what it seals opens to the plaintext.
#[verifier::external_body]
fn seal(key: &[u8], nonce: &[u8], pt: &[u8]) -> (r: core::result::Result<Vec<u8>, aes_gcm::Error>)
    requires
        key@.len() == KEY_LEN,
        nonce@.len() == NONCE_LEN,
    ensures
        r is Ok <==> pt@.len() <= MAX_PLAINTEXT_LEN,
        r matches Ok(c) ==> c@ == gcm_seal(key@, nonce@, pt@) && c@.len() == pt@.len() + TAG_LEN,
        r is Ok ==> gcm_open(key@, nonce@, gcm_seal(key@, nonce@, pt@)) == Some(pt@),
{
    let cipher = Aes256Gcm::new(aes_gcm::Key::<Aes256Gcm>::from_slice(key));
    cipher.encrypt(aes_gcm::Nonce::from_slice(nonce), pt)
}

/// Relies on aes_gcm's `Aead::decrypt` for `Aes256Gcm`: the plaintext when the tag verifies.
#[verifier::external_body]
fn open(key: &[u8], nonce: &[u8], ct: &[u8]) -> (r: core::result::Result<Vec<u8>, aes_gcm::Error>)
    requires
        key@.len() == KEY_LEN,
        nonce@.len() == NONCE_LEN,
    ensures
        match r {
            Ok(p) => gcm_open(key@, nonce@, ct@) == Some(p@),
            Err(_) => gcm_open(key@, nonce@, ct@) is None,
        },
{
    let cipher = Aes256Gcm::new(aes_gcm::Key::<Aes256Gcm>::from_slice(key));
    cipher.decrypt(aes_gcm::Nonce::from_slice(nonce), ct)
}

/// Relies on base64's `STANDARD` engine `encode`; its `decode` gives the bytes back.
#[verifier::external_body]
fn to_base64(b: &[u8]) -> (r: String)
    ensures
        r@ == b64_encode(b@),
        b64_decode(r@) == Some(b@),
{
    base64::engine::general_purpose::STANDARD.encode(b)
}

/// Relies on base64's `STANDARD` engine `decode`.
#[verifier::external_body]
fn from_base64(s: &str) -> (r: core::result::Result<Vec<u8>, base64::DecodeError>)
    ensures
        match r {
            Ok(b) => b64_decode(s@) == Some(b@),
            Err(_) => b64_decode(s@) is None,
        },
{
    base64::engine::general_purpose::STANDARD.decode(s)
}

/// Authenticated encryption of note contents under one key.
pub struct Crypto {
    key: Vec<u8>,
}

impl Crypto {
    /// The symmetric key.
    pub closed spec fn key(&self) -> Seq<u8> {
        self.key@
    }

    pub closed spec fn wf(&self) -> bool {
        self.key@.len() == KEY_LEN
    }

    /// Derives the key as the SHA-256 digest of the secret's UTF-8 bytes.
    pub fn new(secret: &str) -> (r: Self)
        ensures
            r.wf(),
            r.key() == sha256_of(secret.spec_bytes()),
    {
        let key = sha256(secret.as_bytes());
        Crypto { key }
    }

    /// Seals `data` under a fresh random nonce and returns the envelope text.
    ///
    /// Fails only on a plaintext longer than AES-256-GCM accepts. What it returns
    /// opens to `data` again under the same key.
    pub fn encrypt(&self, data: &[u8]) -> (r: Result<String>)
        requires
            self.wf(),
        ensures
            r is Ok <==> data@.len() <= MAX_PLAINTEXT_LEN,
            r matches Err(e) ==> e is Encryption,
            r matches Ok(t) ==> exists|n: Seq<u8>| n.len() == NONCE_LEN && t@ == envelope(self.key(), n, data@),
            r matches Ok(t) ==> opened(self.key(), t@) == Some(data@),
    {
        let nonce = random_bytes(NONCE_LEN);
        match seal(self.key.as_slice(), nonce.as_slice(), data) {
            Err(_) => Err(NoterError::Encryption("plaintext too long".to_string())),
            Ok(ct) => {
                let mut combined = nonce.clone();
                combined.extend_from_slice(ct.as_slice());
                assert(combined@ =~= nonce@ + ct@);
                let text = to_base64(combined.as_slice());
                assert(combined@.take(NONCE_LEN as int) =~= nonce@);
                assert(combined@.skip(NONCE_LEN as int) =~= ct@);
                Ok(text)
            },
        }
    }

    /// Opens an envelope text.
    ///
    /// Fails with `Encryption` when the text is not base64, when it decodes to fewer
    /// bytes than a nonce, or when authentication fails (tampering, truncation, wrong key).
    pub fn decrypt(&self, data: &str) -> (r: Result<Vec<u8>>)
        requires
            self.wf(),
        ensures
            match r {
                Ok(p) => opened(self.key(), data@) == Some(p@),
                Err(e) => opened(self.key(), data@) is None && e is Encryption,
            },
            b64_decode(data@) matches Some(d) && d.len() < NONCE_LEN ==> r is Err,
    {
        let decoded = match from_base64(data) {
            Ok(d) => d,
            Err(_) => {
                return Err(NoterError::Encryption("invalid base64 text".to_string()));
            },
        };
        if decoded.len() < NONCE_LEN {
            return Err(NoterError::Encryption("Invalid encrypted data".to_string()));
        }
        let (nonce, ct) = decoded.as_slice().split_at(NONCE_LEN);
        assert(nonce@ =~= decoded@.take(NONCE_LEN as int));
        assert(ct@ =~= decoded@.skip(NONCE_LEN as int));
        match open(self.key.as_slice(), nonce, ct) {
            Ok(p) => Ok(p),
            Err(_) => Err(NoterError::Encryption("authentication failed".to_string())),
        }
    }
}

} // verus!
