//! Envelope encryption: each value is sealed with AES-256-GCM under a fresh
//! data key that the KMS minted, and stored as the hex text of
//! `nonce || ciphertext || tag`.

use vstd::prelude::*;
use aes_gcm::aead::{Aead, AeadCore, KeyInit, OsRng};
use aes_gcm::{Aes256Gcm, Key, Nonce};
use sha2::{Digest, Sha256};
use zeroize::Zeroize;
use vstd::utf8::{decode_utf8, valid_utf8};
use crate::encoding::{
    hex_decode, hex_decoded, hex_encode, hex_lower, lemma_hex_round_trip, utf8_text,
};
use crate::errors::AppError;

verus! {

/// Length of an AES-GCM nonce, which prefixes every stored ciphertext.
pub const NONCE_SIZE: usize = 12;

/// Length of an AES-256 data key.
pub const KEY_SIZE: usize = 32;

/// Length of the GCM authentication tag that ends every ciphertext.
pub const TAG_SIZE: usize = 16;

/// Longest plaintext that AES-GCM accepts, in bytes (2^36).
pub const MAX_PLAINTEXT: u64 = 0x10_0000_0000;

/// SHA-256 digest of `data`.
pub uninterp spec fn sha256_of(data: Seq<u8>) -> Seq<u8>;

/// AES-256-GCM encryption of `plaintext` under `key` and `nonce`, with no
/// associated data: the ciphertext followed by the tag.
pub uninterp spec fn gcm_seal_of(key: Seq<u8>, nonce: Seq<u8>, plaintext: Seq<u8>) -> Seq<u8>;

/// AES-256-GCM decryption of `ciphertext` (tag included) under `key` and
/// `nonce`: `None` when the tag does not authenticate it.
pub uninterp spec fn gcm_open_of(key: Seq<u8>, nonce: Seq<u8>, ciphertext: Seq<u8>) -> Option<
    Seq<u8>,
>;

/// Whether AES-GCM accepts a plaintext of this length.
pub open spec fn fits_gcm(plaintext: Seq<u8>) -> bool {
    plaintext.len() <= MAX_PLAINTEXT
}

/// Relies on `sha2::Sha256::digest`: the 32-byte SHA-256 digest of the input.
#[verifier::external_body]
pub(crate) fn sha256(data: &[u8]) -> (r: Vec<u8>)
    ensures
        r@ == sha256_of(data@),
        r@.len() == 32,
{
    Sha256::digest(data).to_vec()
}

#[verifier::external_type_specification]
#[verifier::external_body]
pub struct ExAeadError(aes_gcm::Error);

/// Relies on `Aes256Gcm::new` and `Aead::encrypt` of aes-gcm: a plaintext of
/// at most `MAX_PLAINTEXT` bytes is encrypted, the 16-byte tag appended; a
/// longer one is refused.
#[verifier::external_body]
#[allow(deprecated)]
fn gcm_seal(key: &[u8], nonce: &[u8], plaintext: &[u8]) -> (r: Result<Vec<u8>, aes_gcm::Error>)
    requires
        key@.len() == KEY_SIZE,
        nonce@.len() == NONCE_SIZE,
    ensures
        fits_gcm(plaintext@) ==> r is Ok && r->Ok_0@ == gcm_seal_of(key@, nonce@, plaintext@),
        !fits_gcm(plaintext@) ==> r is Err,
        r is Ok ==> r->Ok_0@.len() == plaintext@.len() + TAG_SIZE,
{
    let cipher = Aes256Gcm::new(Key::<Aes256Gcm>::from_slice(key));
    cipher.encrypt(Nonce::from_slice(nonce), plaintext)
}

/// Relies on `Aes256Gcm::new` and `Aead::decrypt` of aes-gcm: the plaintext
/// when the tag authenticates the ciphertext, an error otherwise; what
/// `Aead::encrypt` produced under the same key and nonce opens to its
/// plaintext.
#[verifier::external_body]
#[allow(deprecated)]
fn gcm_open(key: &[u8], nonce: &[u8], ciphertext: &[u8]) -> (r: Result<Vec<u8>, aes_gcm::Error>)
    requires
        key@.len() == KEY_SIZE,
        nonce@.len() == NONCE_SIZE,
    ensures
        match gcm_open_of(key@, nonce@, ciphertext@) {
            Some(p) => r is Ok && r->Ok_0@ == p,
            None => r is Err,
        },
        forall|p: Seq<u8>|
            fits_gcm(p) && #[trigger] gcm_seal_of(key@, nonce@, p) == ciphertext@ ==> r is Ok
                && r->Ok_0@ == p,
{
    let cipher = Aes256Gcm::new(Key::<Aes256Gcm>::from_slice(key));
    cipher.decrypt(Nonce::from_slice(nonce), ciphertext)
}

/// Relies on `AeadCore::generate_nonce` with `OsRng`: a random 12-byte nonce.
#[verifier::external_body]
fn fresh_nonce() -> (r: Vec<u8>)
    ensures
        r@.len() == NONCE_SIZE,
{
    Aes256Gcm::generate_nonce(&mut OsRng).to_vec()
}

/// Relies on `Zeroize` for `Vec<u8>`: the bytes are overwritten and the
/// vector left empty.
#[verifier::external_body]
fn wipe(bytes: &mut Vec<u8>)
    ensures
        final(bytes)@.len() == 0,
{
    bytes.zeroize()
}

/// Lower-case hex SHA-256 digest of `data`.
pub fn sha256_hash(data: &[u8]) -> (r: String)
    ensures
        r@ == hex_lower(sha256_of(data@)),
{
    let digest = sha256(data);
    hex_encode(digest.as_slice())
}

/// The stored text of `plaintext` sealed under `key` with `nonce`.
pub open spec fn sealed_blob(key: Seq<u8>, nonce: Seq<u8>, plaintext: Seq<u8>) -> Seq<char> {
    hex_lower(nonce + gcm_seal_of(key, nonce, plaintext))
}

/// A stored blob decodes to at least `NONCE_SIZE` bytes, the first of which
/// are the nonce it was sealed with.
pub proof fn lemma_sealed_blob_layout(key: Seq<u8>, nonce: Seq<u8>, plaintext: Seq<u8>)
    requires
        nonce.len() == NONCE_SIZE,
    ensures
        hex_decoded(sealed_blob(key, nonce, plaintext)) matches Some(b) && b.len() >= NONCE_SIZE
            && b.subrange(0, NONCE_SIZE as int) == nonce,
{
    let b = nonce + gcm_seal_of(key, nonce, plaintext);
    lemma_hex_round_trip(b);
    assert(b.subrange(0, NONCE_SIZE as int) =~= nonce);
}

/// Seals `plaintext` under `data_key` with `nonce` and returns the stored
/// text.
pub fn seal_with_nonce(data_key: &[u8], nonce: &[u8], plaintext: &[u8]) -> (r: Result<
    String,
    AppError,
>)
    requires
        nonce@.len() == NONCE_SIZE,
    ensures
        data_key@.len() == KEY_SIZE && fits_gcm(plaintext@) ==> r is Ok && r->Ok_0@
            == sealed_blob(data_key@, nonce@, plaintext@),
        !(data_key@.len() == KEY_SIZE && fits_gcm(plaintext@)) ==> r matches Err(
            AppError::CryptoError(_),
        ),
        r is Ok ==> (hex_decoded(r->Ok_0@) matches Some(b) && b.len() == NONCE_SIZE
            + plaintext@.len() + TAG_SIZE),
{
    if data_key.len() != KEY_SIZE {
        return Err(AppError::crypto("Failed to create AES cipher: invalid key length"));
    }
    match gcm_seal(data_key, nonce, plaintext) {
        Ok(sealed) => {
            let mut combined: Vec<u8> = Vec::new();
            let mut i: usize = 0;
            while i < nonce.len()
                invariant
                    i <= nonce@.len(),
                    combined@ == nonce@.subrange(0, i as int),
                decreases nonce@.len() - i,
            {
                combined.push(nonce[i]);
                i = i + 1;
                assert(combined@ =~= nonce@.subrange(0, i as int));
            }
            let mut j: usize = 0;
            while j < sealed.len()
                invariant
                    j <= sealed@.len(),
                    combined@ == nonce@ + sealed@.subrange(0, j as int),
                decreases sealed@.len() - j,
            {
                combined.push(sealed[j]);
                j = j + 1;
                assert(combined@ =~= nonce@ + sealed@.subrange(0, j as int));
            }
            assert(sealed@.subrange(0, j as int) =~= sealed@);
            proof {
                lemma_hex_round_trip(combined@);
            }
            Ok(hex_encode(combined.as_slice()))
        },
        Err(_) => Err(AppError::crypto("Local encryption failed")),
    }
}

/// What encrypting one value yields before its data key is stored: the
/// stored text, the hex SHA-256 of the plaintext, and the hex of the
/// KMS-wrapped data key.
pub struct SealedValue {
    pub encrypted_blob: String,
    pub sha256sum: String,
    pub encrypted_key: String,
}

/// Encrypts `plaintext` with a data key that the KMS generated: `data_key`
/// is its plaintext, `wrapped_key` its KMS-encrypted form, either absent
/// when the KMS did not return it. The data key is wiped before returning.
pub fn encrypt_with_data_key(
    data_key: Option<Vec<u8>>,
    wrapped_key: Option<Vec<u8>>,
    plaintext: &[u8],
) -> (r: Result<SealedValue, AppError>)
    ensures
        data_key is None ==> r matches Err(AppError::KmsError(_)),
        data_key is Some && wrapped_key is None ==> r matches Err(AppError::KmsError(_)),
        data_key is Some && wrapped_key is Some && !(data_key->Some_0@.len() == KEY_SIZE
            && fits_gcm(plaintext@)) ==> r matches Err(AppError::CryptoError(_)),
        data_key is Some && wrapped_key is Some && data_key->Some_0@.len() == KEY_SIZE
            && fits_gcm(plaintext@) ==> r is Ok,
        r is Ok ==> exists|n: Seq<u8>|
            n.len() == NONCE_SIZE && r->Ok_0.encrypted_blob@ == #[trigger] sealed_blob(
                data_key->Some_0@,
                n,
                plaintext@,
            ),
        r is Ok ==> (hex_decoded(r->Ok_0.encrypted_blob@) matches Some(b) && b.len()
            == NONCE_SIZE + plaintext@.len() + TAG_SIZE),
        r is Ok ==> r->Ok_0.sha256sum@ == hex_lower(sha256_of(plaintext@)),
        r is Ok ==> r->Ok_0.encrypted_key@ == hex_lower(wrapped_key->Some_0@),
{
    let mut key = match data_key {
        Some(k) => k,
        None => {
            return Err(AppError::kms("KMS did not return a plaintext data key."));
        },
    };
    let wrapped = match wrapped_key {
        Some(w) => w,
        None => {
            wipe(&mut key);
            return Err(AppError::kms("KMS did not return a ciphertext blob for the data key."));
        },
    };
    let nonce = fresh_nonce();
    let sealed = seal_with_nonce(key.as_slice(), nonce.as_slice(), plaintext);
    wipe(&mut key);
    match sealed {
        Ok(blob) => {
            let sha = sha256_hash(plaintext);
            let encrypted_key = hex_encode(wrapped.as_slice());
            Ok(SealedValue { encrypted_blob: blob, sha256sum: sha, encrypted_key })
        },
        Err(e) => Err(e),
    }
}

/// The plaintext that a stored blob opens to under `key`: `None` when the
/// key is not 32 bytes, the text is not hex, it is shorter than a nonce, or
/// the tag does not authenticate it.
pub open spec fn opened_blob(key: Seq<u8>, blob: Seq<char>) -> Option<Seq<u8>> {
    match hex_decoded(blob) {
        Some(b) => if key.len() == KEY_SIZE && b.len() >= NONCE_SIZE {
            gcm_open_of(key, b.subrange(0, NONCE_SIZE as int), b.subrange(NONCE_SIZE as int, b.len() as int))
        } else {
            None
        },
        None => None,
    }
}

/// Decodes the hex of a KMS-wrapped data key as stored with it.
pub fn decode_wrapped_key(encrypted_key: &str) -> (r: Result<Vec<u8>, AppError>)
    ensures
        match hex_decoded(encrypted_key@) {
            Some(b) => r matches Ok(v) && v@ == b,
            None => r matches Err(AppError::CryptoError(_)),
        },
{
    match hex_decode(encrypted_key) {
        Ok(v) => Ok(v),
        Err(_) => Err(AppError::crypto("Failed to decode encrypted DEK from hex")),
    }
}

/// Opens a stored blob with the data key that the KMS unwrapped (`None` when
/// it returned none). The data key is wiped before returning. Whatever
/// `encrypt_with_data_key` sealed under a key opens to its plaintext under
/// that key.
pub fn decrypt_with_data_key(data_key: Option<Vec<u8>>, blob: &str) -> (r: Result<
    Vec<u8>,
    AppError,
>)
    ensures
        data_key is None ==> r matches Err(AppError::KmsError(_)),
        data_key is Some ==> match opened_blob(data_key->Some_0@, blob@) {
            Some(p) => r is Ok && r->Ok_0@ == p,
            None => r matches Err(AppError::CryptoError(_)),
        },
        forall|n: Seq<u8>, p: Seq<u8>|
            data_key is Some && data_key->Some_0@.len() == KEY_SIZE && n.len() == NONCE_SIZE
                && fits_gcm(p) && blob@ == #[trigger] sealed_blob(data_key->Some_0@, n, p)
                ==> r is Ok && r->Ok_0@ == p,
{
    let mut key = match data_key {
        Some(k) => k,
        None => {
            return Err(AppError::kms("KMS did not return a plaintext data key on decrypt."));
        },
    };
    let ghost k = key@;
    let combined = match hex_decode(blob) {
        Ok(b) => b,
        Err(_) => {
            wipe(&mut key);
            return Err(AppError::crypto("Failed to decode encrypted value from hex"));
        },
    };
    if combined.len() < NONCE_SIZE {
        wipe(&mut key);
        return Err(AppError::crypto("Invalid encrypted data format."));
    }
    if key.len() != KEY_SIZE {
        wipe(&mut key);
        return Err(AppError::crypto("Failed to create AES cipher for decryption: invalid key length"));
    }
    let mut nonce: Vec<u8> = Vec::new();
    let mut rest: Vec<u8> = Vec::new();
    let mut i: usize = 0;
    while i < combined.len()
        invariant
            i <= combined@.len(),
            combined@.len() >= NONCE_SIZE,
            i <= NONCE_SIZE ==> nonce@ == combined@.subrange(0, i as int) && rest@.len() == 0,
            i > NONCE_SIZE ==> nonce@ == combined@.subrange(0, NONCE_SIZE as int) && rest@
                == combined@.subrange(NONCE_SIZE as int, i as int),
        decreases combined@.len() - i,
    {
        if i < NONCE_SIZE {
            nonce.push(combined[i]);
        } else {
            rest.push(combined[i]);
        }
        i = i + 1;
        assert(i <= NONCE_SIZE ==> nonce@ =~= combined@.subrange(0, i as int));
        assert(i > NONCE_SIZE ==> rest@ =~= combined@.subrange(NONCE_SIZE as int, i as int));
        assert(i == NONCE_SIZE + 1 ==> rest@ =~= combined@.subrange(NONCE_SIZE as int, i as int));
    }
    if combined.len() == NONCE_SIZE {
        assert(rest@ =~= combined@.subrange(NONCE_SIZE as int, combined@.len() as int));
    }
    let opened = gcm_open(key.as_slice(), nonce.as_slice(), rest.as_slice());
    wipe(&mut key);
    proof {
        assert forall|n: Seq<u8>, p: Seq<u8>|
            k.len() == KEY_SIZE && n.len() == NONCE_SIZE && fits_gcm(p) && blob@
                == #[trigger] sealed_blob(k, n, p) implies opened is Ok && opened->Ok_0@ == p by {
            let b = n + gcm_seal_of(k, n, p);
            lemma_hex_round_trip(b);
            assert(combined@ == b);
            assert(b.subrange(0, NONCE_SIZE as int) =~= n);
            assert(b.subrange(NONCE_SIZE as int, b.len() as int) =~= gcm_seal_of(k, n, p));
        }
    }
    match opened {
        Ok(p) => Ok(p),
        Err(_) => Err(AppError::crypto("Local decryption failed")),
    }
}

/// Takes decrypted bytes as text; bytes that are not UTF-8 are a
/// cryptographic error.
pub fn plaintext_text(bytes: Vec<u8>) -> (r: Result<String, AppError>)
    ensures
        valid_utf8(bytes@) ==> r is Ok && r->Ok_0@ == decode_utf8(bytes@),
        !valid_utf8(bytes@) ==> r matches Err(AppError::CryptoError(_)),
{
    match utf8_text(bytes) {
        Some(s) => Ok(s),
        None => Err(AppError::crypto("Decrypted value is not valid UTF-8")),
    }
}

/// The outcome of encrypting one value: the data key row that was stored,
/// the stored text, and the hex SHA-256 of the plaintext.
pub struct EncryptedPayload {
    pub dek_id: i32,
    pub encrypted_blob: String,
    pub sha256sum: String,
}

impl EncryptedPayload {
    /// Pairs a sealed value with the id under which its data key was stored.
    pub fn new(dek_id: i32, sealed: SealedValue) -> (r: EncryptedPayload)
        ensures
            r.dek_id == dek_id,
            r.encrypted_blob == sealed.encrypted_blob,
            r.sha256sum == sealed.sha256sum,
    {
        EncryptedPayload {
            dek_id,
            encrypted_blob: sealed.encrypted_blob,
            sha256sum: sealed.sha256sum,
        }
    }
}

} // verus!
