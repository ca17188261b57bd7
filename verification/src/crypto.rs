//! Key derivation and authenticated encryption.
//!
//! The primitives themselves are Argon2id (crate `argon2`) and AES-256-GCM
//! (crate `aes-gcm`). Their results are named here by uninterpreted spec
//! functions; everything built on top of them is verified against those
//! names.

use vstd::prelude::*;
use aes_gcm::aead::{AeadInPlace, KeyInit, OsRng};
use aes_gcm::aead::rand_core::RngCore;
use aes_gcm::{Aes256Gcm, Key, Nonce, Tag};
use argon2::Argon2;
use crate::container::{ContainerView, EncryptedData, EncryptedHeader, NONCE_LEN, SALT_LEN, TAG_LEN};
use crate::error::StoreError;
use crate::secret::{wipe_key_bytes, SecretKey, KEY_LEN};

verus! {

/// The longest password the key derivation accepts, in bytes.
pub const MAX_PASSWORD_LEN: u64 = 0xFFFF_FFFF;

/// The longest plaintext the cipher accepts, in bytes.
pub const MAX_PLAINTEXT_LEN: u64 = 0x10_0000_0000;

/// The error type of `argon2`.
#[verifier::external_type_specification]
#[verifier::external_body]
pub struct ExArgon2Error(argon2::Error);

/// The opaque error type of `aes-gcm`.
#[verifier::external_type_specification]
#[verifier::external_body]
pub struct ExAeadError(aes_gcm::Error);

/// The 32 bytes that Argon2id, with the `argon2` crate's default
/// parameters, derives from a password and a salt.
pub uninterp spec fn argon2id_key(password: Seq<u8>, salt: Seq<u8>) -> Seq<u8>;

/// The ciphertext and the tag that AES-256-GCM, with empty associated data,
/// produces for a plaintext under a key and a nonce.
pub uninterp spec fn aes256gcm_seal(key: Seq<u8>, nonce: Seq<u8>, plaintext: Seq<u8>) -> (
    Seq<u8>,
    Seq<u8>,
);

/// What AES-256-GCM, with empty associated data, releases for a ciphertext
/// and a tag under a key and a nonce: the plaintext, or nothing when the tag
/// does not authenticate the ciphertext.
pub uninterp spec fn aes256gcm_open(
    key: Seq<u8>,
    nonce: Seq<u8>,
    ciphertext: Seq<u8>,
    tag: Seq<u8>,
) -> Option<Seq<u8>>;

/// Runs Argon2id with the crate's default parameters.
///
/// Calls `argon2::Argon2::default().hash_password_into`. With a 16-byte
/// salt, a 32-byte output and the default parameters, the only input it
/// rejects is a password longer than `0xFFFF_FFFF` bytes; otherwise the
/// output is the derived key.
#[verifier::external_body]
fn argon2id_derive(password: &[u8], salt: &[u8; SALT_LEN]) -> (result: Result<
    [u8; KEY_LEN],
    argon2::Error,
>)
    ensures
        result is Ok <==> password@.len() <= MAX_PASSWORD_LEN,
        result matches Ok(key) ==> key@ == argon2id_key(password@, salt@),
{
    let mut out = [0u8; KEY_LEN];
    Argon2::default().hash_password_into(password, salt, &mut out)?;
    Ok(out)
}

/// Encrypts with AES-256-GCM and empty associated data.
///
/// Calls `aes_gcm::Aes256Gcm::encrypt_in_place_detached` on a copy of the
/// plaintext. It fails exactly when the plaintext is longer than 2^36
/// bytes; otherwise it returns the ciphertext, which is as long as the
/// plaintext, and the tag.
#[verifier::external_body]
fn aes256gcm_encrypt(key: &[u8; KEY_LEN], nonce: &[u8; NONCE_LEN], plaintext: &[u8]) -> (result:
    Result<(Vec<u8>, [u8; TAG_LEN]), aes_gcm::Error>)
    ensures
        result is Ok <==> plaintext@.len() <= MAX_PLAINTEXT_LEN,
        result matches Ok(sealed) ==> (sealed.0@, sealed.1@) == aes256gcm_seal(
            key@,
            nonce@,
            plaintext@,
        ) && sealed.0@.len() == plaintext@.len(),
{
    let cipher = Aes256Gcm::new(Key::<Aes256Gcm>::from_slice(key));
    let mut buffer = plaintext.to_vec();
    let tag = cipher.encrypt_in_place_detached(Nonce::from_slice(nonce), b"", &mut buffer)?;
    Ok((buffer, tag.into()))
}

/// Decrypts with AES-256-GCM and empty associated data.
///
/// Calls `aes_gcm::Aes256Gcm::decrypt_in_place_detached` on a copy of the
/// ciphertext. The call recomputes the tag over the ciphertext and releases
/// the plaintext only when it equals the given tag. So, for ciphertexts
/// within the plaintext limit, it succeeds exactly on what encryption under
/// the same key and nonce produces, and then returns what was encrypted.
/// The cipher is a stream cipher: under one key and nonce no other
/// plaintext has the same ciphertext.
#[verifier::external_body]
fn aes256gcm_decrypt(
    key: &[u8; KEY_LEN],
    nonce: &[u8; NONCE_LEN],
    ciphertext: &[u8],
    tag: &[u8; TAG_LEN],
) -> (result: Result<Vec<u8>, aes_gcm::Error>)
    ensures
        result matches Ok(plaintext) ==> aes256gcm_open(key@, nonce@, ciphertext@, tag@) == Some(
            plaintext@,
        ) && plaintext@.len() == ciphertext@.len(),
        result is Err ==> aes256gcm_open(key@, nonce@, ciphertext@, tag@) is None,
        result matches Ok(plaintext) ==> ciphertext@.len() <= MAX_PLAINTEXT_LEN
            ==> aes256gcm_seal(key@, nonce@, plaintext@) == (ciphertext@, tag@),
        forall|p: Seq<u8>|
            p.len() <= MAX_PLAINTEXT_LEN && #[trigger] aes256gcm_seal(key@, nonce@, p) == (
                ciphertext@,
                tag@,
            ) ==> result is Ok && result->Ok_0@ == p,
        forall|p: Seq<u8>|
            result is Ok && p.len() <= MAX_PLAINTEXT_LEN && (#[trigger] aes256gcm_seal(
                key@,
                nonce@,
                p,
            )).0 == ciphertext@ ==> p == result->Ok_0@,
{
    let cipher = Aes256Gcm::new(Key::<Aes256Gcm>::from_slice(key));
    let mut buffer = ciphertext.to_vec();
    cipher.decrypt_in_place_detached(
        Nonce::from_slice(nonce),
        b"",
        &mut buffer,
        Tag::from_slice(tag),
    )?;
    Ok(buffer)
}

/// Draws bytes from the operating system's random number generator.
///
/// Calls `fill_bytes` of `aes_gcm::aead::OsRng`. Nothing is promised of the
/// bytes. The call panics if the operating system cannot supply randomness.
#[verifier::external_body]
fn os_random_bytes<const N: usize>() -> (bytes: [u8; N]) {
    let mut bytes = [0u8; N];
    OsRng.fill_bytes(&mut bytes);
    bytes
}

/// What key derivation returns for a password and a salt.
pub open spec fn spec_derive_key(password: Seq<u8>, salt: Seq<u8>) -> Result<Seq<u8>, StoreError> {
    if password.len() <= MAX_PASSWORD_LEN {
        Ok(argon2id_key(password, salt))
    } else {
        Err(StoreError::KeyDerivationFailure)
    }
}

/// The container that encryption builds from a key, the caller's salt, a
/// nonce and a plaintext.
pub open spec fn spec_encrypt(key: Seq<u8>, salt: Seq<u8>, nonce: Seq<u8>, plaintext: Seq<u8>)
    -> Result<ContainerView, StoreError> {
    if plaintext.len() <= MAX_PLAINTEXT_LEN {
        let sealed = aes256gcm_seal(key, nonce, plaintext);
        Ok(ContainerView { salt, nonce, tag: sealed.1, ciphertext: sealed.0 })
    } else {
        Err(StoreError::EncryptionFailure)
    }
}

/// What decryption releases for a container under a key.
pub open spec fn spec_decrypt(key: Seq<u8>, container: ContainerView) -> Result<
    Seq<u8>,
    StoreError,
> {
    match aes256gcm_open(key, container.nonce, container.ciphertext, container.tag) {
        Some(plaintext) => Ok(plaintext),
        None => Err(StoreError::AuthenticationFailure),
    }
}

/// A container is a sealing of a plaintext under a key when its ciphertext
/// and tag are what the cipher produces for that plaintext under the
/// container's own nonce.
pub open spec fn is_sealing_of(container: ContainerView, key: Seq<u8>, plaintext: Seq<u8>) -> bool {
    &&& container.well_formed()
    &&& plaintext.len() <= MAX_PLAINTEXT_LEN
    &&& (container.ciphertext, container.tag) == aes256gcm_seal(key, container.nonce, plaintext)
}

/// A container carries the ciphertext of a plaintext under a key, but not
/// the tag that belongs to it.
pub open spec fn has_forged_tag(container: ContainerView, key: Seq<u8>, plaintext: Seq<u8>)
    -> bool {
    &&& plaintext.len() <= MAX_PLAINTEXT_LEN
    &&& plaintext.len() == container.ciphertext.len()
    &&& aes256gcm_seal(key, container.nonce, plaintext).0 == container.ciphertext
    &&& aes256gcm_seal(key, container.nonce, plaintext).1 != container.tag
}

/// Derivation is a function of password and salt: equal inputs give equal keys.
pub proof fn lemma_derive_key_deterministic(
    password1: Seq<u8>,
    salt1: Seq<u8>,
    password2: Seq<u8>,
    salt2: Seq<u8>,
)
    requires
        password1 == password2,
        salt1 == salt2,
    ensures
        spec_derive_key(password1, salt1) == spec_derive_key(password2, salt2),
{
}

/// Derives the 32-byte key for a password and a 16-byte salt.
///
/// Fails only for a password longer than `MAX_PASSWORD_LEN` bytes.
pub fn derive_key(password: &[u8], salt: &[u8; SALT_LEN]) -> (result: Result<SecretKey, StoreError>)
    ensures
        result matches Ok(key) ==> spec_derive_key(password@, salt@) == Ok::<Seq<u8>, StoreError>(
            key@,
        ),
        result matches Err(e) ==> spec_derive_key(password@, salt@) == Err::<Seq<u8>, StoreError>(
            e,
        ),
{
    match argon2id_derive(password, salt) {
        Ok(key_bytes) => {
            let mut key_bytes = key_bytes;
            let key = SecretKey::from_bytes(key_bytes);
            wipe_key_bytes(&mut key_bytes);
            Ok(key)
        },
        Err(_) => Err(StoreError::KeyDerivationFailure),
    }
}

/// Encrypts a plaintext under a key with the given nonce. The container
/// carries the caller's salt unchanged.
///
/// The nonce must never repeat under one key: `encrypt` draws a fresh one
/// for every call and is the function to use.
pub fn encrypt_with_nonce(
    key: &SecretKey,
    salt: &[u8; SALT_LEN],
    nonce: [u8; NONCE_LEN],
    plaintext: &[u8],
) -> (result: Result<EncryptedData, StoreError>)
    ensures
        result matches Ok(data) ==> spec_encrypt(key@, salt@, nonce@, plaintext@) == Ok::<
            ContainerView,
            StoreError,
        >(data@) && data.ciphertext@.len() == plaintext@.len(),
        result matches Err(e) ==> spec_encrypt(key@, salt@, nonce@, plaintext@) == Err::<
            ContainerView,
            StoreError,
        >(e),
{
    match aes256gcm_encrypt(key.as_bytes(), &nonce, plaintext) {
        Ok(sealed) => {
            let (ciphertext, tag) = sealed;
            Ok(EncryptedData { header: EncryptedHeader { salt: *salt, nonce, tag }, ciphertext })
        },
        Err(_) => Err(StoreError::EncryptionFailure),
    }
}

/// Encrypts a plaintext under a key with a fresh random nonce. The
/// container carries the caller's salt unchanged.
///
/// Fails exactly when the plaintext is longer than `MAX_PLAINTEXT_LEN`.
pub fn encrypt(key: &SecretKey, salt: &[u8; SALT_LEN], plaintext: &[u8]) -> (result: Result<
    EncryptedData,
    StoreError,
>)
    ensures
        result is Ok <==> plaintext@.len() <= MAX_PLAINTEXT_LEN,
        result matches Ok(data) ==> spec_encrypt(key@, salt@, data@.nonce, plaintext@) == Ok::<
            ContainerView,
            StoreError,
        >(data@) && is_sealing_of(data@, key@, plaintext@) && data@.salt == salt@
            && data.ciphertext@.len() == plaintext@.len(),
        result matches Err(e) ==> e == StoreError::EncryptionFailure,
{
    let nonce: [u8; NONCE_LEN] = os_random_bytes::<NONCE_LEN>();
    encrypt_with_nonce(key, salt, nonce, plaintext)
}

/// Verifies the tag of a container and releases its plaintext.
///
/// Every failure is the one `AuthenticationFailure`: a wrong key and
/// corrupted data are not told apart. Whatever is released is exactly what
/// was sealed: a container that `encrypt` built under this key decrypts to
/// the plaintext it was built from, and a container within the plaintext
/// limit that decrypts at all is a sealing of what comes out. A container
/// whose tag was changed never decrypts.
pub fn decrypt(key: &SecretKey, encrypted_data: &EncryptedData) -> (result: Result<
    Vec<u8>,
    StoreError,
>)
    ensures
        result matches Ok(plaintext) ==> spec_decrypt(key@, encrypted_data@) == Ok::<
            Seq<u8>,
            StoreError,
        >(plaintext@) && plaintext@.len() == encrypted_data.ciphertext@.len(),
        result matches Err(e) ==> e == StoreError::AuthenticationFailure && spec_decrypt(
            key@,
            encrypted_data@,
        ) == Err::<Seq<u8>, StoreError>(e),
        forall|plaintext: Seq<u8>| #[trigger]
            is_sealing_of(encrypted_data@, key@, plaintext) ==> result is Ok && result->Ok_0@
                == plaintext,
        result matches Ok(plaintext) ==> encrypted_data.ciphertext@.len() <= MAX_PLAINTEXT_LEN
            ==> is_sealing_of(encrypted_data@, key@, plaintext@),
        forall|plaintext: Seq<u8>| #[trigger]
            has_forged_tag(encrypted_data@, key@, plaintext) ==> result is Err,
{
    match aes256gcm_decrypt(
        key.as_bytes(),
        &encrypted_data.header.nonce,
        encrypted_data.ciphertext.as_slice(),
        &encrypted_data.header.tag,
    ) {
        Ok(plaintext) => Ok(plaintext),
        Err(_) => Err(StoreError::AuthenticationFailure),
    }
}

/// Produces 16 random bytes for the salt of a brand-new store.
pub fn generate_salt() -> (salt: [u8; SALT_LEN]) {
    os_random_bytes::<SALT_LEN>()
}

/// Generates a fresh salt and derives the key of a new store from it.
pub fn generate_test_key(password: &[u8]) -> (result: Result<
    (SecretKey, [u8; SALT_LEN]),
    StoreError,
>)
    ensures
        result is Ok <==> password@.len() <= MAX_PASSWORD_LEN,
        result matches Ok(pair) ==> pair.0@ == argon2id_key(password@, pair.1@),
        result matches Err(e) ==> e == StoreError::KeyDerivationFailure,
{
    let salt = generate_salt();
    match derive_key(password, &salt) {
        Ok(key) => Ok((key, salt)),
        Err(e) => Err(e),
    }
}

} // verus!
