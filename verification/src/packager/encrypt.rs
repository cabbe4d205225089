//! Authenticated encryption of the package content: AES-256-CBC with PKCS#7
//! padding, and HMAC-SHA256 over the initialization vector and the
//! ciphertext.
//!
//! The framed content is `HMAC (32) ‖ IV (16) ‖ ciphertext`.

use aes::cipher::block_padding::Pkcs7;
use aes::cipher::{BlockDecryptMut, BlockEncryptMut, KeyIvInit};
use hmac::{Hmac, Mac};
use rand::RngCore;
use sha2::{Digest, Sha256};
use vstd::prelude::*;
use vstd::slice::slice_subrange;
use vstd::string::StringExecFns;

use crate::bytes::push_bytes;
use crate::models::detection::{
    array16, digest_algorithm, profile_version, EncryptionInfo, EncryptionInfoView,
};
use crate::models::error::{PackageError, PackageResult};

verus! {

/// Size of an AES block, and of the initialization vector.
pub const BLOCK_SIZE: usize = 16;

/// The smallest framed content: HMAC, initialization vector and one block.
pub const MIN_FRAMED_SIZE: usize = 64;

// ---------------------------------------------------------------------------
// The primitives, from outside
// ---------------------------------------------------------------------------

/// The AES-256-CBC ciphertext of `plaintext` with PKCS#7 padding, as the
/// `aes` and `cbc` crates compute it.
pub uninterp spec fn aes_cbc_of(key: Seq<u8>, iv: Seq<u8>, plaintext: Seq<u8>) -> Seq<u8>;

/// What the `aes` and `cbc` crates decrypt `ciphertext` to; `None` where the
/// padding of the last block is malformed or the length is no multiple of
/// the block size.
pub uninterp spec fn aes_cbc_opened(key: Seq<u8>, iv: Seq<u8>, ciphertext: Seq<u8>) -> Option<
    Seq<u8>,
>;

/// The HMAC-SHA256 tag of `data` under `key`, as the `hmac` crate computes
/// it.
pub uninterp spec fn hmac_sha256_of(key: Seq<u8>, data: Seq<u8>) -> Seq<u8>;

/// The SHA-256 digest of `data`, as the `sha2` crate computes it.
pub uninterp spec fn sha256_of(data: Seq<u8>) -> Seq<u8>;

/// The length of a message of `len` bytes after PKCS#7 padding: the next
/// multiple of the block size, a whole block more where `len` is one.
pub open spec fn padded_len(len: int) -> int {
    (len / 16 + 1) * 16
}

/// Sixteen random bytes from the operating system, by `rand::rngs::OsRng`
/// and `try_fill_bytes`; or why the system gave none. Nothing is claimed of
/// what comes back.
#[verifier::external_body]
fn random_16() -> (drawn: Result<[u8; 16], String>) {
    let mut bytes = [0u8; 16];
    match rand::rngs::OsRng.try_fill_bytes(&mut bytes) {
        Ok(()) => Ok(bytes),
        Err(e) => Err(e.to_string()),
    }
}

/// Thirty-two random bytes from the operating system, by
/// `rand::rngs::OsRng` and `try_fill_bytes`; or why the system gave none.
/// Nothing is claimed of what comes back.
#[verifier::external_body]
fn random_32() -> (drawn: Result<[u8; 32], String>) {
    let mut bytes = [0u8; 32];
    match rand::rngs::OsRng.try_fill_bytes(&mut bytes) {
        Ok(()) => Ok(bytes),
        Err(e) => Err(e.to_string()),
    }
}

/// Encrypts the first `msg_len` bytes of `buffer` in place with
/// `cbc::Encryptor<aes::Aes256>::encrypt_padded_mut` and PKCS#7 padding.
/// That call fails only where the buffer cannot hold the padding, which the
/// size asked of the buffer rules out. The ciphertext fills the buffer, and
/// decrypts to the message again.
#[verifier::external_body]
fn cbc_encrypt_padded(buffer: Vec<u8>, msg_len: usize, key: &[u8; 32], iv: &[u8; 16]) -> (result:
    Result<Vec<u8>, String>)
    requires
        buffer@.len() == padded_len(msg_len as int),
    ensures
        result is Ok,
        result matches Ok(ciphertext) ==> {
            let message = buffer@.subrange(0, msg_len as int);
            &&& ciphertext@ == aes_cbc_of(key@, iv@, message)
            &&& ciphertext@.len() == buffer@.len()
            &&& aes_cbc_opened(key@, iv@, ciphertext@) == Some(message)
        },
{
    let mut buffer = buffer;
    let encryptor = cbc::Encryptor::<aes::Aes256>::new(key.into(), iv.into());
    match encryptor.encrypt_padded_mut::<Pkcs7>(&mut buffer, msg_len) {
        Ok(ciphertext) => Ok(ciphertext.to_vec()),
        Err(e) => Err(e.to_string()),
    }
}

/// Decrypts `ciphertext` with
/// `cbc::Decryptor<aes::Aes256>::decrypt_padded_mut` and strips the PKCS#7
/// padding; `None` where that call fails.
#[verifier::external_body]
fn cbc_decrypt_padded(ciphertext: &[u8], key: &[u8; 32], iv: &[u8; 16]) -> (plaintext: Option<
    Vec<u8>,
>)
    ensures
        match plaintext {
            Some(bytes) => aes_cbc_opened(key@, iv@, ciphertext@) == Some(bytes@),
            None => aes_cbc_opened(key@, iv@, ciphertext@) is None,
        },
{
    let mut buffer = ciphertext.to_vec();
    let decryptor = cbc::Decryptor::<aes::Aes256>::new(key.into(), iv.into());
    match decryptor.decrypt_padded_mut::<Pkcs7>(&mut buffer) {
        Ok(plaintext) => Some(plaintext.to_vec()),
        Err(_) => None,
    }
}

/// The HMAC-SHA256 tag of `data` under `key`, by `hmac::Hmac<sha2::Sha256>`.
/// The key setup of HMAC takes a key of any length and returns no failure,
/// so a tag always comes back; it has 32 bytes.
#[verifier::external_body]
fn hmac_sha256(key: &[u8; 32], data: &[u8]) -> (result: Result<[u8; 32], String>)
    ensures
        result is Ok,
        result matches Ok(tag) ==> tag@ == hmac_sha256_of(key@, data@),
{
    match <Hmac<Sha256> as Mac>::new_from_slice(key) {
        Ok(mut mac) => {
            mac.update(data);
            Ok(mac.finalize().into_bytes().into())
        },
        Err(e) => Err(e.to_string()),
    }
}

/// The SHA-256 digest of `data`, by `sha2::Sha256`. A digest has 32 bytes.
#[verifier::external_body]
fn sha256(data: &[u8]) -> (digest: [u8; 32])
    ensures
        digest@ == sha256_of(data@),
{
    Sha256::digest(data).into()
}

// ---------------------------------------------------------------------------
// Decryption, as a function of the framed content
// ---------------------------------------------------------------------------

/// Why framed content does not decrypt.
pub enum DecryptFailure {
    /// Fewer than 64 bytes.
    TooShort,
    /// The leading HMAC is not that of the rest.
    HmacMismatch,
    /// The length of the ciphertext is no multiple of the block size.
    BadLength,
    /// The padding of the last block is malformed.
    BadPadding,
}

/// What framed content decrypts to under the secrets of `info`. The HMAC is
/// verified before anything is decrypted.
pub open spec fn decrypt_outcome(framed: Seq<u8>, info: EncryptionInfoView) -> Result<
    Seq<u8>,
    DecryptFailure,
> {
    if framed.len() < 64 {
        Err(DecryptFailure::TooShort)
    } else if hmac_sha256_of(info.mac_key, framed.subrange(32, framed.len() as int))
        != framed.subrange(0, 32) {
        Err(DecryptFailure::HmacMismatch)
    } else if (framed.len() - 48) % 16 != 0 {
        Err(DecryptFailure::BadLength)
    } else {
        match aes_cbc_opened(
            info.encryption_key,
            framed.subrange(32, 48),
            framed.subrange(48, framed.len() as int),
        ) {
            Some(plaintext) => Ok(plaintext),
            None => Err(DecryptFailure::BadPadding),
        }
    }
}

/// The error that reports a failure to decrypt.
pub open spec fn reports(e: PackageError, failure: DecryptFailure) -> bool {
    match failure {
        DecryptFailure::TooShort => e matches PackageError::DecryptionError { reason }
            && reason@ == "Encrypted data too short"@,
        DecryptFailure::HmacMismatch => e is HmacVerificationFailed,
        DecryptFailure::BadLength => e matches PackageError::DecryptionError { reason }
            && reason@ == "Invalid ciphertext length (must be multiple of 16)"@,
        DecryptFailure::BadPadding => e is InvalidPadding,
    }
}

/// Whether `result` is what `outcome` asks for.
pub open spec fn agrees(result: PackageResult<Vec<u8>>, outcome: Result<Seq<u8>, DecryptFailure>) -> bool {
    match outcome {
        Ok(plaintext) => result matches Ok(bytes) && bytes@ == plaintext,
        Err(failure) => result matches Err(e) && reports(e, failure),
    }
}

// ---------------------------------------------------------------------------
// The operations
// ---------------------------------------------------------------------------

/// Compares two byte strings without leaving at the first difference, so
/// that the time taken does not tell where they differ.
pub fn constant_time_compare(a: &[u8], b: &[u8]) -> (same: bool)
    ensures
        same == (a@ == b@),
{
    if a.len() != b.len() {
        return false;
    }
    let mut result: u8 = 0;
    let mut i: usize = 0;
    assert(a@.subrange(0, 0) =~= b@.subrange(0, 0));
    while i < a.len()
        invariant
            i <= a.len(),
            a.len() == b.len(),
            result == 0 <==> a@.subrange(0, i as int) == b@.subrange(0, i as int),
        decreases a.len() - i,
    {
        let x: u8 = a[i];
        let y: u8 = b[i];
        let ghost before = result;
        result = result | (x ^ y);
        assert((before | (x ^ y)) == 0 <==> (before == 0 && x == y)) by (bit_vector);
        proof {
            let a0 = a@.subrange(0, i as int);
            let b0 = b@.subrange(0, i as int);
            let a1 = a@.subrange(0, i + 1);
            let b1 = b@.subrange(0, i + 1);
            assert(a1 =~= a0.push(x));
            assert(b1 =~= b0.push(y));
            if a1 == b1 {
                assert(a0 =~= a1.drop_last());
                assert(b0 =~= b1.drop_last());
                assert(a1.last() == b1.last());
            }
        }
        i += 1;
    }
    assert(a@ =~= a@.subrange(0, a.len() as int));
    assert(b@ =~= b@.subrange(0, b.len() as int));
    result == 0
}

/// Compute HMAC-SHA256.
pub fn compute_hmac(key: &[u8; 32], data: &[u8]) -> (result: PackageResult<[u8; 32]>)
    ensures
        result matches Ok(tag) && tag@ == hmac_sha256_of(key@, data@),
{
    match hmac_sha256(key, data) {
        Ok(tag) => Ok(tag),
        Err(why) => {
            let mut reason = String::from_str("HMAC initialization failed: ");
            reason.append(why.as_str());
            Err(PackageError::EncryptionError { reason })
        },
    }
}

/// Compute SHA-256.
pub fn compute_sha256(data: &[u8]) -> (digest: [u8; 32])
    ensures
        digest@ == sha256_of(data@),
{
    sha256(data)
}

/// Whether `expected` is the HMAC-SHA256 of `data` under `key`.
pub fn verify_hmac(key: &[u8; 32], data: &[u8], expected: &[u8; 32]) -> (valid: bool)
    ensures
        valid == (hmac_sha256_of(key@, data@) == expected@),
{
    match compute_hmac(key, data) {
        Ok(computed) => constant_time_compare(computed.as_slice(), expected.as_slice()),
        Err(_) => false,
    }
}

/// Encrypt data with AES-256-CBC using PKCS#7 padding.
///
/// Fails only on a plaintext so long that its padded length does not fit a
/// `usize`.
pub fn aes_encrypt(plaintext: &[u8], key: &[u8; 32], iv: &[u8; 16]) -> (result: PackageResult<
    Vec<u8>,
>)
    ensures
        plaintext@.len() + 16 > usize::MAX ==> (result matches Err(
            PackageError::EncryptionError { reason },
        ) && reason@ == "Plaintext too long"@),
        plaintext@.len() + 16 <= usize::MAX ==> (result matches Ok(ciphertext) && {
            &&& ciphertext@ == aes_cbc_of(key@, iv@, plaintext@)
            &&& ciphertext@.len() == padded_len(plaintext@.len() as int)
            &&& aes_cbc_opened(key@, iv@, ciphertext@) == Some(plaintext@)
        }),
{
    if plaintext.len() > usize::MAX - BLOCK_SIZE {
        return Err(PackageError::EncryptionError { reason: String::from_str("Plaintext too long") });
    }
    let padding: usize = BLOCK_SIZE - (plaintext.len() % BLOCK_SIZE);
    let mut buffer: Vec<u8> = Vec::new();
    push_bytes(&mut buffer, plaintext);
    crate::bytes::push_zeros(&mut buffer, padding);
    assert(buffer@.subrange(0, plaintext@.len() as int) =~= plaintext@);
    match cbc_encrypt_padded(buffer, plaintext.len(), key, iv) {
        Ok(ciphertext) => Ok(ciphertext),
        Err(why) => {
            let mut reason = String::from_str("AES encryption failed: ");
            reason.append(why.as_str());
            Err(PackageError::EncryptionError { reason })
        },
    }
}

/// Decrypt data with AES-256-CBC and remove the PKCS#7 padding.
pub fn aes_decrypt(ciphertext: &[u8], key: &[u8; 32], iv: &[u8; 16]) -> (result: PackageResult<
    Vec<u8>,
>)
    ensures
        ciphertext@.len() == 0 || ciphertext@.len() % 16 != 0 ==> (result matches Err(e) && reports(
            e,
            DecryptFailure::BadLength,
        )),
        ciphertext@.len() > 0 && ciphertext@.len() % 16 == 0 ==> match aes_cbc_opened(
            key@,
            iv@,
            ciphertext@,
        ) {
            Some(plaintext) => result matches Ok(bytes) && bytes@ == plaintext,
            None => result matches Err(e) && reports(e, DecryptFailure::BadPadding),
        },
{
    if ciphertext.len() == 0 || ciphertext.len() % 16 != 0 {
        return Err(
            PackageError::DecryptionError {
                reason: String::from_str("Invalid ciphertext length (must be multiple of 16)"),
            },
        );
    }
    match cbc_decrypt_padded(ciphertext, key, iv) {
        Some(plaintext) => Ok(plaintext),
        None => Err(PackageError::InvalidPadding),
    }
}

/// The information with an encryption key, a MAC key and an initialization
/// vector put in. The other fields stay as they are.
pub open spec fn with_keys(
    info: EncryptionInfoView,
    encryption_key: Seq<u8>,
    mac_key: Seq<u8>,
    iv: Seq<u8>,
) -> EncryptionInfoView {
    EncryptionInfoView { encryption_key, mac_key, iv, ..info }
}

/// Put an encryption key, a MAC key and an initialization vector into the
/// information. The other fields stay as they are.
pub fn set_keys(
    info: &mut EncryptionInfo,
    encryption_key: [u8; 32],
    mac_key: [u8; 32],
    iv: [u8; 16],
)
    ensures
        final(info)@ == with_keys(old(info)@, encryption_key@, mac_key@, iv@),
        final(info).mac == old(info).mac,
        final(info).file_digest == old(info).file_digest,
        final(info).profile_identifier == old(info).profile_identifier,
        final(info).file_digest_algorithm == old(info).file_digest_algorithm,
{
    info.encryption_key = encryption_key;
    info.mac_key = mac_key;
    info.iv = iv;
}

/// The reason of the failure to draw secrets, where the random source of the
/// system gave `why` as its own.
pub open spec fn draw_failure(why: Seq<char>) -> Seq<char> {
    "Random source failed: "@ + why
}

/// Whether `e` is the failure to draw secrets.
pub open spec fn is_draw_failure(e: PackageError) -> bool {
    e matches PackageError::EncryptionError { reason } && exists|why: Seq<char>|
        reason@ == #[trigger] draw_failure(why)
}

/// Whether `result` is the failure to draw secrets for the reason `why`.
pub open spec fn fails_to_draw(result: PackageResult<()>, why: Seq<char>) -> bool {
    result matches Err(PackageError::EncryptionError { reason }) && reason@ == draw_failure(why)
}

/// The failure to draw secrets.
fn draw_error(why: String) -> (e: PackageError)
    ensures
        e matches PackageError::EncryptionError { reason } && reason@ == draw_failure(why@),
        is_draw_failure(e),
{
    let mut reason = String::from_str("Random source failed: ");
    reason.append(why.as_str());
    assert(reason@ == draw_failure(why@));
    PackageError::EncryptionError { reason }
}

/// Put what was drawn for the encryption key, the MAC key and the
/// initialization vector into the information. Where all three were drawn,
/// they are put in with `set_keys`. Where a draw failed, the information
/// stays as it is, and the first failure is reported.
pub fn keys_from_draws(
    info: &mut EncryptionInfo,
    encryption_key: Result<[u8; 32], String>,
    mac_key: Result<[u8; 32], String>,
    iv: Result<[u8; 16], String>,
) -> (result: PackageResult<()>)
    ensures
        match encryption_key {
            Err(why) => fails_to_draw(result, why@) && *final(info) == *old(info),
            Ok(key) => match mac_key {
                Err(why) => fails_to_draw(result, why@) && *final(info) == *old(info),
                Ok(mac) => match iv {
                    Err(why) => fails_to_draw(result, why@) && *final(info) == *old(info),
                    Ok(vector) => result is Ok && final(info)@ == with_keys(
                        old(info)@,
                        key@,
                        mac@,
                        vector@,
                    ),
                },
            },
        },
        result matches Err(e) ==> is_draw_failure(e),
        final(info).mac == old(info).mac,
        final(info).file_digest == old(info).file_digest,
        final(info).profile_identifier == old(info).profile_identifier,
        final(info).file_digest_algorithm == old(info).file_digest_algorithm,
{
    let encryption_key = match encryption_key {
        Ok(key) => key,
        Err(why) => {
            return Err(draw_error(why));
        },
    };
    let mac_key = match mac_key {
        Ok(key) => key,
        Err(why) => {
            return Err(draw_error(why));
        },
    };
    let iv = match iv {
        Ok(vector) => vector,
        Err(why) => {
            return Err(draw_error(why));
        },
    };
    set_keys(info, encryption_key, mac_key, iv);
    Ok(())
}

/// Draw a fresh encryption key, MAC key and initialization vector from the
/// random source of the system, and put them into the information with
/// `keys_from_draws`. The other fields stay as they are. Of the secrets that
/// were drawn nothing is known: they are random. Where the source fails, the
/// information stays as it is and the failure is reported.
pub fn generate_keys(info: &mut EncryptionInfo) -> (result: PackageResult<()>)
    ensures
        result matches Err(e) ==> is_draw_failure(e) && *final(info) == *old(info),
        final(info).mac == old(info).mac,
        final(info).file_digest == old(info).file_digest,
        final(info).profile_identifier == old(info).profile_identifier,
        final(info).file_digest_algorithm == old(info).file_digest_algorithm,
{
    let encryption_key = random_32();
    let mac_key = random_32();
    let iv = random_16();
    keys_from_draws(info, encryption_key, mac_key, iv)
}

/// What encryption under given secrets returns: the framed content is the
/// HMAC, the initialization vector and the ciphertext; the HMAC covers the
/// vector and the ciphertext; the digest is that of the plaintext; and the
/// framed content decrypts to the plaintext again.
pub open spec fn sealed(
    plaintext: Seq<u8>,
    framed: Seq<u8>,
    info: EncryptionInfoView,
) -> bool {
    let ciphertext = aes_cbc_of(info.encryption_key, info.iv, plaintext);
    &&& framed == info.mac + info.iv + ciphertext
    &&& ciphertext.len() == padded_len(plaintext.len() as int)
    &&& info.mac == hmac_sha256_of(info.mac_key, info.iv + ciphertext)
    &&& info.file_digest == sha256_of(plaintext)
    &&& info.profile_identifier == profile_version()
    &&& info.file_digest_algorithm == digest_algorithm()
    &&& decrypt_outcome(framed, info) == Ok::<Seq<u8>, DecryptFailure>(plaintext)
}

/// Encrypt content under the keys and the initialization vector of `info`,
/// and record the HMAC and the digest of the plaintext in it.
///
/// Fails only on a plaintext so long that its padded length does not fit a
/// `usize`.
pub fn encrypt_with_keys(plaintext: &[u8], info: EncryptionInfo) -> (result: PackageResult<
    (Vec<u8>, EncryptionInfo),
>)
    requires
        info.profile_identifier@ == profile_version(),
        info.file_digest_algorithm@ == digest_algorithm(),
    ensures
        plaintext@.len() + 16 > usize::MAX ==> (result matches Err(
            PackageError::EncryptionError { reason },
        ) && reason@ == "Plaintext too long"@),
        plaintext@.len() + 16 <= usize::MAX ==> (result matches Ok((framed, sealed_info)) && {
            &&& sealed_info.encryption_key == info.encryption_key
            &&& sealed_info.mac_key == info.mac_key
            &&& sealed_info.iv == info.iv
            &&& sealed(plaintext@, framed@, sealed_info@)
        }),
{
    let mut info = info;
    let ciphertext = match aes_encrypt(plaintext, &info.encryption_key, &info.iv) {
        Ok(ciphertext) => ciphertext,
        Err(e) => {
            return Err(e);
        },
    };

    // The HMAC covers the initialization vector and the ciphertext.
    let mut hmac_input: Vec<u8> = Vec::new();
    push_bytes(&mut hmac_input, info.iv.as_slice());
    push_bytes(&mut hmac_input, ciphertext.as_slice());
    let mac = match compute_hmac(&info.mac_key, hmac_input.as_slice()) {
        Ok(mac) => mac,
        Err(e) => {
            return Err(e);
        },
    };
    info.mac = mac;

    let mut output: Vec<u8> = Vec::new();
    push_bytes(&mut output, info.mac.as_slice());
    push_bytes(&mut output, info.iv.as_slice());
    push_bytes(&mut output, ciphertext.as_slice());

    // The digest is that of the content before encryption.
    info.file_digest = compute_sha256(plaintext);
    proof {
        let framed = output@;
        assert(framed =~= info.mac@ + info.iv@ + ciphertext@);
        assert(framed.subrange(0, 32) =~= info.mac@);
        assert(framed.subrange(32, 48) =~= info.iv@);
        assert(framed.subrange(48, framed.len() as int) =~= ciphertext@);
        assert(framed.subrange(32, framed.len() as int) =~= info.iv@ + ciphertext@);
    }
    Ok((output, info))
}

/// Whether `e` is the failure of a plaintext too long to be padded.
pub open spec fn is_too_long(e: PackageError) -> bool {
    e matches PackageError::EncryptionError { reason } && reason@ == "Plaintext too long"@
}

/// Encrypt content using AES-256-CBC with HMAC-SHA256 authentication, under
/// fresh random secrets.
///
/// Returns the framed content (HMAC ‖ IV ‖ ciphertext) and the encryption
/// info. Fails where the random source of the system fails, and on a
/// plaintext so long that its padded length does not fit a `usize`.
pub fn encrypt_content(plaintext: &[u8]) -> (result: PackageResult<(Vec<u8>, EncryptionInfo)>)
    ensures
        match result {
            Ok((framed, info)) => plaintext@.len() + 16 <= usize::MAX && sealed(
                plaintext@,
                framed@,
                info@,
            ),
            Err(e) => is_draw_failure(e) || (plaintext@.len() + 16 > usize::MAX && is_too_long(e)),
        },
{
    let mut info = EncryptionInfo::new();
    match generate_keys(&mut info) {
        Ok(()) => encrypt_with_keys(plaintext, info),
        Err(e) => Err(e),
    }
}

/// Decrypt content that was encrypted with AES-256-CBC and HMAC-SHA256
/// authentication.
///
/// Expects the framed content: HMAC (32 bytes) ‖ IV (16 bytes) ‖ ciphertext.
pub fn decrypt_content(encrypted_data: &[u8], encryption_info: &EncryptionInfo) -> (result:
    PackageResult<Vec<u8>>)
    ensures
        agrees(result, decrypt_outcome(encrypted_data@, encryption_info@)),
{
    if encrypted_data.len() < MIN_FRAMED_SIZE {
        return Err(
            PackageError::DecryptionError { reason: String::from_str("Encrypted data too short") },
        );
    }
    let stored_hmac = slice_subrange(encrypted_data, 0, 32);
    let iv = slice_subrange(encrypted_data, 32, 48);
    let ciphertext = slice_subrange(encrypted_data, 48, encrypted_data.len());
    let hmac_input = slice_subrange(encrypted_data, 32, encrypted_data.len());

    let computed_hmac = match compute_hmac(&encryption_info.mac_key, hmac_input) {
        Ok(tag) => tag,
        Err(e) => {
            return Err(e);
        },
    };
    if !constant_time_compare(computed_hmac.as_slice(), stored_hmac) {
        return Err(PackageError::HmacVerificationFailed);
    }
    let iv_array = array16(iv);
    aes_decrypt(ciphertext, &encryption_info.encryption_key, &iv_array)
}

/// A framed content with one byte changed does not decrypt: the HMAC is
/// found wrong before anything is decrypted. This holds for a change in the
/// leading HMAC itself, and for a change in the rest that changes its HMAC.
pub proof fn lemma_tampering_is_detected(
    framed: Seq<u8>,
    info: EncryptionInfoView,
    position: int,
    byte: u8,
)
    requires
        framed.len() >= 64,
        framed.subrange(0, 32) == hmac_sha256_of(
            info.mac_key,
            framed.subrange(32, framed.len() as int),
        ),
        0 <= position < framed.len(),
        byte != framed[position],
        position < 32 || hmac_sha256_of(
            info.mac_key,
            framed.update(position, byte).subrange(32, framed.len() as int),
        ) != hmac_sha256_of(info.mac_key, framed.subrange(32, framed.len() as int)),
    ensures
        decrypt_outcome(framed.update(position, byte), info) == Err::<Seq<u8>, DecryptFailure>(
            DecryptFailure::HmacMismatch,
        ),
{
    let tampered = framed.update(position, byte);
    if position < 32 {
        assert(tampered.subrange(32, tampered.len() as int) =~= framed.subrange(
            32,
            framed.len() as int,
        ));
        assert(tampered.subrange(0, 32)[position] == byte);
        assert(framed.subrange(0, 32)[position] == framed[position]);
    } else {
        assert(tampered.subrange(0, 32) =~= framed.subrange(0, 32));
    }
}

} // verus!
