//! Detection metadata of an `.intunewin` package, with its secrets.

use base64::engine::general_purpose::STANDARD;
use base64::Engine;
use vstd::prelude::*;
use vstd::string::StringExecFns;

use crate::numerals::{decimal_text, push_decimal};

verus! {

/// Profile identifier of every package.
pub open spec fn profile_version() -> Seq<char> {
    "ProfileVersion1"@
}

/// Name of the digest algorithm of every package.
pub open spec fn digest_algorithm() -> Seq<char> {
    "SHA256"@
}

/// Name of the encrypted file inside every package.
pub open spec fn package_file_name() -> Seq<char> {
    "IntunePackage.intunewin"@
}

/// The standard Base64 text, with padding, of `bytes`, as the `base64`
/// crate's `STANDARD` engine encodes it.
pub uninterp spec fn base64_of(bytes: Seq<u8>) -> Seq<char>;

/// The bytes that the `base64` crate's `STANDARD` engine decodes `text` to;
/// where it refuses the text, its description of what is wrong.
pub uninterp spec fn base64_decoded(text: Seq<char>) -> Result<Seq<u8>, Seq<char>>;

/// The outcome of decoding a text that stands for `bytes`.
pub open spec fn decoded(bytes: Seq<u8>) -> Result<Seq<u8>, Seq<char>> {
    Ok(bytes)
}

/// The outcome of decoding a text that is refused, with `why` as the
/// description of what is wrong.
pub open spec fn refused(why: Seq<char>) -> Result<Seq<u8>, Seq<char>> {
    Err(why)
}

/// Encodes `bytes` with `base64`'s `STANDARD` engine. The text decodes to
/// `bytes` again. The engine panics where the length of the text would not
/// fit a `usize`, which the bound on the input rules out.
#[verifier::external_body]
pub(crate) fn base64_encode(bytes: &[u8]) -> (text: String)
    requires
        bytes@.len() <= 0x1000_0000,
    ensures
        text@ == base64_of(bytes@),
        base64_decoded(text@) == decoded(bytes@),
{
    STANDARD.encode(bytes)
}

/// Decodes `text` with `base64`'s `STANDARD` engine; a refusal comes back as
/// the engine's own description of it.
#[verifier::external_body]
pub(crate) fn base64_decode(text: &str) -> (result: Result<Vec<u8>, String>)
    ensures
        match result {
            Ok(bytes) => base64_decoded(text@) == decoded(bytes@),
            Err(why) => base64_decoded(text@) == refused(why@),
        },
{
    STANDARD.decode(text).map_err(|e| e.to_string())
}

/// Encryption information of a package.
#[derive(Debug, Clone)]
pub struct EncryptionInfo {
    /// AES-256 encryption key (32 bytes).
    pub encryption_key: [u8; 32],
    /// HMAC-SHA256 key (32 bytes).
    pub mac_key: [u8; 32],
    /// AES initialization vector (16 bytes).
    pub iv: [u8; 16],
    /// HMAC-SHA256 of the initialization vector and the ciphertext.
    pub mac: [u8; 32],
    /// SHA-256 of the content before encryption.
    pub file_digest: [u8; 32],
    /// Profile identifier (always "ProfileVersion1").
    pub profile_identifier: String,
    /// Digest algorithm name (always "SHA256").
    pub file_digest_algorithm: String,
}

/// What the documents say of an `EncryptionInfo`.
pub struct EncryptionInfoView {
    pub encryption_key: Seq<u8>,
    pub mac_key: Seq<u8>,
    pub iv: Seq<u8>,
    pub mac: Seq<u8>,
    pub file_digest: Seq<u8>,
    pub profile_identifier: Seq<char>,
    pub file_digest_algorithm: Seq<char>,
}

impl View for EncryptionInfo {
    type V = EncryptionInfoView;

    open spec fn view(&self) -> EncryptionInfoView {
        EncryptionInfoView {
            encryption_key: self.encryption_key@,
            mac_key: self.mac_key@,
            iv: self.iv@,
            mac: self.mac@,
            file_digest: self.file_digest@,
            profile_identifier: self.profile_identifier@,
            file_digest_algorithm: self.file_digest_algorithm@,
        }
    }
}

/// The information before any secret is drawn: every secret zero, and the
/// fixed profile and algorithm names.
pub open spec fn blank_info() -> EncryptionInfoView {
    EncryptionInfoView {
        encryption_key: Seq::new(32, |i: int| 0u8),
        mac_key: Seq::new(32, |i: int| 0u8),
        iv: Seq::new(16, |i: int| 0u8),
        mac: Seq::new(32, |i: int| 0u8),
        file_digest: Seq::new(32, |i: int| 0u8),
        profile_identifier: profile_version(),
        file_digest_algorithm: digest_algorithm(),
    }
}

impl Default for EncryptionInfo {
    fn default() -> (info: Self)
        ensures
            info@ == blank_info(),
    {
        let info = Self {
            encryption_key: [0u8;32],
            mac_key: [0u8;32],
            iv: [0u8;16],
            mac: [0u8;32],
            file_digest: [0u8;32],
            profile_identifier: String::from_str("ProfileVersion1"),
            file_digest_algorithm: String::from_str("SHA256"),
        };
        assert(info.encryption_key@ =~= blank_info().encryption_key);
        assert(info.mac_key@ =~= blank_info().mac_key);
        assert(info.iv@ =~= blank_info().iv);
        assert(info.mac@ =~= blank_info().mac);
        assert(info.file_digest@ =~= blank_info().file_digest);
        info
    }
}

/// The first 32 bytes of `bytes` as an array.
pub fn array32(bytes: &[u8]) -> (array: [u8; 32])
    requires
        bytes@.len() == 32,
    ensures
        array@ == bytes@,
{
    let mut array = [0u8;32];
    let mut i: usize = 0;
    while i < 32
        invariant
            i <= 32,
            bytes@.len() == 32,
            forall|j: int| 0 <= j < i ==> array@[j] == bytes@[j],
        decreases 32 - i,
    {
        array[i] = bytes[i];
        i += 1;
    }
    assert(array@ =~= bytes@);
    array
}

/// The first 16 bytes of `bytes` as an array.
pub fn array16(bytes: &[u8]) -> (array: [u8; 16])
    requires
        bytes@.len() == 16,
    ensures
        array@ == bytes@,
{
    let mut array = [0u8;16];
    let mut i: usize = 0;
    while i < 16
        invariant
            i <= 16,
            bytes@.len() == 16,
            forall|j: int| 0 <= j < i ==> array@[j] == bytes@[j],
        decreases 16 - i,
    {
        array[i] = bytes[i];
        i += 1;
    }
    assert(array@ =~= bytes@);
    array
}

/// What is said of a Base64 text that does not decode.
pub open spec fn invalid_base64_message(label: Seq<char>, why: Seq<char>) -> Seq<char> {
    "Invalid Base64 for "@ + label + ": "@ + why
}

/// What is said of a secret of the wrong size.
pub open spec fn wrong_size_message(title: Seq<char>, size: nat, got: nat) -> Seq<char> {
    title + " must be "@ + decimal_text(size) + " bytes, got "@ + decimal_text(got)
}

/// The secret for what the decoder returned: its bytes where they have the
/// size asked for, else what is wrong. `label` names the secret in the
/// message on a text that does not decode, `title` in the message on a wrong
/// size.
pub fn sized_secret(decoded: Result<Vec<u8>, String>, label: &str, title: &str, size: usize) -> (result:
    Result<Vec<u8>, String>)
    ensures
        match decoded {
            Ok(bytes) => if bytes@.len() == size {
                result matches Ok(secret) && secret@ == bytes@
            } else {
                result matches Err(reason) && reason@ == wrong_size_message(
                    title@,
                    size as nat,
                    bytes@.len(),
                )
            },
            Err(why) => result matches Err(reason) && reason@ == invalid_base64_message(
                label@,
                why@,
            ),
        },
{
    match decoded {
        Ok(bytes) => {
            if bytes.len() == size {
                Ok(bytes)
            } else {
                let mut reason = String::from_str(title);
                reason.append(" must be ");
                push_decimal(&mut reason, size as u64);
                reason.append(" bytes, got ");
                push_decimal(&mut reason, bytes.len() as u64);
                assert(reason@ =~= wrong_size_message(title@, size as nat, bytes@.len()));
                Err(reason)
            }
        },
        Err(why) => {
            let mut reason = String::from_str("Invalid Base64 for ");
            reason.append(label);
            reason.append(": ");
            reason.append(why.as_str());
            assert(reason@ =~= invalid_base64_message(label@, why@));
            Err(reason)
        },
    }
}

/// The secret that a Base64 text stands for: its bytes where it decodes to
/// `size` bytes; else the message on the wrong size, or the message on a text
/// that does not decode.
pub open spec fn secret_of(b64: Seq<char>, label: Seq<char>, title: Seq<char>, size: nat) -> Result<
    Seq<u8>,
    Seq<char>,
> {
    match base64_decoded(b64) {
        Ok(bytes) => if bytes.len() == size {
            Ok(bytes)
        } else {
            Err(wrong_size_message(title, size, bytes.len()))
        },
        Err(why) => Err(invalid_base64_message(label, why)),
    }
}

/// Decodes a secret of `size` bytes from Base64 text.
pub fn decode_secret(b64: &str, label: &str, title: &str, size: usize) -> (result: Result<
    Vec<u8>,
    String,
>)
    ensures
        match secret_of(b64@, label@, title@, size as nat) {
            Ok(bytes) => result matches Ok(secret) && secret@ == bytes,
            Err(message) => result matches Err(reason) && reason@ == message,
        },
{
    sized_secret(base64_decode(b64), label, title, size)
}

impl EncryptionInfo {
    /// New encryption info with the fixed profile and zero secrets.
    pub fn new() -> (info: Self)
        ensures
            info@ == blank_info(),
    {
        Self::default()
    }

    /// The encryption key in Base64.
    pub fn encryption_key_base64(&self) -> (text: String)
        ensures
            text@ == base64_of(self.encryption_key@),
            base64_decoded(text@) == decoded(self.encryption_key@),
    {
        base64_encode(self.encryption_key.as_slice())
    }

    /// The MAC key in Base64.
    pub fn mac_key_base64(&self) -> (text: String)
        ensures
            text@ == base64_of(self.mac_key@),
            base64_decoded(text@) == decoded(self.mac_key@),
    {
        base64_encode(self.mac_key.as_slice())
    }

    /// The initialization vector in Base64.
    pub fn iv_base64(&self) -> (text: String)
        ensures
            text@ == base64_of(self.iv@),
            base64_decoded(text@) == decoded(self.iv@),
    {
        base64_encode(self.iv.as_slice())
    }

    /// The MAC in Base64.
    pub fn mac_base64(&self) -> (text: String)
        ensures
            text@ == base64_of(self.mac@),
            base64_decoded(text@) == decoded(self.mac@),
    {
        base64_encode(self.mac.as_slice())
    }

    /// The file digest in Base64.
    pub fn file_digest_base64(&self) -> (text: String)
        ensures
            text@ == base64_of(self.file_digest@),
            base64_decoded(text@) == decoded(self.file_digest@),
    {
        base64_encode(self.file_digest.as_slice())
    }

    /// Set the encryption key from Base64 text that decodes to 32 bytes.
    /// On any other text the call fails and nothing changes.
    pub fn set_encryption_key_from_base64(&mut self, b64: &str) -> (result: Result<(), String>)
        ensures
            match secret_of(b64@, "encryption key"@, "Encryption key"@, 32) {
                Ok(secret) => result is Ok && final(self)@ == (EncryptionInfoView {
                    encryption_key: secret,
                    ..old(self)@
                }),
                Err(message) => (result matches Err(reason) && reason@ == message) && final(self)@
                    == old(self)@,
            },
    {
        match decode_secret(b64, "encryption key", "Encryption key", 32) {
            Ok(secret) => {
                self.encryption_key = array32(secret.as_slice());
                Ok(())
            },
            Err(reason) => Err(reason),
        }
    }

    /// Set the MAC key from Base64 text that decodes to 32 bytes.
    /// On any other text the call fails and nothing changes.
    pub fn set_mac_key_from_base64(&mut self, b64: &str) -> (result: Result<(), String>)
        ensures
            match secret_of(b64@, "MAC key"@, "MAC key"@, 32) {
                Ok(secret) => result is Ok && final(self)@ == (EncryptionInfoView {
                    mac_key: secret,
                    ..old(self)@
                }),
                Err(message) => (result matches Err(reason) && reason@ == message) && final(self)@
                    == old(self)@,
            },
    {
        match decode_secret(b64, "MAC key", "MAC key", 32) {
            Ok(secret) => {
                self.mac_key = array32(secret.as_slice());
                Ok(())
            },
            Err(reason) => Err(reason),
        }
    }

    /// Set the initialization vector from Base64 text that decodes to 16
    /// bytes. On any other text the call fails and nothing changes.
    pub fn set_iv_from_base64(&mut self, b64: &str) -> (result: Result<(), String>)
        ensures
            match secret_of(b64@, "IV"@, "IV"@, 16) {
                Ok(secret) => result is Ok && final(self)@ == (EncryptionInfoView {
                    iv: secret,
                    ..old(self)@
                }),
                Err(message) => (result matches Err(reason) && reason@ == message) && final(self)@
                    == old(self)@,
            },
    {
        match decode_secret(b64, "IV", "IV", 16) {
            Ok(secret) => {
                self.iv = array16(secret.as_slice());
                Ok(())
            },
            Err(reason) => Err(reason),
        }
    }

    /// Set the MAC from Base64 text that decodes to 32 bytes.
    /// On any other text the call fails and nothing changes.
    pub fn set_mac_from_base64(&mut self, b64: &str) -> (result: Result<(), String>)
        ensures
            match secret_of(b64@, "MAC"@, "MAC"@, 32) {
                Ok(secret) => result is Ok && final(self)@ == (EncryptionInfoView {
                    mac: secret,
                    ..old(self)@
                }),
                Err(message) => (result matches Err(reason) && reason@ == message) && final(self)@
                    == old(self)@,
            },
    {
        match decode_secret(b64, "MAC", "MAC", 32) {
            Ok(secret) => {
                self.mac = array32(secret.as_slice());
                Ok(())
            },
            Err(reason) => Err(reason),
        }
    }

    /// Set the file digest from Base64 text that decodes to 32 bytes.
    /// On any other text the call fails and nothing changes.
    pub fn set_file_digest_from_base64(&mut self, b64: &str) -> (result: Result<(), String>)
        ensures
            match secret_of(b64@, "file digest"@, "File digest"@, 32) {
                Ok(secret) => result is Ok && final(self)@ == (EncryptionInfoView {
                    file_digest: secret,
                    ..old(self)@
                }),
                Err(message) => (result matches Err(reason) && reason@ == message) && final(self)@
                    == old(self)@,
            },
    {
        match decode_secret(b64, "file digest", "File digest", 32) {
            Ok(secret) => {
                self.file_digest = array32(secret.as_slice());
                Ok(())
            },
            Err(reason) => Err(reason),
        }
    }
}

/// Metadata written to `Detection.xml`.
#[derive(Debug, Clone)]
pub struct DetectionMetadata {
    /// Name of the application (the setup file's name).
    pub name: String,
    /// Size of the content before encryption, in bytes.
    pub unencrypted_content_size: u64,
    /// Name of the encrypted file (always "IntunePackage.intunewin").
    pub file_name: String,
    /// Setup file name.
    pub setup_file: String,
    /// Encryption parameters.
    pub encryption_info: EncryptionInfo,
}

/// What the documents say of a `DetectionMetadata`.
pub struct DetectionView {
    pub name: Seq<char>,
    pub unencrypted_content_size: u64,
    pub file_name: Seq<char>,
    pub setup_file: Seq<char>,
    pub encryption_info: EncryptionInfoView,
}

impl View for DetectionMetadata {
    type V = DetectionView;

    open spec fn view(&self) -> DetectionView {
        DetectionView {
            name: self.name@,
            unencrypted_content_size: self.unencrypted_content_size,
            file_name: self.file_name@,
            setup_file: self.setup_file@,
            encryption_info: self.encryption_info@,
        }
    }
}

impl DetectionMetadata {
    /// New detection metadata for a setup file, with blank encryption info.
    pub fn new(setup_file: String, unencrypted_content_size: u64) -> (metadata: Self)
        ensures
            metadata@ == (DetectionView {
                name: setup_file@,
                unencrypted_content_size,
                file_name: package_file_name(),
                setup_file: setup_file@,
                encryption_info: blank_info(),
            }),
    {
        Self {
            name: setup_file.clone(),
            unencrypted_content_size,
            file_name: String::from_str("IntunePackage.intunewin"),
            setup_file,
            encryption_info: EncryptionInfo::new(),
        }
    }
}

} // verus!
