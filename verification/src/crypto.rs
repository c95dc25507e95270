//! The secret-key primitives behind `crypto.subtle`, and random bytes.

use aes_gcm::aead::Aead;
use aes_gcm::KeyInit;
use cbc::cipher::block_padding::Pkcs7;
use cbc::cipher::{BlockDecryptMut, BlockEncryptMut, KeyIvInit, StreamCipher};
use hmac::Mac;
use sha2::Digest;
use vstd::prelude::*;

use crate::text::{raised, same_text, to_upper};

verus! {

/// The most bytes that one AES-GCM message holds: what a 32-bit block counter
/// covers beside the block of the tag.
pub const GCM_MESSAGE_LIMIT: u64 = 0xF_FFFF_FFE0;

/// The most bytes that AES-CTR with a 32-bit counter takes.
pub const CTR32_MESSAGE_LIMIT: u64 = 0xF_FFFF_FFF0;

/// The bytes of an optional vector.
pub open spec fn opt_bytes(o: Option<Vec<u8>>) -> Option<Seq<u8>> {
    match o {
        Some(v) => Some(v@),
        None => None,
    }
}

/// The bytes, or the message, of a result.
pub open spec fn bytes_result(r: Result<Vec<u8>, String>) -> Result<Seq<u8>, Seq<char>> {
    match r {
        Ok(v) => Ok(v@),
        Err(e) => Err(e@),
    }
}

/// What `sha1::Sha1::digest` gives on `data`.
pub uninterp spec fn sha1_of(data: Seq<u8>) -> Seq<u8>;

/// `sha1::Sha1::digest`: a function of the data, 20 bytes long.
#[verifier::external_body]
fn sha1(data: &[u8]) -> (r: Vec<u8>)
    ensures
        r@ == sha1_of(data@),
        r@.len() == 20,
{
    sha1::Sha1::digest(data).to_vec()
}

/// What `sha2::Sha256::digest` gives on `data`.
pub uninterp spec fn sha256_of(data: Seq<u8>) -> Seq<u8>;

/// `sha2::Sha256::digest`: a function of the data, 32 bytes long.
#[verifier::external_body]
fn sha256(data: &[u8]) -> (r: Vec<u8>)
    ensures
        r@ == sha256_of(data@),
        r@.len() == 32,
{
    sha2::Sha256::digest(data).to_vec()
}

/// What `sha2::Sha384::digest` gives on `data`.
pub uninterp spec fn sha384_of(data: Seq<u8>) -> Seq<u8>;

/// `sha2::Sha384::digest`: a function of the data, 48 bytes long.
#[verifier::external_body]
fn sha384(data: &[u8]) -> (r: Vec<u8>)
    ensures
        r@ == sha384_of(data@),
        r@.len() == 48,
{
    sha2::Sha384::digest(data).to_vec()
}

/// What `sha2::Sha512::digest` gives on `data`.
pub uninterp spec fn sha512_of(data: Seq<u8>) -> Seq<u8>;

/// `sha2::Sha512::digest`: a function of the data, 64 bytes long.
#[verifier::external_body]
fn sha512(data: &[u8]) -> (r: Vec<u8>)
    ensures
        r@ == sha512_of(data@),
        r@.len() == 64,
{
    sha2::Sha512::digest(data).to_vec()
}

/// What `sha2::Sha512_224::digest` gives on `data`.
pub uninterp spec fn sha512_224_of(data: Seq<u8>) -> Seq<u8>;

/// `sha2::Sha512_224::digest`: a function of the data, 28 bytes long.
#[verifier::external_body]
fn sha512_224(data: &[u8]) -> (r: Vec<u8>)
    ensures
        r@ == sha512_224_of(data@),
        r@.len() == 28,
{
    sha2::Sha512_224::digest(data).to_vec()
}

/// What `sha2::Sha512_256::digest` gives on `data`.
pub uninterp spec fn sha512_256_of(data: Seq<u8>) -> Seq<u8>;

/// `sha2::Sha512_256::digest`: a function of the data, 32 bytes long.
#[verifier::external_body]
fn sha512_256(data: &[u8]) -> (r: Vec<u8>)
    ensures
        r@ == sha512_256_of(data@),
        r@.len() == 32,
{
    sha2::Sha512_256::digest(data).to_vec()
}

/// The digest under an upper-case algorithm name; no bytes for a name that is
/// not known.
pub open spec fn digest_of(algorithm: Seq<char>, data: Seq<u8>) -> Seq<u8> {
    if algorithm == "SHA-1"@ {
        sha1_of(data)
    } else if algorithm == "SHA-256"@ {
        sha256_of(data)
    } else if algorithm == "SHA-384"@ {
        sha384_of(data)
    } else if algorithm == "SHA-512"@ {
        sha512_of(data)
    } else if algorithm == "SHA-512/224"@ {
        sha512_224_of(data)
    } else if algorithm == "SHA-512/256"@ {
        sha512_256_of(data)
    } else {
        Seq::empty()
    }
}

/// The length of a digest under an upper-case algorithm name.
pub open spec fn digest_length(algorithm: Seq<char>) -> nat {
    if algorithm == "SHA-1"@ {
        20
    } else if algorithm == "SHA-256"@ {
        32
    } else if algorithm == "SHA-384"@ {
        48
    } else if algorithm == "SHA-512"@ {
        64
    } else if algorithm == "SHA-512/224"@ {
        28
    } else if algorithm == "SHA-512/256"@ {
        32
    } else {
        0
    }
}

/// The digest of `data`; the case of the algorithm's name does not matter.
pub fn subtle_digest(algorithm: &str, data: &[u8]) -> (r: Vec<u8>)
    ensures
        r@ == digest_of(raised(algorithm@), data@),
        r@.len() == digest_length(raised(algorithm@)),
{
    let name: String = to_upper(algorithm);
    let alg: &str = name.as_str();
    if same_text(alg, "SHA-1") {
        sha1(data)
    } else if same_text(alg, "SHA-256") {
        sha256(data)
    } else if same_text(alg, "SHA-384") {
        sha384(data)
    } else if same_text(alg, "SHA-512") {
        sha512(data)
    } else if same_text(alg, "SHA-512/224") {
        sha512_224(data)
    } else if same_text(alg, "SHA-512/256") {
        sha512_256(data)
    } else {
        Vec::new()
    }
}

/// What HMAC over `sha1::Sha1` gives on `data` under `key`.
pub uninterp spec fn hmac_sha1_of(key: Seq<u8>, data: Seq<u8>) -> Seq<u8>;

/// `hmac::Hmac` over `sha1::Sha1`, keyed, fed and finalised: a function of key and
/// data, 20 bytes long. A key of any length is taken.
#[verifier::external_body]
fn hmac_sha1(key: &[u8], data: &[u8]) -> (r: Vec<u8>)
    ensures
        r@ == hmac_sha1_of(key@, data@),
        r@.len() == 20,
{
    let mut mac = <hmac::Hmac<sha1::Sha1> as Mac>::new_from_slice(key).unwrap();
    mac.update(data);
    mac.finalize().into_bytes().to_vec()
}

/// What HMAC over `sha2::Sha256` gives on `data` under `key`.
pub uninterp spec fn hmac_sha256_of(key: Seq<u8>, data: Seq<u8>) -> Seq<u8>;

/// `hmac::Hmac` over `sha2::Sha256`, keyed, fed and finalised: a function of key and
/// data, 32 bytes long. A key of any length is taken.
#[verifier::external_body]
fn hmac_sha256(key: &[u8], data: &[u8]) -> (r: Vec<u8>)
    ensures
        r@ == hmac_sha256_of(key@, data@),
        r@.len() == 32,
{
    let mut mac = <hmac::Hmac<sha2::Sha256> as Mac>::new_from_slice(key).unwrap();
    mac.update(data);
    mac.finalize().into_bytes().to_vec()
}

/// What HMAC over `sha2::Sha384` gives on `data` under `key`.
pub uninterp spec fn hmac_sha384_of(key: Seq<u8>, data: Seq<u8>) -> Seq<u8>;

/// `hmac::Hmac` over `sha2::Sha384`, keyed, fed and finalised: a function of key and
/// data, 48 bytes long. A key of any length is taken.
#[verifier::external_body]
fn hmac_sha384(key: &[u8], data: &[u8]) -> (r: Vec<u8>)
    ensures
        r@ == hmac_sha384_of(key@, data@),
        r@.len() == 48,
{
    let mut mac = <hmac::Hmac<sha2::Sha384> as Mac>::new_from_slice(key).unwrap();
    mac.update(data);
    mac.finalize().into_bytes().to_vec()
}

/// What HMAC over `sha2::Sha512` gives on `data` under `key`.
pub uninterp spec fn hmac_sha512_of(key: Seq<u8>, data: Seq<u8>) -> Seq<u8>;

/// `hmac::Hmac` over `sha2::Sha512`, keyed, fed and finalised: a function of key and
/// data, 64 bytes long. A key of any length is taken.
#[verifier::external_body]
fn hmac_sha512(key: &[u8], data: &[u8]) -> (r: Vec<u8>)
    ensures
        r@ == hmac_sha512_of(key@, data@),
        r@.len() == 64,
{
    let mut mac = <hmac::Hmac<sha2::Sha512> as Mac>::new_from_slice(key).unwrap();
    mac.update(data);
    mac.finalize().into_bytes().to_vec()
}

/// The MAC under a hash name, where the hash is supported.
pub open spec fn hmac_of(hash: Seq<char>, key: Seq<u8>, data: Seq<u8>) -> Option<Seq<u8>> {
    if hash == "SHA-1"@ {
        Some(hmac_sha1_of(key, data))
    } else if hash == "SHA-256"@ {
        Some(hmac_sha256_of(key, data))
    } else if hash == "SHA-384"@ {
        Some(hmac_sha384_of(key, data))
    } else if hash == "SHA-512"@ {
        Some(hmac_sha512_of(key, data))
    } else {
        None
    }
}

/// Signs `data` under `key`.
pub fn subtle_hmac(hash: &str, key: &[u8], data: &[u8]) -> (r: Result<Vec<u8>, String>)
    ensures
        match hmac_of(hash@, key@, data@) {
            Some(mac) => bytes_result(r) == Ok::<Seq<u8>, Seq<char>>(mac) && mac.len()
                == digest_length(hash@),
            None => bytes_result(r) == Err::<Seq<u8>, Seq<char>>("unsupported HMAC hash"@),
        },
{
    if same_text(hash, "SHA-1") {
        Ok(hmac_sha1(key, data))
    } else if same_text(hash, "SHA-256") {
        Ok(hmac_sha256(key, data))
    } else if same_text(hash, "SHA-384") {
        Ok(hmac_sha384(key, data))
    } else if same_text(hash, "SHA-512") {
        Ok(hmac_sha512(key, data))
    } else {
        Err("unsupported HMAC hash".to_owned())
    }
}

/// AES takes a key of this many bytes.
pub open spec fn aes_key_length(n: nat) -> bool {
    n == 16 || n == 24 || n == 32
}

/// What AES-GCM gives on `data`: ciphertext with the tag behind it. The length
/// of the key picks the cipher.
pub uninterp spec fn gcm_sealed(
    key: Seq<u8>,
    iv: Seq<u8>,
    aad: Seq<u8>,
    data: Seq<u8>,
) -> Option<Seq<u8>>;

/// What opening `data` under AES-GCM gives; nothing where the tag does not fit.
pub uninterp spec fn gcm_opened(
    key: Seq<u8>,
    iv: Seq<u8>,
    aad: Seq<u8>,
    data: Seq<u8>,
) -> Option<Seq<u8>>;

/// A message that AES-GCM can seal, with room for the tag.
pub open spec fn gcm_sealable(data: Seq<u8>) -> bool {
    data.len() <= GCM_MESSAGE_LIMIT && data.len() + 16 <= isize::MAX
}

/// A message that AES-GCM can open.
pub open spec fn gcm_openable(data: Seq<u8>) -> bool {
    data.len() <= GCM_MESSAGE_LIMIT + 16
}

/// `Aead::encrypt` of AES-GCM with a 128-bit key. It fails exactly where
/// the additional data is longer than `aes_gcm::A_MAX`. The tag adds 16 bytes,
/// and opening what comes out gives the message back.
#[verifier::external_body]
fn gcm_seal_128(key: &[u8], iv: &[u8], aad: &[u8], data: &[u8]) -> (r: Option<Vec<u8>>)
    requires
        key@.len() == 16,
        iv@.len() == 12,
        gcm_sealable(data@),
    ensures
        opt_bytes(r) == gcm_sealed(key@, iv@, aad@, data@),
        r is Some <==> aad@.len() <= 0x10_0000_0000,
        match r {
            Some(v) => v@.len() == data@.len() + 16 && gcm_opened(key@, iv@, aad@, v@) == Some(
                data@,
            ),
            None => true,
        },
{
    let cipher = aes_gcm::Aes128Gcm::new_from_slice(key).ok()?;
    let nonce = aes_gcm::Nonce::from_slice(iv);
    cipher.encrypt(nonce, aes_gcm::aead::Payload { msg: data, aad }).ok()
}

/// `Aead::decrypt` of AES-GCM with a 128-bit key. What opens seals to the
/// same bytes again.
#[verifier::external_body]
fn gcm_open_128(key: &[u8], iv: &[u8], aad: &[u8], data: &[u8]) -> (r: Option<Vec<u8>>)
    requires
        key@.len() == 16,
        iv@.len() == 12,
        gcm_openable(data@),
    ensures
        opt_bytes(r) == gcm_opened(key@, iv@, aad@, data@),
        match r {
            Some(v) => v@.len() + 16 == data@.len() && gcm_sealed(key@, iv@, aad@, v@) == Some(
                data@,
            ),
            None => true,
        },
{
    let cipher = aes_gcm::Aes128Gcm::new_from_slice(key).ok()?;
    let nonce = aes_gcm::Nonce::from_slice(iv);
    cipher.decrypt(nonce, aes_gcm::aead::Payload { msg: data, aad }).ok()
}

/// `Aead::encrypt` of AES-GCM with a 192-bit key. It fails exactly where
/// the additional data is longer than `aes_gcm::A_MAX`. The tag adds 16 bytes,
/// and opening what comes out gives the message back.
#[verifier::external_body]
fn gcm_seal_192(key: &[u8], iv: &[u8], aad: &[u8], data: &[u8]) -> (r: Option<Vec<u8>>)
    requires
        key@.len() == 24,
        iv@.len() == 12,
        gcm_sealable(data@),
    ensures
        opt_bytes(r) == gcm_sealed(key@, iv@, aad@, data@),
        r is Some <==> aad@.len() <= 0x10_0000_0000,
        match r {
            Some(v) => v@.len() == data@.len() + 16 && gcm_opened(key@, iv@, aad@, v@) == Some(
                data@,
            ),
            None => true,
        },
{
    let cipher = aes_gcm::AesGcm::<aes_gcm::aes::Aes192, aes_gcm::aead::consts::U12>::new_from_slice(key).ok()?;
    let nonce = aes_gcm::Nonce::from_slice(iv);
    cipher.encrypt(nonce, aes_gcm::aead::Payload { msg: data, aad }).ok()
}

/// `Aead::decrypt` of AES-GCM with a 192-bit key. What opens seals to the
/// same bytes again.
#[verifier::external_body]
fn gcm_open_192(key: &[u8], iv: &[u8], aad: &[u8], data: &[u8]) -> (r: Option<Vec<u8>>)
    requires
        key@.len() == 24,
        iv@.len() == 12,
        gcm_openable(data@),
    ensures
        opt_bytes(r) == gcm_opened(key@, iv@, aad@, data@),
        match r {
            Some(v) => v@.len() + 16 == data@.len() && gcm_sealed(key@, iv@, aad@, v@) == Some(
                data@,
            ),
            None => true,
        },
{
    let cipher = aes_gcm::AesGcm::<aes_gcm::aes::Aes192, aes_gcm::aead::consts::U12>::new_from_slice(key).ok()?;
    let nonce = aes_gcm::Nonce::from_slice(iv);
    cipher.decrypt(nonce, aes_gcm::aead::Payload { msg: data, aad }).ok()
}

/// `Aead::encrypt` of AES-GCM with a 256-bit key. It fails exactly where
/// the additional data is longer than `aes_gcm::A_MAX`. The tag adds 16 bytes,
/// and opening what comes out gives the message back.
#[verifier::external_body]
fn gcm_seal_256(key: &[u8], iv: &[u8], aad: &[u8], data: &[u8]) -> (r: Option<Vec<u8>>)
    requires
        key@.len() == 32,
        iv@.len() == 12,
        gcm_sealable(data@),
    ensures
        opt_bytes(r) == gcm_sealed(key@, iv@, aad@, data@),
        r is Some <==> aad@.len() <= 0x10_0000_0000,
        match r {
            Some(v) => v@.len() == data@.len() + 16 && gcm_opened(key@, iv@, aad@, v@) == Some(
                data@,
            ),
            None => true,
        },
{
    let cipher = aes_gcm::Aes256Gcm::new_from_slice(key).ok()?;
    let nonce = aes_gcm::Nonce::from_slice(iv);
    cipher.encrypt(nonce, aes_gcm::aead::Payload { msg: data, aad }).ok()
}

/// `Aead::decrypt` of AES-GCM with a 256-bit key. What opens seals to the
/// same bytes again.
#[verifier::external_body]
fn gcm_open_256(key: &[u8], iv: &[u8], aad: &[u8], data: &[u8]) -> (r: Option<Vec<u8>>)
    requires
        key@.len() == 32,
        iv@.len() == 12,
        gcm_openable(data@),
    ensures
        opt_bytes(r) == gcm_opened(key@, iv@, aad@, data@),
        match r {
            Some(v) => v@.len() + 16 == data@.len() && gcm_sealed(key@, iv@, aad@, v@) == Some(
                data@,
            ),
            None => true,
        },
{
    let cipher = aes_gcm::Aes256Gcm::new_from_slice(key).ok()?;
    let nonce = aes_gcm::Nonce::from_slice(iv);
    cipher.decrypt(nonce, aes_gcm::aead::Payload { msg: data, aad }).ok()
}

/// What AES-GCM is asked for cannot be done for the shape of its arguments.
pub open spec fn gcm_misuse(key: Seq<u8>, iv: Seq<u8>) -> Option<Seq<char>> {
    if iv.len() != 12 {
        Some("AES-GCM requires a 96-bit (12-byte) IV"@)
    } else if !aes_key_length(key.len()) {
        Some("AES-GCM key must be 128, 192, or 256 bits"@)
    } else {
        None
    }
}

/// The outcome of an AES-GCM operation, given what the cipher gave.
pub open spec fn gcm_outcome(
    encrypt: bool,
    key: Seq<u8>,
    iv: Seq<u8>,
    cipher: Option<Seq<u8>>,
) -> Result<Seq<u8>, Seq<char>> {
    match gcm_misuse(key, iv) {
        Some(e) => Err(e),
        None => match cipher {
            Some(v) => Ok(v),
            None => Err(
                if encrypt {
                    "AES-GCM encryption failed"@
                } else {
                    "AES-GCM decryption failed: authentication tag mismatch"@
                },
            ),
        },
    }
}

/// Reports what the cipher gave.
pub fn report_gcm(encrypt: bool, cipher: Option<Vec<u8>>) -> (r: Result<Vec<u8>, String>)
    ensures
        match cipher {
            Some(v) => r == Ok::<Vec<u8>, String>(v),
            None => bytes_result(r) == Err::<Seq<u8>, Seq<char>>(
                if encrypt {
                    "AES-GCM encryption failed"@
                } else {
                    "AES-GCM decryption failed: authentication tag mismatch"@
                },
            ),
        },
{
    match cipher {
        Some(v) => Ok(v),
        None => {
            if encrypt {
                Err("AES-GCM encryption failed".to_owned())
            } else {
                Err("AES-GCM decryption failed: authentication tag mismatch".to_owned())
            }
        },
    }
}

/// Encrypts or decrypts under AES-GCM with a 12-byte IV and a tag of 16 bytes
/// behind the ciphertext. What was encrypted decrypts to what it was.
pub fn subtle_aes_gcm(encrypt: bool, key: &[u8], iv: &[u8], aad: &[u8], data: &[u8]) -> (r: Result<
    Vec<u8>,
    String,
>)
    requires
        if encrypt {
            gcm_sealable(data@)
        } else {
            gcm_openable(data@)
        },
    ensures
        bytes_result(r) == gcm_outcome(
            encrypt,
            key@,
            iv@,
            if encrypt {
                gcm_sealed(key@, iv@, aad@, data@)
            } else {
                gcm_opened(key@, iv@, aad@, data@)
            },
        ),
        encrypt ==> (r is Ok <==> gcm_misuse(key@, iv@) is None && aad@.len() <= 0x10_0000_0000),
        match r {
            Ok(v) => if encrypt {
                v@.len() == data@.len() + 16 && gcm_opened(key@, iv@, aad@, v@) == Some(data@)
            } else {
                v@.len() + 16 == data@.len() && gcm_sealed(key@, iv@, aad@, v@) == Some(data@)
            },
            Err(e) => true,
        },
{
    if iv.len() != 12 {
        return Err("AES-GCM requires a 96-bit (12-byte) IV".to_owned());
    }
    let cipher: Option<Vec<u8>> = if key.len() == 16 {
        if encrypt {
            gcm_seal_128(key, iv, aad, data)
        } else {
            gcm_open_128(key, iv, aad, data)
        }
    } else if key.len() == 24 {
        if encrypt {
            gcm_seal_192(key, iv, aad, data)
        } else {
            gcm_open_192(key, iv, aad, data)
        }
    } else if key.len() == 32 {
        if encrypt {
            gcm_seal_256(key, iv, aad, data)
        } else {
            gcm_open_256(key, iv, aad, data)
        }
    } else {
        return Err("AES-GCM key must be 128, 192, or 256 bits".to_owned());
    };
    report_gcm(encrypt, cipher)
}

/// What AES-CBC with PKCS#7 padding gives on `data`. The length of the key
/// picks the cipher.
pub uninterp spec fn cbc_sealed(key: Seq<u8>, iv: Seq<u8>, data: Seq<u8>) -> Seq<u8>;

/// What decrypting `data` under AES-CBC gives; nothing where the length or the
/// padding is wrong.
pub uninterp spec fn cbc_opened(key: Seq<u8>, iv: Seq<u8>, data: Seq<u8>) -> Option<Seq<u8>>;

/// `encrypt_padded_vec_mut` of `cbc::Encryptor` over `aes::Aes128` with
/// PKCS#7 padding. The message is padded up to the next full block, and
/// decrypting what comes out gives it back.
#[verifier::external_body]
fn cbc_seal_128(key: &[u8], iv: &[u8], data: &[u8]) -> (r: Vec<u8>)
    requires
        key@.len() == 16,
        iv@.len() == 16,
        data@.len() + 16 <= isize::MAX,
    ensures
        r@ == cbc_sealed(key@, iv@, data@),
        r@.len() == 16 * (data@.len() / 16 + 1),
        cbc_opened(key@, iv@, r@) == Some(data@),
{
    let cipher = cbc::Encryptor::<aes::Aes128>::new_from_slices(key, iv).unwrap();
    cipher.encrypt_padded_vec_mut::<Pkcs7>(data)
}

/// `decrypt_padded_vec_mut` of `cbc::Decryptor` over `aes::Aes128` with
/// PKCS#7 padding. What decrypts encrypts to the same bytes again.
#[verifier::external_body]
fn cbc_open_128(key: &[u8], iv: &[u8], data: &[u8]) -> (r: Option<Vec<u8>>)
    requires
        key@.len() == 16,
        iv@.len() == 16,
    ensures
        opt_bytes(r) == cbc_opened(key@, iv@, data@),
        match r {
            Some(v) => data@.len() == 16 * (v@.len() / 16 + 1) && cbc_sealed(key@, iv@, v@)
                == data@,
            None => true,
        },
{
    let cipher = cbc::Decryptor::<aes::Aes128>::new_from_slices(key, iv).unwrap();
    cipher.decrypt_padded_vec_mut::<Pkcs7>(data).ok()
}

/// `encrypt_padded_vec_mut` of `cbc::Encryptor` over `aes::Aes192` with
/// PKCS#7 padding. The message is padded up to the next full block, and
/// decrypting what comes out gives it back.
#[verifier::external_body]
fn cbc_seal_192(key: &[u8], iv: &[u8], data: &[u8]) -> (r: Vec<u8>)
    requires
        key@.len() == 24,
        iv@.len() == 16,
        data@.len() + 16 <= isize::MAX,
    ensures
        r@ == cbc_sealed(key@, iv@, data@),
        r@.len() == 16 * (data@.len() / 16 + 1),
        cbc_opened(key@, iv@, r@) == Some(data@),
{
    let cipher = cbc::Encryptor::<aes::Aes192>::new_from_slices(key, iv).unwrap();
    cipher.encrypt_padded_vec_mut::<Pkcs7>(data)
}

/// `decrypt_padded_vec_mut` of `cbc::Decryptor` over `aes::Aes192` with
/// PKCS#7 padding. What decrypts encrypts to the same bytes again.
#[verifier::external_body]
fn cbc_open_192(key: &[u8], iv: &[u8], data: &[u8]) -> (r: Option<Vec<u8>>)
    requires
        key@.len() == 24,
        iv@.len() == 16,
    ensures
        opt_bytes(r) == cbc_opened(key@, iv@, data@),
        match r {
            Some(v) => data@.len() == 16 * (v@.len() / 16 + 1) && cbc_sealed(key@, iv@, v@)
                == data@,
            None => true,
        },
{
    let cipher = cbc::Decryptor::<aes::Aes192>::new_from_slices(key, iv).unwrap();
    cipher.decrypt_padded_vec_mut::<Pkcs7>(data).ok()
}

/// `encrypt_padded_vec_mut` of `cbc::Encryptor` over `aes::Aes256` with
/// PKCS#7 padding. The message is padded up to the next full block, and
/// decrypting what comes out gives it back.
#[verifier::external_body]
fn cbc_seal_256(key: &[u8], iv: &[u8], data: &[u8]) -> (r: Vec<u8>)
    requires
        key@.len() == 32,
        iv@.len() == 16,
        data@.len() + 16 <= isize::MAX,
    ensures
        r@ == cbc_sealed(key@, iv@, data@),
        r@.len() == 16 * (data@.len() / 16 + 1),
        cbc_opened(key@, iv@, r@) == Some(data@),
{
    let cipher = cbc::Encryptor::<aes::Aes256>::new_from_slices(key, iv).unwrap();
    cipher.encrypt_padded_vec_mut::<Pkcs7>(data)
}

/// `decrypt_padded_vec_mut` of `cbc::Decryptor` over `aes::Aes256` with
/// PKCS#7 padding. What decrypts encrypts to the same bytes again.
#[verifier::external_body]
fn cbc_open_256(key: &[u8], iv: &[u8], data: &[u8]) -> (r: Option<Vec<u8>>)
    requires
        key@.len() == 32,
        iv@.len() == 16,
    ensures
        opt_bytes(r) == cbc_opened(key@, iv@, data@),
        match r {
            Some(v) => data@.len() == 16 * (v@.len() / 16 + 1) && cbc_sealed(key@, iv@, v@)
                == data@,
            None => true,
        },
{
    let cipher = cbc::Decryptor::<aes::Aes256>::new_from_slices(key, iv).unwrap();
    cipher.decrypt_padded_vec_mut::<Pkcs7>(data).ok()
}

/// What AES-CBC is asked for cannot be done for the shape of its arguments.
pub open spec fn cbc_misuse(key: Seq<u8>, iv: Seq<u8>) -> Option<Seq<char>> {
    if iv.len() != 16 {
        Some("AES-CBC requires a 16-byte IV"@)
    } else if !aes_key_length(key.len()) {
        Some("AES-CBC key must be 128, 192, or 256 bits"@)
    } else {
        None
    }
}

/// The outcome of an AES-CBC operation, given what the cipher gave.
pub open spec fn cbc_outcome(key: Seq<u8>, iv: Seq<u8>, cipher: Option<Seq<u8>>) -> Result<
    Seq<u8>,
    Seq<char>,
> {
    match cbc_misuse(key, iv) {
        Some(e) => Err(e),
        None => match cipher {
            Some(v) => Ok(v),
            None => Err("AES-CBC decryption failed: invalid padding"@),
        },
    }
}

/// Reports what decryption under AES-CBC gave.
pub fn report_cbc(cipher: Option<Vec<u8>>) -> (r: Result<Vec<u8>, String>)
    ensures
        match cipher {
            Some(v) => r == Ok::<Vec<u8>, String>(v),
            None => bytes_result(r) == Err::<Seq<u8>, Seq<char>>(
                "AES-CBC decryption failed: invalid padding"@,
            ),
        },
{
    match cipher {
        Some(v) => Ok(v),
        None => Err("AES-CBC decryption failed: invalid padding".to_owned()),
    }
}

/// Encrypts or decrypts under AES-CBC with PKCS#7 padding and a 16-byte IV.
/// What was encrypted decrypts to what it was.
pub fn subtle_aes_cbc(encrypt: bool, key: &[u8], iv: &[u8], data: &[u8]) -> (r: Result<
    Vec<u8>,
    String,
>)
    requires
        encrypt ==> data@.len() + 16 <= isize::MAX,
    ensures
        bytes_result(r) == cbc_outcome(
            key@,
            iv@,
            if encrypt {
                Some(cbc_sealed(key@, iv@, data@))
            } else {
                cbc_opened(key@, iv@, data@)
            },
        ),
        match r {
            Ok(v) => if encrypt {
                v@.len() == 16 * (data@.len() / 16 + 1) && cbc_opened(key@, iv@, v@) == Some(data@)
            } else {
                cbc_sealed(key@, iv@, v@) == data@
            },
            Err(e) => true,
        },
{
    if iv.len() != 16 {
        return Err("AES-CBC requires a 16-byte IV".to_owned());
    }
    if key.len() == 16 {
        if encrypt {
            Ok(cbc_seal_128(key, iv, data))
        } else {
            report_cbc(cbc_open_128(key, iv, data))
        }
    } else if key.len() == 24 {
        if encrypt {
            Ok(cbc_seal_192(key, iv, data))
        } else {
            report_cbc(cbc_open_192(key, iv, data))
        }
    } else if key.len() == 32 {
        if encrypt {
            Ok(cbc_seal_256(key, iv, data))
        } else {
            report_cbc(cbc_open_256(key, iv, data))
        }
    } else {
        Err("AES-CBC key must be 128, 192, or 256 bits".to_owned())
    }
}

/// What AES-CTR with a 32-bit counter gives on `data`. The length of the key
/// picks the cipher.
pub uninterp spec fn ctr32_applied(key: Seq<u8>, counter: Seq<u8>, data: Seq<u8>) -> Seq<u8>;

/// `apply_keystream` of `ctr::Ctr32BE` over `aes::Aes128`: as long as the
/// data, and applied again it gives the data back.
#[verifier::external_body]
fn ctr32_128(key: &[u8], counter: &[u8], data: &[u8]) -> (r: Vec<u8>)
    requires
        key@.len() == 16,
        counter@.len() == 16,
        data@.len() <= CTR32_MESSAGE_LIMIT,
    ensures
        r@ == ctr32_applied(key@, counter@, data@),
        r@.len() == data@.len(),
        ctr32_applied(key@, counter@, r@) == data@,
{
    let mut buf = data.to_vec();
    let mut cipher = ctr::Ctr32BE::<aes::Aes128>::new_from_slices(key, counter).unwrap();
    cipher.apply_keystream(&mut buf);
    buf
}

/// `apply_keystream` of `ctr::Ctr32BE` over `aes::Aes192`: as long as the
/// data, and applied again it gives the data back.
#[verifier::external_body]
fn ctr32_192(key: &[u8], counter: &[u8], data: &[u8]) -> (r: Vec<u8>)
    requires
        key@.len() == 24,
        counter@.len() == 16,
        data@.len() <= CTR32_MESSAGE_LIMIT,
    ensures
        r@ == ctr32_applied(key@, counter@, data@),
        r@.len() == data@.len(),
        ctr32_applied(key@, counter@, r@) == data@,
{
    let mut buf = data.to_vec();
    let mut cipher = ctr::Ctr32BE::<aes::Aes192>::new_from_slices(key, counter).unwrap();
    cipher.apply_keystream(&mut buf);
    buf
}

/// `apply_keystream` of `ctr::Ctr32BE` over `aes::Aes256`: as long as the
/// data, and applied again it gives the data back.
#[verifier::external_body]
fn ctr32_256(key: &[u8], counter: &[u8], data: &[u8]) -> (r: Vec<u8>)
    requires
        key@.len() == 32,
        counter@.len() == 16,
        data@.len() <= CTR32_MESSAGE_LIMIT,
    ensures
        r@ == ctr32_applied(key@, counter@, data@),
        r@.len() == data@.len(),
        ctr32_applied(key@, counter@, r@) == data@,
{
    let mut buf = data.to_vec();
    let mut cipher = ctr::Ctr32BE::<aes::Aes256>::new_from_slices(key, counter).unwrap();
    cipher.apply_keystream(&mut buf);
    buf
}

/// What AES-CTR with a 64-bit counter gives on `data`. The length of the key
/// picks the cipher.
pub uninterp spec fn ctr64_applied(key: Seq<u8>, counter: Seq<u8>, data: Seq<u8>) -> Seq<u8>;

/// `apply_keystream` of `ctr::Ctr64BE` over `aes::Aes128`: as long as the
/// data, and applied again it gives the data back.
#[verifier::external_body]
fn ctr64_128(key: &[u8], counter: &[u8], data: &[u8]) -> (r: Vec<u8>)
    requires
        key@.len() == 16,
        counter@.len() == 16,
    ensures
        r@ == ctr64_applied(key@, counter@, data@),
        r@.len() == data@.len(),
        ctr64_applied(key@, counter@, r@) == data@,
{
    let mut buf = data.to_vec();
    let mut cipher = ctr::Ctr64BE::<aes::Aes128>::new_from_slices(key, counter).unwrap();
    cipher.apply_keystream(&mut buf);
    buf
}

/// `apply_keystream` of `ctr::Ctr64BE` over `aes::Aes192`: as long as the
/// data, and applied again it gives the data back.
#[verifier::external_body]
fn ctr64_192(key: &[u8], counter: &[u8], data: &[u8]) -> (r: Vec<u8>)
    requires
        key@.len() == 24,
        counter@.len() == 16,
    ensures
        r@ == ctr64_applied(key@, counter@, data@),
        r@.len() == data@.len(),
        ctr64_applied(key@, counter@, r@) == data@,
{
    let mut buf = data.to_vec();
    let mut cipher = ctr::Ctr64BE::<aes::Aes192>::new_from_slices(key, counter).unwrap();
    cipher.apply_keystream(&mut buf);
    buf
}

/// `apply_keystream` of `ctr::Ctr64BE` over `aes::Aes256`: as long as the
/// data, and applied again it gives the data back.
#[verifier::external_body]
fn ctr64_256(key: &[u8], counter: &[u8], data: &[u8]) -> (r: Vec<u8>)
    requires
        key@.len() == 32,
        counter@.len() == 16,
    ensures
        r@ == ctr64_applied(key@, counter@, data@),
        r@.len() == data@.len(),
        ctr64_applied(key@, counter@, r@) == data@,
{
    let mut buf = data.to_vec();
    let mut cipher = ctr::Ctr64BE::<aes::Aes256>::new_from_slices(key, counter).unwrap();
    cipher.apply_keystream(&mut buf);
    buf
}

/// What AES-CTR with a 128-bit counter gives on `data`. The length of the key
/// picks the cipher.
pub uninterp spec fn ctr128_applied(key: Seq<u8>, counter: Seq<u8>, data: Seq<u8>) -> Seq<u8>;

/// `apply_keystream` of `ctr::Ctr128BE` over `aes::Aes128`: as long as the
/// data, and applied again it gives the data back.
#[verifier::external_body]
fn ctr128_128(key: &[u8], counter: &[u8], data: &[u8]) -> (r: Vec<u8>)
    requires
        key@.len() == 16,
        counter@.len() == 16,
    ensures
        r@ == ctr128_applied(key@, counter@, data@),
        r@.len() == data@.len(),
        ctr128_applied(key@, counter@, r@) == data@,
{
    let mut buf = data.to_vec();
    let mut cipher = ctr::Ctr128BE::<aes::Aes128>::new_from_slices(key, counter).unwrap();
    cipher.apply_keystream(&mut buf);
    buf
}

/// `apply_keystream` of `ctr::Ctr128BE` over `aes::Aes192`: as long as the
/// data, and applied again it gives the data back.
#[verifier::external_body]
fn ctr128_192(key: &[u8], counter: &[u8], data: &[u8]) -> (r: Vec<u8>)
    requires
        key@.len() == 24,
        counter@.len() == 16,
    ensures
        r@ == ctr128_applied(key@, counter@, data@),
        r@.len() == data@.len(),
        ctr128_applied(key@, counter@, r@) == data@,
{
    let mut buf = data.to_vec();
    let mut cipher = ctr::Ctr128BE::<aes::Aes192>::new_from_slices(key, counter).unwrap();
    cipher.apply_keystream(&mut buf);
    buf
}

/// `apply_keystream` of `ctr::Ctr128BE` over `aes::Aes256`: as long as the
/// data, and applied again it gives the data back.
#[verifier::external_body]
fn ctr128_256(key: &[u8], counter: &[u8], data: &[u8]) -> (r: Vec<u8>)
    requires
        key@.len() == 32,
        counter@.len() == 16,
    ensures
        r@ == ctr128_applied(key@, counter@, data@),
        r@.len() == data@.len(),
        ctr128_applied(key@, counter@, r@) == data@,
{
    let mut buf = data.to_vec();
    let mut cipher = ctr::Ctr128BE::<aes::Aes256>::new_from_slices(key, counter).unwrap();
    cipher.apply_keystream(&mut buf);
    buf
}

/// What AES-CTR gives under a counter width of 32, 64 or 128 bits.
pub open spec fn ctr_applied(width: u32, key: Seq<u8>, counter: Seq<u8>, data: Seq<u8>) -> Seq<u8> {
    if width == 128 {
        ctr128_applied(key, counter, data)
    } else if width == 64 {
        ctr64_applied(key, counter, data)
    } else {
        ctr32_applied(key, counter, data)
    }
}

/// What AES-CTR is asked for cannot be done for the shape of its arguments.
pub open spec fn ctr_misuse(key: Seq<u8>, counter: Seq<u8>, width: u32) -> Option<Seq<char>> {
    if counter.len() != 16 {
        Some("AES-CTR requires a 16-byte counter block"@)
    } else if width != 128 && width != 64 && width != 32 {
        Some("AES-CTR supports counter lengths of 32, 64, or 128 bits"@)
    } else if !aes_key_length(key.len()) {
        Some("AES-CTR key must be 128, 192, or 256 bits"@)
    } else {
        None
    }
}

/// Encrypts or decrypts under AES-CTR, which is one operation: applied to its
/// own result it gives the data back.
pub fn subtle_aes_ctr(key: &[u8], counter: &[u8], counter_length: u32, data: &[u8]) -> (r: Result<
    Vec<u8>,
    String,
>)
    requires
        counter_length == 32 ==> data@.len() <= CTR32_MESSAGE_LIMIT,
    ensures
        match ctr_misuse(key@, counter@, counter_length) {
            Some(e) => bytes_result(r) == Err::<Seq<u8>, Seq<char>>(e),
            None => {
                let v: Seq<u8> = ctr_applied(counter_length, key@, counter@, data@);
                &&& bytes_result(r) == Ok::<Seq<u8>, Seq<char>>(v)
                &&& v.len() == data@.len()
                &&& ctr_applied(counter_length, key@, counter@, v) == data@
            },
        },
{
    if counter.len() != 16 {
        return Err("AES-CTR requires a 16-byte counter block".to_owned());
    }
    if counter_length != 128 && counter_length != 64 && counter_length != 32 {
        return Err("AES-CTR supports counter lengths of 32, 64, or 128 bits".to_owned());
    }
    if key.len() == 16 {
        if counter_length == 128 {
            Ok(ctr128_128(key, counter, data))
        } else if counter_length == 64 {
            Ok(ctr64_128(key, counter, data))
        } else {
            Ok(ctr32_128(key, counter, data))
        }
    } else if key.len() == 24 {
        if counter_length == 128 {
            Ok(ctr128_192(key, counter, data))
        } else if counter_length == 64 {
            Ok(ctr64_192(key, counter, data))
        } else {
            Ok(ctr32_192(key, counter, data))
        }
    } else if key.len() == 32 {
        if counter_length == 128 {
            Ok(ctr128_256(key, counter, data))
        } else if counter_length == 64 {
            Ok(ctr64_256(key, counter, data))
        } else {
            Ok(ctr32_256(key, counter, data))
        }
    } else {
        Err("AES-CTR key must be 128, 192, or 256 bits".to_owned())
    }
}

/// What PBKDF2 with HMAC over `sha1::Sha1` derives.
pub uninterp spec fn pbkdf2_sha1_of(
    password: Seq<u8>,
    salt: Seq<u8>,
    iterations: u32,
    length: u32,
) -> Seq<u8>;

/// `pbkdf2::pbkdf2_hmac` over `sha1::Sha1`: a function of its arguments, of the
/// length that was asked for.
#[verifier::external_body]
fn pbkdf2_sha1(password: &[u8], salt: &[u8], iterations: u32, length: u32) -> (r: Vec<u8>)
    requires
        length <= isize::MAX,
    ensures
        r@ == pbkdf2_sha1_of(password@, salt@, iterations, length),
        r@.len() == length,
{
    let mut dk = vec![0u8; length as usize];
    pbkdf2::pbkdf2_hmac::<sha1::Sha1>(password, salt, iterations, &mut dk);
    dk
}

/// What PBKDF2 with HMAC over `sha2::Sha256` derives.
pub uninterp spec fn pbkdf2_sha256_of(
    password: Seq<u8>,
    salt: Seq<u8>,
    iterations: u32,
    length: u32,
) -> Seq<u8>;

/// `pbkdf2::pbkdf2_hmac` over `sha2::Sha256`: a function of its arguments, of the
/// length that was asked for.
#[verifier::external_body]
fn pbkdf2_sha256(password: &[u8], salt: &[u8], iterations: u32, length: u32) -> (r: Vec<u8>)
    requires
        length <= isize::MAX,
    ensures
        r@ == pbkdf2_sha256_of(password@, salt@, iterations, length),
        r@.len() == length,
{
    let mut dk = vec![0u8; length as usize];
    pbkdf2::pbkdf2_hmac::<sha2::Sha256>(password, salt, iterations, &mut dk);
    dk
}

/// What PBKDF2 with HMAC over `sha2::Sha384` derives.
pub uninterp spec fn pbkdf2_sha384_of(
    password: Seq<u8>,
    salt: Seq<u8>,
    iterations: u32,
    length: u32,
) -> Seq<u8>;

/// `pbkdf2::pbkdf2_hmac` over `sha2::Sha384`: a function of its arguments, of the
/// length that was asked for.
#[verifier::external_body]
fn pbkdf2_sha384(password: &[u8], salt: &[u8], iterations: u32, length: u32) -> (r: Vec<u8>)
    requires
        length <= isize::MAX,
    ensures
        r@ == pbkdf2_sha384_of(password@, salt@, iterations, length),
        r@.len() == length,
{
    let mut dk = vec![0u8; length as usize];
    pbkdf2::pbkdf2_hmac::<sha2::Sha384>(password, salt, iterations, &mut dk);
    dk
}

/// What PBKDF2 with HMAC over `sha2::Sha512` derives.
pub uninterp spec fn pbkdf2_sha512_of(
    password: Seq<u8>,
    salt: Seq<u8>,
    iterations: u32,
    length: u32,
) -> Seq<u8>;

/// `pbkdf2::pbkdf2_hmac` over `sha2::Sha512`: a function of its arguments, of the
/// length that was asked for.
#[verifier::external_body]
fn pbkdf2_sha512(password: &[u8], salt: &[u8], iterations: u32, length: u32) -> (r: Vec<u8>)
    requires
        length <= isize::MAX,
    ensures
        r@ == pbkdf2_sha512_of(password@, salt@, iterations, length),
        r@.len() == length,
{
    let mut dk = vec![0u8; length as usize];
    pbkdf2::pbkdf2_hmac::<sha2::Sha512>(password, salt, iterations, &mut dk);
    dk
}

/// The derived key under a hash name, where the hash is supported.
pub open spec fn pbkdf2_of(
    hash: Seq<char>,
    password: Seq<u8>,
    salt: Seq<u8>,
    iterations: u32,
    length: u32,
) -> Option<Seq<u8>> {
    if hash == "SHA-1"@ {
        Some(pbkdf2_sha1_of(password, salt, iterations, length))
    } else if hash == "SHA-256"@ {
        Some(pbkdf2_sha256_of(password, salt, iterations, length))
    } else if hash == "SHA-384"@ {
        Some(pbkdf2_sha384_of(password, salt, iterations, length))
    } else if hash == "SHA-512"@ {
        Some(pbkdf2_sha512_of(password, salt, iterations, length))
    } else {
        None
    }
}

/// Derives `length` bytes from a password.
pub fn subtle_pbkdf2(
    hash: &str,
    password: &[u8],
    salt: &[u8],
    iterations: u32,
    length: u32,
) -> (r: Result<Vec<u8>, String>)
    requires
        length <= isize::MAX,
    ensures
        match pbkdf2_of(hash@, password@, salt@, iterations, length) {
            Some(key) => bytes_result(r) == Ok::<Seq<u8>, Seq<char>>(key) && key.len() == length,
            None => bytes_result(r) == Err::<Seq<u8>, Seq<char>>("unsupported PBKDF2 hash"@),
        },
{
    if same_text(hash, "SHA-1") {
        Ok(pbkdf2_sha1(password, salt, iterations, length))
    } else if same_text(hash, "SHA-256") {
        Ok(pbkdf2_sha256(password, salt, iterations, length))
    } else if same_text(hash, "SHA-384") {
        Ok(pbkdf2_sha384(password, salt, iterations, length))
    } else if same_text(hash, "SHA-512") {
        Ok(pbkdf2_sha512(password, salt, iterations, length))
    } else {
        Err("unsupported PBKDF2 hash".to_owned())
    }
}

/// What HKDF over `sha1::Sha1` derives.
pub uninterp spec fn hkdf_sha1_of(
    ikm: Seq<u8>,
    salt: Seq<u8>,
    info: Seq<u8>,
    length: u32,
) -> Seq<u8>;

/// `hkdf::Hkdf::new` and `expand` over `sha1::Sha1`: a function of its arguments, of
/// the length that was asked for. It fails exactly where that is more than 255
/// digests.
#[verifier::external_body]
fn hkdf_sha1(ikm: &[u8], salt: &[u8], info: &[u8], length: u32) -> (r: Option<Vec<u8>>)
    requires
        length <= isize::MAX,
    ensures
        r is Some <==> length <= 255 * 20,
        match r {
            Some(v) => v@ == hkdf_sha1_of(ikm@, salt@, info@, length) && v@.len() == length,
            None => true,
        },
{
    let mut okm = vec![0u8; length as usize];
    hkdf::Hkdf::<sha1::Sha1>::new(Some(salt), ikm).expand(info, &mut okm).ok()?;
    Some(okm)
}

/// What HKDF over `sha2::Sha256` derives.
pub uninterp spec fn hkdf_sha256_of(
    ikm: Seq<u8>,
    salt: Seq<u8>,
    info: Seq<u8>,
    length: u32,
) -> Seq<u8>;

/// `hkdf::Hkdf::new` and `expand` over `sha2::Sha256`: a function of its arguments, of
/// the length that was asked for. It fails exactly where that is more than 255
/// digests.
#[verifier::external_body]
fn hkdf_sha256(ikm: &[u8], salt: &[u8], info: &[u8], length: u32) -> (r: Option<Vec<u8>>)
    requires
        length <= isize::MAX,
    ensures
        r is Some <==> length <= 255 * 32,
        match r {
            Some(v) => v@ == hkdf_sha256_of(ikm@, salt@, info@, length) && v@.len() == length,
            None => true,
        },
{
    let mut okm = vec![0u8; length as usize];
    hkdf::Hkdf::<sha2::Sha256>::new(Some(salt), ikm).expand(info, &mut okm).ok()?;
    Some(okm)
}

/// What HKDF over `sha2::Sha384` derives.
pub uninterp spec fn hkdf_sha384_of(
    ikm: Seq<u8>,
    salt: Seq<u8>,
    info: Seq<u8>,
    length: u32,
) -> Seq<u8>;

/// `hkdf::Hkdf::new` and `expand` over `sha2::Sha384`: a function of its arguments, of
/// the length that was asked for. It fails exactly where that is more than 255
/// digests.
#[verifier::external_body]
fn hkdf_sha384(ikm: &[u8], salt: &[u8], info: &[u8], length: u32) -> (r: Option<Vec<u8>>)
    requires
        length <= isize::MAX,
    ensures
        r is Some <==> length <= 255 * 48,
        match r {
            Some(v) => v@ == hkdf_sha384_of(ikm@, salt@, info@, length) && v@.len() == length,
            None => true,
        },
{
    let mut okm = vec![0u8; length as usize];
    hkdf::Hkdf::<sha2::Sha384>::new(Some(salt), ikm).expand(info, &mut okm).ok()?;
    Some(okm)
}

/// What HKDF over `sha2::Sha512` derives.
pub uninterp spec fn hkdf_sha512_of(
    ikm: Seq<u8>,
    salt: Seq<u8>,
    info: Seq<u8>,
    length: u32,
) -> Seq<u8>;

/// `hkdf::Hkdf::new` and `expand` over `sha2::Sha512`: a function of its arguments, of
/// the length that was asked for. It fails exactly where that is more than 255
/// digests.
#[verifier::external_body]
fn hkdf_sha512(ikm: &[u8], salt: &[u8], info: &[u8], length: u32) -> (r: Option<Vec<u8>>)
    requires
        length <= isize::MAX,
    ensures
        r is Some <==> length <= 255 * 64,
        match r {
            Some(v) => v@ == hkdf_sha512_of(ikm@, salt@, info@, length) && v@.len() == length,
            None => true,
        },
{
    let mut okm = vec![0u8; length as usize];
    hkdf::Hkdf::<sha2::Sha512>::new(Some(salt), ikm).expand(info, &mut okm).ok()?;
    Some(okm)
}

/// The outcome of HKDF under a hash name.
pub open spec fn hkdf_outcome(
    hash: Seq<char>,
    ikm: Seq<u8>,
    salt: Seq<u8>,
    info: Seq<u8>,
    length: u32,
) -> Result<Seq<u8>, Seq<char>> {
    if hash != "SHA-1"@ && hash != "SHA-256"@ && hash != "SHA-384"@ && hash != "SHA-512"@ {
        Err("unsupported HKDF hash"@)
    } else if length > 255 * digest_length(hash) {
        Err("HKDF: requested key length is too long"@)
    } else if hash == "SHA-1"@ {
        Ok(hkdf_sha1_of(ikm, salt, info, length))
    } else if hash == "SHA-256"@ {
        Ok(hkdf_sha256_of(ikm, salt, info, length))
    } else if hash == "SHA-384"@ {
        Ok(hkdf_sha384_of(ikm, salt, info, length))
    } else {
        Ok(hkdf_sha512_of(ikm, salt, info, length))
    }
}

/// Derives `length` bytes from key material.
pub fn subtle_hkdf(hash: &str, ikm: &[u8], salt: &[u8], info: &[u8], length: u32) -> (r: Result<
    Vec<u8>,
    String,
>)
    requires
        length <= isize::MAX,
    ensures
        bytes_result(r) == hkdf_outcome(hash@, ikm@, salt@, info@, length),
        match r {
            Ok(v) => v@.len() == length,
            Err(e) => true,
        },
{
    let okm: Option<Vec<u8>> = if same_text(hash, "SHA-1") {
        hkdf_sha1(ikm, salt, info, length)
    } else if same_text(hash, "SHA-256") {
        hkdf_sha256(ikm, salt, info, length)
    } else if same_text(hash, "SHA-384") {
        hkdf_sha384(ikm, salt, info, length)
    } else if same_text(hash, "SHA-512") {
        hkdf_sha512(ikm, salt, info, length)
    } else {
        return Err("unsupported HKDF hash".to_owned());
    };
    match okm {
        Some(v) => Ok(v),
        None => Err("HKDF: requested key length is too long".to_owned()),
    }
}

/// `getrandom::getrandom` on a buffer of `len` bytes, with its error as text.
/// The bytes rest on the operating system; an empty buffer is filled always.
#[verifier::external_body]
fn fill_random(len: u32) -> (r: Result<Vec<u8>, String>)
    requires
        len <= isize::MAX,
    ensures
        match r {
            Ok(v) => v@.len() == len,
            Err(e) => len > 0,
        },
{
    let mut buf = vec![0u8; len as usize];
    match getrandom::getrandom(&mut buf) {
        Ok(()) => Ok(buf),
        Err(e) => Err(e.to_string()),
    }
}

/// Reports what the random source gave.
pub fn report_random(source: Result<Vec<u8>, String>) -> (r: Result<Vec<u8>, String>)
    ensures
        match source {
            Ok(v) => r == Ok::<Vec<u8>, String>(v),
            Err(e) => bytes_result(r) == Err::<Seq<u8>, Seq<char>>("getrandom failed: "@ + e@),
        },
{
    match source {
        Ok(v) => Ok(v),
        Err(e) => {
            let mut message: String = "getrandom failed: ".to_owned();
            message.append(e.as_str());
            Err(message)
        },
    }
}

/// `len` bytes of the operating system's random source.
pub fn random_bytes(len: u32) -> (r: Result<Vec<u8>, String>)
    requires
        len <= isize::MAX,
    ensures
        match r {
            Ok(v) => v@.len() == len,
            Err(e) => len > 0 && exists|cause: Seq<char>|
                e@ == #[trigger] ("getrandom failed: "@ + cause),
        },
{
    let source: Result<Vec<u8>, String> = fill_random(len);
    report_random(source)
}

proof fn hash_names_differ()
    ensures
        "SHA-1"@ != "SHA-256"@,
        "SHA-1"@ != "SHA-384"@,
        "SHA-1"@ != "SHA-512"@,
        "SHA-1"@ != "SHA-512/224"@,
        "SHA-1"@ != "SHA-512/256"@,
        "SHA-256"@ != "SHA-384"@,
        "SHA-256"@ != "SHA-512"@,
        "SHA-256"@ != "SHA-512/224"@,
        "SHA-256"@ != "SHA-512/256"@,
        "SHA-384"@ != "SHA-512"@,
        "SHA-384"@ != "SHA-512/224"@,
        "SHA-384"@ != "SHA-512/256"@,
        "SHA-512"@ != "SHA-512/224"@,
        "SHA-512"@ != "SHA-512/256"@,
        "SHA-512/224"@ != "SHA-512/256"@,
{
    reveal_strlit("SHA-1");
    reveal_strlit("SHA-256");
    reveal_strlit("SHA-384");
    reveal_strlit("SHA-512");
    reveal_strlit("SHA-512/224");
    reveal_strlit("SHA-512/256");
    assert("SHA-1"@.len() == 5 && "SHA-256"@.len() == 7 && "SHA-384"@.len() == 7
        && "SHA-512"@.len() == 7 && "SHA-512/224"@.len() == 11 && "SHA-512/256"@.len() == 11);
    assert("SHA-256"@[4] == '2' && "SHA-384"@[4] == '3' && "SHA-512"@[4] == '5');
    assert("SHA-512/224"@[9] == '2' && "SHA-512/256"@[9] == '5');
}

/// Each digest goes by its own name and has its own length; a name that is no
/// digest's gives no bytes.
pub proof fn digests_go_by_their_names(name: Seq<char>, data: Seq<u8>)
    ensures
        digest_of("SHA-1"@, data) == sha1_of(data) && digest_length("SHA-1"@) == 20,
        digest_of("SHA-256"@, data) == sha256_of(data) && digest_length("SHA-256"@) == 32,
        digest_of("SHA-384"@, data) == sha384_of(data) && digest_length("SHA-384"@) == 48,
        digest_of("SHA-512"@, data) == sha512_of(data) && digest_length("SHA-512"@) == 64,
        digest_of("SHA-512/224"@, data) == sha512_224_of(data) && digest_length("SHA-512/224"@)
            == 28,
        digest_of("SHA-512/256"@, data) == sha512_256_of(data) && digest_length("SHA-512/256"@)
            == 32,
        name != "SHA-1"@ && name != "SHA-256"@ && name != "SHA-384"@ && name != "SHA-512"@ && name
            != "SHA-512/224"@ && name != "SHA-512/256"@ ==> digest_of(name, data).len() == 0
            && digest_length(name) == 0,
{
    hash_names_differ();
}

/// MACs and derived keys go by the name of their hash; a name that is none of
/// the four is refused.
pub proof fn keyed_hashes_go_by_their_names(
    name: Seq<char>,
    key: Seq<u8>,
    data: Seq<u8>,
    info: Seq<u8>,
    iterations: u32,
    length: u32,
)
    ensures
        hmac_of("SHA-1"@, key, data) == Some(hmac_sha1_of(key, data)),
        hmac_of("SHA-256"@, key, data) == Some(hmac_sha256_of(key, data)),
        hmac_of("SHA-384"@, key, data) == Some(hmac_sha384_of(key, data)),
        hmac_of("SHA-512"@, key, data) == Some(hmac_sha512_of(key, data)),
        pbkdf2_of("SHA-1"@, key, data, iterations, length) == Some(
            pbkdf2_sha1_of(key, data, iterations, length),
        ),
        pbkdf2_of("SHA-256"@, key, data, iterations, length) == Some(
            pbkdf2_sha256_of(key, data, iterations, length),
        ),
        pbkdf2_of("SHA-384"@, key, data, iterations, length) == Some(
            pbkdf2_sha384_of(key, data, iterations, length),
        ),
        pbkdf2_of("SHA-512"@, key, data, iterations, length) == Some(
            pbkdf2_sha512_of(key, data, iterations, length),
        ),
        length <= 255 * 20 ==> hkdf_outcome("SHA-1"@, key, data, info, length) == Ok::<
            Seq<u8>,
            Seq<char>,
        >(hkdf_sha1_of(key, data, info, length)),
        length <= 255 * 32 ==> hkdf_outcome("SHA-256"@, key, data, info, length) == Ok::<
            Seq<u8>,
            Seq<char>,
        >(hkdf_sha256_of(key, data, info, length)),
        length <= 255 * 48 ==> hkdf_outcome("SHA-384"@, key, data, info, length) == Ok::<
            Seq<u8>,
            Seq<char>,
        >(hkdf_sha384_of(key, data, info, length)),
        length <= 255 * 64 ==> hkdf_outcome("SHA-512"@, key, data, info, length) == Ok::<
            Seq<u8>,
            Seq<char>,
        >(hkdf_sha512_of(key, data, info, length)),
        length > 255 * 64 ==> hkdf_outcome(name, key, data, info, length) is Err,
        length > 255 * 20 ==> hkdf_outcome("SHA-1"@, key, data, info, length) is Err,
        length > 255 * 32 ==> hkdf_outcome("SHA-256"@, key, data, info, length) is Err,
        length > 255 * 48 ==> hkdf_outcome("SHA-384"@, key, data, info, length) is Err,
        name != "SHA-1"@ && name != "SHA-256"@ && name != "SHA-384"@ && name != "SHA-512"@ ==> {
            &&& hmac_of(name, key, data) is None
            &&& pbkdf2_of(name, key, data, iterations, length) is None
            &&& hkdf_outcome(name, key, data, info, length) == Err::<Seq<u8>, Seq<char>>(
                "unsupported HKDF hash"@,
            )
        },
{
    hash_names_differ();
}

/// The ciphers take keys of 16, 24 and 32 bytes and no others. AES-GCM takes
/// an IV of 12 bytes, AES-CBC one of 16, and AES-CTR a counter block of 16 bytes
/// whose counter is 32, 64 or 128 bits wide.
pub proof fn ciphers_take_their_shapes(key: Seq<u8>, iv: Seq<u8>, width: u32)
    ensures
        gcm_misuse(key, iv) is None <==> iv.len() == 12 && (key.len() == 16 || key.len() == 24
            || key.len() == 32),
        cbc_misuse(key, iv) is None <==> iv.len() == 16 && (key.len() == 16 || key.len() == 24
            || key.len() == 32),
        ctr_misuse(key, iv, width) is None <==> iv.len() == 16 && (width == 32 || width == 64
            || width == 128) && (key.len() == 16 || key.len() == 24 || key.len() == 32),
{
}

/// What the cipher gave is what comes out, in both directions; what it refused
/// is an error, and so is a misuse, whatever the cipher would have given.
pub proof fn ciphers_are_reported(
    encrypt: bool,
    key: Seq<u8>,
    iv: Seq<u8>,
    cipher: Option<Seq<u8>>,
    width: u32,
    data: Seq<u8>,
)
    ensures
        match gcm_outcome(encrypt, key, iv, cipher) {
            Ok(v) => cipher == Some(v) && gcm_misuse(key, iv) is None,
            Err(e) => gcm_misuse(key, iv) == Some(e) || (cipher is None && gcm_misuse(key, iv) is
                None),
        },
        match cbc_outcome(key, iv, cipher) {
            Ok(v) => cipher == Some(v) && cbc_misuse(key, iv) is None,
            Err(e) => cbc_misuse(key, iv) == Some(e) || (cipher is None && cbc_misuse(key, iv) is
                None),
        },
        width == 32 ==> ctr_applied(width, key, iv, data) == ctr32_applied(key, iv, data),
        width == 64 ==> ctr_applied(width, key, iv, data) == ctr64_applied(key, iv, data),
        width == 128 ==> ctr_applied(width, key, iv, data) == ctr128_applied(key, iv, data),
{
}

/// A misuse is told by what is wrong: first the IV or the counter block, then
/// the width of the counter, then the key.
pub proof fn misuses_are_told(key: Seq<u8>, iv: Seq<u8>, width: u32)
    ensures
        iv.len() != 12 ==> gcm_misuse(key, iv) == Some("AES-GCM requires a 96-bit (12-byte) IV"@),
        iv.len() == 12 && key.len() != 16 && key.len() != 24 && key.len() != 32 ==> gcm_misuse(
            key,
            iv,
        ) == Some("AES-GCM key must be 128, 192, or 256 bits"@),
        iv.len() != 16 ==> cbc_misuse(key, iv) == Some("AES-CBC requires a 16-byte IV"@),
        iv.len() == 16 && key.len() != 16 && key.len() != 24 && key.len() != 32 ==> cbc_misuse(
            key,
            iv,
        ) == Some("AES-CBC key must be 128, 192, or 256 bits"@),
        iv.len() != 16 ==> ctr_misuse(key, iv, width) == Some(
            "AES-CTR requires a 16-byte counter block"@,
        ),
        iv.len() == 16 && width != 32 && width != 64 && width != 128 ==> ctr_misuse(key, iv, width)
            == Some("AES-CTR supports counter lengths of 32, 64, or 128 bits"@),
        iv.len() == 16 && (width == 32 || width == 64 || width == 128) && key.len() != 16
            && key.len() != 24 && key.len() != 32 ==> ctr_misuse(key, iv, width) == Some(
            "AES-CTR key must be 128, 192, or 256 bits"@,
        ),
{
}

/// A cipher that fails tells the operation that failed, and a key that is too
/// long for its hash is told as such.
pub proof fn failures_are_told(key: Seq<u8>, iv: Seq<u8>, salt: Seq<u8>, info: Seq<u8>, length: u32)
    ensures
        gcm_misuse(key, iv) is None ==> gcm_outcome(true, key, iv, None) == Err::<
            Seq<u8>,
            Seq<char>,
        >("AES-GCM encryption failed"@),
        gcm_misuse(key, iv) is None ==> gcm_outcome(false, key, iv, None) == Err::<
            Seq<u8>,
            Seq<char>,
        >("AES-GCM decryption failed: authentication tag mismatch"@),
        cbc_misuse(key, iv) is None ==> cbc_outcome(key, iv, None) == Err::<Seq<u8>, Seq<char>>(
            "AES-CBC decryption failed: invalid padding"@,
        ),
        length > 255 * 64 ==> hkdf_outcome("SHA-512"@, key, salt, info, length) == Err::<
            Seq<u8>,
            Seq<char>,
        >("HKDF: requested key length is too long"@),
{
    hash_names_differ();
}

} // verus!
