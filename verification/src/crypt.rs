//! Key derivation and the authenticated cipher.

use crate::error::Error;
use crate::error::Segment;
use crate::models::CipherString;
use crate::models::CipherStringView;
use crate::models::SymmetricKey;
use crate::models::SymmetricKeyView;
use crate::primitives::aes256_cbc_decrypt;
use crate::primitives::aes256_cbc_encrypt;
use crate::primitives::bounded_len;
use crate::primitives::hmac_sha256;
use crate::primitives::pbkdf2_sha256;
use crate::primitives::random_bytes;
use crate::primitives::spec_aes256_cbc_decrypt;
use crate::primitives::spec_aes256_cbc_encrypt;
use crate::primitives::spec_hmac_sha256;
use crate::primitives::spec_padded_len;
use crate::primitives::spec_pbkdf2_sha256;
use vstd::prelude::*;

verus! {

/// The label that selects the encryption half of an expanded key.
pub open spec fn enc_info() -> Seq<u8> {
    seq![0x65u8, 0x6eu8, 0x63u8, 0x01u8]
}

/// The label that selects the authentication half of an expanded key.
pub open spec fn mac_info() -> Seq<u8> {
    seq![0x6du8, 0x61u8, 0x63u8, 0x01u8]
}

/// The key pair that a seed expands to: each half is the tag of a fixed
/// label, followed by the byte 1, under the seed.
pub open spec fn spec_expand_key(seed: Seq<u8>) -> SymmetricKeyView {
    SymmetricKeyView {
        key: spec_hmac_sha256(seed, enc_info()),
        mac: spec_hmac_sha256(seed, mac_info()),
    }
}

/// What expanding a seed gives: a seed that is not 32 bytes long is refused.
pub open spec fn spec_expand(seed: Seq<u8>) -> Result<SymmetricKeyView, Error> {
    if seed.len() != 32 {
        Err(Error::KeyDerivation)
    } else {
        Ok(spec_expand_key(seed))
    }
}

/// A result that carries the two halves of a key, encryption key first, as a
/// key pair of sequences.
pub open spec fn halves_result(r: Result<(Vec<u8>, Vec<u8>), Error>) -> Result<
    SymmetricKeyView,
    Error,
> {
    match r {
        Ok(pair) => Ok(SymmetricKeyView { key: pair.0@, mac: pair.1@ }),
        Err(e) => Err(e),
    }
}

/// The tag that authenticates an initialisation vector and a ciphertext.
pub open spec fn spec_tag(mac_key: Seq<u8>, iv: Seq<u8>, data: Seq<u8>) -> Seq<u8> {
    spec_hmac_sha256(mac_key, iv + data)
}

/// Whether `mac` passes the double-tag comparison against the tag computed
/// over `iv` and `data`: both are tagged once more under the same key, and
/// those two tags are compared.
pub open spec fn spec_check_macs(mac_key: Seq<u8>, iv: Seq<u8>, data: Seq<u8>, mac: Seq<u8>) -> bool {
    spec_hmac_sha256(mac_key, mac) == spec_hmac_sha256(mac_key, spec_tag(mac_key, iv, data))
}

/// A result that carries bytes, with the bytes as a sequence.
pub open spec fn bytes_result(r: Result<Vec<u8>, Error>) -> Result<Seq<u8>, Error> {
    match r {
        Ok(bytes) => Ok(bytes@),
        Err(e) => Err(e),
    }
}

/// What decrypting a ciphertext under an encryption key gives. The IV must
/// be one block long and the key 32 bytes; if the cipher then rejects the
/// ciphertext, its padding is invalid.
pub open spec fn spec_decrypt_aes(enc_key: Seq<u8>, iv: Seq<u8>, data: Seq<u8>) -> Result<
    Seq<u8>,
    Error,
> {
    if iv.len() != 16 {
        Err(Error::Format(Segment::Iv))
    } else if enc_key.len() != 32 {
        Err(Error::KeyDerivation)
    } else {
        match spec_aes256_cbc_decrypt(enc_key, iv, data) {
            Some(plaintext) => Ok(plaintext),
            None => Err(Error::Padding),
        }
    }
}

/// What decrypting a cipher string under a key pair gives: nothing is
/// decrypted unless the tag is authentic.
pub open spec fn spec_decrypt_cipher_string(key: SymmetricKeyView, cs: CipherStringView) -> Result<
    Seq<u8>,
    Error,
> {
    if !spec_check_macs(key.mac, cs.iv, cs.data, cs.mac) {
        Err(Error::Authentication)
    } else {
        spec_decrypt_aes(key.key, cs.iv, cs.data)
    }
}

/// Whether `cs` is what encrypting `plaintext` under `key` produces with
/// the IV that `cs` holds: a 32-byte encryption key, scheme 2, a one-block
/// IV, the ciphertext of the plaintext, as long as the padded plaintext, the
/// 32-byte tag over IV and ciphertext, and no remembered text.
pub open spec fn spec_encrypts(
    key: SymmetricKeyView,
    plaintext: Seq<u8>,
    cs: CipherStringView,
) -> bool {
    &&& key.key.len() == 32
    &&& cs.enc_type == 2
    &&& cs.raw is None
    &&& cs.iv.len() == 16
    &&& cs.data == spec_aes256_cbc_encrypt(key.key, cs.iv, plaintext)
    &&& cs.data.len() == spec_padded_len(plaintext.len())
    &&& spec_aes256_cbc_decrypt(key.key, cs.iv, cs.data) == Some(plaintext)
    &&& cs.mac == spec_tag(key.mac, cs.iv, cs.data)
    &&& cs.mac.len() == 32
}

/// One round of expansion: the tag of `info` followed by the byte 1.
fn hkdf_expand(key: &[u8], info: &[u8]) -> (out: Vec<u8>)
    ensures
        out@ == spec_hmac_sha256(key@, info@.push(1u8)),
        out@.len() == 32,
{
    let mut message: Vec<u8> = Vec::new();
    message.extend_from_slice(info);
    message.push(1u8);
    assert(message@ =~= info@.push(1u8));
    hmac_sha256(key, message.as_slice())
}

/// Compares two byte strings without stopping at the first difference: the
/// work done depends on their lengths alone.
pub fn constant_time_eq(a: &[u8], b: &[u8]) -> (same: bool)
    ensures
        same == (a@ == b@),
{
    if a.len() != b.len() {
        return false;
    }
    let mut diff: u8 = 0;
    let mut i: usize = 0;
    while i < a.len()
        invariant
            i <= a.len(),
            a.len() == b.len(),
            (diff == 0) == (forall|j: int| 0 <= j < i ==> a@[j] == b@[j]),
        decreases a.len() - i,
    {
        let x: u8 = a[i];
        let y: u8 = b[i];
        let next: u8 = diff | (x ^ y);
        assert((next == 0) == (diff == 0 && x == y)) by (bit_vector)
            requires
                next == diff | (x ^ y),
        ;
        diff = next;
        i = i + 1;
    }
    assert((diff == 0) == (a@ =~= b@));
    diff == 0
}

/// Decrypts `data` under `enc_key` and `iv` and strips the padding.
fn decrypt_aes(enc_key: &Vec<u8>, iv: &Vec<u8>, data: &Vec<u8>) -> (r: Result<Vec<u8>, Error>)
    ensures
        bytes_result(r) == spec_decrypt_aes(enc_key@, iv@, data@),
{
    if iv.len() != 16 {
        return Err(Error::Format(Segment::Iv));
    }
    if enc_key.len() != 32 {
        return Err(Error::KeyDerivation);
    }
    match aes256_cbc_decrypt(enc_key.as_slice(), iv.as_slice(), data.as_slice()) {
        Some(plaintext) => Ok(plaintext),
        None => Err(Error::Padding),
    }
}

/// Pads and encrypts `data` under `enc_key` and `iv`.
fn encrypt_aes(enc_key: &Vec<u8>, iv: &Vec<u8>, data: &Vec<u8>) -> (r: Result<Vec<u8>, Error>)
    requires
        data@.len() + 16 <= usize::MAX,
    ensures
        iv@.len() != 16 ==> r == Err::<Vec<u8>, Error>(Error::Format(Segment::Iv)),
        iv@.len() == 16 && enc_key@.len() != 32 ==> r == Err::<Vec<u8>, Error>(Error::KeyDerivation),
        iv@.len() == 16 && enc_key@.len() == 32 ==> r is Ok,
        r matches Ok(c) ==> c@ == spec_aes256_cbc_encrypt(enc_key@, iv@, data@) && c@.len()
            == spec_padded_len(data@.len()) && spec_aes256_cbc_decrypt(enc_key@, iv@, c@) == Some(
            data@,
        ),
{
    if iv.len() != 16 {
        return Err(Error::Format(Segment::Iv));
    }
    match aes256_cbc_encrypt(enc_key.as_slice(), iv.as_slice(), data.as_slice()) {
        Some(ciphertext) => Ok(ciphertext),
        None => Err(Error::KeyDerivation),
    }
}

/// Decides whether the tag of `cipher_string` is authentic under `mac_key`.
///
/// The tag over IV and ciphertext is computed afresh; then both it and the
/// tag that the cipher string carries are tagged once more under the same
/// key, and those two results are compared in constant time.
fn check_macs(mac_key: &[u8], cipher_string: &CipherString) -> (authentic: bool)
    ensures
        authentic == spec_check_macs(
            mac_key@,
            cipher_string.iv@,
            cipher_string.data@,
            cipher_string.mac@,
        ),
{
    let mut comp_data: Vec<u8> = cipher_string.iv.clone();
    comp_data.extend_from_slice(cipher_string.data.as_slice());
    assert(comp_data@ =~= cipher_string.iv@ + cipher_string.data@);
    let comp_mac = hmac_sha256(mac_key, comp_data.as_slice());
    let hmac1 = hmac_sha256(mac_key, cipher_string.mac.as_slice());
    let hmac2 = hmac_sha256(mac_key, comp_mac.as_slice());
    constant_time_eq(hmac1.as_slice(), hmac2.as_slice())
}

/// Expands a 32-byte seed into an encryption key and an authentication key.
///
/// Fails with `Error::KeyDerivation` exactly when the seed is not 32 bytes
/// long; a seed is never truncated or padded. The result depends on the seed
/// alone.
pub fn expand_key(key: &[u8]) -> (r: Result<(Vec<u8>, Vec<u8>), Error>)
    ensures
        halves_result(r) == spec_expand(key@),
        r matches Ok(pair) ==> pair.0@.len() == 32 && pair.1@.len() == 32,
{
    if key.len() != 32 {
        return Err(Error::KeyDerivation);
    }
    let enc_label: [u8; 3] = [0x65u8, 0x6eu8, 0x63u8];
    let mac_label: [u8; 3] = [0x6du8, 0x61u8, 0x63u8];
    let enc = hkdf_expand(key, enc_label.as_slice());
    let mac = hkdf_expand(key, mac_label.as_slice());
    assert(enc_label@.push(1u8) =~= enc_info());
    assert(mac_label@.push(1u8) =~= mac_info());
    Ok((enc, mac))
}

/// Stretches `password` with `salt` over `iterations` rounds of
/// PBKDF2-HMAC-SHA256 into 32 bytes.
pub fn generate_pbkdf(password: &[u8], salt: &[u8], iterations: u32) -> (out: Vec<u8>)
    ensures
        out@ == spec_pbkdf2_sha256(password@, salt@, iterations),
        out@.len() == 32,
{
    pbkdf2_sha256(password, salt, iterations)
}

/// Verifies and decrypts `cipher_string` under `key`.
///
/// The tag is checked first. If it is not authentic the result is
/// `Error::Authentication` and nothing is decrypted. Otherwise the ciphertext
/// is decrypted under the encryption half of the key; malformed padding gives
/// `Error::Padding`.
pub fn decrypt_cipher_string(key: &SymmetricKey, cipher_string: &CipherString) -> (r: Result<
    Vec<u8>,
    Error,
>)
    ensures
        bytes_result(r) == spec_decrypt_cipher_string(key@, cipher_string@),
{
    if !check_macs(key.mac.as_slice(), cipher_string) {
        return Err(Error::Authentication);
    }
    decrypt_aes(&key.key, &cipher_string.iv, &cipher_string.data)
}

/// Encrypts `data` under `key` with `iv` as the IV and tags the result.
///
/// Fails with `Error::Format(Segment::Iv)` exactly when the IV is not 16
/// bytes long, and otherwise with `Error::KeyDerivation` exactly when the
/// encryption half of the key is not 32 bytes long. The result holds the
/// very IV that was given and depends on the arguments alone. An IV must
/// never be used twice under one key; `encrypt_cipher_string` draws a fresh
/// one for each call.
pub fn encrypt_with_iv(key: &SymmetricKey, iv: Vec<u8>, data: &Vec<u8>) -> (r: Result<
    CipherString,
    Error,
>)
    ensures
        iv@.len() != 16 ==> r == Err::<CipherString, Error>(Error::Format(Segment::Iv)),
        iv@.len() == 16 && key@.key.len() != 32 ==> r == Err::<CipherString, Error>(
            Error::KeyDerivation,
        ),
        iv@.len() == 16 && key@.key.len() == 32 ==> r is Ok,
        r matches Ok(cs) ==> cs@.iv == iv@ && spec_encrypts(key@, data@, cs@),
{
    // No slice is longer than `isize::MAX`, so a block of padding fits.
    let _len: usize = bounded_len(data.as_slice());
    let data = match encrypt_aes(&key.key, &iv, data) {
        Ok(ciphertext) => ciphertext,
        Err(e) => { return Err(e); },
    };
    let mut mac_data: Vec<u8> = iv.clone();
    mac_data.extend_from_slice(data.as_slice());
    assert(mac_data@ =~= iv@ + data@);
    let mac = hmac_sha256(key.mac.as_slice(), mac_data.as_slice());
    Ok(CipherString { enc_type: 2, mac, iv, data, raw: None })
}

/// Encrypts `data` under `key` with a freshly drawn IV and tags the result:
/// 16 bytes are drawn from the random source of the operating system and
/// handed to `encrypt_with_iv`.
///
/// What holds for every draw: a result meets `spec_encrypts`, there is none
/// where the encryption half of the key is not 32 bytes long, and the only
/// failures are `Error::KeyDerivation` for such a key and `Error::Random`
/// where no bytes could be drawn. The IV is random, so two calls on the same
/// input differ.
pub fn encrypt_cipher_string(key: &SymmetricKey, data: &Vec<u8>) -> (r: Result<CipherString, Error>)
    ensures
        match r {
            Ok(cs) => spec_encrypts(key@, data@, cs@),
            Err(e) => e == Error::Random || (key@.key.len() != 32 && e == Error::KeyDerivation),
        },
{
    match random_bytes(16) {
        Some(iv) => encrypt_with_iv(key, iv, data),
        None => Err(Error::Random),
    }
}

} // verus!
