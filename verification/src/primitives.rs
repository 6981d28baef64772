//! The boundary to the cryptographic and encoding libraries.
//!
//! Each function here makes one call into a library whose code Verus does not
//! read. Its contract is therefore trusted: it records what the library's
//! source and documentation say about the call. Results that are pure
//! functions of their arguments are given names (`spec_hmac_sha256` and the
//! like) so that the rest of the crate can be exact about them.

use aes::Aes256;
use block_modes::block_padding::Pkcs7;
use block_modes::{BlockMode, Cbc};
use hmac::{Hmac, Mac, NewMac};
use rand_core::{OsRng, RngCore};
use sha2::Sha256;
use vstd::prelude::*;
use vstd::utf8::decode_utf8;
use vstd::utf8::encode_utf8;
use vstd::utf8::valid_utf8;

verus! {

/// The HMAC-SHA256 tag of `message` under `key`.
pub uninterp spec fn spec_hmac_sha256(key: Seq<u8>, message: Seq<u8>) -> Seq<u8>;

/// The first 32 bytes of PBKDF2-HMAC-SHA256 of `password` with `salt` over
/// `rounds` rounds.
pub uninterp spec fn spec_pbkdf2_sha256(password: Seq<u8>, salt: Seq<u8>, rounds: u32) -> Seq<u8>;

/// The AES-256-CBC ciphertext of `plaintext` with PKCS#7 padding.
pub uninterp spec fn spec_aes256_cbc_encrypt(key: Seq<u8>, iv: Seq<u8>, plaintext: Seq<u8>) -> Seq<u8>;

/// The plaintext that AES-256-CBC decryption with PKCS#7 unpadding recovers
/// from `ciphertext`, or `None` where the cipher rejects its input.
pub uninterp spec fn spec_aes256_cbc_decrypt(key: Seq<u8>, iv: Seq<u8>, ciphertext: Seq<u8>) -> Option<Seq<u8>>;

/// Length in bytes of an AES-256 key and of every HMAC-SHA256 tag.
pub const KEY_LEN: usize = 32;

/// Length in bytes of an AES block, and so of a CBC initialisation vector.
pub const IV_LEN: usize = 16;

/// Calls `Hmac::<Sha256>::new_varkey`, `update` and `finalize` of the `hmac`
/// crate. Trusted: the result is the HMAC-SHA256 tag, a function of key and
/// message alone, and it is 32 bytes long. `new_varkey` accepts a key of any
/// length, so the call cannot fail.
#[verifier::external_body]
pub(crate) fn hmac_sha256(key: &[u8], message: &[u8]) -> (tag: Vec<u8>)
    ensures
        tag@ == spec_hmac_sha256(key@, message@),
        tag@.len() == KEY_LEN,
{
    let mut mac = Hmac::<Sha256>::new_varkey(key).expect("HMAC accepts a key of any length");
    mac.update(message);
    mac.finalize().into_bytes().to_vec()
}

/// Calls `pbkdf2::pbkdf2` with HMAC-SHA256 as the pseudo-random function and
/// a 32-byte output buffer. Trusted: the result is a function of password,
/// salt and round count alone, and it is 32 bytes long. The call accepts a
/// round count of zero and then computes what one round gives; refusing
/// zero is left to the callers.
#[verifier::external_body]
pub(crate) fn pbkdf2_sha256(password: &[u8], salt: &[u8], rounds: u32) -> (key: Vec<u8>)
    ensures
        key@ == spec_pbkdf2_sha256(password@, salt@, rounds),
        key@.len() == KEY_LEN,
{
    let mut output = vec![0u8; KEY_LEN];
    pbkdf2::pbkdf2::<Hmac<Sha256>>(password, salt, rounds, &mut output);
    output
}

/// The length of the ciphertext of `len` bytes of plaintext: the plaintext
/// is filled up to the next whole block, with a whole block of padding where
/// it already ends on one.
pub open spec fn spec_padded_len(len: nat) -> nat {
    (len / 16 + 1) as nat * 16
}

/// Calls `Cbc::<Aes256, Pkcs7>::new_var` and `encrypt_vec` of `block-modes`.
/// Trusted: `new_var` succeeds exactly when the key has 32 bytes and the IV
/// has 16; the ciphertext is a function of key, IV and plaintext alone; it
/// is as long as the padded plaintext; and decrypting it under the same key
/// and IV gives the plaintext back.
#[verifier::external_body]
pub(crate) fn aes256_cbc_encrypt(key: &[u8], iv: &[u8], plaintext: &[u8]) -> (ciphertext: Option<
    Vec<u8>,
>)
    requires
        plaintext@.len() + IV_LEN <= usize::MAX,
    ensures
        (ciphertext is Some) == (key@.len() == KEY_LEN && iv@.len() == IV_LEN),
        ciphertext is Some ==> ciphertext.unwrap()@ == spec_aes256_cbc_encrypt(
            key@,
            iv@,
            plaintext@,
        ),
        ciphertext is Some ==> ciphertext.unwrap()@.len() == spec_padded_len(plaintext@.len()),
        ciphertext is Some ==> spec_aes256_cbc_decrypt(key@, iv@, ciphertext.unwrap()@) == Some(
            plaintext@,
        ),
{
    let cipher = Cbc::<Aes256, Pkcs7>::new_var(key, iv).ok()?;
    Some(cipher.encrypt_vec(plaintext))
}

/// Calls `Cbc::<Aes256, Pkcs7>::new_var` and `decrypt_vec` of `block-modes`.
/// Trusted: the outcome is a function of key, IV and ciphertext alone. It is
/// `None` where the key or IV has the wrong length, where the ciphertext is
/// not a whole number of blocks, or where the padding is malformed.
#[verifier::external_body]
pub(crate) fn aes256_cbc_decrypt(key: &[u8], iv: &[u8], ciphertext: &[u8]) -> (plaintext: Option<
    Vec<u8>,
>)
    ensures
        (plaintext is Some) == (spec_aes256_cbc_decrypt(key@, iv@, ciphertext@) is Some),
        plaintext is Some ==> Some(plaintext.unwrap()@) == spec_aes256_cbc_decrypt(
            key@,
            iv@,
            ciphertext@,
        ),
{
    let cipher = Cbc::<Aes256, Pkcs7>::new_var(key, iv).ok()?;
    cipher.decrypt_vec(ciphertext).ok()
}

/// Calls `OsRng.try_fill_bytes` of `rand_core` on a fresh buffer of `len`
/// bytes. Trusted: only the length of a result; the bytes themselves come
/// from the operating system and differ from call to call, and the result is
/// `None` where the operating system has no random bytes to give. No buffer
/// is longer than `isize::MAX`, which the precondition respects.
#[verifier::external_body]
pub(crate) fn random_bytes(len: usize) -> (bytes: Option<Vec<u8>>)
    requires
        len <= usize::MAX / 2,
    ensures
        bytes is Some ==> bytes.unwrap()@.len() == len,
{
    let mut bytes = vec![0u8; len];
    OsRng.try_fill_bytes(&mut bytes).ok()?;
    Some(bytes)
}

/// The standard base64 text, with padding, of `bytes`.
pub uninterp spec fn spec_base64_encode(bytes: Seq<u8>) -> Seq<char>;

/// The bytes that standard base64 `text` stands for, or `None` where the text
/// is malformed.
pub uninterp spec fn spec_base64_decode(text: Seq<u8>) -> Option<Seq<u8>>;

/// Whether `c` belongs to the standard base64 alphabet or is the padding
/// character `=`.
pub open spec fn is_base64_char(c: char) -> bool {
    ||| 'A' <= c <= 'Z'
    ||| 'a' <= c <= 'z'
    ||| '0' <= c <= '9'
    ||| c == '+'
    ||| c == '/'
    ||| c == '='
}

/// What the crate relies on of the base64 text of `bytes`: it is written in
/// the base64 alphabet, and decoding it gives `bytes` back.
pub open spec fn spec_base64_sound(bytes: Seq<u8>) -> bool {
    &&& forall|i: int|
        0 <= i < spec_base64_encode(bytes).len() ==> is_base64_char(
            #[trigger] spec_base64_encode(bytes)[i],
        )
    &&& spec_base64_decode(encode_utf8(spec_base64_encode(bytes))) == Some(bytes)
}

/// Calls `base64::encode`. Trusted: the text is a function of the bytes
/// alone; it is written in the standard alphabet with `=` for padding; and
/// `base64::decode` reads the bytes back from it. The call computes the
/// encoded size, four characters for every three bytes, and would fail if
/// that overflowed; the precondition rules it out.
#[verifier::external_body]
pub(crate) fn base64_encode(bytes: &[u8]) -> (text: String)
    requires
        bytes@.len() <= usize::MAX / 2,
    ensures
        text@ == spec_base64_encode(bytes@),
        forall|i: int| 0 <= i < text@.len() ==> is_base64_char(#[trigger] text@[i]),
        spec_base64_decode(encode_utf8(text@)) == Some(bytes@),
{
    base64::encode(bytes)
}

/// Calls `base64::decode`. Trusted: the outcome is a function of the text
/// alone, `None` standing for the library's decode error. The call rounds the
/// length of its input up to whole chunks of 8 and would fail if that
/// overflowed; the precondition rules it out.
#[verifier::external_body]
pub(crate) fn base64_decode(text: &[u8]) -> (bytes: Option<Vec<u8>>)
    requires
        text@.len() + 7 <= usize::MAX,
    ensures
        (bytes is Some) == (spec_base64_decode(text@) is Some),
        bytes is Some ==> Some(bytes.unwrap()@) == spec_base64_decode(text@),
{
    base64::decode(text).ok()
}

/// Calls `String::from_utf8`. Trusted: it succeeds exactly on valid UTF-8 and
/// then holds the characters that the bytes encode.
#[verifier::external_body]
pub(crate) fn string_from_utf8(bytes: Vec<u8>) -> (text: Option<String>)
    ensures
        (text is Some) == valid_utf8(bytes@),
        text is Some ==> text.unwrap()@ == decode_utf8(bytes@),
{
    String::from_utf8(bytes).ok()
}

/// Calls `<[u8]>::len`. Trusted: the length, and that it is at most
/// `isize::MAX`, which Rust guarantees of every slice.
#[verifier::external_body]
pub(crate) fn bounded_len(bytes: &[u8]) -> (len: usize)
    ensures
        len == bytes@.len(),
        len <= usize::MAX / 2,
{
    bytes.len()
}

/// The lower-case form of a text, as the Unicode character database gives it.
pub uninterp spec fn spec_to_lowercase(text: Seq<char>) -> Seq<char>;

/// Calls `str::to_lowercase`. Trusted: the result is a function of the text
/// alone; it depends on no locale.
#[verifier::external_body]
pub(crate) fn to_lowercase(text: &str) -> (lower: String)
    ensures
        lower@ == spec_to_lowercase(text@),
{
    text.to_lowercase()
}

/// Whether `needle` occurs in `haystack` as a run of consecutive characters.
pub open spec fn spec_contains(haystack: Seq<char>, needle: Seq<char>) -> bool {
    exists|i: int|
        0 <= i && i + needle.len() <= haystack.len() && #[trigger] haystack.subrange(
            i,
            i + needle.len(),
        ) == needle
}

/// Calls `str::contains` with a string pattern. Trusted: it tells whether the
/// pattern occurs as a substring.
#[verifier::external_body]
pub(crate) fn contains(haystack: &str, needle: &str) -> (found: bool)
    ensures
        found == spec_contains(haystack@, needle@),
{
    haystack.contains(needle)
}

/// The decimal digits of a natural number, most significant first; the empty
/// text for zero.
pub open spec fn spec_digits(n: nat) -> Seq<char>
    decreases n,
{
    if n == 0 {
        Seq::<char>::empty()
    } else {
        spec_digits(n / 10).push(((n % 10) as u8 + 0x30u8) as char)
    }
}

/// An integer in decimal, with `-` before a negative one.
pub open spec fn spec_decimal(n: int) -> Seq<char> {
    if n == 0 {
        seq!['0']
    } else if n < 0 {
        seq!['-'] + spec_digits((-n) as nat)
    } else {
        spec_digits(n as nat)
    }
}

/// Calls `i32::to_string`. Trusted: the text is the number in decimal, as
/// the standard library documents for the integer types.
#[verifier::external_body]
pub(crate) fn i32_to_string(value: i32) -> (text: String)
    ensures
        text@ == spec_decimal(value as int),
{
    value.to_string()
}

} // verus!
