//! Sealing data for the cache files and opening it again.
//!
//! What goes to disk is always the text of a cipher string, encrypted as a
//! whole under the session key. Reading and writing the files themselves is
//! left to the caller.

use crate::crypt::spec_decrypt_cipher_string;
use crate::crypt::spec_encrypts;
use crate::error::Error;
use crate::error::Segment;
use crate::error::StoreError;
use crate::models::spec_parse_cipher_string;
use crate::primitives::random_bytes;
use crate::models::spec_serialize;
use crate::models::spec_text;
use crate::models::spec_written;
use crate::models::CipherString;
use crate::models::CipherStringView;
use crate::models::Decrypt;
use crate::models::StringWrapper;
use crate::models::SessionKey;
use crate::models::SymmetricKeyView;
use vstd::prelude::*;
use vstd::slice::slice_to_vec;
use vstd::utf8::encode_utf8;

verus! {

/// Whether `contents` is `value` sealed under `key`: the text, readable
/// again, of a cipher string that encrypts the bytes of `value`.
pub open spec fn spec_sealed(key: SymmetricKeyView, value: Seq<char>, contents: Seq<char>) -> bool {
    exists|cs: CipherStringView| #[trigger]
        spec_encrypts(key, encode_utf8(value), cs) && spec_written(cs) && contents
            == spec_serialize(cs)
}

/// What opening the contents of a cache file gives: the text that was
/// sealed, or the first failure on the way to it.
pub open spec fn spec_load_stored(key: SymmetricKeyView, contents: Seq<char>) -> Result<
    Seq<char>,
    StoreError,
> {
    match spec_parse_cipher_string(contents) {
        Err(e) => Err(StoreError { cause: e }),
        Ok(cs) => match spec_text(spec_decrypt_cipher_string(key, cs)) {
            Err(e) => Err(StoreError { cause: e }),
            Ok(value) => Ok(value),
        },
    }
}

/// Whether `contents` is `value` sealed under `key` with `iv` as the IV.
pub open spec fn spec_sealed_with(
    key: SymmetricKeyView,
    iv: Seq<u8>,
    value: Seq<char>,
    contents: Seq<char>,
) -> bool {
    exists|cs: CipherStringView| #[trigger]
        spec_encrypts(key, encode_utf8(value), cs) && cs.iv == iv && spec_written(cs) && contents
            == spec_serialize(cs)
}

/// Seals `value`, the serialised form of what is to be stored, under the
/// session key with `iv` as the IV and returns the contents of the cache
/// file.
///
/// Fails with `Error::Format(Segment::Iv)` exactly when the IV is not 16
/// bytes long.
pub fn store_data_with_iv(session_key: &SessionKey, iv: Vec<u8>, value: &str) -> (r: Result<
    String,
    Error,
>)
    ensures
        match r {
            Ok(contents) => iv@.len() == 16 && spec_sealed_with(
                session_key@,
                iv@,
                value@,
                contents@,
            ) && spec_sealed(session_key@, value@, contents@),
            Err(e) => iv@.len() != 16 && e == Error::Format(Segment::Iv),
        },
{
    let data = slice_to_vec(value.as_bytes());
    match session_key.encrypt_with_iv(iv, &data) {
        Ok(cs) => {
            let contents = cs.to_string();
            assert(spec_encrypts(session_key@, encode_utf8(value@), cs@));
            Ok(contents)
        },
        Err(e) => Err(e),
    }
}

/// Seals `value`, the serialised form of what is to be stored, under the
/// session key and returns the contents of the cache file: 16 bytes are
/// drawn from the random source of the operating system and handed to
/// `store_data_with_iv` as the IV.
///
/// What holds for every draw: the contents are `value` sealed under the
/// key, and the only failure is `Error::Random`, where no bytes could be
/// drawn. The IV is random, so two calls on the same value differ.
pub fn store_data(session_key: &SessionKey, value: &str) -> (r: Result<String, Error>)
    ensures
        match r {
            Ok(contents) => spec_sealed(session_key@, value@, contents@),
            Err(e) => e == Error::Random,
        },
{
    match random_bytes(16) {
        Some(iv) => store_data_with_iv(session_key, iv, value),
        None => Err(Error::Random),
    }
}

/// Opens the contents of a cache file under the session key and returns the
/// serialised form of what was stored.
///
/// Whatever goes wrong, malformed text, a tag that is not authentic, bad
/// padding, bytes that are not text, comes back as a `StoreError` that
/// holds the cause: to the caller each of them means that the cache has to
/// be filled again.
pub fn load_stored(session_key: &SessionKey, contents: &str) -> (r: Result<String, StoreError>)
    ensures
        match r {
            Ok(value) => spec_load_stored(session_key@, contents@) == Ok::<Seq<char>, StoreError>(
                value@,
            ),
            Err(e) => spec_load_stored(session_key@, contents@) == Err::<Seq<char>, StoreError>(e),
        },
{
    let wrapper = StringWrapper::from_str(contents);
    let cs = match CipherString::parse(&wrapper) {
        Ok(cs) => cs,
        Err(e) => { return Err(StoreError { cause: e }); },
    };
    match cs.decrypt_string(session_key) {
        Ok(value) => Ok(value),
        Err(e) => Err(StoreError { cause: e }),
    }
}

} // verus!
