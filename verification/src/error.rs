//! The failures that the library reports.
//!
//! Nothing in this crate panics or prints: every failure comes back to the
//! caller as one of these values, and every contract says on which inputs.
//! Two failures are the machine's and can befall any call that needs it:
//! `Error::Random`, where the operating system gives no random bytes, and
//! `Error::Clock`, where its clock cannot be read.

use vstd::prelude::*;

verus! {

/// The part of a cipher string, or of the material around it, that a failure
/// concerns.
#[derive(Clone, Copy, Debug, PartialEq, Eq, Structural)]
pub enum Segment {
    /// The initialisation vector.
    Iv,
    /// The ciphertext.
    Data,
    /// The authentication tag.
    Mac,
    /// A decrypted value that was expected to be text.
    Plaintext,
    /// Key material in its textual form.
    Key,
}

/// An input that the caller has to provide.
#[derive(Clone, Copy, Debug, PartialEq, Eq, Structural)]
pub enum Setting {
    /// The number of key-stretching rounds, which must not be zero.
    Iterations,
    /// The account's email address.
    Email,
    /// The master password.
    Password,
    /// The second-factor code.
    TwoFactorCode,
    /// The directory that holds the cache files.
    ConfigDir,
}

/// A field of a token record or of a service response.
#[derive(Clone, Copy, Debug, PartialEq, Eq, Structural)]
pub enum Field {
    AccessToken,
    RefreshToken,
    ExpiresIn,
    LastSaved,
    MasterKey,
    Iterations,
    RevisionDate,
}

/// A failure of the library.
#[derive(Clone, Debug, PartialEq, Eq)]
pub enum Error {
    /// A structural part of a cipher string is missing or has the wrong size.
    Format(Segment),
    /// A base64 segment is malformed, or a value is not UTF-8 text.
    Encoding(Segment),
    /// The authentication tag does not match: wrong key or tampered data.
    Authentication,
    /// The tag matched but the decrypted padding is invalid.
    Padding,
    /// Key material has the wrong size.
    KeyDerivation,
    /// An input that the caller must supply is missing or invalid.
    Configuration(Setting),
    /// A token record or a response lacks a field, or holds one that cannot
    /// be read.
    Record(Field),
    /// The remote service reported a logical error.
    Service { message: String },
    /// The remote service could not be reached.
    Transport,
    /// A cache file could not be read or written.
    Io,
    /// Stored data did not have the expected structure once decrypted.
    Decode,
    /// An event was reported that does not answer the action before it.
    Unexpected,
    /// The clock of the machine cannot be read as a date: it stands before
    /// 1970 or beyond the calendar.
    Clock,
    /// The operating system gave no random bytes.
    Random,
}

/// The single failure of loading from the secure store, with its cause.
#[derive(Clone, Debug, PartialEq, Eq)]
pub struct StoreError {
    pub cause: Error,
}

} // verus!
