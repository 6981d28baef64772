//! What the remote service sends and receives, and what the cache holds.

use crate::models::CipherString;
use vstd::prelude::*;

verus! {

/// `uuid::Uuid`, the identifier of a vault entry. The library carries it
/// through and never looks inside.
#[verifier::external_type_specification]
#[verifier::external_body]
pub struct ExUuid(uuid::Uuid);

/// `serde_json::Value`, for the parts of a vault snapshot that the library
/// carries through and never looks inside.
#[verifier::external_type_specification]
#[verifier::external_body]
pub struct ExJsonValue(serde_json::Value);

/// Copying an identifier. Nothing is claimed of the copy.
pub assume_specification[ <uuid::Uuid as Clone>::clone ](id: &uuid::Uuid) -> uuid::Uuid;

/// Copying a JSON value. Nothing is claimed of the copy.
pub assume_specification[ <serde_json::Value as Clone>::clone ](
    value: &serde_json::Value,
) -> serde_json::Value;

/// The text of an optional string.
pub open spec fn text_of(text: Option<String>) -> Option<Seq<char>> {
    match text {
        Some(text) => Some(text@),
        None => None,
    }
}

/// The answer to a request for an account's key-stretching parameters.
#[derive(Debug)]
pub struct PreLoginResponse {
    pub kdf: Option<u32>,
    pub iterations: Option<u32>,
    pub error: Option<String>,
}

/// The error that the service attaches to a response.
#[derive(Clone, Debug)]
pub struct BWErrorModel {
    pub message: Option<String>,
    pub object: Option<String>,
}

/// A token record: what the service answers to a login or a refresh,
/// together with the time it was obtained and the master key that the vault
/// key is later recovered with.
#[derive(Clone, Debug)]
pub struct TokenResponse {
    pub access_token: Option<String>,
    /// Lifetime of the access token, in seconds.
    pub expires_in: Option<u32>,
    pub token_type: Option<String>,
    /// Presented after `expires_in` seconds to obtain a new access token.
    pub refresh_token: Option<String>,
    pub scope: Option<String>,
    pub private_key: Option<String>,
    pub key: Option<String>,
    pub reset_password: Option<bool>,
    pub kdf: Option<u32>,
    pub iterations: Option<u32>,
    pub error: Option<String>,
    pub error_description: Option<String>,
    pub error_model: Option<BWErrorModel>,
    /// When the token was obtained or last refreshed.
    pub last_saved: Option<String>,
    /// The master key, in base64.
    pub master_key: Option<String>,
}

/// The owner of a vault, with the vault's own key encrypted under the
/// owner's master key.
#[derive(Clone, Debug)]
pub struct Profile {
    pub email: String,
    pub key: CipherString,
}

/// One named value of a vault entry.
#[derive(Clone, Debug)]
pub struct CipherField {
    pub name: CipherString,
    pub field_type: u8,
    pub value: CipherString,
}

/// One entry of a vault.
#[derive(Clone, Debug)]
pub struct Cipher {
    pub id: uuid::Uuid,
    pub name: CipherString,
    /// The kind of entry: 1 login, 2 secure note, 3 card, 4 identity.
    pub cipher_type: u8,
    pub fields: Option<Vec<CipherField>>,
}

/// The kind of entry that holds named values.
pub const SECURE_NOTE: u8 = 2;

/// A snapshot of a vault, with the revision it was taken at in seconds since
/// the epoch.
#[derive(Clone, Debug)]
pub struct SyncResponse {
    pub rev_date: Option<i64>,
    pub profile: Profile,
    pub ciphers: Vec<Cipher>,
    pub collections: Vec<serde_json::Value>,
    pub domains: serde_json::Value,
    pub folders: Vec<serde_json::Value>,
}

/// The request for an account's key-stretching parameters.
#[derive(Debug)]
pub struct IterationsRequest {
    pub email: String,
}

/// The request that trades a refresh token for a new access token.
#[derive(Debug)]
pub struct RefreshTokenRequest {
    pub grant_type: String,
    pub client_id: String,
    pub refresh_token: String,
}

/// The request that signs in with a password hash and a second-factor code.
#[derive(Debug)]
pub struct TokenRequest {
    pub grant_type: String,
    pub username: String,
    pub password: String,
    pub scope: String,
    pub client_id: String,
    pub device_type: u8,
    pub device_id: String,
    pub device_name: String,
    pub two_factor_token: u32,
    pub two_factor_provider: u8,
    pub two_factor_remember: u8,
}

} // verus!
