//! What is sent to the remote service and what is made of its answers.
//!
//! The requests themselves travel outside this crate. The functions here
//! build what is sent and decide what an answer means; a response that
//! carries an error of the service is always a failure, also where the
//! transport succeeded.

use crate::clock::is_stamp;
use crate::clock::now_text;
use crate::clock::spec_representable;
use crate::clock::representable;
use crate::encoding::encode;
use crate::error::Error;
use crate::error::Field;
use crate::error::Setting;
use crate::format::parse_u32;
use crate::format::spec_parse_u32;
use crate::models::MasterKey;
use crate::primitives::spec_base64_encode;
use crate::primitives::spec_base64_sound;
use crate::records::text_of;
use crate::records::BWErrorModel;
use crate::records::IterationsRequest;
use crate::records::PreLoginResponse;
use crate::records::RefreshTokenRequest;
use crate::records::SyncResponse;
use crate::records::TokenRequest;
use crate::records::TokenResponse;
use vstd::prelude::*;
use vstd::utf8::encode_utf8;

verus! {

/// The kind of device that the library signs in as. Like the identifier
/// and the name of the device below, this is configuration: a fixed value
/// that is sent as it is, not something that is derived or kept as state.
pub const DEVICE_TYPE: u8 = 10;

/// The identifier of the device that the library signs in as; a fixed
/// configuration value.
pub open spec fn device_id() -> Seq<char> {
    "7d52408d-883d-4ed1-8dbb-fc6ff1a16c38"@
}

/// The name of the device that the library signs in as; a fixed
/// configuration value.
pub open spec fn device_name() -> Seq<char> {
    "firefox"@
}

/// The client that the library signs in as; a fixed configuration value.
pub open spec fn client_id() -> Seq<char> {
    "web"@
}

/// The message of a service error; the service may send none.
pub open spec fn spec_error_message(model: BWErrorModel) -> Seq<char> {
    match model.message {
        Some(message) => message@,
        None => "Unknown error"@,
    }
}

/// Whether `r` is the failure that the service reported with `text`.
pub open spec fn service_failure<T>(r: Result<T, Error>, text: Seq<char>) -> bool {
    match r {
        Err(Error::Service { message }) => message@ == text,
        _ => false,
    }
}

/// The message of a service error; the service may send none.
fn error_message(model: &BWErrorModel) -> (message: String)
    ensures
        message@ == spec_error_message(*model),
{
    match &model.message {
        Some(v) => v.clone(),
        None => "Unknown error".to_owned(),
    }
}

/// The access token to present with a request for vault data.
///
/// Fails with `Error::Record(Field::AccessToken)` exactly when the record
/// holds none.
pub fn bearer_token(token: &TokenResponse) -> (r: Result<&String, Error>)
    ensures
        match token.access_token {
            Some(access) => r == Ok::<&String, Error>(&access),
            None => r == Err::<&String, Error>(Error::Record(Field::AccessToken)),
        },
{
    match &token.access_token {
        Some(v) => Ok(v),
        None => Err(Error::Record(Field::AccessToken)),
    }
}

/// What a revision marker in milliseconds denotes: whole seconds, rounded
/// towards zero, where that is a date that can be represented.
pub open spec fn spec_revision_date(millis: i64) -> Result<i64, Error> {
    let secs: i64 = if millis >= 0 {
        (millis / 1000) as i64
    } else {
        (-((-millis) / 1000)) as i64
    };
    if spec_representable(secs) {
        Ok(secs)
    } else {
        Err(Error::Record(Field::RevisionDate))
    }
}

/// Reads the revision marker of the service, which comes in milliseconds,
/// as a date in seconds.
pub fn get_revision_date(millis: i64) -> (r: Result<i64, Error>)
    ensures
        r == spec_revision_date(millis),
{
    let secs: i64 = millis / 1000;
    if representable(secs) {
        Ok(secs)
    } else {
        Err(Error::Record(Field::RevisionDate))
    }
}

/// Completes a full sync: the snapshot that the service sent, with the
/// revision that it was taken at.
pub fn get_full_sync(rev_date: i64, res: SyncResponse) -> (data: SyncResponse)
    ensures
        data == (SyncResponse { rev_date: Some(rev_date), ..res }),
{
    let mut res = res;
    res.rev_date = Some(rev_date);
    res
}

/// The request for the key-stretching parameters of `email`.
pub fn iterations_request(email: &str) -> (payload: IterationsRequest)
    ensures
        payload.email@ == email@,
{
    IterationsRequest { email: email.to_owned() }
}

/// Reads the number of key-stretching rounds from the service's answer.
///
/// An answer that carries an error fails with `Error::Service` and the
/// service's message; one that carries neither an error nor a count fails
/// with `Error::Record(Field::Iterations)`.
pub fn get_iterations(res: &PreLoginResponse) -> (r: Result<u32, Error>)
    ensures
        match (res.error, res.iterations) {
            (Some(e), _) => service_failure(r, e@),
            (None, Some(n)) => r == Ok::<u32, Error>(n),
            (None, None) => r == Err::<u32, Error>(Error::Record(Field::Iterations)),
        },
{
    match &res.error {
        Some(e) => { return Err(Error::Service { message: e.clone() }); },
        None => {},
    }
    match res.iterations {
        Some(n) => Ok(n),
        None => Err(Error::Record(Field::Iterations)),
    }
}

/// Whether `payload` is the sign-in request for `email` with `hash` as the
/// password and `code` as the second factor: everything else about it is
/// fixed.
pub open spec fn is_token_request(
    payload: TokenRequest,
    email: Seq<char>,
    hash: Seq<char>,
    code: int,
) -> bool {
    &&& payload.grant_type@ == "password"@
    &&& payload.username@ == email
    &&& payload.password@ == hash
    &&& payload.scope@ == "api offline_access"@
    &&& payload.client_id@ == client_id()
    &&& payload.device_type == DEVICE_TYPE
    &&& payload.device_id@ == device_id()
    &&& payload.device_name@ == device_name()
    &&& payload.two_factor_token == code
    &&& payload.two_factor_provider == 0
    &&& payload.two_factor_remember == 0
}

/// Builds the sign-in request. The password that is sent is the hash of the
/// master key, never the master key itself.
///
/// Fails with `Error::Configuration(Setting::TwoFactorCode)` exactly when
/// the second-factor code is not a number.
pub fn token_request(email: &str, master_key: &MasterKey, tfa_code: &str) -> (r: Result<
    TokenRequest,
    Error,
>)
    ensures
        match spec_parse_u32(encode_utf8(tfa_code@)) {
            Some(code) => r is Ok && is_token_request(
                r.unwrap(),
                email@,
                master_key.hash@,
                code,
            ),
            None => r == Err::<TokenRequest, Error>(Error::Configuration(Setting::TwoFactorCode)),
        },
{
    let two_factor_token = match parse_u32(tfa_code.as_bytes()) {
        Some(code) => code,
        None => { return Err(Error::Configuration(Setting::TwoFactorCode)); },
    };
    Ok(
        TokenRequest {
            grant_type: "password".to_owned(),
            username: email.to_owned(),
            password: master_key.hash.clone(),
            scope: "api offline_access".to_owned(),
            client_id: "web".to_owned(),
            device_type: DEVICE_TYPE,
            device_id: "7d52408d-883d-4ed1-8dbb-fc6ff1a16c38".to_owned(),
            device_name: "firefox".to_owned(),
            two_factor_token,
            two_factor_provider: 0,
            two_factor_remember: 0,
        },
    )
}

/// Whether `token` is the answer `res` of the service made into a token
/// record: holding the master key in base64, from which it can be read
/// back, and a time of its own.
pub open spec fn is_new_token(token: TokenResponse, res: TokenResponse, master_key: Seq<u8>) -> bool {
    &&& token.last_saved is Some
    &&& text_of(token.master_key) == Some(spec_base64_encode(master_key))
    &&& spec_base64_sound(master_key)
    &&& token.access_token == res.access_token
    &&& token.expires_in == res.expires_in
    &&& token.token_type == res.token_type
    &&& token.refresh_token == res.refresh_token
    &&& token.scope == res.scope
    &&& token.private_key == res.private_key
    &&& token.key == res.key
    &&& token.reset_password == res.reset_password
    &&& token.kdf == res.kdf
    &&& token.iterations == res.iterations
    &&& token.error == res.error
    &&& token.error_description == res.error_description
    &&& token.error_model == res.error_model
}

/// Makes the service's answer to a sign-in into a token record, stamped
/// with `stamp` as the time it was obtained.
///
/// An answer that carries an error fails with `Error::Service` and the
/// service's message.
pub fn new_token(res: TokenResponse, master_key: &MasterKey, stamp: String) -> (r: Result<
    TokenResponse,
    Error,
>)
    ensures
        match res.error_model {
            Some(model) => service_failure(r, spec_error_message(model)),
            None => r is Ok && is_new_token(r.unwrap(), res, master_key.key@) && text_of(
                r.unwrap().last_saved,
            ) == Some(stamp@),
        },
{
    match &res.error_model {
        Some(e) => { return Err(Error::Service { message: error_message(e) }); },
        None => {},
    }
    let mut token = res;
    token.last_saved = Some(stamp);
    token.master_key = Some(encode(master_key.key.as_slice()));
    Ok(token)
}

/// Makes the service's answer to a sign-in into a token record, stamped
/// with the current time.
///
/// What holds for every reading of the clock: an answer that carries an
/// error fails with `Error::Service`; any other becomes a record that
/// `new_token` could have made, stamped with a point in time. A clock that
/// cannot be read fails with `Error::Clock`.
pub fn get_new_token(res: TokenResponse, master_key: &MasterKey) -> (r: Result<TokenResponse, Error>)
    ensures
        r is Err ==> r == Err::<TokenResponse, Error>(Error::Clock) || (res.error_model is Some
            && service_failure(r, spec_error_message(res.error_model.unwrap()))),
        r is Ok ==> res.error_model is None && is_new_token(r.unwrap(), res, master_key.key@)
            && is_stamp(text_of(r.unwrap().last_saved).unwrap()),
{
    match now_text() {
        Ok(stamp) => new_token(res, master_key, stamp),
        Err(e) => Err(e),
    }
}

/// Whether `payload` is the request that trades `refresh_token` for a new
/// access token.
pub open spec fn is_refresh_request(payload: RefreshTokenRequest, refresh_token: Seq<char>) -> bool {
    &&& payload.grant_type@ == "refresh_token"@
    &&& payload.client_id@ == client_id()
    &&& payload.refresh_token@ == refresh_token
}

/// Builds the request that refreshes `token`.
///
/// Fails with `Error::Record(Field::RefreshToken)` exactly when the record
/// holds no refresh token.
pub fn refresh_request(token: &TokenResponse) -> (r: Result<RefreshTokenRequest, Error>)
    ensures
        match token.refresh_token {
            Some(refresh) => r is Ok && is_refresh_request(r.unwrap(), refresh@),
            None => r == Err::<RefreshTokenRequest, Error>(Error::Record(Field::RefreshToken)),
        },
{
    let refresh_token = match &token.refresh_token {
        Some(v) => v,
        None => { return Err(Error::Record(Field::RefreshToken)); },
    };
    Ok(
        RefreshTokenRequest {
            grant_type: "refresh_token".to_owned(),
            client_id: "web".to_owned(),
            refresh_token: refresh_token.clone(),
        },
    )
}

/// Whether `after` is `before` refreshed by the answer `res`: access token,
/// lifetime, token type, refresh token and scope are those of the answer,
/// the time is a new one, and all else is as it was.
pub open spec fn is_refreshed(after: TokenResponse, before: TokenResponse, res: TokenResponse) -> bool {
    &&& after.access_token == res.access_token
    &&& after.expires_in == res.expires_in
    &&& after.token_type == res.token_type
    &&& after.refresh_token == res.refresh_token
    &&& after.scope == res.scope
    &&& after.last_saved is Some
    &&& after.private_key == before.private_key
    &&& after.key == before.key
    &&& after.reset_password == before.reset_password
    &&& after.kdf == before.kdf
    &&& after.iterations == before.iterations
    &&& after.error == before.error
    &&& after.error_description == before.error_description
    &&& after.error_model == before.error_model
    &&& after.master_key == before.master_key
}

/// Takes the service's answer to a refresh into the token record, stamped
/// with `stamp` as the time of the refresh.
///
/// An answer that carries an error fails with `Error::Service` and the
/// service's message, and leaves the record as it was.
pub fn apply_refresh(token: &mut TokenResponse, res: TokenResponse, stamp: String) -> (r: Result<
    (),
    Error,
>)
    ensures
        match res.error_model {
            Some(model) => *final(token) == *old(token) && service_failure(
                r,
                spec_error_message(model),
            ),
            None => r is Ok && is_refreshed(*final(token), *old(token), res) && text_of(
                final(token).last_saved,
            ) == Some(stamp@),
        },
{
    match &res.error_model {
        Some(e) => { return Err(Error::Service { message: error_message(e) }); },
        None => {},
    }
    token.access_token = res.access_token;
    token.expires_in = res.expires_in;
    token.token_type = res.token_type;
    token.refresh_token = res.refresh_token;
    token.scope = res.scope;
    token.last_saved = Some(stamp);
    Ok(())
}

/// Takes the service's answer to a refresh into the token record, stamped
/// with the current time.
///
/// What holds for every reading of the clock: an answer that carries an
/// error fails with `Error::Service`, a clock that cannot be read with
/// `Error::Clock`, and either leaves the record as it was; any other
/// refreshes the record as `apply_refresh` does and stamps it with a point
/// in time.
pub fn refresh_token(token: &mut TokenResponse, res: TokenResponse) -> (r: Result<(), Error>)
    ensures
        r is Err ==> *final(token) == *old(token) && (r == Err::<(), Error>(Error::Clock) || (
        res.error_model is Some && service_failure(
            r,
            spec_error_message(res.error_model.unwrap()),
        ))),
        r is Ok ==> res.error_model is None && is_refreshed(*final(token), *old(token), res)
            && is_stamp(text_of(final(token).last_saved).unwrap()),
{
    match now_text() {
        Ok(stamp) => apply_refresh(token, res, stamp),
        Err(e) => Err(e),
    }
}

} // verus!
