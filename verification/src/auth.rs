//! The life of a token record: signing in, judging staleness, refreshing.
//!
//! Obtaining a usable token alternates between work outside this crate,
//! reading the cache, asking the user, asking the service, writing the
//! cache, and decisions. The decisions are `get_token`: given where things
//! stand and what the last piece of outside work brought, it says where
//! things stand now and what is to be done next. Whoever runs it starts in
//! `AuthState::Loading` with `AuthAction::Load` and goes on until the action
//! is `Return` or `Fail`.

use crate::clock::now;
use crate::clock::spec_timestamp_text;
use crate::clock::text_at;
use crate::clock::elapsed;
use crate::clock::parse_timestamp;
use crate::clock::spec_elapsed;
use crate::clock::spec_parse_timestamp;
use crate::clock::Timestamp;
use crate::error::Error;
use crate::error::StoreError;
use crate::error::Field;
use crate::error::Setting;
use crate::format::spec_parse_u32;
use crate::models::spec_master_key;
use crate::models::spec_password_hash;
use crate::models::Credentials;
use crate::models::MasterKey;
use crate::records::text_of;
use crate::records::IterationsRequest;
use crate::records::PreLoginResponse;
use crate::records::RefreshTokenRequest;
use crate::records::TokenRequest;
use crate::records::TokenResponse;
use crate::service::apply_refresh;
use crate::service::get_iterations;
use crate::service::is_new_token;
use crate::service::is_refresh_request;
use crate::service::is_refreshed;
use crate::service::is_token_request;
use crate::service::iterations_request;
use crate::service::new_token;
use crate::service::refresh_request;
use crate::service::spec_error_message;
use crate::service::token_request;
use vstd::prelude::*;
use vstd::utf8::encode_utf8;

verus! {

/// A reading of the clock: the point in time, and the same time as the text
/// that a token record is stamped with.
#[derive(Debug)]
pub struct Clock {
    pub now: Timestamp,
    pub text: String,
}

impl Clock {
    /// Whether the text of this reading is its point in time written as
    /// text.
    pub open spec fn stamped(self) -> bool {
        spec_timestamp_text(self.now.secs, self.now.nanos) == Some(self.text@)
    }

    /// The reading of a clock that stands at `now`, or `None` where `now` is
    /// no date that can be represented.
    pub fn at(now: Timestamp) -> (r: Option<Clock>)
        ensures
            match r {
                Some(clock) => clock.now == now && clock.stamped(),
                None => spec_timestamp_text(now.secs, now.nanos) is None,
            },
    {
        match text_at(&now) {
            Some(text) => Some(Clock { now, text }),
            None => None,
        }
    }

    /// Reads the clock once and writes the reading as text.
    ///
    /// What holds for every reading: its text is its point in time written
    /// as text, and the only failure is `Error::Clock`.
    pub fn read() -> (r: Result<Clock, Error>)
        ensures
            match r {
                Ok(clock) => clock.stamped(),
                Err(e) => e == Error::Clock,
            },
    {
        let now = match now() {
            Ok(now) => now,
            Err(e) => { return Err(e); },
        };
        match Clock::at(now) {
            Some(clock) => Ok(clock),
            None => Err(Error::Clock),
        }
    }
}

/// The period that a token record is good for: the time it was saved, as
/// seconds and nanoseconds, and its lifetime in seconds. A record that
/// lacks either, or whose time cannot be read, has none.
pub open spec fn spec_lifetime(last_saved: Option<Seq<char>>, expires_in: Option<u32>) -> Result<
    ((i64, u32), u32),
    Error,
> {
    match last_saved {
        None => Err(Error::Record(Field::LastSaved)),
        Some(text) => match spec_parse_timestamp(text) {
            None => Err(Error::Record(Field::LastSaved)),
            Some(saved) => match expires_in {
                None => Err(Error::Record(Field::ExpiresIn)),
                Some(seconds) => Ok((saved, seconds)),
            },
        },
    }
}

/// Whether a token record is stale at `now`: it is when the lifetime that
/// began at the time it was saved is over.
pub open spec fn spec_need_refresh(
    last_saved: Option<Seq<char>>,
    expires_in: Option<u32>,
    now: Timestamp,
) -> Result<bool, Error> {
    match spec_lifetime(last_saved, expires_in) {
        Err(e) => Err(e),
        Ok((saved, seconds)) => Ok(spec_elapsed(saved.0, saved.1, seconds, now)),
    }
}

/// Decides whether `token` is stale at `now`, that is, whether `now` is the
/// time it was saved plus its lifetime, or later.
///
/// Fails with `Error::Record(Field::LastSaved)` where the record has no
/// time or one that cannot be read, and with
/// `Error::Record(Field::ExpiresIn)` where it has no lifetime.
pub fn need_refresh_at(token: &TokenResponse, now: &Timestamp) -> (r: Result<bool, Error>)
    ensures
        r == spec_need_refresh(text_of(token.last_saved), token.expires_in, *now),
{
    let saved = match &token.last_saved {
        Some(v) => match parse_timestamp(v.as_str()) {
            Some(saved) => saved,
            None => { return Err(Error::Record(Field::LastSaved)); },
        },
        None => { return Err(Error::Record(Field::LastSaved)); },
    };
    let seconds = match token.expires_in {
        Some(v) => v,
        None => { return Err(Error::Record(Field::ExpiresIn)); },
    };
    Ok(elapsed(saved.0, saved.1, seconds, now))
}

/// Decides whether `token` is stale now.
///
/// What holds for every reading of the clock: a record that cannot be
/// judged fails as `need_refresh_at` says, and a clock that cannot be read
/// fails with `Error::Clock`.
pub fn need_refresh(token: &TokenResponse) -> (r: Result<bool, Error>)
    ensures
        match spec_lifetime(text_of(token.last_saved), token.expires_in) {
            Err(e) => r == Err::<bool, Error>(e) || r == Err::<bool, Error>(Error::Clock),
            Ok(_) => r is Ok || r == Err::<bool, Error>(Error::Clock),
        },
{
    match now() {
        Ok(now) => need_refresh_at(token, &now),
        Err(e) => Err(e),
    }
}

/// Where the way to a usable token stands.
#[derive(Debug)]
pub enum AuthState {
    /// The cache is being read.
    Loading,
    /// The cache held no record; a session key is being set up.
    ResettingSession,
    /// The user is being asked for the email address.
    AskingEmail,
    /// The service is being asked for the key-stretching parameters.
    FetchingIterations { email: String },
    /// The user is being asked for the master password.
    AskingPassword { email: String, iterations: u32 },
    /// The user is being asked for the second-factor code.
    AskingTwoFactor { email: String, master_key: MasterKey },
    /// The service is being asked to sign in.
    SigningIn { master_key: MasterKey },
    /// The service is being asked to refresh `token`.
    Refreshing { token: TokenResponse },
    /// `token` is being written to the cache.
    Storing { token: TokenResponse },
    /// It is over.
    Done,
}

/// What the last piece of outside work brought.
#[derive(Debug)]
pub enum AuthEvent {
    /// The cache was read: it held a record, or loading failed.
    Loaded(Result<TokenResponse, StoreError>),
    /// A session key is set up.
    SessionReset,
    /// The user gave the email address.
    Email(String),
    /// The service answered the request for key-stretching parameters.
    Iterations(PreLoginResponse),
    /// The user gave the master password.
    Password(String),
    /// The user gave the second-factor code.
    TwoFactor(String),
    /// The service answered the sign-in.
    SignedIn(TokenResponse),
    /// The service answered the refresh.
    Refreshed(TokenResponse),
    /// The record of the state was written to the cache.
    Stored,
    /// The work failed.
    Failed(Error),
}

/// What is to be done next.
#[derive(Debug)]
pub enum AuthAction {
    /// Read the record from the cache and report `Loaded`.
    Load,
    /// Load the configuration anew, asking for a session reset, and report
    /// `SessionReset`.
    ResetSession,
    /// Ask for the email address and report `Email`.
    AskEmail,
    /// Send the request and report `Iterations`.
    FetchIterations(IterationsRequest),
    /// Ask for the master password and report `Password`.
    AskPassword,
    /// Ask for the second-factor code and report `TwoFactor`.
    AskTwoFactor,
    /// Send the request and report `SignedIn`.
    SignIn(TokenRequest),
    /// Send the request and report `Refreshed`.
    Refresh(RefreshTokenRequest),
    /// Write the record that the state holds to the cache and report
    /// `Stored`.
    Store,
    /// A usable record.
    Return(TokenResponse),
    /// No usable record could be had.
    Fail(Error),
}

/// Whether `r` is the end that an error of the service with the message
/// `text` brings.
pub open spec fn is_service_end(r: (AuthState, AuthAction), text: Seq<char>) -> bool {
    match r {
        (AuthState::Done, AuthAction::Fail(Error::Service { message })) => message@ == text,
        _ => false,
    }
}

/// Whether `action` sends the request for the parameters of `email`.
pub open spec fn is_fetch(action: AuthAction, email: Seq<char>) -> bool {
    match action {
        AuthAction::FetchIterations(payload) => payload.email@ == email,
        _ => false,
    }
}

/// Whether `action` sends the sign-in request for `email`, `hash` and
/// `code`.
pub open spec fn is_sign_in(action: AuthAction, email: Seq<char>, hash: Seq<char>, code: int) -> bool {
    match action {
        AuthAction::SignIn(payload) => is_token_request(payload, email, hash, code),
        _ => false,
    }
}

/// Whether `action` sends the request that trades in `refresh_token`.
pub open spec fn is_refresh(action: AuthAction, refresh_token: Seq<char>) -> bool {
    match action {
        AuthAction::Refresh(payload) => is_refresh_request(payload, refresh_token),
        _ => false,
    }
}

/// Whether `state` waits for the second factor with the master key that
/// `email`, `password` and `iterations` stretch to.
pub open spec fn is_asking_two_factor(
    state: AuthState,
    email: String,
    password: Seq<char>,
    iterations: u32,
) -> bool {
    match state {
        AuthState::AskingTwoFactor { email: held, master_key } => {
            &&& held == email
            &&& master_key.key@ == spec_master_key(email@, password, iterations)
            &&& master_key.hash@ == spec_password_hash(master_key.key@, password)
        },
        _ => false,
    }
}

/// Whether `state` holds a record that is `before` refreshed by `res` at
/// the time `stamp`, to be written to the cache.
pub open spec fn is_storing_refreshed(
    state: AuthState,
    before: TokenResponse,
    res: TokenResponse,
    stamp: Seq<char>,
) -> bool {
    match state {
        AuthState::Storing { token } => is_refreshed(token, before, res) && text_of(
            token.last_saved,
        ) == Some(stamp),
        _ => false,
    }
}

/// What is done with a record once there is one. A record that is stale at
/// `now` is refreshed; one that is not is returned, after it was written to
/// the cache if it is new (`write`). A record that cannot be judged, or
/// that is stale and has no refresh token, ends it in failure.
pub open spec fn spec_with_token(
    token: TokenResponse,
    write: bool,
    now: Timestamp,
    r: (AuthState, AuthAction),
) -> bool {
    match spec_need_refresh(text_of(token.last_saved), token.expires_in, now) {
        Err(e) => r == (AuthState::Done, AuthAction::Fail(e)),
        Ok(true) => match token.refresh_token {
            None => r == (AuthState::Done, AuthAction::Fail(Error::Record(Field::RefreshToken))),
            Some(refresh) => r.0 == (AuthState::Refreshing { token }) && is_refresh(r.1, refresh@),
        },
        Ok(false) => if write {
            r == (AuthState::Storing { token }, AuthAction::Store)
        } else {
            r == (AuthState::Done, AuthAction::Return(token))
        },
    }
}

/// Whether `r` follows on the service's answer `res` to a sign-in made
/// with `master_key`: an error of the service ends it; any other answer
/// becomes a record stamped with the clock's text, and that record is dealt
/// with as a new one.
pub open spec fn spec_signed_in(
    res: TokenResponse,
    master_key: MasterKey,
    clock: Clock,
    r: (AuthState, AuthAction),
) -> bool {
    match res.error_model {
        Some(model) => is_service_end(r, spec_error_message(model)),
        None => exists|token: TokenResponse|
            #![trigger is_new_token(token, res, master_key.key@)]
            is_new_token(token, res, master_key.key@) && text_of(token.last_saved) == Some(
                clock.text@,
            ) && spec_with_token(token, true, clock.now, r),
    }
}

/// Whether `r` follows on the service's answer `res` to the refresh of
/// `token`: an error of the service ends it; any other answer is taken into
/// the record, which is stamped with the clock's text and written to the
/// cache.
pub open spec fn spec_refreshed(
    token: TokenResponse,
    res: TokenResponse,
    clock: Clock,
    r: (AuthState, AuthAction),
) -> bool {
    match res.error_model {
        Some(model) => is_service_end(r, spec_error_message(model)),
        None => r.1 == AuthAction::Store && is_storing_refreshed(r.0, token, res, clock.text@),
    }
}

/// Whether `r` is the state and action that follow on `event` in `state`
/// with the clock reading `clock`.
///
/// A cached record is used as long as it is not stale. Where the cache
/// could not be loaded, for whatever cause, there is no record yet: a
/// session key is set up and the user signs in: email, key-stretching
/// parameters from the service, password, second factor. Nothing that the
/// user has to give may be empty. A failure of outside work ends it, and so
/// does an event that does not answer the action before it.
pub open spec fn spec_get_token(
    state: AuthState,
    event: AuthEvent,
    clock: Clock,
    r: (AuthState, AuthAction),
) -> bool {
    let unexpected = (AuthState::Done, AuthAction::Fail(Error::Unexpected));
    match event {
        AuthEvent::Failed(e) => r == (AuthState::Done, AuthAction::Fail(e)),
        AuthEvent::Loaded(Err(_)) => if state is Loading {
            r == (AuthState::ResettingSession, AuthAction::ResetSession)
        } else {
            r == unexpected
        },
        AuthEvent::Loaded(Ok(token)) => if state is Loading {
            spec_with_token(token, false, clock.now, r)
        } else {
            r == unexpected
        },
        AuthEvent::SessionReset => if state is ResettingSession {
            r == (AuthState::AskingEmail, AuthAction::AskEmail)
        } else {
            r == unexpected
        },
        AuthEvent::Email(email) => if !(state is AskingEmail) {
            r == unexpected
        } else if email@.len() == 0 {
            r == (AuthState::Done, AuthAction::Fail(Error::Configuration(Setting::Email)))
        } else {
            r.0 == (AuthState::FetchingIterations { email }) && is_fetch(r.1, email@)
        },
        AuthEvent::Iterations(res) => match state {
            AuthState::FetchingIterations { email } => match (res.error, res.iterations) {
                (Some(e), _) => is_service_end(r, e@),
                (None, None) => r == (
                    AuthState::Done,
                    AuthAction::Fail(Error::Record(Field::Iterations)),
                ),
                (None, Some(iterations)) => r == (
                    AuthState::AskingPassword { email, iterations },
                    AuthAction::AskPassword,
                ),
            },
            _ => r == unexpected,
        },
        AuthEvent::Password(password) => match state {
            AuthState::AskingPassword { email, iterations } => if password@.len() == 0 {
                r == (AuthState::Done, AuthAction::Fail(Error::Configuration(Setting::Password)))
            } else if iterations == 0 {
                r == (AuthState::Done, AuthAction::Fail(Error::Configuration(Setting::Iterations)))
            } else {
                r.1 == AuthAction::AskTwoFactor && is_asking_two_factor(
                    r.0,
                    email,
                    password@,
                    iterations,
                )
            },
            _ => r == unexpected,
        },
        AuthEvent::TwoFactor(code) => match state {
            AuthState::AskingTwoFactor { email, master_key } => match spec_parse_u32(
                encode_utf8(code@),
            ) {
                None => r == (
                    AuthState::Done,
                    AuthAction::Fail(Error::Configuration(Setting::TwoFactorCode)),
                ),
                Some(number) => r.0 == (AuthState::SigningIn { master_key }) && is_sign_in(
                    r.1,
                    email@,
                    master_key.hash@,
                    number,
                ),
            },
            _ => r == unexpected,
        },
        AuthEvent::SignedIn(res) => match state {
            AuthState::SigningIn { master_key } => spec_signed_in(res, master_key, clock, r),
            _ => r == unexpected,
        },
        AuthEvent::Refreshed(res) => match state {
            AuthState::Refreshing { token } => spec_refreshed(token, res, clock, r),
            _ => r == unexpected,
        },
        AuthEvent::Stored => match state {
            AuthState::Storing { token } => r == (AuthState::Done, AuthAction::Return(token)),
            _ => r == unexpected,
        },
    }
}

/// Decides what to do with a record: refresh it if it is stale at `now`,
/// else write it if it is new, else return it.
fn with_token(token: TokenResponse, write: bool, now: &Timestamp) -> (r: (AuthState, AuthAction))
    ensures
        spec_with_token(token, write, *now, r),
{
    match need_refresh_at(&token, now) {
        Err(e) => (AuthState::Done, AuthAction::Fail(e)),
        Ok(true) => match refresh_request(&token) {
            Ok(payload) => (AuthState::Refreshing { token }, AuthAction::Refresh(payload)),
            Err(e) => (AuthState::Done, AuthAction::Fail(e)),
        },
        Ok(false) => if write {
            (AuthState::Storing { token }, AuthAction::Store)
        } else {
            (AuthState::Done, AuthAction::Return(token))
        },
    }
}

/// Takes a sign-in one step further. This is the part of `get_token` that
/// leads from an empty cache to a new record: it asks for the email
/// address, the password and the second-factor code in turn, none of which
/// may be empty, and derives the master key once the password is there.
fn get_new_token(state: AuthState, event: AuthEvent, clock: Clock) -> (r: (
    AuthState,
    AuthAction,
))
    requires
        event is Email || event is Iterations || event is Password || event is TwoFactor || event
            is SignedIn,
    ensures
        spec_get_token(state, event, clock, r),
{
    let unexpected = (AuthState::Done, AuthAction::Fail(Error::Unexpected));
    match event {
        AuthEvent::Email(email) => match state {
            AuthState::AskingEmail => {
                if email.as_str().is_empty() {
                    return (AuthState::Done, AuthAction::Fail(Error::Configuration(Setting::Email)));
                }
                let payload = iterations_request(email.as_str());
                (AuthState::FetchingIterations { email }, AuthAction::FetchIterations(payload))
            },
            _ => unexpected,
        },
        AuthEvent::Iterations(res) => match state {
            AuthState::FetchingIterations { email } => match get_iterations(&res) {
                Ok(iterations) => (
                    AuthState::AskingPassword { email, iterations },
                    AuthAction::AskPassword,
                ),
                Err(e) => (AuthState::Done, AuthAction::Fail(e)),
            },
            _ => unexpected,
        },
        AuthEvent::Password(password) => match state {
            AuthState::AskingPassword { email, iterations } => {
                if password.as_str().is_empty() {
                    return (
                        AuthState::Done,
                        AuthAction::Fail(Error::Configuration(Setting::Password)),
                    );
                }
                let credentials = Credentials { email, password, iterations };
                match MasterKey::from_credentials(&credentials) {
                    Ok(master_key) => (
                        AuthState::AskingTwoFactor { email: credentials.email, master_key },
                        AuthAction::AskTwoFactor,
                    ),
                    Err(e) => (AuthState::Done, AuthAction::Fail(e)),
                }
            },
            _ => unexpected,
        },
        AuthEvent::TwoFactor(code) => match state {
            AuthState::AskingTwoFactor { email, master_key } => {
                match token_request(email.as_str(), &master_key, code.as_str()) {
                    Ok(payload) => (AuthState::SigningIn { master_key }, AuthAction::SignIn(payload)),
                    Err(e) => (AuthState::Done, AuthAction::Fail(e)),
                }
            },
            _ => unexpected,
        },
        AuthEvent::SignedIn(res) => match state {
            AuthState::SigningIn { master_key } => {
                match new_token(res, &master_key, clock.text) {
                    Ok(token) => with_token(token, true, &clock.now),
                    Err(e) => (AuthState::Done, AuthAction::Fail(e)),
                }
            },
            _ => unexpected,
        },
        _ => unexpected,
    }
}

impl AuthState {
    /// The record that is to be written to the cache, while one is.
    pub fn token(&self) -> (token: Option<&TokenResponse>)
        ensures
            match *self {
                AuthState::Storing { token: held } => token == Some(&held),
                _ => token is None,
            },
    {
        match self {
            AuthState::Storing { token } => Some(token),
            _ => None,
        }
    }
}

/// Takes the way to a usable token one step further: from the state it was
/// in and what the last piece of outside work brought, with `clock` as the
/// current time, to the state it is in now and what is to be done next.
pub fn get_token(state: AuthState, event: AuthEvent, clock: Clock) -> (r: (AuthState, AuthAction))
    ensures
        spec_get_token(state, event, clock, r),
{
    let unexpected = (AuthState::Done, AuthAction::Fail(Error::Unexpected));
    match event {
        AuthEvent::Failed(e) => (AuthState::Done, AuthAction::Fail(e)),
        AuthEvent::Loaded(data) => match state {
            AuthState::Loading => match data {
                Ok(token) => with_token(token, false, &clock.now),
                Err(_) => (AuthState::ResettingSession, AuthAction::ResetSession),
            },
            _ => unexpected,
        },
        AuthEvent::SessionReset => match state {
            AuthState::ResettingSession => (AuthState::AskingEmail, AuthAction::AskEmail),
            _ => unexpected,
        },
        AuthEvent::Refreshed(res) => match state {
            AuthState::Refreshing { token } => {
                let mut token = token;
                match apply_refresh(&mut token, res, clock.text) {
                    Ok(()) => (AuthState::Storing { token }, AuthAction::Store),
                    Err(e) => (AuthState::Done, AuthAction::Fail(e)),
                }
            },
            _ => unexpected,
        },
        AuthEvent::Stored => match state {
            AuthState::Storing { token } => (AuthState::Done, AuthAction::Return(token)),
            _ => unexpected,
        },
        other => get_new_token(state, other, clock),
    }
}

} // verus!
