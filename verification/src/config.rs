//! The configuration that the cache and the sign-in work with.
//!
//! Where the settings come from, the process environment or a file, is the
//! caller's business. The caller hands them over as an `Environment`, and
//! `Config::load` says what configuration they amount to and what the
//! caller has to remember for the next run.

use crate::error::Error;
use crate::error::Setting;
use crate::models::spec_key_from_base64;
use crate::models::SessionKey;
use crate::models::SymmetricKeyView;
use crate::primitives::spec_base64_encode;
use crate::primitives::spec_base64_sound;
use crate::records::text_of;
use vstd::prelude::*;
use vstd::string::StringExecFns;

verus! {

/// The settings as the caller found them.
#[derive(Debug)]
pub struct Environment {
    /// The directory for the cache files, where one was named.
    pub config_dir: Option<String>,
    /// The home directory of the user.
    pub home: Option<String>,
    /// The session key in its textual form, where one is known.
    pub session_key: Option<String>,
    /// Whether a session key was already generated in this run, so that
    /// none is to be generated again.
    pub skip_session_gen: bool,
    /// The account's email address, where it was given in advance.
    pub bw_user: Option<String>,
    /// The master password, where it was given in advance.
    pub bw_pass: Option<String>,
    /// The second-factor code, where it was given in advance.
    pub bw_tfa: Option<String>,
}

/// The configuration of a run.
#[derive(Clone, Debug)]
pub struct Config {
    pub config_dir: String,
    pub session_key: SessionKey,
    pub bw_user: Option<String>,
    pub bw_pass: Option<String>,
    pub bw_tfa: Option<String>,
}

/// The directory under the home directory that holds the cache files where
/// no other was named.
pub open spec fn default_dir() -> Seq<char> {
    "/.config/nxcmdr"@
}

/// The directory for the cache files: the one that was named, else the
/// default one under the home directory.
pub open spec fn spec_config_dir(config_dir: Option<Seq<char>>, home: Option<Seq<char>>) -> Result<
    Seq<char>,
    Error,
> {
    match config_dir {
        Some(dir) => Ok(dir),
        None => match home {
            Some(home) => Ok(home + default_dir()),
            None => Err(Error::Configuration(Setting::ConfigDir)),
        },
    }
}

/// Whether a new session key is to be generated: no key is known, or the
/// session is to be reset and none was generated in this run yet.
pub open spec fn spec_generates(env: Environment, reset_session: bool) -> bool {
    env.session_key is None || (reset_session && !env.skip_session_gen)
}

/// A copy of an optional string.
fn clone_text(text: &Option<String>) -> (copy: Option<String>)
    ensures
        copy == *text,
{
    match text {
        Some(v) => Some(v.clone()),
        None => None,
    }
}

/// Whether `config` takes from `env` what it takes unchanged: the directory
/// and the values given in advance.
pub open spec fn spec_takes_over(config: Config, env: Environment) -> bool {
    &&& Ok::<Seq<char>, Error>(config.config_dir@) == spec_config_dir(
        text_of(env.config_dir),
        text_of(env.home),
    )
    &&& config.bw_user == env.bw_user
    &&& config.bw_pass == env.bw_pass
    &&& config.bw_tfa == env.bw_tfa
}

/// Whether `after` is `before` with the session key `key` recorded, in a
/// text that can be read back, as generated in this run.
pub open spec fn spec_records_key(
    after: Environment,
    before: Environment,
    key: SymmetricKeyView,
) -> bool {
    &&& text_of(after.session_key) == Some(spec_base64_encode(key.key + key.mac))
    &&& spec_base64_sound(key.key + key.mac)
    &&& after.skip_session_gen
    &&& after.config_dir == before.config_dir
    &&& after.home == before.home
    &&& after.bw_user == before.bw_user
    &&& after.bw_pass == before.bw_pass
    &&& after.bw_tfa == before.bw_tfa
}

/// The key pair of an optional session key.
pub open spec fn key_of(key: Option<SessionKey>) -> Option<SymmetricKeyView> {
    match key {
        Some(key) => Some(key@),
        None => None,
    }
}

/// What `Config::load_with` promises of its result `r` and of the
/// environment `after` the call, with `fresh` as the session key that was
/// drawn for the case that one is to be generated.
pub open spec fn spec_load_with(
    before: Environment,
    reset_session: bool,
    fresh: Option<SymmetricKeyView>,
    r: Result<(Config, bool), Error>,
    after: Environment,
) -> bool {
    match spec_config_dir(text_of(before.config_dir), text_of(before.home)) {
        Err(e) => r == Err::<(Config, bool), Error>(e) && after == before,
        Ok(_) => if spec_generates(before, reset_session) {
            match fresh {
                None => r == Err::<(Config, bool), Error>(Error::Random) && after == before,
                Some(key) => {
                    &&& r is Ok
                    &&& r.unwrap().1
                    &&& r.unwrap().0.session_key@ == key
                    &&& spec_takes_over(r.unwrap().0, before)
                    &&& spec_records_key(after, before, key)
                },
            }
        } else {
            match spec_key_from_base64(before.session_key.unwrap()@) {
                Err(e) => r == Err::<(Config, bool), Error>(e) && after == before,
                Ok(key) => {
                    &&& r is Ok
                    &&& !r.unwrap().1
                    &&& r.unwrap().0.session_key@ == key
                    &&& spec_takes_over(r.unwrap().0, before)
                    &&& after == before
                },
            }
        },
    }
}

/// What `Config::load` promises of its result `r` and of the environment
/// `after` the call, whatever session key was drawn: what `load_with`
/// promises for some well-formed key, or for none.
pub open spec fn spec_load(
    before: Environment,
    reset_session: bool,
    r: Result<(Config, bool), Error>,
    after: Environment,
) -> bool {
    match spec_config_dir(text_of(before.config_dir), text_of(before.home)) {
        Err(e) => r == Err::<(Config, bool), Error>(e) && after == before,
        Ok(_) => if spec_generates(before, reset_session) {
            ||| r == Err::<(Config, bool), Error>(Error::Random) && after == before
            ||| {
                &&& r is Ok
                &&& r.unwrap().1
                &&& r.unwrap().0.session_key@.wf()
                &&& spec_takes_over(r.unwrap().0, before)
                &&& spec_records_key(after, before, r.unwrap().0.session_key@)
            }
        } else {
            match spec_key_from_base64(before.session_key.unwrap()@) {
                Err(e) => r == Err::<(Config, bool), Error>(e) && after == before,
                Ok(key) => {
                    &&& r is Ok
                    &&& !r.unwrap().1
                    &&& r.unwrap().0.session_key@ == key
                    &&& spec_takes_over(r.unwrap().0, before)
                    &&& after == before
                },
            }
        },
    }
}

impl Config {
    /// Works out the configuration of a run from the settings in `env`,
    /// with `fresh` as the session key to take where one is to be
    /// generated; `None` says that none could be drawn.
    ///
    /// The cache directory is the one that `env` names, else
    /// `.config/nxcmdr` under the home directory; with neither, the call
    /// fails with `Error::Configuration(Setting::ConfigDir)`.
    ///
    /// The session key is read from `env`. A new one is taken where `env`
    /// knows none, and where `reset_session` asks for one and none was
    /// generated in this run yet; without a fresh key the call then fails
    /// with `Error::Random`. A new key is recorded in `env`, so that later
    /// calls read it, and the second part of the result is `true`: the
    /// caller then has to keep the key of `env` for later runs. A key in
    /// `env` that cannot be read fails the call.
    pub fn load_with(env: &mut Environment, reset_session: bool, fresh: Option<SessionKey>) -> (r:
        Result<(Config, bool), Error>)
        ensures
            spec_load_with(*old(env), reset_session, key_of(fresh), r, *final(env)),
    {
        let config_dir = match &env.config_dir {
            Some(v) => v.clone(),
            None => match &env.home {
                Some(home) => {
                    let mut dir = home.clone();
                    dir.append("/.config/nxcmdr");
                    dir
                },
                None => { return Err(Error::Configuration(Setting::ConfigDir)); },
            },
        };
        let known = if reset_session && !env.skip_session_gen {
            None
        } else {
            clone_text(&env.session_key)
        };
        let was_none = known.is_none();
        let session_key = match known {
            Some(text) => match SessionKey::from_base64(text.as_str()) {
                Ok(key) => key,
                Err(e) => { return Err(e); },
            },
            None => match fresh {
                Some(key) => key,
                None => { return Err(Error::Random); },
            },
        };
        if was_none {
            env.session_key = Some(session_key.to_string());
            env.skip_session_gen = true;
        }
        Ok(
            (
                Config {
                    config_dir,
                    session_key,
                    bw_user: clone_text(&env.bw_user),
                    bw_pass: clone_text(&env.bw_pass),
                    bw_tfa: clone_text(&env.bw_tfa),
                },
                was_none,
            ),
        )
    }

    /// Works out the configuration of a run from the settings in `env`:
    /// where a session key is to be generated, one is drawn from the random
    /// source of the operating system, and all else is left to `load_with`.
    ///
    /// What holds for every draw is what `load_with` says, for some session
    /// key or for none: where a key is to be generated, the call gives a
    /// configuration with a new key, recorded in `env`, or fails with
    /// `Error::Random` and leaves `env` as it was.
    pub fn load(env: &mut Environment, reset_session: bool) -> (r: Result<(Config, bool), Error>)
        ensures
            spec_load(*old(env), reset_session, r, *final(env)),
    {
        let generates = env.session_key.is_none() || (reset_session && !env.skip_session_gen);
        let fresh = if generates {
            match SessionKey::generate() {
                Ok(key) => Some(key),
                Err(_) => None,
            }
        } else {
            None
        };
        Config::load_with(env, reset_session, fresh)
    }
}

} // verus!
