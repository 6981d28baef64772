//! Keeping the cached snapshot of the vault up to date.
//!
//! Loading the vault alternates between work outside this crate, reading
//! the cache, asking the service, writing the cache, and decisions. The
//! decisions are `load_data`: given where the load stands and what the last
//! piece of outside work brought, it says where the load stands now and what
//! is to be done next. Whoever runs the load starts in `SyncState::Loading`
//! with `SyncAction::Load` and goes on until the action is `Return` or
//! `Fail`.

use crate::error::Error;
use crate::error::StoreError;
use crate::records::SyncResponse;
use crate::service::get_full_sync;
use crate::service::get_revision_date;
use crate::service::spec_revision_date;
use vstd::prelude::*;

verus! {

/// Where a load of the vault stands.
#[derive(Debug)]
pub enum SyncState {
    /// The cache is being read.
    Loading,
    /// The cache held `data`; the service is being asked for its revision.
    Checking { data: SyncResponse },
    /// The service is being asked for the whole vault.
    Syncing,
    /// `data` came from the service and is being written to the cache.
    Storing { data: SyncResponse },
    /// The load is over.
    Done,
}

/// What the last piece of outside work brought.
#[derive(Debug)]
pub enum SyncEvent {
    /// The cache was read: it held a snapshot, or loading failed.
    Loaded(Result<SyncResponse, StoreError>),
    /// The service was asked for its revision marker, in milliseconds.
    Revision(Result<i64, Error>),
    /// The service sent the whole vault, and its revision marker in
    /// milliseconds.
    Synced { revision: i64, response: SyncResponse },
    /// The snapshot of the state was written to the cache.
    Stored,
    /// The work failed.
    Failed(Error),
}

/// What is to be done next.
#[derive(Debug)]
pub enum SyncAction {
    /// Read the snapshot from the cache and report `Loaded`.
    Load,
    /// Ask the service for its revision marker and report `Revision`.
    CheckRevision,
    /// Ask the service for its revision marker and the whole vault and
    /// report `Synced`.
    FullSync,
    /// Write the snapshot that the state holds to the cache and report
    /// `Stored`.
    Store,
    /// The load succeeded with this snapshot.
    Return(SyncResponse),
    /// The load failed.
    Fail(Error),
}

/// Whether a cached snapshot is out of date against the revision of the
/// service: it is if it carries no revision of its own, or an older one.
pub open spec fn spec_needs_sync(rev_date: Option<i64>, remote: i64) -> bool {
    match rev_date {
        Some(v) => v < remote,
        None => true,
    }
}

/// Decides whether a cached snapshot is out of date against the revision of
/// the service.
pub fn needs_sync(data: &SyncResponse, remote: i64) -> (stale: bool)
    ensures
        stale == spec_needs_sync(data.rev_date, remote),
{
    match data.rev_date {
        Some(v) => v < remote,
        None => true,
    }
}

/// What is made of a result when failures to connect may be passed over:
/// such a failure gives `default` if they are to be ignored. Every other
/// result stays as it is.
pub open spec fn spec_process_conn_errors<T>(
    result: Result<T, Error>,
    default: T,
    ignore_conn_errors: bool,
) -> Result<T, Error> {
    match result {
        Ok(v) => Ok(v),
        Err(e) => if e is Transport && ignore_conn_errors {
            Ok(default)
        } else {
            Err(e)
        },
    }
}

/// Passes over a failure to connect where the caller asked for that,
/// putting `default` in its place.
pub fn process_conn_errors<T>(result: Result<T, Error>, default: T, ignore_conn_errors: bool) -> (r:
    Result<T, Error>)
    ensures
        r == spec_process_conn_errors(result, default, ignore_conn_errors),
{
    match result {
        Ok(v) => Ok(v),
        Err(err) => match err {
            Error::Transport => if ignore_conn_errors {
                Ok(default)
            } else {
                Err(Error::Transport)
            },
            other => Err(other),
        },
    }
}

/// Whether the cache is out of date, given what asking the service for its
/// revision marker brought.
pub open spec fn spec_staleness(rev_date: Option<i64>, revision: Result<i64, Error>) -> Result<
    bool,
    Error,
> {
    match revision {
        Err(e) => Err(e),
        Ok(millis) => match spec_revision_date(millis) {
            Err(e) => Err(e),
            Ok(remote) => Ok(spec_needs_sync(rev_date, remote)),
        },
    }
}

/// The next state and action of a load.
///
/// From the cache: a snapshot that could not be loaded, for whatever cause,
/// or one without a revision, calls for a full sync at once; one with a
/// revision is checked against the service. From
/// the check: an older snapshot calls for a full sync, any other is
/// returned as it is; if the service could not be reached and such failures
/// are to be ignored, the cached snapshot is returned too. A full sync
/// always replaces the snapshot, which is written to the cache before it is
/// returned. Any other failure ends the load, and so does an event that
/// does not answer the action before it.
pub open spec fn spec_load_data(state: SyncState, event: SyncEvent, ignore_conn_errors: bool) -> (
    SyncState,
    SyncAction,
) {
    match (state, event) {
        (SyncState::Loading, SyncEvent::Loaded(Err(_))) => (SyncState::Syncing, SyncAction::FullSync),
        (SyncState::Loading, SyncEvent::Loaded(Ok(data))) => if data.rev_date is None {
            (SyncState::Syncing, SyncAction::FullSync)
        } else {
            (SyncState::Checking { data }, SyncAction::CheckRevision)
        },
        (SyncState::Checking { data }, SyncEvent::Revision(revision)) => match spec_process_conn_errors(
            spec_staleness(data.rev_date, revision),
            false,
            ignore_conn_errors,
        ) {
            Ok(true) => (SyncState::Syncing, SyncAction::FullSync),
            Ok(false) => (SyncState::Done, SyncAction::Return(data)),
            Err(e) => (SyncState::Done, SyncAction::Fail(e)),
        },
        (SyncState::Syncing, SyncEvent::Synced { revision, response }) => match spec_revision_date(
            revision,
        ) {
            Ok(rev_date) => (
                SyncState::Storing { data: SyncResponse { rev_date: Some(rev_date), ..response } },
                SyncAction::Store,
            ),
            Err(e) => (SyncState::Done, SyncAction::Fail(e)),
        },
        (SyncState::Storing { data }, SyncEvent::Stored) => (
            SyncState::Done,
            SyncAction::Return(data),
        ),
        (_, SyncEvent::Failed(e)) => (SyncState::Done, SyncAction::Fail(e)),
        _ => (SyncState::Done, SyncAction::Fail(Error::Unexpected)),
    }
}

impl SyncState {
    /// The snapshot that is to be written to the cache, while one is.
    pub fn snapshot(&self) -> (data: Option<&SyncResponse>)
        ensures
            match *self {
                SyncState::Storing { data: held } => data == Some(&held),
                _ => data is None,
            },
    {
        match self {
            SyncState::Storing { data } => Some(data),
            _ => None,
        }
    }
}

/// Takes a load of the vault one step further: from the state it was in and
/// what the last piece of outside work brought to the state it is in now
/// and what is to be done next.
pub fn load_data(state: SyncState, event: SyncEvent, ignore_conn_errors: bool) -> (r: (
    SyncState,
    SyncAction,
))
    ensures
        r == spec_load_data(state, event, ignore_conn_errors),
{
    match event {
        SyncEvent::Failed(e) => (SyncState::Done, SyncAction::Fail(e)),
        SyncEvent::Loaded(initial) => match state {
            SyncState::Loading => match initial {
                Err(_) => (SyncState::Syncing, SyncAction::FullSync),
                Ok(data) => if data.rev_date.is_none() {
                    (SyncState::Syncing, SyncAction::FullSync)
                } else {
                    (SyncState::Checking { data }, SyncAction::CheckRevision)
                },
            },
            _ => (SyncState::Done, SyncAction::Fail(Error::Unexpected)),
        },
        SyncEvent::Revision(revision) => match state {
            SyncState::Checking { data } => {
                let stale = match revision {
                    Err(e) => Err(e),
                    Ok(millis) => match get_revision_date(millis) {
                        Err(e) => Err(e),
                        Ok(remote) => Ok(needs_sync(&data, remote)),
                    },
                };
                match process_conn_errors(stale, false, ignore_conn_errors) {
                    Ok(true) => (SyncState::Syncing, SyncAction::FullSync),
                    Ok(false) => (SyncState::Done, SyncAction::Return(data)),
                    Err(e) => (SyncState::Done, SyncAction::Fail(e)),
                }
            },
            _ => (SyncState::Done, SyncAction::Fail(Error::Unexpected)),
        },
        SyncEvent::Synced { revision, response } => match state {
            SyncState::Syncing => match get_revision_date(revision) {
                Ok(rev_date) => (
                    SyncState::Storing { data: get_full_sync(rev_date, response) },
                    SyncAction::Store,
                ),
                Err(e) => (SyncState::Done, SyncAction::Fail(e)),
            },
            _ => (SyncState::Done, SyncAction::Fail(Error::Unexpected)),
        },
        SyncEvent::Stored => match state {
            SyncState::Storing { data } => (SyncState::Done, SyncAction::Return(data)),
            _ => (SyncState::Done, SyncAction::Fail(Error::Unexpected)),
        },
    }
}

} // verus!
