//! The builder of a Pub/Sub emulator. Starting the emulator process is left to the caller;
//! this tracks which settings the builder has been given.
use vstd::prelude::*;

use crate::emulator::CLIENT_CONNECT_RETRY_DEFAULT;

pub use crate::emulator::{NotReady, Ready, State};

verus! {

/// A builder for constructing an emulator; `S` records whether the project has been set.
pub struct Emulator<S: State> {
    project: Option<String>,
    connection_retry_limit: usize,
    _state: core::marker::PhantomData<S>,
}

impl<S: State> Emulator<S> {
    /// The project name set so far.
    pub closed spec fn project_spec(&self) -> Option<Seq<char>> {
        match self.project {
            Some(p) => Some(p@),
            None => None,
        }
    }

    /// The number of connection attempts.
    pub closed spec fn retry_limit_spec(&self) -> usize {
        self.connection_retry_limit
    }

    /// How many times the emulator client should attempt to connect to the emulator before
    /// giving up. Retries occur every 100ms so, e.g., a value of `50` will result in a total
    /// retry time of 5s.
    pub fn connection_retry_limit(self, connection_retry_limit: usize) -> (e: Self)
        ensures
            e.project_spec() == self.project_spec(),
            e.retry_limit_spec() == connection_retry_limit,
    {
        Emulator { connection_retry_limit, ..self }
    }

    /// The number of connection attempts the client will make.
    pub fn retry_limit(&self) -> (r: usize)
        ensures
            r == self.retry_limit_spec(),
    {
        self.connection_retry_limit
    }
}

impl Emulator<NotReady> {
    /// Returns a new builder for constructing an emulator.
    pub fn new() -> (e: Self)
        ensures
            e.project_spec() is None,
            e.retry_limit_spec() == CLIENT_CONNECT_RETRY_DEFAULT,
    {
        Emulator {
            project: None,
            connection_retry_limit: CLIENT_CONNECT_RETRY_DEFAULT,
            _state: core::marker::PhantomData,
        }
    }

    /// The GCP project name the emulator should use. A connection limit set before is kept.
    pub fn project(self, project: String) -> (e: Emulator<Ready>)
        ensures
            e.project_spec() == Some(project@),
            e.retry_limit_spec() == self.retry_limit_spec(),
    {
        Emulator {
            project: Some(project),
            connection_retry_limit: self.connection_retry_limit,
            _state: core::marker::PhantomData,
        }
    }
}

impl Emulator<Ready> {
    /// The project name, and the number of connection attempts, with which to start the
    /// emulator.
    pub fn into_settings(self) -> (r: (String, usize))
        requires
            self.project_spec() is Some,
        ensures
            Some(r.0@) == self.project_spec(),
            r.1 == self.retry_limit_spec(),
    {
        match self.project {
            Some(p) => (p, self.connection_retry_limit),
            None => (String::new(), self.connection_retry_limit),
        }
    }
}

} // verus!
