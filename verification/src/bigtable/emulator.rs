//! The builder of a Bigtable emulator. Starting the emulator process is left to the caller;
//! this tracks which settings the builder has been given.
use vstd::prelude::*;

use crate::emulator::CLIENT_CONNECT_RETRY_DEFAULT;

pub use crate::emulator::{NotReady, Ready, State};

verus! {

/// A builder for constructing an emulator; `P` records whether the project has been set, `I`
/// whether the instance has.
pub struct Emulator<P: State, I: State> {
    project: Option<String>,
    instance: Option<String>,
    connection_retry_limit: usize,
    _project_state: core::marker::PhantomData<P>,
    _instance_state: core::marker::PhantomData<I>,
}

impl<P: State, I: State> Emulator<P, I> {
    /// The project name set so far.
    pub closed spec fn project_spec(&self) -> Option<Seq<char>> {
        match self.project {
            Some(p) => Some(p@),
            None => None,
        }
    }

    /// The instance name set so far.
    pub closed spec fn instance_spec(&self) -> Option<Seq<char>> {
        match self.instance {
            Some(i) => Some(i@),
            None => None,
        }
    }

    /// The number of connection attempts.
    pub closed spec fn retry_limit_spec(&self) -> usize {
        self.connection_retry_limit
    }

    /// How many times the emulator client should attempt to connect to the emulator before
    /// giving up. Retries occur every 100ms so, e.g., a value of `50` will result in a total
    /// retry time of 5s.
    pub fn connection_retry_limit(self, connection_retry_limit: usize) -> (e: Self)
        ensures
            e.project_spec() == self.project_spec(),
            e.instance_spec() == self.instance_spec(),
            e.retry_limit_spec() == connection_retry_limit,
    {
        Emulator { connection_retry_limit, ..self }
    }

    /// The number of connection attempts the client will make.
    pub fn retry_limit(&self) -> (r: usize)
        ensures
            r == self.retry_limit_spec(),
    {
        self.connection_retry_limit
    }
}

impl Emulator<NotReady, NotReady> {
    /// Returns a new builder for constructing an emulator.
    pub fn new() -> (e: Self)
        ensures
            e.project_spec() is None,
            e.instance_spec() is None,
            e.retry_limit_spec() == CLIENT_CONNECT_RETRY_DEFAULT,
    {
        Emulator {
            project: None,
            instance: None,
            connection_retry_limit: CLIENT_CONNECT_RETRY_DEFAULT,
            _project_state: core::marker::PhantomData,
            _instance_state: core::marker::PhantomData,
        }
    }
}

impl<I: State> Emulator<NotReady, I> {
    /// The GCP project name the emulator should use.
    pub fn project(self, project: String) -> (e: Emulator<Ready, I>)
        ensures
            e.project_spec() == Some(project@),
            e.instance_spec() == self.instance_spec(),
            e.retry_limit_spec() == self.retry_limit_spec(),
    {
        Emulator {
            project: Some(project),
            instance: self.instance,
            connection_retry_limit: self.connection_retry_limit,
            _project_state: core::marker::PhantomData,
            _instance_state: core::marker::PhantomData,
        }
    }
}

impl<P: State> Emulator<P, NotReady> {
    /// The Bigtable instance name the emulator should use.
    pub fn instance(self, instance: String) -> (e: Emulator<P, Ready>)
        ensures
            e.project_spec() == self.project_spec(),
            e.instance_spec() == Some(instance@),
            e.retry_limit_spec() == self.retry_limit_spec(),
    {
        Emulator {
            project: self.project,
            instance: Some(instance),
            connection_retry_limit: self.connection_retry_limit,
            _project_state: core::marker::PhantomData,
            _instance_state: core::marker::PhantomData,
        }
    }
}

impl Emulator<Ready, Ready> {
    /// The project name, the instance name and the number of connection attempts with which
    /// to start the emulator.
    pub fn into_settings(self) -> (r: (String, String, usize))
        requires
            self.project_spec() is Some,
            self.instance_spec() is Some,
        ensures
            Some(r.0@) == self.project_spec(),
            Some(r.1@) == self.instance_spec(),
            r.2 == self.retry_limit_spec(),
    {
        match (self.project, self.instance) {
            (Some(p), Some(i)) => (p, i, self.connection_retry_limit),
            _ => (String::new(), String::new(), self.connection_retry_limit),
        }
    }
}

} // verus!
