//! The mode of the code generator for the gRPC APIs: whether it emits clients or servers.
use vstd::prelude::*;

verus! {

/// What the code generator builds.
#[derive(Debug, Clone, Copy, PartialEq, Eq, Structural)]
pub enum Mode {
    /// Client stubs.
    Client,
    /// Server traits.
    Server,
}

impl Mode {
    /// Parses a mode: exactly `client` or `server`; anything else is refused with the list of
    /// possible values.
    pub fn parse(s: &str) -> (r: Result<Mode, &'static str>)
        ensures
            s@ == "client"@ ==> r == Ok::<Mode, &'static str>(Mode::Client),
            s@ == "server"@ ==> r == Ok::<Mode, &'static str>(Mode::Server),
            s@ != "client"@ && s@ != "server"@ ==> (r matches Err(m) && m@
                == "possible values are 'client' or 'server'"@),
    {
        let client = "client";
        let server = "server";
        proof {
            reveal_strlit("client");
            reveal_strlit("server");
            assert(client@[0] != server@[0]);
        }
        if crate::text::str_eq(s, client) {
            Ok(Mode::Client)
        } else if crate::text::str_eq(s, server) {
            Ok(Mode::Server)
        } else {
            Err("possible values are 'client' or 'server'")
        }
    }

    /// Whether client stubs are built.
    pub fn should_build_client(&self) -> (r: bool)
        ensures
            r == (*self is Client),
    {
        matches!(self, Mode::Client)
    }

    /// Whether server traits are built.
    pub fn should_build_server(&self) -> (r: bool)
        ensures
            r == (*self is Server),
    {
        matches!(self, Mode::Server)
    }
}

impl core::str::FromStr for Mode {
    type Err = &'static str;

    fn from_str(s: &str) -> (r: Result<Self, Self::Err>)
        ensures
            s@ == "client"@ ==> r == Ok::<Mode, &'static str>(Mode::Client),
            s@ == "server"@ ==> r == Ok::<Mode, &'static str>(Mode::Server),
            s@ != "client"@ && s@ != "server"@ ==> (r matches Err(m) && m@
                == "possible values are 'client' or 'server'"@),
    {
        Mode::parse(s)
    }
}


} // verus!
