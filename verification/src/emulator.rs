//! Shared settings of the emulators of GCP services, and the addresses, command lines and
//! process patterns used to run them.
use vstd::prelude::*;

use crate::text::concat_strs;

verus! {

/// The host on which emulators listen.
pub const HOST: &'static str = "localhost";

/// The number of attempts made to start the emulator command.
pub const CLI_RETRY: usize = 100;

/// The default number of attempts made to connect to a started emulator.
pub const CLIENT_CONNECT_RETRY_DEFAULT: usize = 50;

/// The lowest port tried for an emulator.
pub const PORT_RANGE_START: usize = 8000;

/// One past the highest port tried for an emulator.
pub const PORT_RANGE_END: usize = 12000;

/// The states of an emulator builder.
pub trait State {
}

/// A builder setting that has not been given yet (a marker type; no value of it is made).
pub struct NotReady;

impl State for NotReady {
}

/// A builder setting that has been given (a marker type; no value of it is made).
pub struct Ready;

impl State for Ready {
}

/// The checks of whether a started emulator answers: at most `limit` of them, 100ms apart.
/// The emulator is taken as available once a check succeeds, or when no check is allowed at
/// all; it is given up on when all the allowed checks have failed.
pub struct ConnectAttempts {
    made: usize,
    limit: usize,
}

impl ConnectAttempts {
    /// The number of failed checks so far.
    pub closed spec fn made_spec(&self) -> nat {
        self.made as nat
    }

    /// The number of checks allowed.
    pub closed spec fn limit_spec(&self) -> nat {
        self.limit as nat
    }

    /// No check made yet, `limit` allowed.
    pub fn new(limit: usize) -> (a: Self)
        ensures
            a.made_spec() == 0,
            a.limit_spec() == limit,
    {
        ConnectAttempts { made: 0, limit }
    }

    /// Whether another check is to be made: fewer than the allowed number have failed.
    pub fn check_again(&self) -> (r: bool)
        ensures
            r == (self.made_spec() < self.limit_spec()),
    {
        self.made < self.limit
    }

    /// Record a failed check; the caller waits 100ms before the next one.
    pub fn failed(&mut self)
        requires
            old(self).made_spec() < old(self).limit_spec(),
        ensures
            final(self).made_spec() == old(self).made_spec() + 1,
            final(self).limit_spec() == old(self).limit_spec(),
    {
        self.made = self.made + 1;
    }

    /// Whether the emulator is given up on, once no check is to be made: some checks were
    /// allowed and all of them failed.
    pub fn gave_up(&self) -> (r: bool)
        ensures
            r == (self.limit_spec() > 0 && self.made_spec() >= self.limit_spec()),
    {
        self.limit > 0 && self.made >= self.limit
    }
}

fn join(pieces: &[&str]) -> (r: String)
    ensures
        r@ == pieces@.map_values(|p: &str| p@).fold_left(
            Seq::<char>::empty(),
            |acc: Seq<char>, p: Seq<char>| acc + p,
        ),
{
    concat_strs(pieces)
}

/// The endpoint at which an emulator on the given port listens for requests,
/// `http://localhost:{port}/v1`.
pub fn endpoint(port: &str) -> (r: String)
    ensures
        r@ == "http://"@ + HOST@ + ":"@ + port@ + "/v1"@,
{
    let pieces = ["http://", HOST, ":", port, "/v1"];
    let r = join(&pieces);
    proof {
        reveal_with_fuel(Seq::fold_left, 6);
        let v = pieces@.map_values(|p: &str| p@);
        assert(v =~= seq!["http://"@, HOST@, ":"@, port@, "/v1"@]);
        assert(v.drop_last().drop_last().drop_last().drop_last().drop_last() =~= Seq::<
            Seq<char>,
        >::empty());
    }
    r
}

/// The address at which to check whether an emulator has started, `http://localhost:{port}`.
pub fn connect_address(port: &str) -> (r: String)
    ensures
        r@ == "http://"@ + HOST@ + ":"@ + port@,
{
    let pieces = ["http://", HOST, ":", port];
    let r = join(&pieces);
    proof {
        reveal_with_fuel(Seq::fold_left, 5);
        let v = pieces@.map_values(|p: &str| p@);
        assert(v =~= seq!["http://"@, HOST@, ":"@, port@]);
        assert(v.drop_last().drop_last().drop_last().drop_last() =~= Seq::<Seq<char>>::empty());
    }
    r
}

/// The address on which an emulator is told to listen, `localhost:{port}`.
pub fn host_port(port: &str) -> (r: String)
    ensures
        r@ == HOST@ + ":"@ + port@,
{
    let pieces = [HOST, ":", port];
    let r = join(&pieces);
    proof {
        reveal_with_fuel(Seq::fold_left, 4);
        let v = pieces@.map_values(|p: &str| p@);
        assert(v =~= seq![HOST@, ":"@, port@]);
        assert(v.drop_last().drop_last().drop_last() =~= Seq::<Seq<char>>::empty());
    }
    r
}

/// The pattern matching the command lines of emulator processes of the given kind listening
/// on the given port, `.*{kind}.*--port={port}.*`, used to stop them.
pub fn kill_pattern(kind: &str, port: &str) -> (r: String)
    ensures
        r@ == ".*"@ + kind@ + ".*--port="@ + port@ + ".*"@,
{
    let pieces = [".*", kind, ".*--port=", port, ".*"];
    let r = join(&pieces);
    proof {
        reveal_with_fuel(Seq::fold_left, 6);
        let v = pieces@.map_values(|p: &str| p@);
        assert(v =~= seq![".*"@, kind@, ".*--port="@, port@, ".*"@]);
        assert(v.drop_last().drop_last().drop_last().drop_last().drop_last() =~= Seq::<
            Seq<char>,
        >::empty());
    }
    r
}

} // verus!
