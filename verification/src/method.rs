use vstd::prelude::*;

verus! {

/// The HTTP verbs the router distinguishes. A route is registered for one
/// verb and matches only requests made with that verb.
#[derive(Clone, Copy, PartialEq, Eq, Structural, Debug)]
pub enum Method {
    Get,
    Post,
    Put,
    Delete,
    Head,
    Options,
    Connect,
    Patch,
    Trace,
}

/// The protocol version a request was made with, as reported by the
/// transport. The dispatch core only carries it; handlers may extract it.
#[derive(Clone, Copy, PartialEq, Eq, Structural, Debug)]
pub enum HttpVersion {
    Http09,
    Http10,
    Http11,
    H2,
    H3,
}

} // verus!
