//! The request/reply client: it sends `"Hello"` nine times and waits for a
//! reply after each.
use vstd::prelude::*;
use vstd::string::*;
use crate::endpoint::{endpoint_text, tcp_endpoint};

verus! {

/// How many requests the client sends (`for request in 1..10`).
pub const HELLO_ROUNDS: u32 = 9;

/// Port of the hello server.
pub const HELLO_PORT: u16 = 5555;

/// The endpoint the client connects to: `"tcp://localhost:5555"`.
pub fn hello_endpoint() -> (e: String)
    ensures
        e@ == endpoint_text("localhost"@, HELLO_PORT),
{
    tcp_endpoint("localhost", HELLO_PORT)
}

/// The request the client sends.
pub open spec fn hello_text() -> Seq<char> {
    "Hello"@
}

/// The request the client sends.
pub fn hello_request() -> (m: String)
    ensures
        m@ == hello_text(),
{
    String::from_str("Hello")
}

} // verus!
