//! ZeroMQ TCP endpoint addresses.
use vstd::prelude::*;
use vstd::string::*;
use crate::decimal::{decimal, format_u64};

verus! {

/// `"tcp://<host>:<port>"`, as `format!("tcp://{}:{}", host, port)` gives it.
pub open spec fn endpoint_text(host: Seq<char>, port: u16) -> Seq<char> {
    "tcp://"@ + host + ":"@ + decimal(port as int)
}

/// The TCP endpoint of `host` and `port`.
pub fn tcp_endpoint(host: &str, port: u16) -> (e: String)
    ensures
        e@ == endpoint_text(host@, port),
{
    let mut e = String::from_str("tcp://");
    e.append(host);
    e.append(":");
    let p = format_u64(port as u64);
    e.append(p.as_str());
    e
}

} // verus!
