//! The dealer/router echo service: clients send numbered requests, a router
//! hands them to worker threads over an in-process dealer, and each worker
//! sends every request back to the client it came from.
use vstd::prelude::*;
use vstd::string::*;
use crate::decimal::{
    decimal, format_i64, integer_text, lemma_decimal_nonempty, lemma_decimal_round_trip, parse_usize,
    usize_text,
};
use crate::endpoint::{endpoint_text, tcp_endpoint};

verus! {

/// Port of the router.
pub const ROUTER_PORT: u16 = 5570;

/// The endpoint the router binds: `"tcp://*:5570"`.
pub fn router_bind_endpoint() -> (e: String)
    ensures
        e@ == endpoint_text("*"@, ROUTER_PORT),
{
    tcp_endpoint("*", ROUTER_PORT)
}

/// The endpoint clients connect to: `"tcp://localhost:5570"`.
pub fn router_client_endpoint() -> (e: String)
    ensures
        e@ == endpoint_text("localhost"@, ROUTER_PORT),
{
    tcp_endpoint("localhost", ROUTER_PORT)
}

/// The in-process endpoint between the router and its workers.
pub open spec fn backend_text() -> Seq<char> {
    "inproc://backend"@
}

/// The in-process endpoint between the router and its workers.
pub fn backend_endpoint() -> (e: String)
    ensures
        e@ == backend_text(),
{
    String::from_str("inproc://backend")
}

/// The number of workers the server starts, read from its argument as
/// `parse::<usize>()` reads it; `None` where the server gives up.
pub fn worker_count(arg: &str) -> (n: Option<usize>)
    ensures
        n == usize_text(arg@),
{
    parse_usize(arg)
}

/// The text of the `n`-th request: `"request #<n>"`.
pub open spec fn request_text(n: int) -> Seq<char> {
    "request #"@ + decimal(n)
}

/// The text of the `n`-th request is `"request #"` followed by a number
/// that reads back as `n`, for every `n`.
pub proof fn lemma_request_names_count(n: int)
    ensures
        request_text(n).len() > 9,
        request_text(n).take(9) == "request #"@,
        integer_text(request_text(n).skip(9), true) == Some(n),
{
    reveal_strlit("request #");
    lemma_decimal_round_trip(n);
    lemma_decimal_nonempty(n);
    assert(request_text(n).take(9) =~= "request #"@);
    assert(request_text(n).skip(9) =~= decimal(n));
}

/// A client's count of the requests it has sent.
pub struct RequestCounter {
    pub sent: i32,
}

impl RequestCounter {
    /// A client that has sent nothing.
    pub fn new() -> (c: RequestCounter)
        ensures
            c.sent == 0,
    {
        RequestCounter { sent: 0 }
    }

    /// Counts one more request and gives its text (`reqs += 1;
    /// format!("request #{}", reqs)`).
    pub fn next_request(&mut self) -> (m: String)
        requires
            old(self).sent < i32::MAX,
        ensures
            final(self).sent == old(self).sent + 1,
            m@ == request_text(final(self).sent as int),
            m@ == "request #"@ + decimal(final(self).sent as int),
    {
        self.sent = self.sent + 1;
        let mut m = String::from_str("request #");
        let n = format_i64(self.sent as i64);
        m.append(n.as_str());
        m
    }
}

/// A message frame and whether more frames of the same message follow.
pub struct Frame {
    pub data: Vec<u8>,
    pub more: bool,
}

/// Where a worker stands in the two-frame messages the router hands it.
pub enum WorkerState {
    /// Waiting for the frame that identifies the client.
    AwaitIdentity,
    /// Holding the client's identity, waiting for the request body.
    AwaitBody(Vec<u8>),
}

/// The abstract state of a worker: the identity it holds, if any.
pub open spec fn held_identity(s: WorkerState) -> Option<Seq<u8>> {
    match s {
        WorkerState::AwaitIdentity => None,
        WorkerState::AwaitBody(id) => Some(id@),
    }
}

/// What a worker does on a frame: the identity it holds afterwards, and
/// the reply it sends, as the identity and then the body.
pub open spec fn worker_next(held: Option<Seq<u8>>, frame: Seq<u8>) -> (
    Option<Seq<u8>>,
    Option<(Seq<u8>, Seq<u8>)>,
) {
    match held {
        None => (Some(frame), None),
        Some(id) => (None, Some((id, frame))),
    }
}

/// A worker receives `frame`: a first frame is the client's identity and is
/// held; the next is the body, and the worker replies with the identity
/// (more frames following) and then the body (the last frame).
pub fn worker_step(state: WorkerState, frame: Vec<u8>) -> (r: (WorkerState, Option<(Frame, Frame)>))
    ensures
        held_identity(r.0) == worker_next(held_identity(state), frame@).0,
        worker_next(held_identity(state), frame@).1 matches Some((id, body)) ==> r.1 matches Some(
            (f1, f2),
        ) && f1.data@ == id && f1.more && f2.data@ == body && !f2.more,
        worker_next(held_identity(state), frame@).1 is None ==> r.1 is None,
{
    match state {
        WorkerState::AwaitIdentity => (WorkerState::AwaitBody(frame), None),
        WorkerState::AwaitBody(id) => (
            WorkerState::AwaitIdentity,
            Some((Frame { data: id, more: true }, Frame { data: frame, more: false })),
        ),
    }
}

/// A worker that receives a client's identity and then a body sends back
/// that identity and that body, and is ready for the next request.
pub proof fn lemma_worker_echoes(id: Seq<u8>, body: Seq<u8>)
    ensures
        worker_next(None, id) == (Some(id), None::<(Seq<u8>, Seq<u8>)>),
        worker_next(worker_next(None, id).0, body) == (None::<Seq<u8>>, Some((id, body))),
{
}

} // verus!
