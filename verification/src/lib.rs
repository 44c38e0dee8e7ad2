//! Message formats, parsers and decisions of a family of ZeroMQ messaging
//! programs: request/reply, publish/subscribe weather updates, push/pull
//! status reports, a dealer/router echo service and a peer-to-peer chat
//! with a name server.

pub mod chat;
pub mod dealer;
pub mod decimal;
pub mod endpoint;
pub mod reqrep;
pub mod rng;
pub mod status;
pub mod text;
pub mod weather;
