use vstd::prelude::*;

pub mod body;
pub mod clock;
pub mod config;
pub mod connection;
pub mod delivery;
pub mod head;
pub mod headers;
pub mod http;
pub mod middleware;
pub mod parser;
pub mod retry;
pub mod router;
pub mod server;
pub mod text;
pub mod threadpool;
pub mod writer;

verus! {

} // verus!
