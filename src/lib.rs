//! A small HTTP/1.1 server core: request-line parsing, a first-match route
//! registry, response assembly and the error-normalising dispatch policy.
use vstd::prelude::*;

pub mod dispatch;
pub mod error;
pub mod request;
pub mod response;
pub mod routes;
pub mod server;
pub mod text;
pub mod verb;

verus! {

} // verus!
