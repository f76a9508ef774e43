//! A small static-file HTTP/1.1 server core: request-line parsing, sandboxed
//! path resolution, content-type classification, response rendering and
//! directory listings, with the connection-handling decisions written as
//! steps that a transport drives.
use vstd::prelude::*;

pub mod bytes;
pub mod content_type;
pub mod dispatch;
pub mod listing;
pub mod request;
pub mod resolve;
pub mod response;

verus! {

} // verus!
