//! The response model: the closed set of outcomes a request can have.

use vstd::prelude::*;

verus! {

/// The outcome of one request, exactly one per request.
///
/// `Okay` acknowledges a successful write, `Nil` a read that found
/// nothing, `SimpleStr` a read that found a value, and `Error` any
/// failure, with a short machine-matchable kind and a human-readable
/// message.
#[derive(Debug)]
pub enum KVResponse {
    Okay,
    Nil,
    SimpleStr(String),
    Error(String, String),
}

} // verus!
