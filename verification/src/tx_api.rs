//! Plain transaction-submission API shapes. The HTTPS handlers that carry
//! them live with the caller; the shapes and their trivial constructions
//! are the library's.

use vstd::prelude::*;

verus! {

/// A raw transaction submitted over the API.
#[derive(PartialEq, Eq, Clone, Debug)]
pub struct TxRequest {
    /// The raw transaction bytes.
    pub tx: Vec<u8>,
}

impl TxRequest {
    /// Wraps raw transaction bytes.
    pub fn new(tx: Vec<u8>) -> (r: TxRequest)
        ensures
            r.tx@ == tx@,
    {
        TxRequest { tx }
    }
}

/// A transaction looked up over the API.
#[derive(PartialEq, Eq, Clone, Debug)]
pub struct TxResponse {
    /// The raw transaction bytes; empty when nothing was found.
    pub tx: Vec<u8>,
}

impl TxResponse {
    /// The response for a transaction that was not found.
    pub fn empty() -> (r: TxResponse)
        ensures
            r.tx@.len() == 0,
    {
        TxResponse { tx: Vec::new() }
    }
}

} // verus!
