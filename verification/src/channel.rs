//! Response channels.

use vstd::prelude::*;

verus! {

/// The handle on which one client request is answered.
///
/// A channel cannot be copied: whoever answers it gives it away with the
/// answer, so no channel is answered twice.
#[derive(Debug, PartialEq, Eq)]
pub struct ResponseChannel {
    pub id: u64,
}

impl ResponseChannel {
    /// The channel of the request with the number `id`.
    pub fn new(id: u64) -> (ch: ResponseChannel)
        ensures
            ch.id == id,
    {
        ResponseChannel { id }
    }
}

} // verus!
