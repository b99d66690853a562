//! The persisted payload of one oracle account.

use vstd::prelude::*;

use crate::error::OracleError;
use crate::request::{queue_bytes_valid, slot_packed, RequestQueue, REQUEST_QUEUE_LEN,
    REQUEST_QUEUE_SIZE};

verus! {

/// The entire data buffer stored for each oracle, isomorphic to its request
/// queue.
#[derive(Clone, Debug, PartialEq, Eq)]
pub struct OracleAccount {
    pub request_queue: RequestQueue,
}

impl OracleAccount {
    /// An account value always holds a well-formed queue.
    pub open spec fn wf(self) -> bool {
        self.request_queue.wf()
    }

    /// Does this account value read back from the buffer `s`?
    pub open spec fn matches_bytes(self, s: Seq<u8>) -> bool {
        self.request_queue.matches_bytes(s)
    }

    /// Decode a whole account buffer.
    pub fn unpack_from_slice(src: &[u8]) -> (r: Result<OracleAccount, OracleError>)
        ensures
            match r {
                Ok(a) => queue_bytes_valid(src@) && a.matches_bytes(src@),
                Err(e) => e == OracleError::InvalidAccountData && !queue_bytes_valid(src@),
            },
    {
        let request_queue = RequestQueue::unpack_from_slice(src)?;
        Ok(OracleAccount { request_queue })
    }

    /// Write this account value over the buffer `dst`, slot by slot.
    pub fn pack_into_slice(&self, dst: &mut Vec<u8>)
        requires
            self.wf(),
            old(dst)@.len() == REQUEST_QUEUE_LEN,
        ensures
            final(dst)@.len() == REQUEST_QUEUE_LEN,
            forall|i: int|
                0 <= i < REQUEST_QUEUE_SIZE ==> #[trigger] slot_packed(
                    self.request_queue.requests@.index(i),
                    old(dst)@,
                    final(dst)@,
                    i,
                ),
    {
        self.request_queue.pack_into_slice(dst);
    }
}

} // verus!
