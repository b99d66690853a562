//! An on-chain oracle mailbox: a request/response protocol over fixed-layout
//! byte buffers.
//!
//! A consumer program asks the oracle to run a three-step off-chain data
//! pipeline (fetch, parse, coerce) and later receives the numeric result
//! through an asynchronous callback.  Everything that crosses the wire or
//! rests in an account is a fixed-width byte encoding, and many in-flight
//! requests share one account buffer through a fixed table of slots.
//!
//! The library holds the codecs, the slot table, and the instruction
//! dispatcher as verified code over plain bytes; the hosting runtime
//! (account lookup, the cross-program invocation itself) stays outside.

pub mod bytes;
pub mod client;
pub mod error;
pub mod instruction;
pub mod oracle_account;
pub mod processor;
pub mod request;
pub mod response;

use vstd::prelude::*;

verus! {

/// Length in bytes of a program identifier.
pub const PUBLIC_KEY_LEN: usize = 32;

/// A program identifier: the address a cross-program invocation is sent to.
///
/// The hosting runtime has its own richer key type; the core only ever
/// stores and forwards the raw 32 bytes, so that is all it keeps.
#[derive(Clone, Copy, Debug, PartialEq, Eq)]
pub struct Pubkey {
    pub bytes: [u8; 32],
}

impl Pubkey {
    /// Wrap the raw 32 bytes of a program identifier.
    pub fn new_from_array(bytes: [u8; 32]) -> (r: Pubkey)
        ensures
            r.bytes == bytes,
    {
        Pubkey { bytes }
    }
}

} // verus!
