//! The oracle's answer to one queued request.

use vstd::prelude::*;

use crate::bytes::{append_bytes, write_bytes_at};
use crate::error::DecodeError;
use crate::request::{RequestIndex, REQUEST_INDEX_SIZE};

verus! {

/// Width of the numeric result payload.
pub const RESPONSE_DATA_LEN: usize = 16;

/// Width of the callback determinant prefix.
pub const CALLBACK_DETERMINANT_LEN: usize = 1;

/// The reserved leading tag value that marks inbound data as an asynchronous
/// callback.  It lies outside the range of normal instruction tags, so a
/// callback can never be mistaken for one.
pub const CALLBACK_DETERMINANT: u8 = 255;

/// Encoded width of a response: the determinant prefix, the result payload,
/// and the slot index byte.
pub const RESPONSE_LEN: usize = CALLBACK_DETERMINANT_LEN + RESPONSE_DATA_LEN
    + REQUEST_INDEX_SIZE;

/// A pipeline's final numeric result plus the queue slot it answers.
#[derive(Clone, Copy, Debug, PartialEq, Eq)]
pub struct Response {
    /// The 16-byte little-endian numeric result.
    pub data: [u8; 16],
    /// The queue slot of the request this response answers.
    pub request_queue_index: RequestIndex,
}

/// The 18-byte encoding of a response: determinant, payload, slot index.
pub open spec fn spec_encode_response(r: Response) -> Seq<u8> {
    seq![CALLBACK_DETERMINANT] + r.data@ + seq![r.request_queue_index]
}

/// Does decoding the 18-byte buffer `s` give back `r`?
pub open spec fn response_matches_bytes(r: Response, s: Seq<u8>) -> bool
    recommends
        s.len() == RESPONSE_LEN,
{
    &&& s[0] == CALLBACK_DETERMINANT
    &&& r.data@ == s.subrange(1, 17)
    &&& r.request_queue_index == s[17]
}

/// The response an 18-byte buffer decodes to, if any.
pub open spec fn spec_decode_response(s: Seq<u8>) -> Option<Response> {
    if exists|r: Response| response_matches_bytes(r, s) {
        Some(choose|r: Response| response_matches_bytes(r, s))
    } else {
        None
    }
}

/// At most one response decodes from a given buffer.
pub proof fn lemma_response_matches_unique(r1: Response, r2: Response, s: Seq<u8>)
    requires
        response_matches_bytes(r1, s),
        response_matches_bytes(r2, s),
    ensures
        r1 == r2,
{
    assert(r1.data =~= r2.data);
}

/// Encoding a response gives a buffer that decodes back to it.
pub proof fn lemma_encode_response_matches(r: Response)
    ensures
        spec_encode_response(r).len() == RESPONSE_LEN,
        response_matches_bytes(r, spec_encode_response(r)),
{
    let s = spec_encode_response(r);
    assert(r.data@ =~= s.subrange(1, 17));
}

/// Round trip: decoding the encoding of any response gives that response
/// back.
pub proof fn lemma_response_round_trip(r: Response)
    ensures
        spec_decode_response(spec_encode_response(r)) == Some(r),
{
    let s = spec_encode_response(r);
    lemma_encode_response_matches(r);
    let x = choose|x: Response| response_matches_bytes(x, s);
    lemma_response_matches_unique(x, r, s);
}

impl Response {
    /// Encode this response as its 18-byte wire form, determinant first.
    pub fn encode(&self) -> (r: Vec<u8>)
        ensures
            r@ == spec_encode_response(*self),
            r@.len() == RESPONSE_LEN,
    {
        let mut out: Vec<u8> = Vec::new();
        out.push(CALLBACK_DETERMINANT);
        append_bytes(&mut out, self.data.as_slice());
        out.push(self.request_queue_index);
        proof {
            assert(out@ =~= spec_encode_response(*self));
        }
        out
    }

    /// Write this response's 18 encoded bytes into `dst` at `offset`.
    pub fn pack_into_slice(&self, dst: &mut Vec<u8>, offset: usize)
        requires
            offset + RESPONSE_LEN <= old(dst)@.len(),
        ensures
            final(dst)@.len() == old(dst)@.len(),
            final(dst)@.subrange(offset as int, offset + RESPONSE_LEN) == spec_encode_response(
                *self,
            ),
            forall|k: int|
                0 <= k < final(dst)@.len() && !(offset <= k < offset + RESPONSE_LEN)
                    ==> final(dst)@[k] == old(dst)@[k],
    {
        let encoded = self.encode();
        write_bytes_at(dst, offset, encoded.as_slice());
        proof {
            assert(dst@.subrange(offset as int, offset + RESPONSE_LEN) =~= encoded@);
        }
    }

    /// Read one response from `src`, which must start with its 18 encoded
    /// bytes.
    ///
    /// A short buffer fails with [`DecodeError::Truncated`]; a leading byte
    /// other than the callback determinant fails with
    /// [`DecodeError::UnknownVariant`].
    pub fn unpack_from_slice(src: &[u8]) -> (r: Result<Response, DecodeError>)
        ensures
            match r {
                Ok(resp) => {
                    &&& src@.len() >= RESPONSE_LEN
                    &&& response_matches_bytes(resp, src@.subrange(0, RESPONSE_LEN as int))
                    &&& Some(resp) == spec_decode_response(src@.subrange(0, RESPONSE_LEN as int))
                },
                Err(DecodeError::Truncated) => src@.len() < RESPONSE_LEN,
                Err(DecodeError::UnknownVariant) => {
                    &&& src@.len() >= RESPONSE_LEN
                    &&& src@[0] != CALLBACK_DETERMINANT
                    &&& spec_decode_response(src@.subrange(0, RESPONSE_LEN as int)) == None::<
                        Response,
                    >
                },
            },
    {
        if src.len() < RESPONSE_LEN {
            return Err(DecodeError::Truncated);
        }
        let ghost sub = src@.subrange(0, RESPONSE_LEN as int);
        if src[0] != CALLBACK_DETERMINANT {
            proof {
                assert(forall|x: Response| !response_matches_bytes(x, sub));
            }
            return Err(DecodeError::UnknownVariant);
        }
        let data: [u8; 16] = crate::bytes::read_array(src, 1);
        let resp = Response { data, request_queue_index: src[17] };
        proof {
            assert(data@ =~= sub.subrange(1, 17));
            assert(response_matches_bytes(resp, sub));
            let x = choose|x: Response| response_matches_bytes(x, sub);
            lemma_response_matches_unique(x, resp, sub);
        }
        Ok(resp)
    }
}

} // verus!
