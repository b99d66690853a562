//! The oracle program's inbound instruction surface.
//!
//! An inbound buffer is routed by its leading byte: the reserved callback
//! determinant marks a response coming back from the off-chain worker, any
//! other value is read as a two-byte little-endian instruction tag, of which
//! only tag 0 (create a request) exists.

use vstd::prelude::*;
use vstd::slice::slice_subrange;

use crate::error::{DecodeError, OracleError};
use crate::request::{request_matches_bytes, spec_decode_request, spec_encode_request, Request,
    REQUEST_LEN};
use crate::response::{response_matches_bytes, spec_decode_response, spec_encode_response,
    Response, CALLBACK_DETERMINANT, RESPONSE_LEN};
use crate::Pubkey;

verus! {

/// Width of the little-endian instruction tag.
pub const INSTRUCTION_TAG_LEN: usize = 2;

/// Encoded width of a create-request instruction: the tag plus one request.
pub const CREATE_REQUEST_LEN: usize = INSTRUCTION_TAG_LEN + REQUEST_LEN;

/// One account a built instruction touches, and how.
#[derive(Clone, Copy, Debug, PartialEq, Eq)]
pub struct AccountMeta {
    pub pubkey: Pubkey,
    pub is_signer: bool,
    pub is_writable: bool,
}

/// A cross-program invocation ready to hand to the hosting runtime: the
/// program to call, the accounts it may touch, and its instruction data.
#[derive(Clone, Debug, PartialEq, Eq)]
pub struct Instruction {
    pub program_id: Pubkey,
    pub accounts: Vec<AccountMeta>,
    pub data: Vec<u8>,
}

/// Everything the oracle program can be asked to do.
#[derive(Clone, Copy, Debug, PartialEq, Eq)]
pub enum OracleInstruction {
    /// Queue a new request.  One writable account: the oracle to create the
    /// request for.
    CreateRequest { request: Request },
    /// Deliver the off-chain worker's answer for one queued request.
    HandleResponse(Response),
}

/// The wire form of an instruction.  A create-request is the two-byte tag 0
/// followed by the request; a response travels in its own encoding, whose
/// leading determinant byte can never equal a create-request tag's first
/// byte.
pub open spec fn spec_encode_instruction(ix: OracleInstruction) -> Seq<u8> {
    match ix {
        OracleInstruction::CreateRequest { request } => seq![0u8, 0u8] + spec_encode_request(
            request,
        ),
        OracleInstruction::HandleResponse(resp) => spec_encode_response(resp),
    }
}

/// Does decoding the buffer `s` give back `ix`?  Decoding reads only the
/// leading bytes it needs, so bytes past the fixed width are ignored.
pub open spec fn instruction_matches_bytes(ix: OracleInstruction, s: Seq<u8>) -> bool {
    match ix {
        OracleInstruction::CreateRequest { request } => {
            &&& s.len() >= CREATE_REQUEST_LEN
            &&& s[0] == 0u8
            &&& s[1] == 0u8
            &&& request_matches_bytes(request, s.subrange(2, CREATE_REQUEST_LEN as int))
        },
        OracleInstruction::HandleResponse(resp) => {
            &&& s.len() >= RESPONSE_LEN
            &&& response_matches_bytes(resp, s.subrange(0, RESPONSE_LEN as int))
        },
    }
}

/// The instruction a buffer decodes to, if any.
pub open spec fn spec_decode_instruction(s: Seq<u8>) -> Option<OracleInstruction> {
    if exists|ix: OracleInstruction| instruction_matches_bytes(ix, s) {
        Some(choose|ix: OracleInstruction| instruction_matches_bytes(ix, s))
    } else {
        None
    }
}

/// At most one instruction decodes from a given buffer: the determinant byte
/// keeps the two variants apart, and each variant's payload decodes
/// uniquely.
pub proof fn lemma_instruction_matches_unique(
    ix1: OracleInstruction,
    ix2: OracleInstruction,
    s: Seq<u8>,
)
    requires
        instruction_matches_bytes(ix1, s),
        instruction_matches_bytes(ix2, s),
    ensures
        ix1 == ix2,
{
    match (ix1, ix2) {
        (
            OracleInstruction::CreateRequest { request: r1 },
            OracleInstruction::CreateRequest { request: r2 },
        ) => {
            crate::request::lemma_request_matches_unique(
                r1,
                r2,
                s.subrange(2, CREATE_REQUEST_LEN as int),
            );
        },
        (OracleInstruction::HandleResponse(r1), OracleInstruction::HandleResponse(r2)) => {
            crate::response::lemma_response_matches_unique(
                r1,
                r2,
                s.subrange(0, RESPONSE_LEN as int),
            );
        },
        _ => {},
    }
}

/// Encoding an instruction gives a buffer that decodes back to it.
pub proof fn lemma_encode_instruction_matches(ix: OracleInstruction)
    ensures
        instruction_matches_bytes(ix, spec_encode_instruction(ix)),
{
    let s = spec_encode_instruction(ix);
    match ix {
        OracleInstruction::CreateRequest { request } => {
            crate::request::lemma_encode_request_matches(request);
            assert(s.subrange(2, CREATE_REQUEST_LEN as int) =~= spec_encode_request(request));
        },
        OracleInstruction::HandleResponse(resp) => {
            crate::response::lemma_encode_response_matches(resp);
            assert(s.subrange(0, RESPONSE_LEN as int) =~= spec_encode_response(resp));
        },
    }
}

/// Round trip: decoding the encoding of any instruction gives it back.
pub proof fn lemma_instruction_round_trip(ix: OracleInstruction)
    ensures
        spec_decode_instruction(spec_encode_instruction(ix)) == Some(ix),
{
    let s = spec_encode_instruction(ix);
    lemma_encode_instruction_matches(ix);
    let x = choose|x: OracleInstruction| instruction_matches_bytes(x, s);
    lemma_instruction_matches_unique(x, ix, s);
}

/// Each instruction variant encodes to one fixed width, whatever its
/// payload holds.
pub proof fn lemma_instruction_encoding_len(ix: OracleInstruction)
    ensures
        match ix {
            OracleInstruction::CreateRequest { .. } => spec_encode_instruction(ix).len()
                == CREATE_REQUEST_LEN,
            OracleInstruction::HandleResponse(_) => spec_encode_instruction(ix).len()
                == RESPONSE_LEN,
        },
{
}

/// No create-request tag collides with the callback determinant: an encoded
/// instruction leads with the determinant exactly when it carries a
/// response.
pub proof fn lemma_determinant_marks_callback(ix: OracleInstruction)
    ensures
        spec_encode_instruction(ix).len() > 0,
        (spec_encode_instruction(ix)[0] == CALLBACK_DETERMINANT) <==> (ix matches
            OracleInstruction::HandleResponse(_)),
{
}

impl OracleInstruction {
    /// Encode this instruction as the bytes put on the wire.
    pub fn encode(&self) -> (r: Vec<u8>)
        ensures
            r@ == spec_encode_instruction(*self),
    {
        match self {
            OracleInstruction::CreateRequest { request } => {
                let mut out: Vec<u8> = Vec::new();
                out.push(0u8);
                out.push(0u8);
                let enc = request.encode();
                crate::bytes::append_bytes(&mut out, enc.as_slice());
                proof {
                    assert(out@ =~= spec_encode_instruction(*self));
                }
                out
            },
            OracleInstruction::HandleResponse(resp) => resp.encode(),
        }
    }

    /// Read the instruction at the head of `instruction_data`.
    ///
    /// A buffer of fewer than two bytes, or one whose leading tag is neither
    /// the callback determinant nor a known instruction tag, fails with
    /// [`OracleError::InvalidInstructionData`]; a recognized tag whose
    /// payload is short or malformed fails with the codec's own error.
    pub fn unpack(instruction_data: &[u8]) -> (r: Result<OracleInstruction, OracleError>)
        ensures
            match r {
                Ok(ix) => {
                    &&& instruction_matches_bytes(ix, instruction_data@)
                    &&& Some(ix) == spec_decode_instruction(instruction_data@)
                },
                Err(OracleError::InvalidInstructionData) => instruction_data@.len() < 2 || (
                instruction_data@[0] != CALLBACK_DETERMINANT && !(instruction_data@[0] == 0u8
                    && instruction_data@[1] == 0u8)),
                Err(OracleError::Decode(DecodeError::Truncated)) => {
                    &&& instruction_data@.len() >= 2
                    &&& if instruction_data@[0] == CALLBACK_DETERMINANT {
                        instruction_data@.len() < RESPONSE_LEN
                    } else {
                        &&& instruction_data@[0] == 0u8
                        &&& instruction_data@[1] == 0u8
                        &&& instruction_data@.len() < CREATE_REQUEST_LEN
                    }
                },
                Err(OracleError::Decode(DecodeError::UnknownVariant)) => {
                    &&& instruction_data@.len() >= CREATE_REQUEST_LEN
                    &&& instruction_data@[0] == 0u8
                    &&& instruction_data@[1] == 0u8
                    &&& spec_decode_request(
                        instruction_data@.subrange(2, CREATE_REQUEST_LEN as int),
                    ) == None::<Request>
                },
                Err(_) => false,
            },
    {
        if instruction_data.len() < 2 {
            return Err(OracleError::InvalidInstructionData);
        }
        if instruction_data[0] == CALLBACK_DETERMINANT {
            match Response::unpack_from_slice(instruction_data) {
                Ok(resp) => {
                    let ix = OracleInstruction::HandleResponse(resp);
                    proof {
                        assert(instruction_matches_bytes(ix, instruction_data@));
                        let x = choose|x: OracleInstruction|
                            instruction_matches_bytes(x, instruction_data@);
                        lemma_instruction_matches_unique(x, ix, instruction_data@);
                    }
                    Ok(ix)
                },
                Err(e) => Err(OracleError::Decode(e)),
            }
        } else if instruction_data[1] == 0 && instruction_data[0] == 0 {
            if instruction_data.len() < CREATE_REQUEST_LEN {
                return Err(OracleError::Decode(DecodeError::Truncated));
            }
            let payload = slice_subrange(instruction_data, 2, CREATE_REQUEST_LEN);
            proof {
                assert(payload@.subrange(0, REQUEST_LEN as int) =~= instruction_data@.subrange(
                    2,
                    CREATE_REQUEST_LEN as int,
                ));
            }
            match Request::unpack_from_slice(payload) {
                Ok(request) => {
                    let ix = OracleInstruction::CreateRequest { request };
                    proof {
                        assert(instruction_matches_bytes(ix, instruction_data@));
                        let x = choose|x: OracleInstruction|
                            instruction_matches_bytes(x, instruction_data@);
                        lemma_instruction_matches_unique(x, ix, instruction_data@);
                    }
                    Ok(ix)
                },
                Err(_) => Err(OracleError::Decode(DecodeError::UnknownVariant)),
            }
        } else {
            Err(OracleError::InvalidInstructionData)
        }
    }
}

/// Build the create-request invocation a client sends to the oracle
/// program: one writable account (the oracle), and the encoded instruction
/// as data.
pub fn create_request(oracle_program_id: &Pubkey, oracle_id: &Pubkey, request: Request) -> (r:
    Result<Instruction, OracleError>)
    ensures
        match r {
            Ok(ix) => {
                &&& ix.program_id == *oracle_program_id
                &&& ix.accounts@.len() == 1
                &&& ix.accounts@[0] == (AccountMeta {
                    pubkey: *oracle_id,
                    is_signer: false,
                    is_writable: true,
                })
                &&& ix.data@ == spec_encode_instruction(
                    OracleInstruction::CreateRequest { request },
                )
            },
            Err(_) => false,
        },
{
    let mut accounts: Vec<AccountMeta> = Vec::new();
    accounts.push(AccountMeta { pubkey: *oracle_id, is_signer: false, is_writable: true });
    let data = (OracleInstruction::CreateRequest { request }).encode();
    Ok(Instruction { program_id: *oracle_program_id, accounts, data })
}

} // verus!
