//! The instruction dispatcher: the only code that mutates an account
//! buffer.
//!
//! Each invocation decodes one inbound instruction and either queues a new
//! request into the first empty slot, or answers a queued request: clear its
//! slot, and hand back the callback invocation to send to the request's
//! consumer.  Every failure leaves the account buffer exactly as it was.

use vstd::prelude::*;
use vstd::slice::slice_subrange;

use crate::error::{DecodeError, OracleError};
use crate::instruction::{spec_decode_instruction, Instruction, OracleInstruction,
    CREATE_REQUEST_LEN};
use crate::request::{queue_bytes_valid, slot_bytes, spec_clear_slot, spec_decode_request,
    spec_encode_request, spec_first_empty, spec_slot_empty, spec_store_slot, Request,
    RequestQueue, REQUEST_LEN, REQUEST_QUEUE_LEN, REQUEST_QUEUE_SIZE};
use crate::response::{spec_encode_response, Response, CALLBACK_DETERMINANT, RESPONSE_LEN};

verus! {

/// What a successful create-request did to the account buffer: the request,
/// stamped with the first empty slot's index, now sits in that slot and
/// nothing else moved.
pub open spec fn create_request_applied(s_old: Seq<u8>, s_new: Seq<u8>, request: Request) -> bool {
    &&& queue_bytes_valid(s_old)
    &&& spec_first_empty(s_old) matches Some(i) && s_new == spec_store_slot(
        s_old,
        i,
        spec_encode_request(Request { index: i as u8, ..request }),
    )
}

/// What a successful handle-response did: the answered slot is cleared, and
/// the returned invocation carries the encoded response to the callback
/// program the cleared request named, with no accounts attached.
pub open spec fn handle_response_applied(
    s_old: Seq<u8>,
    s_new: Seq<u8>,
    response: Response,
    ix: Instruction,
) -> bool {
    let i = response.request_queue_index as int;
    &&& 0 <= i < REQUEST_QUEUE_SIZE
    &&& s_old.len() == REQUEST_QUEUE_LEN
    &&& !spec_slot_empty(s_old, i)
    &&& spec_decode_request(slot_bytes(s_old, i)) matches Some(req) && ix.program_id
        == req.call_back_program
    &&& s_new == spec_clear_slot(s_old, i)
    &&& ix.accounts@.len() == 0
    &&& ix.data@ == spec_encode_response(response)
}

/// The top-level state machine over one account buffer.
pub struct Processor {}

impl Processor {
    /// Queue `request` into the first empty slot of the account.
    ///
    /// Fails with [`OracleError::InvalidAccountData`] when the buffer does
    /// not read back as a queue, and with [`OracleError::QueueFull`] when no
    /// slot is empty; either way the buffer is left unchanged.
    pub fn process_create_request(account_data: &mut Vec<u8>, request: Request) -> (r: Result<
        (),
        OracleError,
    >)
        ensures
            match r {
                Ok(_) => create_request_applied(old(account_data)@, final(account_data)@, request),
                Err(OracleError::InvalidAccountData) => {
                    &&& !queue_bytes_valid(old(account_data)@)
                    &&& final(account_data)@ == old(account_data)@
                },
                Err(OracleError::QueueFull) => {
                    &&& queue_bytes_valid(old(account_data)@)
                    &&& spec_first_empty(old(account_data)@) == None::<int>
                    &&& final(account_data)@ == old(account_data)@
                },
                Err(_) => false,
            },
    {
        match RequestQueue::unpack_from_slice(account_data.as_slice()) {
            Ok(_) => {},
            Err(_) => {
                return Err(OracleError::InvalidAccountData);
            },
        }
        match RequestQueue::insert(account_data, request) {
            Ok(_) => Ok(()),
            Err(e) => Err(e),
        }
    }

    /// Answer the request queued in the slot `response` names: clear the
    /// slot and build the callback invocation for the request's consumer.
    ///
    /// A slot index out of range fails with
    /// [`OracleError::InvalidInstructionData`]; a buffer of the wrong
    /// length, an empty slot, or a slot that does not decode fails with
    /// [`OracleError::InvalidAccountData`].  Every failure leaves the buffer
    /// unchanged.
    pub fn process_handle_response(account_data: &mut Vec<u8>, response: Response) -> (r: Result<
        Instruction,
        OracleError,
    >)
        ensures
            match r {
                Ok(ix) => handle_response_applied(
                    old(account_data)@,
                    final(account_data)@,
                    response,
                    ix,
                ),
                Err(OracleError::InvalidInstructionData) => {
                    &&& response.request_queue_index >= REQUEST_QUEUE_SIZE
                    &&& final(account_data)@ == old(account_data)@
                },
                Err(OracleError::InvalidAccountData) => {
                    &&& response.request_queue_index < REQUEST_QUEUE_SIZE
                    &&& final(account_data)@ == old(account_data)@
                    &&& {
                        ||| old(account_data)@.len() != REQUEST_QUEUE_LEN
                        ||| spec_slot_empty(
                            old(account_data)@,
                            response.request_queue_index as int,
                        )
                        ||| spec_decode_request(
                            slot_bytes(old(account_data)@, response.request_queue_index as int),
                        ) is None
                    }
                },
                Err(_) => false,
            },
    {
        let idx = response.request_queue_index as usize;
        if idx >= REQUEST_QUEUE_SIZE {
            return Err(OracleError::InvalidInstructionData);
        }
        if account_data.len() != REQUEST_QUEUE_LEN {
            return Err(OracleError::InvalidAccountData);
        }
        proof {
            // expose the constant's value, so the slot-offset product below
            // stays linear for the solver
            assert(REQUEST_LEN == 141);
        }
        let offset = idx * REQUEST_LEN;
        let slot = slice_subrange(account_data.as_slice(), offset, offset + REQUEST_LEN);
        proof {
            assert(slot@ =~= slot_bytes(account_data@, idx as int));
        }
        if Request::is_empty_buffer(slot) {
            return Err(OracleError::InvalidAccountData);
        }
        let req = match Request::unpack_from_slice(slot) {
            Ok(req) => req,
            Err(_) => {
                proof {
                    assert(slot@.subrange(0, REQUEST_LEN as int) =~= slot@);
                }
                return Err(OracleError::InvalidAccountData);
            },
        };
        proof {
            assert(slot@.subrange(0, REQUEST_LEN as int) =~= slot@);
        }
        RequestQueue::remove(account_data, idx);
        let data = response.encode();
        let ix = Instruction {
            program_id: req.call_back_program,
            accounts: Vec::new(),
            data,
        };
        Ok(ix)
    }

    /// Decode one inbound instruction and run it against the account buffer.
    ///
    /// A create-request returns no outbound invocation; a handle-response
    /// returns the one callback invocation to issue.  Whatever fails, the
    /// buffer is left as it was.
    pub fn process(account_data: &mut Vec<u8>, input: &[u8]) -> (r: Result<
        Option<Instruction>,
        OracleError,
    >)
        ensures
            match r {
                Ok(out) => {
                    &&& spec_decode_instruction(input@) matches Some(ix) && match ix {
                        OracleInstruction::CreateRequest { request } => out is None
                            && create_request_applied(
                            old(account_data)@,
                            final(account_data)@,
                            request,
                        ),
                        OracleInstruction::HandleResponse(resp) => out matches Some(iv)
                            && handle_response_applied(
                            old(account_data)@,
                            final(account_data)@,
                            resp,
                            iv,
                        ),
                    }
                },
                Err(e) => {
                    &&& final(account_data)@ == old(account_data)@
                    &&& match spec_decode_instruction(input@) {
                        None => if input@.len() < 2 {
                            e == OracleError::InvalidInstructionData
                        } else if input@[0] == CALLBACK_DETERMINANT {
                            &&& e == OracleError::Decode(DecodeError::Truncated)
                            &&& input@.len() < RESPONSE_LEN
                        } else if input@[0] == 0u8 && input@[1] == 0u8 {
                            if input@.len() < CREATE_REQUEST_LEN {
                                e == OracleError::Decode(DecodeError::Truncated)
                            } else {
                                e == OracleError::Decode(DecodeError::UnknownVariant)
                            }
                        } else {
                            e == OracleError::InvalidInstructionData
                        },
                        Some(OracleInstruction::CreateRequest { request: _ }) => {
                            ||| (e == OracleError::InvalidAccountData && !queue_bytes_valid(
                                old(account_data)@,
                            ))
                            ||| (e == OracleError::QueueFull && spec_first_empty(
                                old(account_data)@,
                            ) == None::<int>)
                        },
                        Some(OracleInstruction::HandleResponse(resp)) => {
                            ||| (e == OracleError::InvalidInstructionData
                                && resp.request_queue_index >= REQUEST_QUEUE_SIZE)
                            ||| (e == OracleError::InvalidAccountData
                                && resp.request_queue_index < REQUEST_QUEUE_SIZE && {
                                ||| old(account_data)@.len() != REQUEST_QUEUE_LEN
                                ||| spec_slot_empty(
                                    old(account_data)@,
                                    resp.request_queue_index as int,
                                )
                                ||| spec_decode_request(
                                    slot_bytes(
                                        old(account_data)@,
                                        resp.request_queue_index as int,
                                    ),
                                ) is None
                            })
                        },
                    }
                },
            },
    {
        let instruction = match OracleInstruction::unpack(input) {
            Ok(ix) => ix,
            Err(e) => {
                return Err(e);
            },
        };
        match instruction {
            OracleInstruction::CreateRequest { request } => {
                match Self::process_create_request(account_data, request) {
                    Ok(_) => Ok(None),
                    Err(e) => Err(e),
                }
            },
            OracleInstruction::HandleResponse(response) => {
                match Self::process_handle_response(account_data, response) {
                    Ok(ix) => Ok(Some(ix)),
                    Err(e) => Err(e),
                }
            },
        }
    }
}

} // verus!
