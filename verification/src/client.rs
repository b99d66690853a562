//! The consumer side of the wire contract: build a create-request
//! invocation for the oracle, and read the numeric result out of a
//! callback.
//!
//! A consumer program's entrypoint routes on the same leading byte the
//! oracle uses: tag 0 asks it to send a new request, the callback
//! determinant marks an inbound result.

use vstd::prelude::*;

use crate::error::{DecodeError, OracleError};
use crate::instruction::{create_request, spec_encode_instruction, AccountMeta, Instruction,
    OracleInstruction};
use crate::request::{GetArgs, GetParams, JsonParseArgs, Request, Task};
use crate::response::CALLBACK_DETERMINANT;
use crate::Pubkey;

verus! {

/// The URL fetched by the example pipeline, as its 34 UTF-8 bytes:
/// `https://ftx.us/api/markets/BTC/USD`.
pub open spec fn example_url_bytes() -> Seq<u8> {
    seq![
        104u8, 116u8, 116u8, 112u8, 115u8, 58u8, 47u8, 47u8, 102u8, 116u8, 120u8, 46u8, 117u8,
        115u8, 47u8, 97u8, 112u8, 105u8, 47u8, 109u8, 97u8, 114u8, 107u8, 101u8, 116u8, 115u8,
        47u8, 66u8, 84u8, 67u8, 47u8, 85u8, 83u8, 68u8,
    ]
}

/// The JSON path the example pipeline extracts, as its 12 UTF-8 bytes:
/// `result.price`.
pub open spec fn example_path_bytes() -> Seq<u8> {
    seq![114u8, 101u8, 115u8, 117u8, 108u8, 116u8, 46u8, 112u8, 114u8, 105u8, 99u8, 101u8]
}

/// Is `r` the example request: fetch the example URL, extract the example
/// path, coerce to an integer, and call back `program_id` from slot 0?
pub open spec fn is_example_request(r: Request, program_id: Pubkey) -> bool {
    &&& r.tasks@[0] matches Task::HttpGet(args) && args.params.get@ == example_url_bytes()
    &&& r.tasks@[1] matches Task::JsonParse(args) && args.path@ == example_path_bytes()
    &&& r.tasks@[2] == Task::Uint32
    &&& r.call_back_program == program_id
    &&& r.index == 0u8
}

/// Build the example request with `program_id` as its callback target.
pub fn create_example_request(program_id: &Pubkey) -> (r: Request)
    ensures
        is_example_request(r, *program_id),
{
    let url: [u8; 34] = [
        104u8, 116u8, 116u8, 112u8, 115u8, 58u8, 47u8, 47u8, 102u8, 116u8, 120u8, 46u8, 117u8,
        115u8, 47u8, 97u8, 112u8, 105u8, 47u8, 109u8, 97u8, 114u8, 107u8, 101u8, 116u8, 115u8,
        47u8, 66u8, 84u8, 67u8, 47u8, 85u8, 83u8, 68u8,
    ];
    let path: [u8; 12] = [
        114u8, 101u8, 115u8, 117u8, 108u8, 116u8, 46u8, 112u8, 114u8, 105u8, 99u8, 101u8,
    ];
    proof {
        assert(url@ =~= example_url_bytes());
        assert(path@ =~= example_path_bytes());
    }
    let get_task = Task::HttpGet(GetArgs { params: GetParams { get: url } });
    let json_parse_task = Task::JsonParse(JsonParseArgs { path });
    let coerce_task = Task::Uint32;
    Request {
        tasks: [get_task, json_parse_task, coerce_task],
        call_back_program: *program_id,
        index: 0,
    }
}

/// Build the invocation that asks the oracle program to queue the example
/// request, with this consumer (`program_id`) as the callback target.
pub fn process_add_request(program_id: &Pubkey, oracle_program_id: &Pubkey, oracle_id: &Pubkey)
    -> (r: Result<Instruction, OracleError>)
    ensures
        match r {
            Ok(ix) => {
                &&& ix.program_id == *oracle_program_id
                &&& ix.accounts@.len() == 1
                &&& ix.accounts@[0] == (AccountMeta {
                    pubkey: *oracle_id,
                    is_signer: false,
                    is_writable: true,
                })
                &&& exists|req: Request|
                    is_example_request(req, *program_id) && ix.data@ == spec_encode_instruction(
                        OracleInstruction::CreateRequest { request: req },
                    )
            },
            Err(_) => false,
        },
{
    let request = create_example_request(program_id);
    let ghost req = request;
    let ix = match create_request(oracle_program_id, oracle_id, request) {
        Ok(ix) => ix,
        Err(e) => {
            return Err(e);
        },
    };
    proof {
        assert(is_example_request(req, *program_id) && ix.data@ == spec_encode_instruction(
            OracleInstruction::CreateRequest { request: req },
        ));
    }
    Ok(ix)
}

/// The little-endian 32-bit value at the head of a callback's payload.
pub open spec fn spec_u32_from_le(s: Seq<u8>) -> int
    recommends
        s.len() >= 4,
{
    s[0] + 256 * s[1] + 65536 * s[2] + 16777216 * s[3]
}

/// Read the numeric result out of an inbound callback's payload: its first
/// four bytes, as a little-endian 32-bit value.
///
/// A payload of fewer than four bytes fails with
/// [`DecodeError::Truncated`].
pub fn process_handle_response(instruction_data: &[u8]) -> (r: Result<u32, OracleError>)
    ensures
        match r {
            Ok(price) => {
                &&& instruction_data@.len() >= 4
                &&& price as int == spec_u32_from_le(instruction_data@)
            },
            Err(e) => {
                &&& e == OracleError::Decode(DecodeError::Truncated)
                &&& instruction_data@.len() < 4
            },
        },
{
    if instruction_data.len() < 4 {
        return Err(OracleError::Decode(DecodeError::Truncated));
    }
    let b0 = instruction_data[0] as u32;
    let b1 = instruction_data[1] as u32;
    let b2 = instruction_data[2] as u32;
    let b3 = instruction_data[3] as u32;
    Ok(b0 + 256 * b1 + 65536 * b2 + 16777216 * b3)
}

/// Where a consumer entrypoint routes one inbound instruction.
#[derive(Clone, Copy, Debug, PartialEq, Eq, Structural)]
pub enum ClientInstruction {
    /// Ask the oracle to queue the example request.
    AddRequest,
    /// An asynchronous callback carrying a pipeline's result.
    Callback,
}

/// Route an inbound instruction by its leading byte: tag 0 asks for a new
/// request, the callback determinant marks a result coming back.  Anything
/// else fails with [`OracleError::InvalidInstructionData`].
pub fn unpack_client_instruction(instruction_data: &[u8]) -> (r: Result<
    ClientInstruction,
    OracleError,
>)
    ensures
        match r {
            Ok(ClientInstruction::AddRequest) => instruction_data@.len() >= 1
                && instruction_data@[0] == 0u8,
            Ok(ClientInstruction::Callback) => instruction_data@.len() >= 1
                && instruction_data@[0] == CALLBACK_DETERMINANT,
            Err(e) => {
                &&& e == OracleError::InvalidInstructionData
                &&& (instruction_data@.len() < 1 || (instruction_data@[0] != 0u8
                    && instruction_data@[0] != CALLBACK_DETERMINANT))
            },
        },
{
    if instruction_data.len() < 1 {
        return Err(OracleError::InvalidInstructionData);
    }
    if instruction_data[0] == 0 {
        Ok(ClientInstruction::AddRequest)
    } else if instruction_data[0] == CALLBACK_DETERMINANT {
        Ok(ClientInstruction::Callback)
    } else {
        Err(OracleError::InvalidInstructionData)
    }
}

} // verus!
