use ttp_oracle::error::OracleError;
use ttp_oracle::instruction::{create_request, OracleInstruction};
use ttp_oracle::oracle_account::OracleAccount;
use ttp_oracle::processor::Processor;
use ttp_oracle::request::{
    GetArgs, GetParams, JsonParseArgs, Request, RequestQueue, Task, REQUEST_LEN,
    REQUEST_QUEUE_LEN,
};
use ttp_oracle::response::{Response, CALLBACK_DETERMINANT};
use ttp_oracle::Pubkey;

fn build_request() -> Request {
    let url_bytes = b"https://ftx.us/api/markets/BTC/USD";
    let path_bytes = b"result.price";
    let json_args = JsonParseArgs { path: *path_bytes };
    let params = GetParams { get: *url_bytes };
    let args = GetArgs { params };
    let get_task = Task::HttpGet(args);
    let json_parse_task = Task::JsonParse(json_args);
    let uint_32_task = Task::Uint32;

    Request {
        tasks: [get_task, json_parse_task, uint_32_task],
        call_back_program: Pubkey::new_from_array([3u8; 32]),
        index: 0,
    }
}

#[test]
fn test_process_create_request() {
    let program_id = Pubkey::new_from_array([1u8; 32]);
    let oracle_id = Pubkey::new_from_array([2u8; 32]);
    // account data buffer with the size of a whole queue
    let request = build_request();
    let mut account_data = vec![0u8; REQUEST_QUEUE_LEN];

    let ix = create_request(&program_id, &oracle_id, request).unwrap();

    Processor::process(&mut account_data, &ix.data).unwrap();

    let deserialized_oracle_account = OracleAccount::unpack_from_slice(&account_data).unwrap();

    let request = build_request();
    let request_queue = RequestQueue {
        requests: vec![
            Some(request),
            None,
            None,
            None,
            None,
            None,
            None,
            None,
            None,
            None,
        ],
    };
    let oracle_account = OracleAccount { request_queue };
    assert_eq!(deserialized_oracle_account, oracle_account);
}

#[test]
fn test_process_create_two_requests() {
    let program_id = Pubkey::new_from_array([1u8; 32]);
    let oracle_id = Pubkey::new_from_array([2u8; 32]);
    let request = build_request();
    let mut account_data = vec![0u8; REQUEST_QUEUE_LEN];

    let ix = create_request(&program_id, &oracle_id, request).unwrap();

    Processor::process(&mut account_data, &ix.data).unwrap();

    let deserialized_oracle_account = OracleAccount::unpack_from_slice(&account_data).unwrap();

    let request = build_request();
    let request_queue = RequestQueue {
        requests: vec![
            Some(request),
            None,
            None,
            None,
            None,
            None,
            None,
            None,
            None,
            None,
        ],
    };
    let oracle_account_data = OracleAccount { request_queue };
    assert_eq!(deserialized_oracle_account, oracle_account_data);

    let request = build_request();
    let ix = create_request(&program_id, &oracle_id, request).unwrap();
    Processor::process(&mut account_data, &ix.data).unwrap();
    let deserialized_oracle_account = OracleAccount::unpack_from_slice(&account_data).unwrap();
    let request1 = build_request();
    let mut request2 = build_request();
    request2.index = 1;
    let request_queue = RequestQueue {
        requests: vec![
            Some(request1),
            Some(request2),
            None,
            None,
            None,
            None,
            None,
            None,
            None,
            None,
        ],
    };
    let oracle_account_data = OracleAccount { request_queue };

    assert_eq!(deserialized_oracle_account, oracle_account_data);
}

#[test]
fn test_process_handle_response() {
    let request1 = build_request();
    let mut request2 = build_request();
    request2.index = 1;
    let request_queue = RequestQueue {
        requests: vec![
            Some(request1),
            Some(request2),
            None,
            None,
            None,
            None,
            None,
            None,
            None,
            None,
        ],
    };
    let oracle_account_data = OracleAccount { request_queue };
    let mut account_data = vec![0u8; REQUEST_QUEUE_LEN];
    oracle_account_data.pack_into_slice(&mut account_data);

    let response_val: u128 = 15439;
    let response = Response {
        data: response_val.to_le_bytes(),
        request_queue_index: 1,
    };
    let instruction = OracleInstruction::HandleResponse(response);
    let data = instruction.encode();

    let outbound = Processor::process(&mut account_data, &data).unwrap();
    let deserialized_oracle_account = OracleAccount::unpack_from_slice(&account_data).unwrap();

    let request = build_request();
    let request_queue = RequestQueue {
        requests: vec![
            Some(request),
            None,
            None,
            None,
            None,
            None,
            None,
            None,
            None,
            None,
        ],
    };
    let expected_oracle_account_data = OracleAccount { request_queue };

    assert_eq!(deserialized_oracle_account, expected_oracle_account_data);

    // the one outbound invocation goes to the stored request's callback
    let invocation = outbound.unwrap();
    assert_eq!(invocation.program_id, Pubkey::new_from_array([3u8; 32]));
    assert_eq!(invocation.accounts.len(), 0);
}

#[test]
fn test_oracle_account_pack_unpack() {
    let request = build_request();
    let request_queue = RequestQueue {
        requests: vec![
            Some(request),
            None,
            None,
            None,
            None,
            None,
            None,
            None,
            None,
            None,
        ],
    };
    let oracle_account = OracleAccount { request_queue };
    let mut expected_oracle_account_buffer = vec![0u8; REQUEST_QUEUE_LEN];
    let request = build_request();
    request.pack_into_slice(&mut expected_oracle_account_buffer, 0);

    let mut oracle_account_buffer = vec![0u8; REQUEST_QUEUE_LEN];
    oracle_account.pack_into_slice(&mut oracle_account_buffer);
    assert_eq!(oracle_account_buffer, expected_oracle_account_buffer);

    let request = build_request();
    let request_queue = RequestQueue {
        requests: vec![
            Some(request),
            None,
            None,
            None,
            None,
            None,
            None,
            None,
            None,
            None,
        ],
    };
    let expected_oracle_account = OracleAccount { request_queue };

    let oracle_account = OracleAccount::unpack_from_slice(&oracle_account_buffer).unwrap();
    assert_eq!(oracle_account, expected_oracle_account);
}

#[test]
fn test_create_request_into_empty_queue_writes_slot_zero() {
    // encode the example pipeline, push it through the processor, and hold
    // the buffer against the request's own direct encoding
    let program_id = Pubkey::new_from_array([1u8; 32]);
    let oracle_id = Pubkey::new_from_array([2u8; 32]);
    let request = build_request();
    let mut account_data = vec![0u8; REQUEST_QUEUE_LEN];
    let ix = create_request(&program_id, &oracle_id, request).unwrap();
    Processor::process(&mut account_data, &ix.data).unwrap();

    let mut direct = build_request();
    direct.index = 0;
    let direct_encoding = direct.encode();
    assert_eq!(&account_data[0..REQUEST_LEN], &direct_encoding[..]);
    assert!(account_data[REQUEST_LEN..].iter().all(|b| *b == 0));
}

#[test]
fn test_handle_response_clears_only_its_slot() {
    // two occupied slots; answering slot 1 zeroes its range, leaves slot 0
    // untouched, and issues one invocation with the exact callback bytes
    let request1 = build_request();
    let mut request2 = build_request();
    request2.index = 1;
    let mut account_data = vec![0u8; REQUEST_QUEUE_LEN];
    request1.pack_into_slice(&mut account_data, 0);
    request2.pack_into_slice(&mut account_data, REQUEST_LEN);
    let slot0_before = account_data[0..REQUEST_LEN].to_vec();

    let response_val: u128 = 15439;
    let response = Response {
        data: response_val.to_le_bytes(),
        request_queue_index: 1,
    };
    let invocation = Processor::process_handle_response(&mut account_data, response).unwrap();

    assert!(account_data[REQUEST_LEN..2 * REQUEST_LEN].iter().all(|b| *b == 0));
    assert_eq!(&account_data[0..REQUEST_LEN], &slot0_before[..]);

    let mut expected_data = vec![CALLBACK_DETERMINANT];
    expected_data.extend_from_slice(&response_val.to_le_bytes());
    expected_data.push(1);
    assert_eq!(invocation.data, expected_data);
    assert_eq!(invocation.program_id, Pubkey::new_from_array([3u8; 32]));
    assert_eq!(invocation.accounts.len(), 0);
}

#[test]
fn test_insert_fills_lowest_empty_slot() {
    // slots 0 and 2 occupied: the next request lands in slot 1
    let mut account_data = vec![0u8; REQUEST_QUEUE_LEN];
    build_request().pack_into_slice(&mut account_data, 0);
    build_request().pack_into_slice(&mut account_data, 2 * REQUEST_LEN);

    let slot = RequestQueue::insert(&mut account_data, build_request()).unwrap();
    assert_eq!(slot, 1);
    let queue = RequestQueue::unpack_from_slice(&account_data).unwrap();
    let mut expected = build_request();
    expected.index = 1;
    assert_eq!(queue.requests[1], Some(expected));
}

#[test]
fn test_insert_into_full_queue_fails_unchanged() {
    let mut account_data = vec![0u8; REQUEST_QUEUE_LEN];
    for i in 0..10 {
        let mut request = build_request();
        request.index = i as u8;
        request.pack_into_slice(&mut account_data, i * REQUEST_LEN);
    }
    let before = account_data.clone();
    let res = RequestQueue::insert(&mut account_data, build_request());
    assert_eq!(res, Err(OracleError::QueueFull));
    assert_eq!(account_data, before);
}

#[test]
fn test_remove_then_find_first_empty_returns_slot() {
    let mut account_data = vec![0u8; REQUEST_QUEUE_LEN];
    for i in 0..10 {
        let mut request = build_request();
        request.index = i as u8;
        request.pack_into_slice(&mut account_data, i * REQUEST_LEN);
    }
    assert_eq!(RequestQueue::find_first_empty_slot(&account_data), None);
    RequestQueue::remove(&mut account_data, 7);
    assert_eq!(RequestQueue::find_first_empty_slot(&account_data), Some(7));
    RequestQueue::remove(&mut account_data, 3);
    assert_eq!(RequestQueue::find_first_empty_slot(&account_data), Some(3));
}

#[test]
fn test_remove_twice_is_idempotent() {
    let mut account_data = vec![0u8; REQUEST_QUEUE_LEN];
    build_request().pack_into_slice(&mut account_data, 4 * REQUEST_LEN);
    RequestQueue::remove(&mut account_data, 4);
    let once = account_data.clone();
    RequestQueue::remove(&mut account_data, 4);
    assert_eq!(account_data, once);
    assert_eq!(account_data, vec![0u8; REQUEST_QUEUE_LEN]);
}

#[test]
fn test_process_create_request_rejects_bad_account() {
    // wrong buffer length
    let mut short = vec![0u8; REQUEST_QUEUE_LEN - 1];
    assert_eq!(
        Processor::process_create_request(&mut short, build_request()),
        Err(OracleError::InvalidAccountData)
    );
    // an occupied slot that does not decode
    let mut corrupt = vec![0u8; REQUEST_QUEUE_LEN];
    corrupt[0] = 9;
    let before = corrupt.clone();
    assert_eq!(
        Processor::process_create_request(&mut corrupt, build_request()),
        Err(OracleError::InvalidAccountData)
    );
    assert_eq!(corrupt, before);
}

#[test]
fn test_process_handle_response_rejects_bad_slot() {
    let mut account_data = vec![0u8; REQUEST_QUEUE_LEN];
    build_request().pack_into_slice(&mut account_data, 0);
    let before = account_data.clone();
    // slot index out of range
    let out_of_range = Response {
        data: [0u8; 16],
        request_queue_index: 10,
    };
    assert_eq!(
        Processor::process_handle_response(&mut account_data, out_of_range),
        Err(OracleError::InvalidInstructionData)
    );
    // empty slot: nothing to answer
    let empty_slot = Response {
        data: [0u8; 16],
        request_queue_index: 5,
    };
    assert_eq!(
        Processor::process_handle_response(&mut account_data, empty_slot),
        Err(OracleError::InvalidAccountData)
    );
    assert_eq!(account_data, before);
}

#[test]
fn test_process_unknown_tag_leaves_buffer_and_names_error() {
    let mut account_data = vec![0u8; REQUEST_QUEUE_LEN];
    build_request().pack_into_slice(&mut account_data, 0);
    let before = account_data.clone();
    // leading tag is neither 0 nor the callback determinant
    let mut input = vec![0u8; 200];
    input[0] = 7;
    assert_eq!(
        Processor::process(&mut account_data, &input),
        Err(OracleError::InvalidInstructionData)
    );
    assert_eq!(account_data, before);
}
