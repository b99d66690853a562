use ttp_oracle::error::DecodeError;
use ttp_oracle::response::{
    Response, CALLBACK_DETERMINANT, CALLBACK_DETERMINANT_LEN, RESPONSE_DATA_LEN, RESPONSE_LEN,
};
use ttp_oracle::request::{
    GetArgs, GetParams, JsonParseArgs, Request, RequestQueue, Task, REQUEST_LEN,
    REQUEST_QUEUE_LEN, TASK_LEN,
};
use ttp_oracle::Pubkey;

fn sample_request() -> Request {
    let url_bytes = b"https://ftx.us/api/markets/BTC/USD";
    let path_bytes = b"result.price";
    let json_args = JsonParseArgs { path: *path_bytes };
    let params = GetParams { get: *url_bytes };
    let args = GetArgs { params };
    let get_task = Task::HttpGet(args);
    let json_parse_task = Task::JsonParse(json_args);
    let uint_32_task = Task::Uint32;

    Request {
        tasks: [get_task, json_parse_task, uint_32_task],
        call_back_program: Pubkey::new_from_array([4u8; 32]),
        index: 0,
    }
}

#[test]
fn test_pack_unpack_get_params() {
    let url_bytes = b"https://ftx.us/api/markets/BTC/USD";
    let params = GetParams { get: *url_bytes };

    let mut serialized_params = vec![0u8; 34];
    params.pack_into_slice(&mut serialized_params, 0);

    // make sure the serialized GetParams is the same as the url_bytes
    assert_eq!(&serialized_params[..], &url_bytes[..]);

    let deserialized_params: GetParams = GetParams::unpack_from_slice(&serialized_params, 0).unwrap();

    assert_eq!(deserialized_params, params);
}

#[test]
fn test_pack_unpack_json_parse_args() {
    let path_bytes = b"result.price";
    let json_args = JsonParseArgs { path: *path_bytes };
    let mut serialized_json_parse_args = vec![0u8; 12];
    json_args.pack_into_slice(&mut serialized_json_parse_args, 0);

    assert_eq!(&serialized_json_parse_args[..], &path_bytes[..]);

    let deserialized_json_parse_args: JsonParseArgs =
        JsonParseArgs::unpack_from_slice(&serialized_json_parse_args, 0).unwrap();

    assert_eq!(deserialized_json_parse_args, json_args);
}

#[test]
fn test_pack_unpack_task() {
    let url_bytes = b"https://ftx.us/api/markets/BTC/USD";
    let path_bytes = b"result.price";
    let json_args = JsonParseArgs { path: *path_bytes };
    let params = GetParams { get: *url_bytes };
    let args = GetArgs { params };
    let get_task = Task::HttpGet(args);
    let json_parse_task = Task::JsonParse(json_args);

    let httpget_tag = [0u8; 2];
    let httpjson_tag: [u8; 2] = [1, 0];
    let mut serialized_get_task = vec![0u8; 36];
    get_task.pack_into_slice(&mut serialized_get_task, 0);
    let mut serialized_json_task = vec![0u8; 36];
    json_parse_task.pack_into_slice(&mut serialized_json_task, 0);
    assert_eq!(serialized_get_task[0..2], httpget_tag);
    assert_eq!(serialized_get_task[2..36], url_bytes[..]);
    assert_eq!(serialized_json_task[0..2], httpjson_tag);
    assert_eq!(serialized_json_task[2..14], path_bytes[..]);

    let deserialized_get_task: Task = Task::unpack_from_slice(&serialized_get_task).unwrap();
    let deserialized_json_task: Task = Task::unpack_from_slice(&serialized_json_task).unwrap();
    assert_eq!(deserialized_get_task, get_task);
    assert_eq!(deserialized_json_task, json_parse_task);
}

#[test]
fn test_uint32_task_round_trip() {
    let encoded = Task::Uint32.encode_task();
    assert_eq!(encoded.len(), TASK_LEN);
    assert_eq!(encoded[0..2], [2u8, 0u8]);
    assert!(encoded[2..].iter().all(|b| *b == 0));
    assert_eq!(Task::unpack_from_slice(&encoded).unwrap(), Task::Uint32);
}

#[test]
fn test_task_unknown_tag() {
    let mut buf = vec![0u8; TASK_LEN];
    buf[0] = 3;
    assert_eq!(
        Task::unpack_from_slice(&buf),
        Err(DecodeError::UnknownVariant)
    );
    let mut high = vec![0u8; TASK_LEN];
    high[1] = 1;
    assert_eq!(
        Task::unpack_from_slice(&high),
        Err(DecodeError::UnknownVariant)
    );
}

#[test]
fn test_task_truncated() {
    let buf = vec![0u8; TASK_LEN - 1];
    assert_eq!(Task::unpack_from_slice(&buf), Err(DecodeError::Truncated));
    assert_eq!(
        GetParams::unpack_from_slice(&[0u8; 33], 0),
        Err(DecodeError::Truncated)
    );
    assert_eq!(
        JsonParseArgs::unpack_from_slice(&[0u8; 11], 0),
        Err(DecodeError::Truncated)
    );
}

#[test]
fn test_request_is_empty() {
    let empty_request_buffer = [0u8; REQUEST_LEN];
    assert!(Request::is_empty_buffer(&empty_request_buffer));

    let mut request_buffer = vec![0u8; REQUEST_LEN];
    let request = sample_request();
    request.pack_into_slice(&mut request_buffer, 0);
    assert_eq!(Request::is_empty_buffer(&request_buffer), false);
}

#[test]
fn test_pack_unpack_request() {
    let request = sample_request();
    let url_bytes = b"https://ftx.us/api/markets/BTC/USD";
    let path_bytes = b"result.price";
    let httpget_tag = [0u8; 2];
    let json_tag: [u8; 2] = [1, 0];
    let uint32_tag: [u8; 2] = [2, 0];

    let mut serialized_request = vec![0u8; REQUEST_LEN];
    request.pack_into_slice(&mut serialized_request, 0);
    assert_eq!(serialized_request[0..2], httpget_tag);
    assert_eq!(serialized_request[2..36], url_bytes[..]);
    assert_eq!(serialized_request[36..38], json_tag);
    assert_eq!(serialized_request[38..50], path_bytes[..]);
    assert_eq!(serialized_request[72..74], uint32_tag);

    let deserialized_request: Request = Request::unpack_from_slice(&serialized_request).unwrap();
    assert_eq!(deserialized_request, request);
}

#[test]
fn test_request_fixed_length() {
    let request = sample_request();
    assert_eq!(request.encode().len(), REQUEST_LEN);
    let mut other = sample_request();
    other.index = 9;
    other.call_back_program = Pubkey::new_from_array([7u8; 32]);
    assert_eq!(other.encode().len(), REQUEST_LEN);
    assert_eq!(Task::Uint32.encode_task().len(), TASK_LEN);
    assert_eq!(
        Task::JsonParse(JsonParseArgs { path: *b"result.price" })
            .encode_task()
            .len(),
        TASK_LEN
    );
}

#[test]
fn test_pack_unpack_request_queue() {
    let empty_request_queue_buffer = vec![0u8; REQUEST_QUEUE_LEN];
    let empty_request_queue = RequestQueue::unpack_from_slice(&empty_request_queue_buffer).unwrap();

    assert_eq!(
        empty_request_queue,
        RequestQueue {
            requests: vec![None, None, None, None, None, None, None, None, None, None],
        }
    );

    let mut repacked = vec![0u8; REQUEST_QUEUE_LEN];
    empty_request_queue.pack_into_slice(&mut repacked);
    assert_eq!(repacked, vec![0u8; REQUEST_QUEUE_LEN]);

    let mut expected_single_request_queue_buffer = vec![0u8; REQUEST_QUEUE_LEN];
    let request = sample_request();
    request.pack_into_slice(&mut expected_single_request_queue_buffer, 0);
    let request = sample_request();
    request.pack_into_slice(
        &mut expected_single_request_queue_buffer,
        REQUEST_QUEUE_LEN - REQUEST_LEN,
    );

    let single_queue = RequestQueue::unpack_from_slice(&expected_single_request_queue_buffer).unwrap();
    let request1 = sample_request();
    let request2 = sample_request();
    assert_eq!(
        single_queue,
        RequestQueue {
            requests: vec![
                Some(request1),
                None,
                None,
                None,
                None,
                None,
                None,
                None,
                None,
                Some(request2)
            ],
        }
    );

    let mut single_queue_buffer = vec![0u8; REQUEST_QUEUE_LEN];
    single_queue.pack_into_slice(&mut single_queue_buffer);
    assert_eq!(single_queue_buffer, expected_single_request_queue_buffer);
}

#[test]
fn test_decode_all_pairs() {
    let mut buffer = vec![0u8; REQUEST_QUEUE_LEN];
    let request = sample_request();
    request.pack_into_slice(&mut buffer, 2 * REQUEST_LEN);
    let pairs = RequestQueue::decode_all(&buffer).unwrap();
    assert_eq!(pairs.len(), 10);
    for (i, pair) in pairs.iter().enumerate() {
        assert_eq!(pair.0 as usize, i);
        if i == 2 {
            assert_eq!(pair.1, Some(sample_request()));
        } else {
            assert_eq!(pair.1, None);
        }
    }
}

#[test]
fn test_queue_corrupt_slot() {
    let mut buffer = vec![0u8; REQUEST_QUEUE_LEN];
    // an occupied-looking slot whose first task tag is unknown
    buffer[0] = 9;
    assert!(RequestQueue::unpack_from_slice(&buffer).is_err());
    assert!(RequestQueue::decode_all(&buffer).is_err());
}

#[test]
fn test_pack_unpack_response() {
    let response_val: u128 = 15439;
    let response = Response {
        data: response_val.to_le_bytes(),
        request_queue_index: 1,
    };

    let mut serialized_response = vec![0u8; RESPONSE_LEN];
    response.pack_into_slice(&mut serialized_response, 0);
    let det = &serialized_response[0..CALLBACK_DETERMINANT_LEN];
    let resp = &serialized_response[CALLBACK_DETERMINANT_LEN..CALLBACK_DETERMINANT_LEN + RESPONSE_DATA_LEN];
    let index = serialized_response[CALLBACK_DETERMINANT_LEN + RESPONSE_DATA_LEN];
    assert_eq!(resp, &response_val.to_le_bytes());
    assert_eq!(det, &CALLBACK_DETERMINANT.to_le_bytes());
    assert_eq!(index, 1);

    let response = Response {
        data: response_val.to_le_bytes(),
        request_queue_index: 1,
    };

    let deserialized_response: Response =
        Response::unpack_from_slice(&serialized_response).unwrap();

    assert_eq!(deserialized_response, response);
}
