use fasttime::call::HostCall;
use fasttime::message::{Payload, Request, Target};
use fasttime::trap::Trap;
use fasttime::Handler;
use hyper::header::{HeaderName, HeaderValue};

const NO_MEMORY: &str = "failed to resolve exported host memory";

fn word(memory: &[u8], at: usize) -> i32 {
    i32::from_le_bytes([memory[at], memory[at + 1], memory[at + 2], memory[at + 3]])
}

fn refusal(result: Option<Result<i32, Trap>>) -> String {
    match result {
        Some(result) => message(result),
        None => "refused".to_string(),
    }
}

fn message(result: Result<i32, Trap>) -> String {
    match result {
        Ok(code) => format!("answered {}", code),
        Err(trap) => trap.message().to_string(),
    }
}

/// A handler whose guest has taken a request with three header fields.
fn handler() -> Handler {
    let mut headers = hyper::HeaderMap::new();
    for (name, value) in [("x-b", "2"), ("accept", "text/html"), ("x-b", "1"), ("host", "h")] {
        headers.append(
            HeaderName::from_bytes(name.as_bytes()).unwrap(),
            HeaderValue::from_bytes(value.as_bytes()).unwrap(),
        );
    }
    let mut handler = Handler::new(Request {
        method: b"GET".to_vec(),
        uri: b"/".to_vec(),
        target: Target::Raw(b"/".to_vec()),
        headers,
        carried: None,
        body: Payload::default(),
    });
    let mut memory = vec![0u8; 8];
    assert!(handler.body_downstream_get(Some(&mut memory), 0, 4).is_ok());
    assert!(handler.fastly_http_resp_new(Some(&mut memory), 0).is_ok());
    handler
}

fn names(handler: &Handler) -> Vec<Vec<u8>> {
    let mut listed = Vec::new();
    let mut cursor = 0;
    while cursor != -1 {
        let mut memory = vec![9u8; 64];
        let result = handler.fastly_http_req_header_names_get(Some(&mut memory), 0, 8, 0, cursor, 4, 0);
        assert_eq!(message(result), "answered 0");
        let length = word(&memory, 0) as usize;
        if length > 0 {
            assert_eq!(memory[8 + length - 1], 0);
            listed.push(memory[8..8 + length - 1].to_vec());
        }
        cursor = word(&memory, 4);
    }
    listed
}

fn values(handler: &Handler, of_request: bool, name: &[u8]) -> Vec<Vec<u8>> {
    let mut listed = Vec::new();
    let mut cursor = 0;
    while cursor != -1 {
        let mut memory = vec![9u8; 64];
        memory.extend_from_slice(name);
        let size = name.len() as i32;
        let result = if of_request {
            handler.fastly_http_req_header_values_get(Some(&mut memory), 0, 64, size, 8, 0, cursor, 4, 0)
        } else {
            handler.fastly_http_resp_header_values_get(Some(&mut memory), 0, 64, size, 8, 0, cursor, 4, 0)
        };
        assert_eq!(message(result), "answered 0");
        let length = word(&memory, 0) as usize;
        if length > 0 {
            assert_eq!(memory[8 + length - 1], 0);
            listed.push(memory[8..8 + length - 1].to_vec());
        }
        cursor = word(&memory, 4);
    }
    listed
}

fn set(handler: &mut Handler, name: &[u8], value: &[u8]) -> Option<Result<i32, Trap>> {
    let mut memory = name.to_vec();
    memory.extend_from_slice(value);
    let call = HostCall::RespHeaderValuesSet {
        handle: 0,
        name_addr: 0,
        name_size: name.len() as i32,
        values_addr: name.len() as i32,
        values_size: value.len() as i32,
    };
    handler.call(Some(&mut memory), call)
}

#[test]
fn names_are_listed_once_in_order() {
    assert_eq!(names(&handler()), vec![b"accept".to_vec(), b"host".to_vec(), b"x-b".to_vec()]);
}

#[test]
fn a_request_without_fields_has_no_names() {
    let mut handler = handler();
    let mut memory = vec![9u8; 8];
    assert!(handler.fastly_http_req_new(Some(&mut memory), 0).is_ok());
    let result = handler.fastly_http_req_header_names_get(Some(&mut memory), 1, 0, 0, 0, 4, 0);
    assert_eq!(message(result), "answered 0");
    assert_eq!((word(&memory, 0), word(&memory, 4)), (0, -1));
}

#[test]
fn names_that_cannot_be_told_trap() {
    let handler = handler();
    let mut memory = vec![9u8; 14];
    assert_eq!(
        message(handler.fastly_http_req_header_names_get(None, 1, 8, 0, 0, 4, 0)),
        "invalid request handle"
    );
    assert_eq!(message(handler.fastly_http_req_header_names_get(None, 0, 8, 0, 0, 4, 0)), NO_MEMORY);
    let short = HostCall::ReqHeaderNamesGet { handle: 0, addr: 8, cursor: 0, ending_cursor_out: 4, nwritten_out: 0 };
    assert!(!handler.can_answer(Some(&memory), short));
    memory.push(9);
    assert!(handler.can_answer(Some(&memory), short));
}

#[test]
fn request_values_are_listed_in_order() {
    let handler = handler();
    assert_eq!(values(&handler, true, b"x-b"), vec![b"1".to_vec(), b"2".to_vec()]);
    assert_eq!(values(&handler, true, b"X-B"), vec![b"1".to_vec(), b"2".to_vec()]);
    assert_eq!(values(&handler, true, b"Host"), vec![b"h".to_vec()]);
    assert_eq!(values(&handler, true, b"absent"), Vec::<Vec<u8>>::new());
}

#[test]
fn a_text_that_is_no_field_name_has_no_request_values() {
    let handler = handler();
    assert_eq!(values(&handler, true, b"not a name"), Vec::<Vec<u8>>::new());
    assert_eq!(values(&handler, true, b""), Vec::<Vec<u8>>::new());
    assert_eq!(values(&handler, true, &[b'('; 100]), Vec::<Vec<u8>>::new());
}

#[test]
fn request_values_that_cannot_be_told_trap() {
    let handler = handler();
    let mut memory = vec![0xffu8; 32];
    assert_eq!(
        message(handler.fastly_http_req_header_values_get(None, 1, 0, 1, 8, 0, 0, 4, 0)),
        "invalid request handle"
    );
    assert_eq!(message(handler.fastly_http_req_header_values_get(None, 0, 0, 1, 8, 0, 0, 4, 0)), NO_MEMORY);
    assert_eq!(
        message(handler.fastly_http_req_header_values_get(Some(&mut memory), 0, 30, 3, 8, 0, 0, 4, 0)),
        "Failed to read header name"
    );
    let not_text = HostCall::ReqHeaderValuesGet {
        handle: 0,
        name_addr: 8,
        name_size: 1,
        addr: 8,
        cursor: 0,
        ending_cursor_out: 4,
        nwritten_out: 0,
    };
    assert!(!handler.can_answer(Some(&memory), not_text));
}

#[test]
fn added_values_are_listed() {
    let mut handler = handler();
    assert!(matches!(set(&mut handler, b"X-Tag", b"b"), Some(Ok(0))));
    assert!(matches!(set(&mut handler, b"x-tag", b"a"), Some(Ok(0))));
    assert!(matches!(set(&mut handler, b"x-tag", b"b"), Some(Ok(0))));
    assert!(matches!(set(&mut handler, b"content-type", b"text/plain"), Some(Ok(0))));
    let expected = vec![b"a".to_vec(), b"b".to_vec(), b"b".to_vec()];
    assert_eq!(values(&handler, false, b"x-tag"), expected);
    assert_eq!(values(&handler, false, b"X-TAG"), expected);
    assert_eq!(values(&handler, false, b"Content-Type"), vec![b"text/plain".to_vec()]);
    assert_eq!(values(&handler, true, b"x-tag"), Vec::<Vec<u8>>::new());
}

#[test]
fn added_values_reach_the_client_in_the_order_they_were_added() {
    let mut handler = handler();
    assert!(matches!(set(&mut handler, b"X-Tag", b"b"), Some(Ok(0))));
    assert!(matches!(set(&mut handler, b"x-tag", b"a"), Some(Ok(0))));
    assert_eq!(handler.fastly_http_resp_send_downstream(0, 0, 0), 0);
    let response = handler.into_response();
    let tags: Vec<&[u8]> = response.headers.get_all("x-tag").iter().map(|v| v.as_bytes()).collect();
    assert_eq!(tags, vec![b"b".as_ref(), b"a".as_ref()]);
}

#[test]
fn long_names_are_found_in_every_case() {
    let mut handler = handler();
    let name = vec![b'Q'; 90];
    assert!(matches!(set(&mut handler, &name, b"v"), Some(Ok(0))));
    assert_eq!(values(&handler, false, &vec![b'q'; 90]), vec![b"v".to_vec()]);
}

#[test]
fn names_and_values_that_are_not_valid_cannot_be_set() {
    let mut handler = handler();
    assert!(set(&mut handler, b"not a name", b"v").is_none());
    assert!(set(&mut handler, b"", b"v").is_none());
    assert!(set(&mut handler, b"name", b"new\nline").is_none());
    assert!(set(&mut handler, b"name", &[127]).is_none());
    assert!(matches!(set(&mut handler, b"\"name'", b"tab\t\xff"), Some(Ok(0))));
    assert!(matches!(set(&mut handler, b"name", b""), Some(Ok(0))));
    assert_eq!(values(&handler, false, b"name"), vec![b"".to_vec()]);
}

#[test]
fn values_that_cannot_be_set_trap() {
    let mut handler = handler();
    let memory = b"namevalue".to_vec();
    assert_eq!(refusal(handler.fastly_http_resp_header_values_set(None, 1, 0, 4, 4, 5)), NO_MEMORY);
    assert_eq!(
        refusal(handler.fastly_http_resp_header_values_set(Some(&memory), 1, 0, 4, 4, 5)),
        "Invalid response handler"
    );
    assert_eq!(
        refusal(handler.fastly_http_resp_header_values_set(Some(&memory), 0, 0, 10, 4, 5)),
        "Failed to read header name"
    );
    assert_eq!(
        refusal(handler.fastly_http_resp_header_values_set(Some(&memory), 0, 0, 4, 4, 6)),
        "Failed to read header name"
    );
    assert_eq!(values(&handler, false, b"name"), Vec::<Vec<u8>>::new());
}

#[test]
fn response_values_that_cannot_be_told_trap() {
    let handler = handler();
    let mut memory = b"........name (".to_vec();
    assert_eq!(message(handler.fastly_http_resp_header_values_get(None, 1, 8, 4, 8, 0, 0, 4, 0)), NO_MEMORY);
    assert_eq!(
        message(handler.fastly_http_resp_header_values_get(Some(&mut memory), 1, 8, 4, 8, 0, 0, 4, 0)),
        "Invalid response handler"
    );
    assert_eq!(
        message(handler.fastly_http_resp_header_values_get(Some(&mut memory), 0, 8, 40, 8, 0, 0, 4, 0)),
        "Failed to read header name"
    );
    let not_a_name = HostCall::RespHeaderValuesGet {
        handle: 0,
        name_addr: 8,
        name_size: 6,
        addr: 8,
        cursor: 0,
        ending_cursor_out: 4,
        nwritten_out: 0,
    };
    assert!(!handler.can_answer(Some(&memory), not_a_name));
}

#[test]
fn header_calls_do_what_their_functions_do() {
    let mut handler = handler();
    let mut memory = b"................x-b".to_vec();
    let listing = HostCall::ReqHeaderNamesGet { handle: 0, addr: 8, cursor: 2, ending_cursor_out: 4, nwritten_out: 0 };
    assert!(matches!(handler.call(Some(&mut memory), listing), Some(Ok(0))));
    assert_eq!((word(&memory, 0), word(&memory, 4)), (4, -1));
    assert_eq!(memory[8..12], *b"x-b\0");
    let reading = HostCall::ReqHeaderValuesGet {
        handle: 0,
        name_addr: 16,
        name_size: 3,
        addr: 8,
        cursor: 0,
        ending_cursor_out: 4,
        nwritten_out: 0,
    };
    assert!(matches!(handler.call(Some(&mut memory), reading), Some(Ok(0))));
    assert_eq!((word(&memory, 0), word(&memory, 4)), (2, 1));
    assert_eq!(memory[8..10], *b"1\0");
    assert!(matches!(set(&mut handler, b"x-b", b"z"), Some(Ok(0))));
    let reading = HostCall::RespHeaderValuesGet {
        handle: 0,
        name_addr: 16,
        name_size: 3,
        addr: 8,
        cursor: 0,
        ending_cursor_out: 4,
        nwritten_out: 0,
    };
    assert!(matches!(handler.call(Some(&mut memory), reading), Some(Ok(0))));
    assert_eq!((word(&memory, 0), word(&memory, 4)), (2, -1));
    assert_eq!(memory[8..10], *b"z\0");
}

#[test]
fn field_names_hold_these_bytes_only() {
    let accepted = b"!\"#$%&'*+-.0123456789ABCDEFGHIJKLMNOPQRSTUVWXYZ^_`abcdefghijklmnopqrstuvwxyz|~";
    for byte in 0..=255u8 {
        let mut handler = handler();
        let name = [b'n', byte];
        let result = set(&mut handler, &name, b"v");
        assert_eq!(result.is_some(), accepted.contains(&byte));
        if result.is_some() {
            let other_case = [b'N', byte.to_ascii_lowercase()];
            assert_eq!(values(&handler, false, &other_case), vec![b"v".to_vec()]);
        }
    }
}

#[test]
fn field_values_hold_these_bytes_only() {
    for byte in 0..=255u8 {
        let mut handler = handler();
        let result = set(&mut handler, b"name", &[byte]);
        let accepted = byte == 9 || (byte >= 32 && byte != 127);
        assert_eq!(result.is_some(), accepted);
        if accepted {
            assert_eq!(values(&handler, false, b"name"), vec![vec![byte]]);
        }
    }
}

#[test]
fn field_names_have_a_longest_length() {
    let mut handler = handler();
    assert!(matches!(set(&mut handler, &vec![b'n'; 65535], b"v"), Some(Ok(0))));
    assert!(set(&mut handler, &vec![b'n'; 65536], b"v").is_none());
}

#[test]
fn a_full_header_map_refuses_and_keeps_what_it_holds() {
    let mut handler = handler();
    let mut added = 0;
    while set(&mut handler, format!("n{}", added).as_bytes(), b"v").is_some() {
        added += 1;
    }
    assert!(added >= 6554);
    assert_eq!(values(&handler, false, b"n0"), vec![b"v".to_vec()]);
    assert_eq!(values(&handler, false, format!("n{}", added).as_bytes()), Vec::<Vec<u8>>::new());
    assert_eq!(handler.fastly_http_resp_send_downstream(0, 0, 0), 0);
    assert_eq!(handler.into_response().headers.keys().count(), added);
}
