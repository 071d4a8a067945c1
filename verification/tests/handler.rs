use fasttime::call::HostCall;
use fasttime::handler::{RunError, Start};
use fasttime::message::{Carried, Payload, Request, Response, Target};
use fasttime::trap::Trap;
use fasttime::Handler;

const NO_MEMORY: &str = "failed to resolve exported host memory";

fn word(memory: &[u8], at: usize) -> i32 {
    i32::from_le_bytes([memory[at], memory[at + 1], memory[at + 2], memory[at + 3]])
}

fn message(result: Result<i32, Trap>) -> String {
    match result {
        Ok(code) => format!("answered {}", code),
        Err(trap) => trap.message().to_string(),
    }
}

fn inbound() -> Request {
    Request {
        method: b"PUT".to_vec(),
        uri: b"/in".to_vec(),
        target: Target::Parsed(hyper::Uri::from_static("/in")),
        headers: hyper::HeaderMap::new(),
        carried: Some(Carried {
            version: hyper::Version::HTTP_2,
            extensions: hyper::http::Extensions::new(),
        }),
        body: Payload::Stream(hyper::Body::from("payload")),
    }
}

fn handler() -> Handler {
    Handler::new(inbound())
}

/// A handler with two requests, two responses and two bodies.
fn furnished() -> Handler {
    let mut handler = Handler::new(inbound());
    let mut memory = vec![0u8; 4];
    for _ in 0..2 {
        assert!(handler.fastly_http_req_new(Some(&mut memory), 0).is_ok());
        assert!(handler.fastly_http_resp_new(Some(&mut memory), 0).is_ok());
        assert!(handler.fastly_http_body_new(Some(&mut memory), 0).is_ok());
    }
    handler
}

fn bytes_of(body: &Payload) -> Vec<u8> {
    match body {
        Payload::Bytes(bytes) => bytes.clone(),
        Payload::Stream(_) => panic!("a stream"),
    }
}

fn method_of(handler: &Handler, handle: i32) -> Vec<u8> {
    let mut memory = vec![0u8; 64];
    assert_eq!(message(handler.fastly_http_req_method_get(Some(&mut memory), handle, 4, 60, 0)), "answered 0");
    let length = word(&memory, 0) as usize;
    memory[4..4 + length].to_vec()
}

fn uri_of(handler: &Handler, handle: i32) -> Vec<u8> {
    let mut memory = vec![0u8; 128];
    assert_eq!(message(handler.fastly_http_req_uri_get(Some(&mut memory), handle, 4, 60, 0)), "answered 0");
    let length = word(&memory, 0) as usize;
    memory[4..4 + length].to_vec()
}

fn status_of(handler: &Handler, handle: i32) -> i32 {
    let mut memory = vec![0u8; 4];
    assert_eq!(message(handler.fastly_http_resp_status_get(Some(&mut memory), handle, 0)), "answered 0");
    word(&memory, 0)
}

#[test]
fn a_fresh_handler_answers_with_the_default_response() {
    let mut handler = handler();
    let response = handler.into_response();
    assert_eq!(response.status, 200);
    assert!(response.headers.is_empty());
    assert!(response.carried.is_none());
    assert_eq!(bytes_of(&response.body), Vec::<u8>::new());
}

#[test]
fn into_response_starts_over() {
    let mut handler = furnished();
    assert!(handler.fastly_http_resp_status_set(0, 404).is_ok());
    assert_eq!(handler.fastly_http_resp_send_downstream(0, 0, 0), 0);
    assert_eq!(handler.into_response().status, 404);
    assert_eq!(handler.into_response().status, 200);
    assert!(!handler.can_answer(None, HostCall::BodyDownstreamGet { request_handle_out: 0, body_handle_out: 0 }));
    assert_eq!(message(handler.fastly_http_resp_status_set(0, 404)), "invalid response handle");
}

#[test]
fn the_client_request_is_taken_once() {
    let mut handler = handler();
    let mut memory = vec![9u8; 8];
    assert_eq!(message(handler.body_downstream_get(Some(&mut memory), 0, 4)), "answered 0");
    assert_eq!((word(&memory, 0), word(&memory, 4)), (0, 0));
    assert_eq!(method_of(&handler, 0), b"PUT".to_vec());
    assert_eq!(uri_of(&handler, 0), b"/in".to_vec());
    let again = HostCall::BodyDownstreamGet { request_handle_out: 0, body_handle_out: 4 };
    assert!(handler.call(Some(&mut memory), again).is_none());
}

#[test]
fn the_client_request_gets_the_handle_of_its_head_for_both() {
    let mut handler = handler();
    let mut memory = vec![0u8; 8];
    assert!(handler.fastly_http_req_new(Some(&mut memory), 0).is_ok());
    assert!(handler.body_downstream_get(Some(&mut memory), 0, 4).is_ok());
    assert_eq!((word(&memory, 0), word(&memory, 4)), (1, 1));
    // The body is the first one all the same.
    assert!(handler.fastly_http_resp_new(Some(&mut memory), 0).is_ok());
    assert_eq!(handler.fastly_http_resp_send_downstream(0, 0, 0), 0);
    assert!(matches!(handler.into_response().body, Payload::Stream(_)));
}

#[test]
fn taking_the_client_request_without_memory_traps_and_takes_it() {
    let mut handler = handler();
    assert_eq!(message(handler.body_downstream_get(None, 0, 4)), NO_MEMORY);
    assert_eq!(method_of(&handler, 0), b"PUT".to_vec());
    assert!(!handler.can_answer(None, HostCall::BodyDownstreamGet { request_handle_out: 0, body_handle_out: 4 }));
}

#[test]
fn handles_count_up() {
    let mut handler = handler();
    let mut memory = vec![0u8; 12];
    for expected in 0..3 {
        assert_eq!(message(handler.fastly_http_req_new(Some(&mut memory), 0)), "answered 0");
        assert_eq!(message(handler.fastly_http_resp_new(Some(&mut memory), 4)), "answered 0");
        assert_eq!(message(handler.fastly_http_body_new(Some(&mut memory), 8)), "answered 0");
        assert_eq!((word(&memory, 0), word(&memory, 4), word(&memory, 8)), (expected, expected, expected));
    }
}

#[test]
fn making_things_without_memory_traps_and_makes_them() {
    let mut handler = handler();
    assert_eq!(message(handler.fastly_http_req_new(None, 0)), NO_MEMORY);
    assert_eq!(message(handler.fastly_http_resp_new(None, 0)), NO_MEMORY);
    assert_eq!(message(handler.fastly_http_body_new(None, 0)), NO_MEMORY);
    let mut memory = vec![0u8; 12];
    assert!(handler.fastly_http_req_new(Some(&mut memory), 0).is_ok());
    assert!(handler.fastly_http_resp_new(Some(&mut memory), 4).is_ok());
    assert!(handler.fastly_http_body_new(Some(&mut memory), 8).is_ok());
    assert_eq!((word(&memory, 0), word(&memory, 4), word(&memory, 8)), (1, 1, 1));
}

#[test]
fn a_new_request_is_get_slash() {
    let handler = furnished();
    assert_eq!(method_of(&handler, 0), b"GET".to_vec());
    assert_eq!(uri_of(&handler, 0), b"/".to_vec());
}

#[test]
fn a_new_response_has_status_200() {
    assert_eq!(status_of(&furnished(), 1), 200);
}

#[test]
fn a_method_is_read_back() {
    let mut handler = furnished();
    assert_eq!(message(handler.fastly_http_req_method_set(Some(b"xxPURGE!"), 1, 2, 6)), "answered 0");
    assert_eq!(method_of(&handler, 1), b"PURGE!".to_vec());
    assert_eq!(method_of(&handler, 0), b"GET".to_vec());
}

#[test]
fn a_long_method_is_read_back() {
    let mut handler = furnished();
    let text = b"a-method-that-is-longer-than-most";
    assert!(handler.fastly_http_req_method_set(Some(text), 0, 0, text.len() as i32).is_ok());
    assert_eq!(method_of(&handler, 0), text.to_vec());
}

#[test]
fn a_method_that_cannot_be_set_traps() {
    let mut handler = furnished();
    assert_eq!(message(handler.fastly_http_req_method_set(None, 0, 0, 3)), NO_MEMORY);
    assert_eq!(message(handler.fastly_http_req_method_set(Some(b"PUT"), 0, 0, 4)), "failed to read body memory");
    assert_eq!(message(handler.fastly_http_req_method_set(Some(b"P T"), 0, 0, 3)), "invalid http method");
    assert_eq!(message(handler.fastly_http_req_method_set(Some(b"P#T"), 0, 0, 3)), "invalid http method");
    assert_eq!(message(handler.fastly_http_req_method_set(Some(b"PUT"), 0, 0, 0)), "invalid http method");
    assert_eq!(message(handler.fastly_http_req_method_set(Some(b"P T"), 9, 0, 3)), "invalid http method");
    assert_eq!(message(handler.fastly_http_req_method_set(Some(b"PUT"), 2, 0, 3)), "invalid request handler");
    assert_eq!(message(handler.fastly_http_req_method_set(Some(b"PUT"), -1, 0, 3)), "invalid request handler");
    assert_eq!(method_of(&handler, 0), b"GET".to_vec());
}

#[test]
fn a_method_that_cannot_be_told_traps() {
    let handler = furnished();
    let mut memory = vec![9u8; 6];
    assert_eq!(message(handler.fastly_http_req_method_get(None, 0, 0, 9, 0)), NO_MEMORY);
    assert_eq!(message(handler.fastly_http_req_method_get(Some(&mut memory), 2, 0, 9, 0)), "Invalid body handle");
    assert_eq!(
        message(handler.fastly_http_req_method_get(Some(&mut memory), 0, 4, 9, 0)),
        "Failed to write request HTTP method bytes"
    );
    assert_eq!(memory, vec![9u8; 6]);
    assert!(!handler.can_answer(Some(&memory), HostCall::ReqMethodGet { handle: 0, addr: 0, nwritten_out: 3 }));
}

#[test]
fn a_uri_is_read_back() {
    let mut handler = furnished();
    let text = b"http://example.com/a?b=c";
    assert_eq!(message(handler.fastly_http_req_uri_set(Some(text), 0, 0, text.len() as i32)), "answered 0");
    assert_eq!(uri_of(&handler, 0), text.to_vec());
    assert_eq!(uri_of(&handler, 1), b"/".to_vec());
}

#[test]
fn a_uri_is_told_in_its_written_form() {
    let mut handler = furnished();
    let text = b"HTTP://example.com#top";
    assert!(handler.fastly_http_req_uri_set(Some(text), 0, 0, text.len() as i32).is_ok());
    assert_eq!(uri_of(&handler, 0), b"http://example.com/".to_vec());
}

#[test]
fn a_uri_that_cannot_be_set_traps() {
    let mut handler = furnished();
    assert_eq!(message(handler.fastly_http_req_uri_set(None, 2, 0, 1)), "invalid request handle");
    assert_eq!(message(handler.fastly_http_req_uri_set(None, 0, 0, 1)), NO_MEMORY);
    assert_eq!(message(handler.fastly_http_req_uri_set(Some(b"/"), 0, 0, 2)), "failed to read request uri");
    assert_eq!(message(handler.fastly_http_req_uri_set(Some(b"/ a"), 0, 0, 3)), "invalid uri");
    assert_eq!(message(handler.fastly_http_req_uri_set(Some(b"/"), 0, 0, 0)), "invalid uri");
    assert_eq!(uri_of(&handler, 0), b"/".to_vec());
}

#[test]
fn a_uri_is_assigned_or_refused() {
    let mut handler = furnished();
    assert_eq!(message(handler.fastly_http_req_uri_assign(0, b"/x#y".to_vec(), Some(b"/x".to_vec()))), "answered 0");
    assert_eq!(uri_of(&handler, 0), b"/x".to_vec());
    assert_eq!(message(handler.fastly_http_req_uri_assign(0, b" ".to_vec(), None)), "invalid uri");
    assert_eq!(uri_of(&handler, 0), b"/x".to_vec());
}

#[test]
fn a_uri_that_cannot_be_told_traps() {
    let handler = furnished();
    let mut memory = vec![9u8; 4];
    assert_eq!(message(handler.fastly_http_req_uri_get(None, 0, 0, 9, 0)), NO_MEMORY);
    assert_eq!(message(handler.fastly_http_req_uri_get(Some(&mut memory), -1, 0, 9, 0)), "invalid request handle");
    assert_eq!(message(handler.fastly_http_req_uri_get(Some(&mut memory), 0, 4, 9, 0)), "failed to write method bytes");
}

#[test]
fn versions_are_told_as_http_1_1() {
    let handler = furnished();
    let mut memory = vec![0u8; 8];
    assert_eq!(message(handler.fastly_http_req_version_get(Some(&mut memory), 0, 0)), "answered 0");
    assert_eq!(message(handler.fastly_http_resp_version_get(Some(&mut memory), 0, 4)), "answered 0");
    assert_eq!((word(&memory, 0), word(&memory, 4)), (2, 2));
    assert_eq!(message(handler.fastly_http_req_version_get(Some(&mut memory), 2, 0)), "Invalid response handle");
    assert_eq!(message(handler.fastly_http_resp_version_get(Some(&mut memory), 2, 0)), "Invalid response handle");
    assert_eq!(message(handler.fastly_http_req_version_get(None, 0, 0)), NO_MEMORY);
    assert_eq!(message(handler.fastly_http_resp_version_get(None, 0, 0)), NO_MEMORY);
    assert_eq!(handler.fastly_http_resp_version_set(7, 7), 0);
}

#[test]
fn a_status_is_read_back() {
    let mut handler = furnished();
    assert_eq!(message(handler.fastly_http_resp_status_set(1, 999)), "answered 0");
    assert_eq!(status_of(&handler, 1), 999);
    assert_eq!(status_of(&handler, 0), 200);
    assert_eq!(message(handler.fastly_http_resp_status_set(1, 100)), "answered 0");
    assert_eq!(status_of(&handler, 1), 100);
}

#[test]
fn a_status_is_cut_to_sixteen_bits() {
    let mut handler = furnished();
    assert_eq!(message(handler.fastly_http_resp_status_set(0, 65536 + 404)), "answered 0");
    assert_eq!(status_of(&handler, 0), 404);
    assert_eq!(message(handler.fastly_http_resp_status_set(0, -65036)), "answered 0");
    assert_eq!(status_of(&handler, 0), 500);
}

#[test]
fn a_status_that_cannot_be_set_traps() {
    let mut handler = furnished();
    assert_eq!(message(handler.fastly_http_resp_status_set(2, 200)), "invalid response handle");
    assert_eq!(message(handler.fastly_http_resp_status_set(0, 99)), "invalid status code");
    assert_eq!(message(handler.fastly_http_resp_status_set(0, 1000)), "invalid status code");
    assert_eq!(status_of(&handler, 0), 200);
    let mut memory = vec![0u8; 4];
    assert_eq!(message(handler.fastly_http_resp_status_get(Some(&mut memory), 2, 0)), "Invalid response handle");
    assert_eq!(message(handler.fastly_http_resp_status_get(None, 0, 0)), NO_MEMORY);
}

#[test]
fn a_body_holds_the_last_write() {
    let mut handler = furnished();
    let mut memory = b"....first second".to_vec();
    assert_eq!(message(handler.fastly_http_body_write(Some(&mut memory), 1, 4, 5, 0, 0)), "answered 0");
    assert_eq!(word(&memory, 0), 5);
    assert_eq!(message(handler.fastly_http_body_write(Some(&mut memory), 1, 10, 6, 0, 0)), "answered 0");
    assert_eq!(word(&memory, 0), 6);
    assert_eq!(handler.fastly_http_resp_send_downstream(0, 1, 0), 0);
    assert_eq!(bytes_of(&handler.into_response().body), b"second".to_vec());
}

#[test]
fn a_body_that_cannot_be_written_traps() {
    let mut handler = furnished();
    let mut memory = b"....".to_vec();
    assert_eq!(message(handler.fastly_http_body_write(None, 2, 0, 1, 0, 0)), "Failed to body handle");
    assert_eq!(message(handler.fastly_http_body_write(None, 0, 0, 1, 0, 0)), NO_MEMORY);
    assert_eq!(
        message(handler.fastly_http_body_write(Some(&mut memory), 0, 1, 4, 0, 0)),
        "Failed to read body memory"
    );
}

#[test]
fn the_answer_is_what_was_sent_downstream() {
    let mut handler = furnished();
    let mut memory = b"....hello".to_vec();
    assert!(handler.fastly_http_body_write(Some(&mut memory), 0, 4, 5, 0, 0).is_ok());
    assert!(handler.fastly_http_resp_status_set(1, 201).is_ok());
    assert_eq!(handler.fastly_http_resp_send_downstream(1, 0, 0), 0);
    let response = handler.into_response();
    assert_eq!(response.status, 201);
    assert_eq!(bytes_of(&response.body), b"hello".to_vec());
}

#[test]
fn sending_downstream_moves_later_handles_down() {
    let mut handler = furnished();
    assert!(handler.fastly_http_resp_status_set(1, 201).is_ok());
    assert_eq!(handler.fastly_http_resp_send_downstream(0, 0, 0), 0);
    assert_eq!(status_of(&handler, 0), 201);
    assert!(!handler.can_answer(None, HostCall::RespSendDownstream { whandle: 1, bhandle: 0, stream: 0 }));
    assert!(!handler.can_answer(None, HostCall::RespSendDownstream { whandle: 0, bhandle: 1, stream: 0 }));
    assert!(handler.can_answer(None, HostCall::RespSendDownstream { whandle: 0, bhandle: 0, stream: 0 }));
}

#[test]
fn streaming_downstream_is_not_supported() {
    let mut handler = furnished();
    assert!(handler.fastly_http_resp_status_set(0, 201).is_ok());
    assert_eq!(handler.fastly_http_resp_send_downstream(0, 0, 1), 5);
    assert_eq!(handler.fastly_http_resp_send_downstream(9, 9, -1), 5);
    assert_eq!(status_of(&handler, 0), 201);
    assert_eq!(handler.into_response().status, 200);
}

#[test]
fn what_the_client_sent_passes_through() {
    let mut handler = handler();
    let mut memory = b"........origin".to_vec();
    assert!(handler.body_downstream_get(Some(&mut memory), 0, 4).is_ok());
    let outbound = match handler.send(Some(&memory), 0, 0, 8, 6) {
        Some(Ok(outbound)) => outbound,
        _ => panic!("not sent"),
    };
    assert_eq!(outbound.backend, "origin");
    assert_eq!(outbound.request.method, b"PUT".to_vec());
    assert_eq!(outbound.request.uri, b"/in".to_vec());
    match outbound.request.target {
        Target::Parsed(uri) => assert_eq!(uri, hyper::Uri::from_static("/in")),
        Target::Raw(_) => panic!("not the client's URI"),
    }
    assert_eq!(outbound.request.carried.unwrap().version, hyper::Version::HTTP_2);
    match outbound.request.body {
        Payload::Stream(stream) => {
            assert_eq!(hyper::body::HttpBody::size_hint(&stream).exact(), Some(7));
        }
        Payload::Bytes(_) => panic!("not the client's body"),
    }
}

#[test]
fn a_backend_response_gets_handles() {
    let mut handler = furnished();
    let mut memory = b"........origin".to_vec();
    let outbound = handler.fastly_http_req_send(Some(&memory), 1, 0, 8, 6);
    assert!(outbound.is_ok());
    let response = Response {
        status: 503,
        headers: hyper::HeaderMap::new(),
        carried: None,
        body: Payload::Stream(hyper::Body::from("down")),
    };
    assert_eq!(handler.fastly_http_req_sent(&mut memory, response, 0, 4), 0);
    assert_eq!((word(&memory, 0), word(&memory, 4)), (2, 1));
    assert_eq!(status_of(&handler, 2), 503);
    assert_eq!(handler.fastly_http_resp_send_downstream(2, 1, 0), 0);
    let answer = handler.into_response();
    assert_eq!(answer.status, 503);
    assert!(matches!(answer.body, Payload::Stream(_)));
}

#[test]
fn a_sent_request_is_gone() {
    let mut handler = furnished();
    assert!(handler.fastly_http_req_method_set(Some(b"PUT"), 1, 0, 3).is_ok());
    assert!(handler.fastly_http_req_send(Some(b"b"), 0, 0, 0, 1).is_ok());
    assert_eq!(method_of(&handler, 0), b"PUT".to_vec());
    assert_eq!(message(handler.fastly_http_req_uri_set(None, 1, 0, 0)), "invalid request handle");
}

#[test]
fn a_request_that_cannot_be_sent_stays() {
    let mut handler = furnished();
    match handler.send(None, 0, 0, 0, 1) {
        Some(Err(trap)) => assert_eq!(trap.message(), NO_MEMORY),
        _ => panic!("sent without memory"),
    }
    match handler.send(Some(b"b"), 0, 0, 0, 2) {
        Some(Err(trap)) => assert_eq!(trap.message(), "error reading backend name"),
        _ => panic!("sent without a backend"),
    }
    assert!(handler.send(Some(&[0xff]), 0, 0, 0, 1).is_none());
    assert!(handler.send(Some(b"b"), 2, 0, 0, 1).is_none());
    assert!(handler.send(Some(b"b"), 0, -1, 0, 1).is_none());
    assert!(handler.send(Some(b"b"), 1, 1, 0, 1).is_some());
}

#[test]
fn backend_handles_that_do_not_fit_are_told() {
    let mut handler = furnished();
    let mut memory = vec![0u8; 7];
    assert_eq!(handler.sent(&mut memory, Response::default(), 0, 4), None);
    assert_eq!(handler.sent(&mut memory, Response::default(), 0, 3), Some(0));
    assert_eq!(status_of(&handler, 2), 200);
}

#[test]
fn a_finished_guest_gives_its_answer() {
    let mut handler = furnished();
    assert!(handler.fastly_http_resp_status_set(0, 418).is_ok());
    assert_eq!(handler.fastly_http_resp_send_downstream(0, 0, 0), 0);
    let start: Start<String> = Start::Finished;
    match handler.run(start) {
        Ok(response) => assert_eq!(response.status, 418),
        Err(_) => panic!("no answer"),
    }
}

#[test]
fn a_guest_without_start_gives_no_answer() {
    let mut handler = handler();
    let start: Start<String> = Start::Missing;
    match handler.run(start) {
        Err(RunError::Trap(trap)) => {
            assert_eq!(trap.message(), "wasm module does not define a `_start` func")
        }
        _ => panic!("an answer"),
    }
}

#[test]
fn a_failed_guest_gives_its_failure() {
    let mut handler = handler();
    match handler.run(Start::Failed("unreachable".to_string())) {
        Err(RunError::Failed(failure)) => assert_eq!(failure, "unreachable"),
        _ => panic!("an answer"),
    }
}

#[test]
fn calls_without_effect_are_answered() {
    let mut handler = handler();
    assert_eq!(handler.none(), 5);
    assert_eq!(handler.one(1), 5);
    assert_eq!(handler.one_i64(1), 5);
    assert_eq!(handler.fastly_http_req_cache_override_set(1, 2, 3), 0);
    assert_eq!(handler.fastly_http_req_cache_override_v2_set(1, 2, 3, 4, 5, 6), 0);
    assert!(matches!(handler.call(None, HostCall::Unsupported), Some(Ok(5))));
    assert!(matches!(handler.call(None, HostCall::Accepted), Some(Ok(0))));
}

#[test]
fn a_call_that_cannot_be_carried_out_changes_nothing() {
    let mut handler = handler();
    let mut memory = vec![9u8; 3];
    assert!(handler.call(Some(&mut memory), HostCall::ReqNew { request: 0 }).is_none());
    assert!(handler.call(Some(&mut memory), HostCall::RespNew { handle_out: 0 }).is_none());
    assert!(handler.call(Some(&mut memory), HostCall::BodyNew { handle_out: 0 }).is_none());
    assert_eq!(memory, vec![9u8; 3]);
    assert_eq!(message(handler.fastly_http_req_method_set(Some(b"PUT"), 0, 0, 3)), "invalid request handler");
}

#[test]
fn calls_do_what_their_functions_do() {
    let mut handler = handler();
    let mut memory = b"........PUT/pathbody".to_vec();
    let calls = [
        HostCall::BodyDownstreamGet { request_handle_out: 0, body_handle_out: 4 },
        HostCall::ReqNew { request: 0 },
        HostCall::ReqMethodSet { handle: 1, addr: 8, size: 3 },
        HostCall::ReqUriSet { rhandle: 1, addr: 11, size: 5 },
        HostCall::BodyNew { handle_out: 0 },
        HostCall::BodyWrite { handle: 1, addr: 16, size: 4, nwritten_out: 0 },
        HostCall::RespNew { handle_out: 0 },
        HostCall::RespStatusSet { whandle: 0, status: 404 },
        HostCall::RespStatusGet { resp_handle: 0, status: 0 },
        HostCall::RespVersionGet { resp_handle: 0, version_out: 4 },
        HostCall::ReqVersionGet { handle: 0, version_out: 4 },
    ];
    for call in calls {
        assert!(matches!(handler.call(Some(&mut memory), call), Some(Ok(0))));
    }
    assert_eq!((word(&memory, 0), word(&memory, 4)), (404, 2));
    assert_eq!(method_of(&handler, 1), b"PUT".to_vec());
    assert_eq!(uri_of(&handler, 1), b"/path".to_vec());
    let told = HostCall::ReqUriGet { handle: 1, addr: 8, nwritten_out: 0 };
    assert!(matches!(handler.call(Some(&mut memory), told), Some(Ok(0))));
    assert_eq!(memory[8..13], *b"/path");
    let told = HostCall::ReqMethodGet { handle: 1, addr: 8, nwritten_out: 0 };
    assert!(matches!(handler.call(Some(&mut memory), told), Some(Ok(0))));
    assert_eq!(memory[8..11], *b"PUT");
    let settle = HostCall::RespSendDownstream { whandle: 0, bhandle: 1, stream: 0 };
    assert!(matches!(handler.call(Some(&mut memory), settle), Some(Ok(0))));
    let answer = handler.into_response();
    assert_eq!(answer.status, 404);
    assert_eq!(bytes_of(&answer.body), b"body".to_vec());
}

#[test]
fn methods_hold_these_bytes_only() {
    let accepted = b"!*+-.0123456789ABCDEFGHIJKLMNOPQRSTUVWXYZ^_`abcdefghijklmnopqrstuvwxyz|~";
    for byte in 0..=255u8 {
        for length in [1, 3, 20] {
            let mut handler = furnished();
            let text = vec![byte; length];
            let result = handler.fastly_http_req_method_set(Some(&text), 0, 0, length as i32);
            assert_eq!(result.is_ok(), accepted.contains(&byte));
            let expected = if result.is_ok() { text } else { b"GET".to_vec() };
            assert_eq!(method_of(&handler, 0), expected);
        }
    }
}

#[test]
fn the_answer_stands_until_it_is_settled_again() {
    let mut handler = furnished();
    let mut memory = vec![0u8; 16];
    assert!(handler.fastly_http_resp_status_set(0, 201).is_ok());
    assert!(handler.fastly_http_resp_status_set(1, 202).is_ok());
    assert_eq!(handler.fastly_http_resp_send_downstream(0, 0, 0), 0);
    // The response that moved down is another one.
    assert!(handler.fastly_http_resp_status_set(0, 203).is_ok());
    assert!(handler.fastly_http_resp_new(Some(&mut memory), 0).is_ok());
    let start: Start<String> = Start::Missing;
    assert!(handler.run(start).is_err());
    let first = handler.into_response();
    assert_eq!(first.status, 201);
    let mut handler = furnished();
    assert!(handler.fastly_http_resp_status_set(0, 201).is_ok());
    assert!(handler.fastly_http_resp_status_set(1, 202).is_ok());
    assert_eq!(handler.fastly_http_resp_send_downstream(0, 0, 0), 0);
    assert_eq!(handler.fastly_http_resp_send_downstream(0, 0, 0), 0);
    assert_eq!(handler.into_response().status, 202);
}

#[test]
fn results_that_overlap_are_written_one_after_the_other() {
    let handler = furnished();
    let mut memory = vec![9u8; 6];
    assert!(handler.fastly_http_req_method_get(Some(&mut memory), 0, 0, 9, 1).is_ok());
    assert_eq!(memory, vec![b'G', 3, 0, 0, 0, 9]);
}

#[test]
fn a_default_handler_has_no_request() {
    let mut handler = Handler::default();
    let take = HostCall::BodyDownstreamGet { request_handle_out: 0, body_handle_out: 4 };
    assert!(handler.call(None, take).is_none());
    assert_eq!(handler.into_response().status, 200);
}

#[test]
fn a_uri_of_the_greatest_length_goes_out_as_it_was_set() {
    let mut handler = furnished();
    let mut text = b"http://".to_vec();
    while text.len() < 65534 {
        text.push(b'a');
    }
    let size = text.len() as i32;
    assert!(handler.fastly_http_req_uri_set(Some(&text), 0, 0, size).is_ok());
    let mut memory = vec![0u8; 65539];
    assert!(handler.fastly_http_req_uri_get(Some(&mut memory), 0, 4, 0, 0).is_ok());
    assert_eq!(word(&memory, 0), 65535);
    assert_eq!(memory[65538], b'/');
    let outbound = match handler.send(Some(b"b"), 0, 0, 0, 1) {
        Some(Ok(outbound)) => outbound,
        _ => panic!("not sent"),
    };
    match outbound.request.target {
        Target::Raw(raw) => {
            assert_eq!(raw, text);
            assert!(hyper::Uri::from_maybe_shared(raw).is_ok());
        }
        Target::Parsed(_) => panic!("not the guest's URI"),
    }
}

#[test]
fn any_number_of_requests_can_be_sent() {
    let mut handler = handler();
    let mut memory = b"........origin".to_vec();
    for sent in 0..50 {
        assert!(handler.fastly_http_req_new(Some(&mut memory), 0).is_ok());
        assert!(handler.fastly_http_body_new(Some(&mut memory), 4).is_ok());
        let (request, body) = (word(&memory, 0), word(&memory, 4));
        assert_eq!((request, body), (0, sent));
        assert!(matches!(handler.send(Some(&memory), request, body, 8, 6), Some(Ok(_))));
        assert_eq!(handler.sent(&mut memory, Response::default(), 0, 4), Some(0));
        assert_eq!((word(&memory, 0), word(&memory, 4)), (sent, sent));
    }
}

#[test]
fn sending_keeps_the_responses_that_came_before() {
    let mut handler = handler();
    let mut memory = b"........origin".to_vec();
    for sent in 0..20 {
        assert!(handler.fastly_http_req_new(Some(&mut memory), 0).is_ok());
        assert!(handler.fastly_http_body_new(Some(&mut memory), 4).is_ok());
        let (request, body) = (word(&memory, 0), word(&memory, 4));
        assert!(matches!(handler.send(Some(&memory), request, body, 8, 6), Some(Ok(_))));
        let mut response = Response::default();
        response.status = 300 + sent;
        assert_eq!(handler.sent(&mut memory, response, 0, 4), Some(0));
        for earlier in 0..=sent {
            assert_eq!(status_of(&handler, earlier as i32), 300 + earlier as i32);
        }
    }
}
