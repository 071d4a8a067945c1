//! The host functions that a guest calls to answer a request.
use crate::call::HostCall;
use crate::http::{
    appended, header_map_get_all, header_map_keys, header_map_try_append, header_name_from_bytes,
    header_value_from_bytes, lemma_folded_is_idempotent, lemma_folded_is_valid, method_from_bytes,
    status_from_u16, str_from_utf8, uri_from_maybe_shared,
};
use crate::memory::{fits, in_bounds, read, write_i32, write_u32};
use crate::message::{
    default_request, default_response, empty_body, Payload, PayloadView, Request, RequestView,
    Response, ResponseView, Target, TargetView,
};
use crate::model::{holds, State, Step};
use crate::order::{lemma_ascending_of_set, texts};
use crate::paging::{page_fits, write_page};
use crate::status::{ok, ok_code, unsupported, unsupported_code};
use crate::trap::{answer, Trap};
use vstd::prelude::*;
use vstd::slice::slice_to_vec;

verus! {

/// The state of one request/response cycle.
///
/// The client's request comes in. The guest may make requests of its own, get responses to
/// them and build the response that goes out. What it works on it names by handles, which
/// are positions in the tables kept here.
pub struct Handler {
    request: Option<Request>,
    requests: Vec<Request>,
    responses: Vec<Response>,
    bodies: Vec<Payload>,
    response: Response,
}

impl View for Handler {
    type V = State;

    closed spec fn view(&self) -> State {
        State {
            request: match self.request {
                Some(request) => Some(request@),
                None => None,
            },
            requests: self.requests@.map_values(|request: Request| request@),
            responses: self.responses@.map_values(|response: Response| response@),
            bodies: self.bodies@.map_values(|body: Payload| body@),
            response: self.response@,
        }
    }
}

impl Default for Handler {
    /// A handler without a request.
    fn default() -> (handler: Handler)
        ensures
            handler@ == State::blank(),
    {
        let handler = Handler {
            request: None,
            requests: Vec::new(),
            responses: Vec::new(),
            bodies: Vec::new(),
            response: Response::default(),
        };
        assert(handler@ =~= State::blank());
        handler
    }
}

/// The bytes of the guest's memory, if it exports one.
pub open spec fn seen(memory: Option<&mut [u8]>) -> Option<Seq<u8>> {
    match memory {
        Some(bytes) => Some(bytes@),
        None => None,
    }
}

/// The bytes of a memory that is only read.
pub open spec fn known(memory: Option<&[u8]>) -> Option<Seq<u8>> {
    match memory {
        Some(bytes) => Some(bytes@),
        None => None,
    }
}

/// Whether a call that leaves `step` behind leaves `state` and gives `result`.
pub open spec fn leaves(step: Option<Step>, state: State, result: Result<i32, Trap>) -> bool {
    step is Some && step->0.state == state && step->0.answer == answer(result)
}

impl Handler {
    /// A handler for `request`, with empty tables.
    pub fn new(request: Request) -> (handler: Handler)
        ensures
            handler@ == State::initial(request@),
    {
        let handler = Handler {
            request: Some(request),
            requests: Vec::new(),
            responses: Vec::new(),
            bodies: Vec::new(),
            response: Response::default(),
        };
        assert(handler@ =~= State::initial(request@));
        handler
    }

    /// The answer to the client. The handler starts over, without a request.
    pub fn into_response(&mut self) -> (response: Response)
        ensures
            response@ == old(self)@.response,
            final(self)@ == State::blank(),
    {
        let mut blank = Handler::default();
        core::mem::swap(self, &mut blank);
        blank.response
    }

    /// Hands the client's request to the guest, and tells it the handles of the request's
    /// head and body.
    pub fn body_downstream_get(
        &mut self,
        memory: Option<&mut [u8]>,
        request_handle_out: i32,
        body_handle_out: i32,
    ) -> (r: Result<i32, Trap>)
        requires
            old(self)@.body_downstream_get(
                seen(memory),
                request_handle_out,
                body_handle_out,
            ) is Some,
        ensures
            ({
                let step = old(self)@.body_downstream_get(
                    seen(memory),
                    request_handle_out,
                    body_handle_out,
                );
                &&& leaves(step, final(self)@, r)
                &&& memory matches Some(bytes) ==> step->0.memory == Some(final(bytes)@)
            }),
    {
        let index: usize = self.requests.len();
        let mut taken: Option<Request> = None;
        core::mem::swap(&mut self.request, &mut taken);
        let mut request: Request = taken.unwrap();
        let mut body: Payload = Payload::default();
        core::mem::swap(&mut request.body, &mut body);
        self.requests.push(request);
        self.bodies.push(body);
        proof {
            let before = old(self)@;
            let taken = before.request->0;
            assert(self@ =~= State {
                request: None,
                requests: before.requests.push(RequestView { body: empty_body(), ..taken }),
                bodies: before.bodies.push(taken.body),
                ..before
            });
        }
        match memory {
            Some(bytes) => {
                write_u32(bytes, request_handle_out, index as u32);
                write_u32(bytes, body_handle_out, index as u32);
                Ok(ok_code())
            },
            None => Err(no_memory()),
        }
    }

    /// Makes a request and tells the guest its handle.
    pub fn fastly_http_req_new(&mut self, memory: Option<&mut [u8]>, request: i32) -> (r: Result<
        i32,
        Trap,
    >)
        requires
            old(self)@.req_new(seen(memory), request) is Some,
        ensures
            ({
                let step = old(self)@.req_new(seen(memory), request);
                &&& leaves(step, final(self)@, r)
                &&& memory matches Some(bytes) ==> step->0.memory == Some(final(bytes)@)
            }),
    {
        let index: usize = self.requests.len();
        self.requests.push(Request::default());
        assert(self@ =~= State {
            requests: old(self)@.requests.push(default_request()),
            ..old(self)@
        });
        match memory {
            Some(bytes) => {
                write_u32(bytes, request, index as u32);
                Ok(ok_code())
            },
            None => Err(no_memory()),
        }
    }

    /// Settles the answer to the client. Streaming it is not supported.
    pub fn fastly_http_resp_send_downstream(
        &mut self,
        whandle: i32,
        bhandle: i32,
        stream: i32,
    ) -> (code: i32)
        requires
            old(self)@.resp_send_downstream(None, whandle, bhandle, stream) is Some,
        ensures
            leaves(
                old(self)@.resp_send_downstream(None, whandle, bhandle, stream),
                final(self)@,
                Ok(code),
            ),
    {
        if stream != 0 {
            return unsupported_code();
        }
        let mut response: Response = self.responses.remove(whandle as usize);
        let body: Payload = self.bodies.remove(bhandle as usize);
        response.body = body;
        self.response = response;
        proof {
            let before = old(self)@;
            assert(self@ =~= State {
                responses: before.responses.remove(whandle as int),
                bodies: before.bodies.remove(bhandle as int),
                response: ResponseView {
                    body: before.bodies[bhandle as int],
                    ..before.responses[whandle as int]
                },
                ..before
            });
        }
        ok_code()
    }

    /// Tells the guest a request's method. `maxlen` is not heeded.
    pub fn fastly_http_req_method_get(
        &self,
        memory: Option<&mut [u8]>,
        handle: i32,
        addr: i32,
        maxlen: i32,
        nwritten_out: i32,
    ) -> (r: Result<i32, Trap>)
        requires
            self@.req_method_get(seen(memory), handle, addr, nwritten_out) is Some,
        ensures
            ({
                let step = self@.req_method_get(seen(memory), handle, addr, nwritten_out);
                &&& leaves(step, self@, r)
                &&& memory matches Some(bytes) ==> step->0.memory == Some(final(bytes)@)
            }),
    {
        let bytes: &mut [u8] = match memory {
            Some(bytes) => bytes,
            None => return Err(no_memory()),
        };
        if !within(handle, self.requests.len()) {
            return Err(Trap::new("Invalid body handle"));
        }
        let text: &Vec<u8> = &self.requests[handle as usize].method;
        match crate::memory::write(bytes, addr, text.as_slice()) {
            Some(written) => {
                write_u32(bytes, nwritten_out, written as u32);
                Ok(ok_code())
            },
            None => Err(Trap::new("Failed to write request HTTP method bytes")),
        }
    }

    /// Sets a request's method to the text at `addr`.
    pub fn fastly_http_req_method_set(
        &mut self,
        memory: Option<&[u8]>,
        handle: i32,
        addr: i32,
        size: i32,
    ) -> (r: Result<i32, Trap>)
        ensures
            leaves(old(self)@.req_method_set(known(memory), handle, addr, size), final(self)@, r),
    {
        let bytes: &[u8] = match memory {
            Some(bytes) => bytes,
            None => return Err(no_memory()),
        };
        let text: Vec<u8> = match read(bytes, addr, size) {
            Some(text) => text,
            None => return Err(Trap::new("failed to read body memory")),
        };
        match method_from_bytes(text.as_slice()) {
            Some(method) => {
                if !within(handle, self.requests.len()) {
                    return Err(Trap::new("invalid request handler"));
                }
                self.requests[handle as usize].method = method;
                proof {
                    let before = old(self)@;
                    let request = RequestView { method: text@, ..before.requests[handle as int] };
                    assert(self@ =~= State {
                        requests: before.requests.update(handle as int, request),
                        ..before
                    });
                }
                Ok(ok_code())
            },
            None => Err(Trap::new("invalid http method")),
        }
    }

    /// Tells the guest a request's URI. `maxlen` is not heeded.
    pub fn fastly_http_req_uri_get(
        &self,
        memory: Option<&mut [u8]>,
        handle: i32,
        addr: i32,
        maxlen: i32,
        nwritten_out: i32,
    ) -> (r: Result<i32, Trap>)
        requires
            self@.req_uri_get(seen(memory), handle, addr, nwritten_out) is Some,
        ensures
            ({
                let step = self@.req_uri_get(seen(memory), handle, addr, nwritten_out);
                &&& leaves(step, self@, r)
                &&& memory matches Some(bytes) ==> step->0.memory == Some(final(bytes)@)
            }),
    {
        let bytes: &mut [u8] = match memory {
            Some(bytes) => bytes,
            None => return Err(no_memory()),
        };
        if !within(handle, self.requests.len()) {
            return Err(Trap::new("invalid request handle"));
        }
        let text: &Vec<u8> = &self.requests[handle as usize].uri;
        match crate::memory::write(bytes, addr, text.as_slice()) {
            Some(written) => {
                write_u32(bytes, nwritten_out, written as u32);
                Ok(ok_code())
            },
            None => Err(Trap::new("failed to write method bytes")),
        }
    }

    /// Sets a request's URI to the one that `raw` was read as, whose text is `text`, or stops
    /// the guest where there is none.
    pub fn fastly_http_req_uri_assign(
        &mut self,
        rhandle: i32,
        raw: Vec<u8>,
        text: Option<Vec<u8>>,
    ) -> (r: Result<i32, Trap>)
        requires
            holds(old(self)@.requests.len(), rhandle),
        ensures
            leaves(
                old(self)@.req_uri_assign(None, rhandle, raw@, viewed(text)),
                final(self)@,
                r,
            ),
    {
        match text {
            Some(uri) => {
                let ghost told = uri@;
                let ghost read = raw@;
                self.requests[rhandle as usize].uri = uri;
                self.requests[rhandle as usize].target = Target::Raw(raw);
                proof {
                    let before = old(self)@;
                    let request = RequestView {
                        uri: told,
                        target: TargetView::Raw(read),
                        ..before.requests[rhandle as int]
                    };
                    assert(self@ =~= State {
                        requests: before.requests.update(rhandle as int, request),
                        ..before
                    });
                }
                Ok(ok_code())
            },
            None => Err(Trap::new("invalid uri")),
        }
    }

    /// Sets a request's URI to the one at `addr`.
    pub fn fastly_http_req_uri_set(
        &mut self,
        memory: Option<&[u8]>,
        rhandle: i32,
        addr: i32,
        size: i32,
    ) -> (r: Result<i32, Trap>)
        ensures
            leaves(old(self)@.req_uri_set(known(memory), rhandle, addr, size), final(self)@, r),
    {
        if !within(rhandle, self.requests.len()) {
            return Err(Trap::new("invalid request handle"));
        }
        let bytes: &[u8] = match memory {
            Some(bytes) => bytes,
            None => return Err(no_memory()),
        };
        match read(bytes, addr, size) {
            Some(raw) => {
                let text: Option<Vec<u8>> = uri_from_maybe_shared(slice_to_vec(raw.as_slice()));
                self.fastly_http_req_uri_assign(rhandle, raw, text)
            },
            None => Err(Trap::new("failed to read request uri")),
        }
    }

    /// Takes a request and a body that the guest wants sent, and the name of the backend
    /// to send them to.
    ///
    /// Once the backend has answered, [`Handler::fastly_http_req_sent`] ends the call.
    pub fn fastly_http_req_send(
        &mut self,
        memory: Option<&[u8]>,
        req_handle: i32,
        body_handle: i32,
        backend_addr: i32,
        backend_len: i32,
    ) -> (r: Result<Outbound, Trap>)
        requires
            old(self)@.req_send(
                known(memory),
                req_handle,
                body_handle,
                backend_addr,
                backend_len,
            ) is Some,
        ensures
            ({
                let sending = old(self)@.req_send(
                    known(memory),
                    req_handle,
                    body_handle,
                    backend_addr,
                    backend_len,
                )->0;
                &&& final(self)@ == sending.state
                &&& sending.answer == sent_out(r)
            }),
    {
        let bytes: &[u8] = match memory {
            Some(bytes) => bytes,
            None => return Err(no_memory()),
        };
        let name: Vec<u8> = match read(bytes, backend_addr, backend_len) {
            Some(name) => name,
            None => return Err(Trap::new("error reading backend name")),
        };
        let backend: String = str_from_utf8(name.as_slice()).unwrap();
        let mut request: Request = self.requests.remove(req_handle as usize);
        let body: Payload = self.bodies.remove(body_handle as usize);
        request.body = body;
        proof {
            let before = old(self)@;
            assert(self@ =~= State {
                requests: before.requests.remove(req_handle as int),
                bodies: before.bodies.remove(body_handle as int),
                ..before
            });
            assert(request@ =~= RequestView {
                body: before.bodies[body_handle as int],
                ..before.requests[req_handle as int]
            });
        }
        Ok(Outbound { backend, request })
    }

    /// Hands a backend's response to the guest, and tells it the handles of the response's
    /// head and body.
    pub fn fastly_http_req_sent(
        &mut self,
        memory: &mut [u8],
        response: Response,
        resp_handle_out: i32,
        resp_body_handle_out: i32,
    ) -> (code: i32)
        requires
            old(self)@.req_sent(
                old(memory)@,
                response@,
                resp_handle_out,
                resp_body_handle_out,
            ) is Some,
        ensures
            ({
                let step = old(self)@.req_sent(
                    old(memory)@,
                    response@,
                    resp_handle_out,
                    resp_body_handle_out,
                );
                &&& leaves(step, final(self)@, Ok(code))
                &&& step->0.memory == Some(final(memory)@)
            }),
    {
        let ghost told = response@;
        let mut head: Response = response;
        let mut body: Payload = Payload::default();
        core::mem::swap(&mut head.body, &mut body);
        let index: usize = self.responses.len();
        let body_index: usize = self.bodies.len();
        self.responses.push(head);
        self.bodies.push(body);
        proof {
            let before = old(self)@;
            assert(self@ =~= State {
                responses: before.responses.push(ResponseView { body: empty_body(), ..told }),
                bodies: before.bodies.push(told.body),
                ..before
            });
        }
        write_u32(memory, resp_handle_out, index as u32);
        write_u32(memory, resp_body_handle_out, body_index as u32);
        ok_code()
    }

    /// Nothing is cached, so there is nothing to override.
    pub fn fastly_http_req_cache_override_set(&self, tag: i32, ttl: i32, swr: i32) -> (code: i32)
        ensures
            code == ok(),
    {
        ok_code()
    }

    /// Nothing is cached, so there is nothing to override.
    pub fn fastly_http_req_cache_override_v2_set(
        &self,
        handle_out: i32,
        tag: u32,
        ttl: u32,
        swr: u32,
        sk: i32,
        sk_len: i32,
    ) -> (code: i32)
        ensures
            code == ok(),
    {
        ok_code()
    }

    /// Tells the guest the name of a header field of a request. `maxlen` is not heeded.
    /// A request has finitely many header fields.
    pub fn fastly_http_req_header_names_get(
        &self,
        memory: Option<&mut [u8]>,
        handle: i32,
        addr: i32,
        maxlen: i32,
        cursor: i32,
        ending_cursor_out: i32,
        nwritten_out: i32,
    ) -> (r: Result<i32, Trap>)
        requires
            self@.req_header_names_get(
                seen(memory),
                handle,
                addr,
                cursor,
                ending_cursor_out,
                nwritten_out,
            ) is Some,
        ensures
            ({
                let step = self@.req_header_names_get(
                    seen(memory),
                    handle,
                    addr,
                    cursor,
                    ending_cursor_out,
                    nwritten_out,
                );
                &&& leaves(step, self@, r)
                &&& memory matches Some(bytes) ==> step->0.memory == Some(final(bytes)@)
            }),
            self@.names_are_finite(handle),
    {
        if !within(handle, self.requests.len()) {
            return Err(Trap::new("invalid request handle"));
        }
        let names: Vec<Vec<u8>> = header_map_keys(&self.requests[handle as usize].headers);
        proof {
            lemma_ascending_of_set(texts(names@), self@.requests[handle as int].fields.dom());
        }
        match memory {
            Some(bytes) => {
                write_page(names, bytes, addr, cursor, ending_cursor_out, nwritten_out);
                Ok(ok_code())
            },
            None => Err(no_memory()),
        }
    }

    /// Tells the guest a value of a header field of a request. `maxlen` is not heeded.
    pub fn fastly_http_req_header_values_get(
        &self,
        memory: Option<&mut [u8]>,
        handle: i32,
        name_addr: i32,
        name_size: i32,
        addr: i32,
        maxlen: i32,
        cursor: i32,
        ending_cursor_out: i32,
        nwritten_out: i32,
    ) -> (r: Result<i32, Trap>)
        requires
            self@.req_header_values_get(
                seen(memory),
                handle,
                name_addr,
                name_size,
                addr,
                cursor,
                ending_cursor_out,
                nwritten_out,
            ) is Some,
        ensures
            ({
                let step = self@.req_header_values_get(
                    seen(memory),
                    handle,
                    name_addr,
                    name_size,
                    addr,
                    cursor,
                    ending_cursor_out,
                    nwritten_out,
                );
                &&& leaves(step, self@, r)
                &&& memory matches Some(bytes) ==> step->0.memory == Some(final(bytes)@)
            }),
    {
        broadcast use vstd::utf8::decode_utf8_encode_utf8;

        if !within(handle, self.requests.len()) {
            return Err(Trap::new("invalid request handle"));
        }
        let bytes: &mut [u8] = match memory {
            Some(bytes) => bytes,
            None => return Err(no_memory()),
        };
        let header: Vec<u8> = match read(bytes, name_addr, name_size) {
            Some(header) => header,
            None => return Err(Trap::new("Failed to read header name")),
        };
        let name: String = str_from_utf8(header.as_slice()).unwrap();
        let values: Vec<Vec<u8>> = header_map_get_all(
            &self.requests[handle as usize].headers,
            name.as_str(),
        );
        write_page(values, bytes, addr, cursor, ending_cursor_out, nwritten_out);
        Ok(ok_code())
    }

    /// Tells the guest a request's protocol version.
    pub fn fastly_http_req_version_get(
        &self,
        memory: Option<&mut [u8]>,
        handle: i32,
        version_out: i32,
    ) -> (r: Result<i32, Trap>)
        requires
            self@.req_version_get(seen(memory), handle, version_out) is Some,
        ensures
            ({
                let step = self@.req_version_get(seen(memory), handle, version_out);
                &&& leaves(step, self@, r)
                &&& memory matches Some(bytes) ==> step->0.memory == Some(final(bytes)@)
            }),
    {
        if !within(handle, self.requests.len()) {
            return Err(Trap::new("Invalid response handle"));
        }
        match memory {
            Some(bytes) => {
                write_i32(bytes, version_out, 2);
                Ok(ok_code())
            },
            None => Err(no_memory()),
        }
    }

    /// Makes a body and tells the guest its handle.
    pub fn fastly_http_body_new(&mut self, memory: Option<&mut [u8]>, handle_out: i32) -> (r:
        Result<i32, Trap>)
        requires
            old(self)@.body_new(seen(memory), handle_out) is Some,
        ensures
            ({
                let step = old(self)@.body_new(seen(memory), handle_out);
                &&& leaves(step, final(self)@, r)
                &&& memory matches Some(bytes) ==> step->0.memory == Some(final(bytes)@)
            }),
    {
        let index: usize = self.bodies.len();
        self.bodies.push(Payload::default());
        assert(self@ =~= State { bodies: old(self)@.bodies.push(empty_body()), ..old(self)@ });
        match memory {
            Some(bytes) => {
                write_u32(bytes, handle_out, index as u32);
                Ok(ok_code())
            },
            None => Err(no_memory()),
        }
    }

    /// Replaces a body by the bytes at `addr`, and tells the guest how many they are.
    /// `body_end` is not heeded.
    pub fn fastly_http_body_write(
        &mut self,
        memory: Option<&mut [u8]>,
        handle: i32,
        addr: i32,
        size: i32,
        body_end: i32,
        nwritten_out: i32,
    ) -> (r: Result<i32, Trap>)
        requires
            old(self)@.body_write(seen(memory), handle, addr, size, nwritten_out) is Some,
        ensures
            ({
                let step = old(self)@.body_write(seen(memory), handle, addr, size, nwritten_out);
                &&& leaves(step, final(self)@, r)
                &&& memory matches Some(bytes) ==> step->0.memory == Some(final(bytes)@)
            }),
    {
        if !within(handle, self.bodies.len()) {
            return Err(Trap::new("Failed to body handle"));
        }
        let bytes: &mut [u8] = match memory {
            Some(bytes) => bytes,
            None => return Err(no_memory()),
        };
        let text: Vec<u8> = match read(bytes, addr, size) {
            Some(text) => text,
            None => return Err(Trap::new("Failed to read body memory")),
        };
        let length: usize = text.len();
        let ghost told = text@;
        self.bodies[handle as usize] = Payload::Bytes(text);
        proof {
            let before = old(self)@;
            assert(self@ =~= State {
                bodies: before.bodies.update(handle as int, PayloadView::Bytes(told)),
                ..before
            });
        }
        write_u32(bytes, nwritten_out, length as u32);
        Ok(ok_code())
    }

    /// Sets a response's status.
    pub fn fastly_http_resp_status_set(&mut self, whandle: i32, status: i32) -> (r: Result<
        i32,
        Trap,
    >)
        ensures
            leaves(old(self)@.resp_status_set(None, whandle, status), final(self)@, r),
    {
        if !within(whandle, self.responses.len()) {
            return Err(Trap::new("invalid response handle"));
        }
        match status_from_u16(status as u16) {
            Ok(code) => {
                self.responses[whandle as usize].status = code;
                proof {
                    let before = old(self)@;
                    let response = ResponseView {
                        status: code,
                        ..before.responses[whandle as int]
                    };
                    assert(self@ =~= State {
                        responses: before.responses.update(whandle as int, response),
                        ..before
                    });
                }
                Ok(ok_code())
            },
            Err(message) => Err(Trap::with(message)),
        }
    }

    /// Makes a response and tells the guest its handle.
    pub fn fastly_http_resp_new(&mut self, memory: Option<&mut [u8]>, handle_out: i32) -> (r:
        Result<i32, Trap>)
        requires
            old(self)@.resp_new(seen(memory), handle_out) is Some,
        ensures
            ({
                let step = old(self)@.resp_new(seen(memory), handle_out);
                &&& leaves(step, final(self)@, r)
                &&& memory matches Some(bytes) ==> step->0.memory == Some(final(bytes)@)
            }),
    {
        let index: usize = self.responses.len();
        self.responses.push(Response::default());
        assert(self@ =~= State {
            responses: old(self)@.responses.push(default_response()),
            ..old(self)@
        });
        match memory {
            Some(bytes) => {
                write_u32(bytes, handle_out, index as u32);
                Ok(ok_code())
            },
            None => Err(no_memory()),
        }
    }

    /// Tells the guest a value of a header field of a response. `maxlen` is not heeded.
    pub fn fastly_http_resp_header_values_get(
        &self,
        memory: Option<&mut [u8]>,
        handle: i32,
        name_addr: i32,
        name_size: i32,
        addr: i32,
        maxlen: i32,
        cursor: i32,
        ending_cursor_out: i32,
        nwritten_out: i32,
    ) -> (r: Result<i32, Trap>)
        requires
            self@.resp_header_values_get(
                seen(memory),
                handle,
                name_addr,
                name_size,
                addr,
                cursor,
                ending_cursor_out,
                nwritten_out,
            ) is Some,
        ensures
            ({
                let step = self@.resp_header_values_get(
                    seen(memory),
                    handle,
                    name_addr,
                    name_size,
                    addr,
                    cursor,
                    ending_cursor_out,
                    nwritten_out,
                );
                &&& leaves(step, self@, r)
                &&& memory matches Some(bytes) ==> step->0.memory == Some(final(bytes)@)
            }),
    {
        let bytes: &mut [u8] = match memory {
            Some(bytes) => bytes,
            None => return Err(no_memory()),
        };
        if !within(handle, self.responses.len()) {
            return Err(Trap::new("Invalid response handler"));
        }
        let header: Vec<u8> = match read(bytes, name_addr, name_size) {
            Some(header) => header,
            None => return Err(Trap::new("Failed to read header name")),
        };
        let name: String = header_name_from_bytes(header.as_slice()).unwrap();
        let values: Vec<Vec<u8>> = header_map_get_all(
            &self.responses[handle as usize].headers,
            name.as_str(),
        );
        proof {
            lemma_folded_is_idempotent(header@);
        }
        write_page(values, bytes, addr, cursor, ending_cursor_out, nwritten_out);
        Ok(ok_code())
    }

    /// Adds a value to a header field of a response. `None`, with nothing changed, where the
    /// response has so many fields that its header map refuses the value.
    pub fn fastly_http_resp_header_values_set(
        &mut self,
        memory: Option<&[u8]>,
        handle: i32,
        name_addr: i32,
        name_size: i32,
        values_addr: i32,
        values_size: i32,
    ) -> (r: Option<Result<i32, Trap>>)
        requires
            old(self)@.resp_header_values_set(
                known(memory),
                handle,
                name_addr,
                name_size,
                values_addr,
                values_size,
            ) is Some,
        ensures
            ({
                let step = old(self)@.resp_header_values_set(
                    known(memory),
                    handle,
                    name_addr,
                    name_size,
                    values_addr,
                    values_size,
                );
                match r {
                    Some(result) => leaves(step, final(self)@, result),
                    None => {
                        &&& final(self)@ == old(self)@
                        &&& old(self)@.crowded(handle)
                        &&& step->0.answer is Ok
                    },
                }
            }),
    {
        let bytes: &[u8] = match memory {
            Some(bytes) => bytes,
            None => return Some(Err(no_memory())),
        };
        if !within(handle, self.responses.len()) {
            return Some(Err(Trap::new("Invalid response handler")));
        }
        let header: Vec<u8> = match read(bytes, name_addr, name_size) {
            Some(header) => header,
            None => return Some(Err(Trap::new("Failed to read header name"))),
        };
        let name: String = header_name_from_bytes(header.as_slice()).unwrap();
        let text: Vec<u8> = match read(bytes, values_addr, values_size) {
            Some(text) => text,
            None => return Some(Err(Trap::new("Failed to read header name"))),
        };
        let value: Vec<u8> = header_value_from_bytes(text.as_slice()).unwrap();
        proof {
            lemma_folded_is_idempotent(header@);
            lemma_folded_is_valid(header@);
        }
        let taken: bool = header_map_try_append(
            &mut self.responses[handle as usize].headers,
            name.as_str(),
            value.as_slice(),
        );
        if !taken {
            assert(self@ =~= old(self)@);
            return None;
        }
        proof {
            let before = old(self)@;
            let response = before.responses[handle as int];
            let fields = appended(response.fields, header@, text@);
            assert(self@ =~= State {
                responses: before.responses.update(
                    handle as int,
                    ResponseView { fields, ..response },
                ),
                ..before
            });
        }
        Some(Ok(ok_code()))
    }

    /// Tells the guest a response's status.
    pub fn fastly_http_resp_status_get(
        &self,
        memory: Option<&mut [u8]>,
        resp_handle: i32,
        status: i32,
    ) -> (r: Result<i32, Trap>)
        requires
            self@.resp_status_get(seen(memory), resp_handle, status) is Some,
        ensures
            ({
                let step = self@.resp_status_get(seen(memory), resp_handle, status);
                &&& leaves(step, self@, r)
                &&& memory matches Some(bytes) ==> step->0.memory == Some(final(bytes)@)
            }),
    {
        if !within(resp_handle, self.responses.len()) {
            return Err(Trap::new("Invalid response handle"));
        }
        match memory {
            Some(bytes) => {
                write_u32(bytes, status, self.responses[resp_handle as usize].status as u32);
                Ok(ok_code())
            },
            None => Err(no_memory()),
        }
    }

    /// Tells the guest a response's protocol version.
    pub fn fastly_http_resp_version_get(
        &self,
        memory: Option<&mut [u8]>,
        resp_handle: i32,
        version_out: i32,
    ) -> (r: Result<i32, Trap>)
        requires
            self@.resp_version_get(seen(memory), resp_handle, version_out) is Some,
        ensures
            ({
                let step = self@.resp_version_get(seen(memory), resp_handle, version_out);
                &&& leaves(step, self@, r)
                &&& memory matches Some(bytes) ==> step->0.memory == Some(final(bytes)@)
            }),
    {
        if !within(resp_handle, self.responses.len()) {
            return Err(Trap::new("Invalid response handle"));
        }
        match memory {
            Some(bytes) => {
                write_i32(bytes, version_out, 2);
                Ok(ok_code())
            },
            None => Err(no_memory()),
        }
    }

    /// A response keeps its protocol version.
    pub fn fastly_http_resp_version_set(&self, whandle: i32, version: i32) -> (code: i32)
        ensures
            code == ok(),
    {
        ok_code()
    }

    /// The answer to a call without arguments that is not supported.
    pub fn none(&self) -> (code: i32)
        ensures
            code == unsupported(),
    {
        unsupported_code()
    }

    /// The answer to a call with one `i64` that is not supported.
    pub fn one_i64(&self, argument: i64) -> (code: i32)
        ensures
            code == unsupported(),
    {
        unsupported_code()
    }

    /// The answer to a call with one `i32` that is not supported.
    pub fn one(&self, argument: i32) -> (code: i32)
        ensures
            code == unsupported(),
    {
        unsupported_code()
    }

    /// Tells whether `call` can be carried out, that is, whether its results fit in the
    /// guest's memory and the texts and handles it needs are there.
    #[verifier::rlimit(50)]
    pub fn can_answer(&self, memory: Option<&[u8]>, call: HostCall) -> (r: bool)
        ensures
            r == self@.host_call(known(memory), call) is Some,
            call matches HostCall::ReqHeaderNamesGet { handle, .. } ==> self@.names_are_finite(
                handle,
            ),
    {
        match call {
            HostCall::Unsupported => true,
            HostCall::Accepted => true,
            HostCall::BodyDownstreamGet { request_handle_out, body_handle_out } => {
                self.request.is_some() && match memory {
                    Some(bytes) => fits(bytes, request_handle_out, 4) && fits(
                        bytes,
                        body_handle_out,
                        4,
                    ),
                    None => true,
                }
            },
            HostCall::ReqNew { request } => room(memory, request),
            HostCall::ReqMethodGet { handle, addr, nwritten_out } => {
                match memory {
                    Some(bytes) => !within(handle, self.requests.len()) || !fits(
                        bytes,
                        addr,
                        self.requests[handle as usize].method.len(),
                    ) || fits(bytes, nwritten_out, 4),
                    None => true,
                }
            },
            HostCall::ReqMethodSet { handle, addr, size } => true,
            HostCall::ReqUriGet { handle, addr, nwritten_out } => {
                match memory {
                    Some(bytes) => !within(handle, self.requests.len()) || !fits(
                        bytes,
                        addr,
                        self.requests[handle as usize].uri.len(),
                    ) || fits(bytes, nwritten_out, 4),
                    None => true,
                }
            },
            HostCall::ReqUriSet { rhandle, addr, size } => true,
            HostCall::ReqHeaderNamesGet {
                handle,
                addr,
                cursor,
                ending_cursor_out,
                nwritten_out,
            } => {
                if !within(handle, self.requests.len()) {
                    return true;
                }
                let names: Vec<Vec<u8>> = header_map_keys(&self.requests[handle as usize].headers);
                proof {
                    lemma_ascending_of_set(
                        texts(names@),
                        self@.requests[handle as int].fields.dom(),
                    );
                }
                match memory {
                    Some(bytes) => page_fits(
                        names,
                        bytes,
                        addr,
                        cursor,
                        ending_cursor_out,
                        nwritten_out,
                    ),
                    None => true,
                }
            },
            HostCall::ReqHeaderValuesGet {
                handle,
                name_addr,
                name_size,
                addr,
                cursor,
                ending_cursor_out,
                nwritten_out,
            } => {
                broadcast use vstd::utf8::decode_utf8_encode_utf8;

                let bytes: &[u8] = match memory {
                    Some(bytes) => bytes,
                    None => return true,
                };
                if !within(handle, self.requests.len()) {
                    return true;
                }
                let header: Vec<u8> = match read(bytes, name_addr, name_size) {
                    Some(header) => header,
                    None => return true,
                };
                match str_from_utf8(header.as_slice()) {
                    Some(name) => page_fits(
                        header_map_get_all(
                            &self.requests[handle as usize].headers,
                            name.as_str(),
                        ),
                        bytes,
                        addr,
                        cursor,
                        ending_cursor_out,
                        nwritten_out,
                    ),
                    None => false,
                }
            },
            HostCall::ReqVersionGet { handle, version_out } => {
                !within(handle, self.requests.len()) || room(memory, version_out)
            },
            HostCall::BodyNew { handle_out } => room(memory, handle_out),
            HostCall::BodyWrite { handle, addr, size, nwritten_out } => {
                match memory {
                    Some(bytes) => !within(handle, self.bodies.len()) || size < 0 || !fits(
                        bytes,
                        addr,
                        size as usize,
                    ) || fits(bytes, nwritten_out, 4),
                    None => true,
                }
            },
            HostCall::RespNew { handle_out } => room(memory, handle_out),
            HostCall::RespSendDownstream { whandle, bhandle, stream } => {
                stream != 0 || (within(whandle, self.responses.len()) && within(
                    bhandle,
                    self.bodies.len(),
                ))
            },
            HostCall::RespStatusGet { resp_handle, status } => {
                !within(resp_handle, self.responses.len()) || room(memory, status)
            },
            HostCall::RespStatusSet { whandle, status } => true,
            HostCall::RespVersionGet { resp_handle, version_out } => {
                !within(resp_handle, self.responses.len()) || room(memory, version_out)
            },
            HostCall::RespHeaderValuesGet {
                handle,
                name_addr,
                name_size,
                addr,
                cursor,
                ending_cursor_out,
                nwritten_out,
            } => {
                let bytes: &[u8] = match memory {
                    Some(bytes) => bytes,
                    None => return true,
                };
                if !within(handle, self.responses.len()) {
                    return true;
                }
                let header: Vec<u8> = match read(bytes, name_addr, name_size) {
                    Some(header) => header,
                    None => return true,
                };
                proof {
                    lemma_folded_is_idempotent(header@);
                }
                match header_name_from_bytes(header.as_slice()) {
                    Some(name) => page_fits(
                        header_map_get_all(
                            &self.responses[handle as usize].headers,
                            name.as_str(),
                        ),
                        bytes,
                        addr,
                        cursor,
                        ending_cursor_out,
                        nwritten_out,
                    ),
                    None => false,
                }
            },
            HostCall::RespHeaderValuesSet {
                handle,
                name_addr,
                name_size,
                values_addr,
                values_size,
            } => {
                let bytes: &[u8] = match memory {
                    Some(bytes) => bytes,
                    None => return true,
                };
                if !within(handle, self.responses.len()) {
                    return true;
                }
                let header: Vec<u8> = match read(bytes, name_addr, name_size) {
                    Some(header) => header,
                    None => return true,
                };
                if header_name_from_bytes(header.as_slice()).is_none() {
                    return false;
                }
                let text: Vec<u8> = match read(bytes, values_addr, values_size) {
                    Some(text) => text,
                    None => return true,
                };
                header_value_from_bytes(text.as_slice()).is_some()
            },
        }
    }

    /// Carries out `call`. `None`, with nothing changed, where it cannot be carried out, or
    /// where a header map that is all but full refuses the value that the guest adds.
    #[verifier::rlimit(50)]
    pub fn call(&mut self, memory: Option<&mut [u8]>, call: HostCall) -> (r: Option<
        Result<i32, Trap>,
    >)
        ensures
            ({
                let step = old(self)@.host_call(seen(memory), call);
                match r {
                    Some(result) => {
                        &&& leaves(step, final(self)@, result)
                        &&& memory matches Some(bytes) ==> step->0.memory == Some(final(bytes)@)
                    },
                    None => {
                        &&& step is None || (old(self)@.may_refuse(call) && step->0.answer is Ok)
                        &&& final(self)@ == old(self)@
                        &&& memory matches Some(bytes) ==> final(bytes)@ == bytes@
                    },
                }
            }),
            call matches HostCall::ReqHeaderNamesGet { handle, .. } ==> old(self)@.names_are_finite(
                handle,
            ),
    {
        let able: bool = match &memory {
            Some(bytes) => self.can_answer(Some(&**bytes), call),
            None => self.can_answer(None, call),
        };
        if !able {
            return None;
        }
        Some(
            match call {
                HostCall::Unsupported => Ok(unsupported_code()),
                HostCall::Accepted => Ok(ok_code()),
                HostCall::BodyDownstreamGet {
                    request_handle_out,
                    body_handle_out,
                } => self.body_downstream_get(memory, request_handle_out, body_handle_out),
                HostCall::ReqNew { request } => self.fastly_http_req_new(memory, request),
                HostCall::ReqMethodGet {
                    handle,
                    addr,
                    nwritten_out,
                } => self.fastly_http_req_method_get(memory, handle, addr, 0, nwritten_out),
                HostCall::ReqMethodSet { handle, addr, size } => match memory {
                    Some(bytes) => self.fastly_http_req_method_set(
                        Some(&*bytes),
                        handle,
                        addr,
                        size,
                    ),
                    None => self.fastly_http_req_method_set(None, handle, addr, size),
                },
                HostCall::ReqUriGet {
                    handle,
                    addr,
                    nwritten_out,
                } => self.fastly_http_req_uri_get(memory, handle, addr, 0, nwritten_out),
                HostCall::ReqUriSet { rhandle, addr, size } => match memory {
                    Some(bytes) => self.fastly_http_req_uri_set(
                        Some(&*bytes),
                        rhandle,
                        addr,
                        size,
                    ),
                    None => self.fastly_http_req_uri_set(None, rhandle, addr, size),
                },
                HostCall::ReqHeaderNamesGet {
                    handle,
                    addr,
                    cursor,
                    ending_cursor_out,
                    nwritten_out,
                } => self.fastly_http_req_header_names_get(
                    memory,
                    handle,
                    addr,
                    0,
                    cursor,
                    ending_cursor_out,
                    nwritten_out,
                ),
                HostCall::ReqHeaderValuesGet {
                    handle,
                    name_addr,
                    name_size,
                    addr,
                    cursor,
                    ending_cursor_out,
                    nwritten_out,
                } => self.fastly_http_req_header_values_get(
                    memory,
                    handle,
                    name_addr,
                    name_size,
                    addr,
                    0,
                    cursor,
                    ending_cursor_out,
                    nwritten_out,
                ),
                HostCall::ReqVersionGet { handle, version_out } => self.fastly_http_req_version_get(
                    memory,
                    handle,
                    version_out,
                ),
                HostCall::BodyNew { handle_out } => self.fastly_http_body_new(memory, handle_out),
                HostCall::BodyWrite {
                    handle,
                    addr,
                    size,
                    nwritten_out,
                } => self.fastly_http_body_write(memory, handle, addr, size, 0, nwritten_out),
                HostCall::RespNew { handle_out } => self.fastly_http_resp_new(memory, handle_out),
                HostCall::RespSendDownstream {
                    whandle,
                    bhandle,
                    stream,
                } => Ok(self.fastly_http_resp_send_downstream(whandle, bhandle, stream)),
                HostCall::RespStatusGet {
                    resp_handle,
                    status,
                } => self.fastly_http_resp_status_get(memory, resp_handle, status),
                HostCall::RespStatusSet { whandle, status } => self.fastly_http_resp_status_set(
                    whandle,
                    status,
                ),
                HostCall::RespVersionGet {
                    resp_handle,
                    version_out,
                } => self.fastly_http_resp_version_get(memory, resp_handle, version_out),
                HostCall::RespHeaderValuesGet {
                    handle,
                    name_addr,
                    name_size,
                    addr,
                    cursor,
                    ending_cursor_out,
                    nwritten_out,
                } => self.fastly_http_resp_header_values_get(
                    memory,
                    handle,
                    name_addr,
                    name_size,
                    addr,
                    0,
                    cursor,
                    ending_cursor_out,
                    nwritten_out,
                ),
                HostCall::RespHeaderValuesSet {
                    handle,
                    name_addr,
                    name_size,
                    values_addr,
                    values_size,
                } => return match memory {
                    Some(bytes) => self.fastly_http_resp_header_values_set(
                        Some(&*bytes),
                        handle,
                        name_addr,
                        name_size,
                        values_addr,
                        values_size,
                    ),
                    None => self.fastly_http_resp_header_values_set(
                        None,
                        handle,
                        name_addr,
                        name_size,
                        values_addr,
                        values_size,
                    ),
                },
            },
        )
    }

    /// Takes what the guest wants sent, as [`Handler::fastly_http_req_send`] does. `None`,
    /// with nothing changed, where the call cannot be carried out.
    pub fn send(
        &mut self,
        memory: Option<&[u8]>,
        req_handle: i32,
        body_handle: i32,
        backend_addr: i32,
        backend_len: i32,
    ) -> (r: Option<Result<Outbound, Trap>>)
        ensures
            ({
                let sending = old(self)@.req_send(
                    known(memory),
                    req_handle,
                    body_handle,
                    backend_addr,
                    backend_len,
                );
                match r {
                    Some(result) => {
                        &&& sending is Some
                        &&& final(self)@ == sending->0.state
                        &&& sending->0.answer == sent_out(result)
                    },
                    None => sending is None && final(self)@ == old(self)@,
                }
            }),
    {
        let able: bool = match memory {
            Some(bytes) => match read(bytes, backend_addr, backend_len) {
                Some(name) => str_from_utf8(name.as_slice()).is_some() && within(
                    req_handle,
                    self.requests.len(),
                ) && within(body_handle, self.bodies.len()),
                None => true,
            },
            None => true,
        };
        if able {
            Some(
                self.fastly_http_req_send(
                    memory,
                    req_handle,
                    body_handle,
                    backend_addr,
                    backend_len,
                ),
            )
        } else {
            None
        }
    }

    /// Hands a backend's response to the guest, as [`Handler::fastly_http_req_sent`] does.
    /// `None`, with nothing changed, where the handles do not fit in the guest's memory.
    pub fn sent(
        &mut self,
        memory: &mut [u8],
        response: Response,
        resp_handle_out: i32,
        resp_body_handle_out: i32,
    ) -> (r: Option<i32>)
        ensures
            ({
                let step = old(self)@.req_sent(
                    old(memory)@,
                    response@,
                    resp_handle_out,
                    resp_body_handle_out,
                );
                match r {
                    Some(code) => {
                        &&& leaves(step, final(self)@, Ok(code))
                        &&& step->0.memory == Some(final(memory)@)
                    },
                    None => {
                        &&& step is None
                        &&& final(self)@ == old(self)@
                        &&& final(memory)@ == old(memory)@
                    },
                }
            }),
    {
        if fits(memory, resp_handle_out, 4) && fits(memory, resp_body_handle_out, 4) {
            Some(
                self.fastly_http_req_sent(
                    memory,
                    response,
                    resp_handle_out,
                    resp_body_handle_out,
                ),
            )
        } else {
            None
        }
    }

    /// Ends the cycle once the guest's `_start` function has been dealt with.
    pub fn run<E>(&mut self, start: Start<E>) -> (r: Result<Response, RunError<E>>)
        ensures
            match start {
                Start::Missing => {
                    &&& r matches Err(RunError::Trap(trap))
                        && trap@ == "wasm module does not define a `_start` func"@
                    &&& final(self)@ == old(self)@
                },
                Start::Failed(error) => {
                    &&& r matches Err(RunError::Failed(failure)) && failure == error
                    &&& final(self)@ == old(self)@
                },
                Start::Finished => {
                    &&& r matches Ok(response) && response@ == old(self)@.response
                    &&& final(self)@ == State::blank()
                },
            },
    {
        match start {
            Start::Missing => Err(
                RunError::Trap(Trap::new("wasm module does not define a `_start` func")),
            ),
            Start::Failed(error) => Err(RunError::Failed(error)),
            Start::Finished => Ok(self.into_response()),
        }
    }
}

/// What became of the guest's `_start` function.
pub enum Start<E> {
    /// The guest does not define one.
    Missing,
    /// It was called and did not come to its end.
    Failed(E),
    /// It was called and came to its end.
    Finished,
}

/// Why a guest gave no answer.
pub enum RunError<E> {
    /// It cannot be started.
    Trap(Trap),
    /// It failed on the way.
    Failed(E),
}

/// A request on its way to a backend.
pub struct Outbound {
    /// The name of the backend.
    pub backend: String,
    pub request: Request,
}

/// What goes out to a backend, or the message of the trap.
pub open spec fn sent_out(result: Result<Outbound, Trap>) -> Result<
    (Seq<char>, RequestView),
    Seq<char>,
> {
    match result {
        Ok(outbound) => Ok((outbound.backend@, outbound.request@)),
        Err(trap) => Err(trap@),
    }
}

/// The bytes of a text, if there is one.
pub open spec fn viewed(text: Option<Vec<u8>>) -> Option<Seq<u8>> {
    match text {
        Some(bytes) => Some(bytes@),
        None => None,
    }
}

/// Tells whether `handle` is one of the `len` handles of a table.
fn within(handle: i32, len: usize) -> (r: bool)
    ensures
        r == holds(len as nat, handle),
{
    0 <= handle && (handle as usize) < len
}

/// Tells whether an integer fits at `addr`, in a memory that the guest may not export.
fn room(memory: Option<&[u8]>, addr: i32) -> (r: bool)
    ensures
        r == match memory {
            Some(bytes) => in_bounds(bytes@.len(), addr, 4),
            None => true,
        },
{
    match memory {
        Some(bytes) => fits(bytes, addr, 4),
        None => true,
    }
}

/// The trap for a guest that exports no memory.
fn no_memory() -> (trap: Trap)
    ensures
        trap@ == "failed to resolve exported host memory"@,
{
    Trap::new("failed to resolve exported host memory")
}

/// What a host function returns is what the call answers, and the state is the one that the
/// call leaves.
pub proof fn law_results_are_answers(step: Step, state: State, code: i32, trap: Trap)
    ensures
        leaves(Some(step), state, Ok(code)) <==> state == step.state && step.answer == Ok::<
            i32,
            Seq<char>,
        >(code),
        leaves(Some(step), state, Err(trap)) <==> state == step.state && step.answer == Err::<
            i32,
            Seq<char>,
        >(trap@),
        !leaves(None, state, Ok(code)) && !leaves(None, state, Err(trap)),
{
}

/// What is handed out for a backend is the name and the request of the sending, or its trap.
pub proof fn law_outbound_is_what_is_sent(outbound: Outbound, trap: Trap)
    ensures
        sent_out(Ok(outbound)) == Ok::<(Seq<char>, RequestView), Seq<char>>(
            (outbound.backend@, outbound.request@),
        ),
        sent_out(Err(trap)) == Err::<(Seq<char>, RequestView), Seq<char>>(trap@),
{
}

} // verus!
