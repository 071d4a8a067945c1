//! What each host call does, as a function from one state to the next.
//!
//! A call finds the state of the handler and the guest's memory, if the guest exports
//! one. It leaves both behind, changed or not, with an answer for the guest: a status
//! code or a trap. `None` stands for a call that cannot be carried out at all, because
//! the guest handed over an address or a text that the call has no answer for.
use crate::http::{
    appended, uri_text, valid_field_name, valid_field_value, valid_method, valid_status, values_of,
    FIELD_NAMES_LIMIT,
};
use crate::memory::{bytes_at, le_bytes, stored, stored_pair};
use crate::message::{
    default_request, default_response, empty_body, PayloadView, RequestView, ResponseView,
    TargetView,
};
use crate::paging::page;
use crate::status::{ok, unsupported};
use vstd::prelude::*;
use vstd::utf8::{decode_utf8, valid_utf8};

verus! {

/// The state of one request/response cycle.
#[verifier::ext_equal]
pub struct State {
    /// The client's request, until the guest takes it.
    pub request: Option<RequestView>,
    /// The requests that the guest has handles for.
    pub requests: Seq<RequestView>,
    /// The responses that the guest has handles for.
    pub responses: Seq<ResponseView>,
    /// The bodies that the guest has handles for.
    pub bodies: Seq<PayloadView>,
    /// The answer to the client.
    pub response: ResponseView,
}

/// What a host call leaves behind.
#[verifier::ext_equal]
pub struct Step {
    pub state: State,
    pub memory: Option<Seq<u8>>,
    pub answer: Result<i32, Seq<char>>,
}

/// What the first half of sending a request leaves behind: the backend's name and the
/// request for it, or a trap.
#[verifier::ext_equal]
pub struct Sending {
    pub state: State,
    pub answer: Result<(Seq<char>, RequestView), Seq<char>>,
}

/// Whether `handle` is one of the `len` handles of a table.
pub open spec fn holds(len: nat, handle: i32) -> bool {
    0 <= handle < len
}

impl State {
    /// The state in which a guest starts to answer `request`.
    pub open spec fn initial(request: RequestView) -> State {
        State { request: Some(request), ..State::blank() }
    }

    /// The state without a request, and with an answer that is the default response.
    pub open spec fn blank() -> State {
        State {
            request: None,
            requests: Seq::empty(),
            responses: Seq::empty(),
            bodies: Seq::empty(),
            response: default_response(),
        }
    }

    /// The call is done, and the guest is told so.
    pub open spec fn done(self, memory: Option<Seq<u8>>) -> Option<Step> {
        Some(Step { state: self, memory, answer: Ok(ok()) })
    }

    /// The guest is stopped.
    pub open spec fn trapped(self, memory: Option<Seq<u8>>, message: Seq<char>) -> Option<Step> {
        Some(Step { state: self, memory, answer: Err(message) })
    }

    /// The guest is stopped because it exports no memory.
    pub open spec fn no_memory(self) -> Option<Step> {
        self.trapped(None, "failed to resolve exported host memory"@)
    }

    /// The call is done where its results fit in the guest's memory.
    pub open spec fn written(self, memory: Option<Seq<u8>>) -> Option<Step> {
        match memory {
            Some(_) => self.done(memory),
            None => None,
        }
    }

    /// The guest takes the client's request. Its head becomes a request and its body a
    /// body of the tables; the number of requests there were is the handle of both.
    pub open spec fn body_downstream_get(
        self,
        memory: Option<Seq<u8>>,
        request_handle_out: i32,
        body_handle_out: i32,
    ) -> Option<Step> {
        match self.request {
            Some(request) => {
                let index = self.requests.len() as u32;
                let taken = State {
                    request: None,
                    requests: self.requests.push(RequestView { body: empty_body(), ..request }),
                    bodies: self.bodies.push(request.body),
                    ..self
                };
                match memory {
                    Some(bytes) => taken.written(
                        stored_pair(bytes, request_handle_out, index, body_handle_out, index),
                    ),
                    None => taken.no_memory(),
                }
            },
            None => None,
        }
    }

    /// The guest makes a request.
    pub open spec fn req_new(self, memory: Option<Seq<u8>>, request_out: i32) -> Option<Step> {
        let index = self.requests.len() as u32;
        let made = State { requests: self.requests.push(default_request()), ..self };
        match memory {
            Some(bytes) => made.written(stored(bytes, request_out, le_bytes(index))),
            None => made.no_memory(),
        }
    }

    /// The guest settles the answer to the client: the response `whandle` with the body
    /// `bhandle`. Both leave their tables, and the handles above them move down by one.
    pub open spec fn resp_send_downstream(
        self,
        memory: Option<Seq<u8>>,
        whandle: i32,
        bhandle: i32,
        stream: i32,
    ) -> Option<Step> {
        if stream != 0 {
            Some(Step { state: self, memory, answer: Ok(unsupported()) })
        } else if holds(self.responses.len(), whandle) && holds(self.bodies.len(), bhandle) {
            State {
                responses: self.responses.remove(whandle as int),
                bodies: self.bodies.remove(bhandle as int),
                response: ResponseView {
                    body: self.bodies[bhandle as int],
                    ..self.responses[whandle as int]
                },
                ..self
            }.done(memory)
        } else {
            None
        }
    }

    /// The guest reads a request's method.
    pub open spec fn req_method_get(
        self,
        memory: Option<Seq<u8>>,
        handle: i32,
        addr: i32,
        nwritten_out: i32,
    ) -> Option<Step> {
        match memory {
            Some(bytes) => if holds(self.requests.len(), handle) {
                let text = self.requests[handle as int].method;
                match stored(bytes, addr, text) {
                    Some(after) => self.written(
                        stored(after, nwritten_out, le_bytes(text.len() as u32)),
                    ),
                    None => self.trapped(memory, "Failed to write request HTTP method bytes"@),
                }
            } else {
                self.trapped(memory, "Invalid body handle"@)
            },
            None => self.no_memory(),
        }
    }

    /// The guest sets a request's method.
    pub open spec fn req_method_set(
        self,
        memory: Option<Seq<u8>>,
        handle: i32,
        addr: i32,
        size: i32,
    ) -> Option<Step> {
        match memory {
            Some(bytes) => match bytes_at(bytes, addr, size) {
                Some(text) => if !valid_method(text) {
                    self.trapped(memory, "invalid http method"@)
                } else if holds(self.requests.len(), handle) {
                    let request = RequestView {
                        method: text,
                        ..self.requests[handle as int]
                    };
                    State {
                        requests: self.requests.update(handle as int, request),
                        ..self
                    }.done(memory)
                } else {
                    self.trapped(memory, "invalid request handler"@)
                },
                None => self.trapped(memory, "failed to read body memory"@),
            },
            None => self.no_memory(),
        }
    }

    /// The guest reads a request's URI.
    pub open spec fn req_uri_get(
        self,
        memory: Option<Seq<u8>>,
        handle: i32,
        addr: i32,
        nwritten_out: i32,
    ) -> Option<Step> {
        match memory {
            Some(bytes) => if holds(self.requests.len(), handle) {
                let text = self.requests[handle as int].uri;
                match stored(bytes, addr, text) {
                    Some(after) => self.written(
                        stored(after, nwritten_out, le_bytes(text.len() as u32)),
                    ),
                    None => self.trapped(memory, "failed to write method bytes"@),
                }
            } else {
                self.trapped(memory, "invalid request handle"@)
            },
            None => self.no_memory(),
        }
    }

    /// A request's URI becomes the one that `raw` was read as, whose text is `text`, or the
    /// guest is stopped where there is none.
    pub open spec fn req_uri_assign(
        self,
        memory: Option<Seq<u8>>,
        handle: i32,
        raw: Seq<u8>,
        text: Option<Seq<u8>>,
    ) -> Option<Step> {
        match text {
            Some(text) => {
                let request = RequestView {
                    uri: text,
                    target: TargetView::Raw(raw),
                    ..self.requests[handle as int]
                };
                State { requests: self.requests.update(handle as int, request), ..self }.done(
                    memory,
                )
            },
            None => self.trapped(memory, "invalid uri"@),
        }
    }

    /// The guest sets a request's URI.
    pub open spec fn req_uri_set(
        self,
        memory: Option<Seq<u8>>,
        rhandle: i32,
        addr: i32,
        size: i32,
    ) -> Option<Step> {
        if holds(self.requests.len(), rhandle) {
            match memory {
                Some(bytes) => match bytes_at(bytes, addr, size) {
                    Some(raw) => self.req_uri_assign(memory, rhandle, raw, uri_text(raw)),
                    None => self.trapped(memory, "failed to read request uri"@),
                },
                None => self.no_memory(),
            }
        } else {
            self.trapped(memory, "invalid request handle"@)
        }
    }

    /// The guest hands a request over for a backend: the request `req_handle` with the
    /// body `body_handle`. Both leave their tables, and the handles above them move down
    /// by one.
    pub open spec fn req_send(
        self,
        memory: Option<Seq<u8>>,
        req_handle: i32,
        body_handle: i32,
        backend_addr: i32,
        backend_len: i32,
    ) -> Option<Sending> {
        match memory {
            Some(bytes) => match bytes_at(bytes, backend_addr, backend_len) {
                Some(name) => if valid_utf8(name) && holds(self.requests.len(), req_handle)
                    && holds(self.bodies.len(), body_handle) {
                    let request = RequestView {
                        body: self.bodies[body_handle as int],
                        ..self.requests[req_handle as int]
                    };
                    Some(
                        Sending {
                            state: State {
                                requests: self.requests.remove(req_handle as int),
                                bodies: self.bodies.remove(body_handle as int),
                                ..self
                            },
                            answer: Ok((decode_utf8(name), request)),
                        },
                    )
                } else {
                    None
                },
                None => Some(
                    Sending { state: self, answer: Err("error reading backend name"@) },
                ),
            },
            None => Some(
                Sending { state: self, answer: Err("failed to resolve exported host memory"@) },
            ),
        }
    }

    /// The guest gets a backend's response. Its head becomes a response and its body a
    /// body of the tables.
    pub open spec fn req_sent(
        self,
        memory: Seq<u8>,
        response: ResponseView,
        resp_handle_out: i32,
        resp_body_handle_out: i32,
    ) -> Option<Step> {
        let got = State {
            responses: self.responses.push(ResponseView { body: empty_body(), ..response }),
            bodies: self.bodies.push(response.body),
            ..self
        };
        got.written(
            stored_pair(
                memory,
                resp_handle_out,
                self.responses.len() as u32,
                resp_body_handle_out,
                self.bodies.len() as u32,
            ),
        )
    }

    /// The guest reads the name of a header field of a request.
    pub open spec fn req_header_names_get(
        self,
        memory: Option<Seq<u8>>,
        handle: i32,
        addr: i32,
        cursor: i32,
        ending_cursor_out: i32,
        nwritten_out: i32,
    ) -> Option<Step> {
        if holds(self.requests.len(), handle) {
            match memory {
                Some(bytes) => {
                    let names = self.requests[handle as int].fields.dom().to_seq();
                    self.written(
                        page(names, bytes, addr, cursor, ending_cursor_out, nwritten_out),
                    )
                },
                None => self.no_memory(),
            }
        } else {
            self.trapped(memory, "invalid request handle"@)
        }
    }

    /// Whether a request of the tables has finitely many header fields.
    pub open spec fn names_are_finite(self, handle: i32) -> bool {
        holds(self.requests.len(), handle)
            ==> self.requests[handle as int].fields.dom().finite()
    }

    /// The guest reads a value of a header field of a request.
    pub open spec fn req_header_values_get(
        self,
        memory: Option<Seq<u8>>,
        handle: i32,
        name_addr: i32,
        name_size: i32,
        addr: i32,
        cursor: i32,
        ending_cursor_out: i32,
        nwritten_out: i32,
    ) -> Option<Step> {
        if holds(self.requests.len(), handle) {
            match memory {
                Some(bytes) => match bytes_at(bytes, name_addr, name_size) {
                    Some(name) => if valid_utf8(name) {
                        let values = values_of(self.requests[handle as int].fields, name);
                        self.written(
                            page(values, bytes, addr, cursor, ending_cursor_out, nwritten_out),
                        )
                    } else {
                        None
                    },
                    None => self.trapped(memory, "Failed to read header name"@),
                },
                None => self.no_memory(),
            }
        } else {
            self.trapped(memory, "invalid request handle"@)
        }
    }

    /// The guest reads a request's protocol version, which is always told as HTTP/1.1.
    pub open spec fn req_version_get(
        self,
        memory: Option<Seq<u8>>,
        handle: i32,
        version_out: i32,
    ) -> Option<Step> {
        if holds(self.requests.len(), handle) {
            match memory {
                Some(bytes) => self.written(stored(bytes, version_out, le_bytes(2))),
                None => self.no_memory(),
            }
        } else {
            self.trapped(memory, "Invalid response handle"@)
        }
    }

    /// The guest makes a body.
    pub open spec fn body_new(self, memory: Option<Seq<u8>>, handle_out: i32) -> Option<Step> {
        let index = self.bodies.len() as u32;
        let made = State { bodies: self.bodies.push(empty_body()), ..self };
        match memory {
            Some(bytes) => made.written(stored(bytes, handle_out, le_bytes(index))),
            None => made.no_memory(),
        }
    }

    /// The guest writes a body. What the body held before is gone.
    pub open spec fn body_write(
        self,
        memory: Option<Seq<u8>>,
        handle: i32,
        addr: i32,
        size: i32,
        nwritten_out: i32,
    ) -> Option<Step> {
        if holds(self.bodies.len(), handle) {
            match memory {
                Some(bytes) => match bytes_at(bytes, addr, size) {
                    Some(text) => State {
                        bodies: self.bodies.update(handle as int, PayloadView::Bytes(text)),
                        ..self
                    }.written(stored(bytes, nwritten_out, le_bytes(text.len() as u32))),
                    None => self.trapped(memory, "Failed to read body memory"@),
                },
                None => self.no_memory(),
            }
        } else {
            self.trapped(memory, "Failed to body handle"@)
        }
    }

    /// The guest sets a response's status, to the low 16 bits of `status`.
    pub open spec fn resp_status_set(
        self,
        memory: Option<Seq<u8>>,
        whandle: i32,
        status: i32,
    ) -> Option<Step> {
        if !holds(self.responses.len(), whandle) {
            self.trapped(memory, "invalid response handle"@)
        } else if valid_status(status as u16) {
            let response = ResponseView {
                status: status as u16,
                ..self.responses[whandle as int]
            };
            State { responses: self.responses.update(whandle as int, response), ..self }.done(
                memory,
            )
        } else {
            self.trapped(memory, "invalid status code"@)
        }
    }

    /// The guest makes a response.
    pub open spec fn resp_new(self, memory: Option<Seq<u8>>, handle_out: i32) -> Option<Step> {
        let index = self.responses.len() as u32;
        let made = State { responses: self.responses.push(default_response()), ..self };
        match memory {
            Some(bytes) => made.written(stored(bytes, handle_out, le_bytes(index))),
            None => made.no_memory(),
        }
    }

    /// The guest reads a value of a header field of a response.
    pub open spec fn resp_header_values_get(
        self,
        memory: Option<Seq<u8>>,
        handle: i32,
        name_addr: i32,
        name_size: i32,
        addr: i32,
        cursor: i32,
        ending_cursor_out: i32,
        nwritten_out: i32,
    ) -> Option<Step> {
        match memory {
            Some(bytes) => if holds(self.responses.len(), handle) {
                match bytes_at(bytes, name_addr, name_size) {
                    Some(name) => if valid_field_name(name) {
                        let values = values_of(self.responses[handle as int].fields, name);
                        self.written(
                            page(values, bytes, addr, cursor, ending_cursor_out, nwritten_out),
                        )
                    } else {
                        None
                    },
                    None => self.trapped(memory, "Failed to read header name"@),
                }
            } else {
                self.trapped(memory, "Invalid response handler"@)
            },
            None => self.no_memory(),
        }
    }

    /// The guest adds a value to a header field of a response. The values that the field
    /// has stay.
    pub open spec fn resp_header_values_set(
        self,
        memory: Option<Seq<u8>>,
        handle: i32,
        name_addr: i32,
        name_size: i32,
        values_addr: i32,
        values_size: i32,
    ) -> Option<Step> {
        match memory {
            Some(bytes) => if holds(self.responses.len(), handle) {
                let response = self.responses[handle as int];
                match bytes_at(bytes, name_addr, name_size) {
                    Some(name) => if valid_field_name(name) {
                        match bytes_at(bytes, values_addr, values_size) {
                            Some(value) => if valid_field_value(value) {
                                let fields = appended(response.fields, name, value);
                                State {
                                    responses: self.responses.update(
                                        handle as int,
                                        ResponseView { fields, ..response },
                                    ),
                                    ..self
                                }.done(memory)
                            } else {
                                None
                            },
                            None => self.trapped(memory, "Failed to read header name"@),
                        }
                    } else {
                        None
                    },
                    None => self.trapped(memory, "Failed to read header name"@),
                }
            } else {
                self.trapped(memory, "Invalid response handler"@)
            },
            None => self.no_memory(),
        }
    }

    /// Whether a response has so many header fields that its header map may refuse another
    /// value.
    pub open spec fn crowded(self, handle: i32) -> bool {
        holds(self.responses.len(), handle) && self.responses[handle as int].fields.dom().len()
            >= FIELD_NAMES_LIMIT
    }

    /// The guest reads a response's status.
    pub open spec fn resp_status_get(
        self,
        memory: Option<Seq<u8>>,
        resp_handle: i32,
        status: i32,
    ) -> Option<Step> {
        if holds(self.responses.len(), resp_handle) {
            match memory {
                Some(bytes) => self.written(
                    stored(
                        bytes,
                        status,
                        le_bytes(self.responses[resp_handle as int].status as u32),
                    ),
                ),
                None => self.no_memory(),
            }
        } else {
            self.trapped(memory, "Invalid response handle"@)
        }
    }

    /// The guest reads a response's protocol version, which is always told as HTTP/1.1.
    pub open spec fn resp_version_get(
        self,
        memory: Option<Seq<u8>>,
        resp_handle: i32,
        version_out: i32,
    ) -> Option<Step> {
        if holds(self.responses.len(), resp_handle) {
            match memory {
                Some(bytes) => self.written(stored(bytes, version_out, le_bytes(2))),
                None => self.no_memory(),
            }
        } else {
            self.trapped(memory, "Invalid response handle"@)
        }
    }
}

} // verus!
