//! What holds of the host calls taken together.
use crate::call::HostCall;
use crate::http::{folded, uri_text, values_of};
use crate::memory::{
    apart, bytes_at, law_read_after_write, law_word_after_write, law_words_after_write,
    law_write_elsewhere, le_bytes, stored, word_at,
};
use crate::message::{
    default_request, default_response, empty_body, PayloadView, RequestView, ResponseView,
    TargetView,
};
use crate::model::{holds, State};
use crate::order::{ascending, at_most, lemma_ascending, lemma_set_listed_once};
use crate::paging::{heard, law_walk_hears_every_item, walk, Ask, MEMORY_LIMIT};
use crate::status::{ok, unsupported};
use vstd::prelude::*;
use vstd::utf8::valid_utf8;

verus! {

impl State {
    /// Every request has a method that can be sent and goes out to the URI that the guest
    /// reads, every response has a status code, and each of them has finitely many header
    /// fields.
    pub open spec fn valid(self) -> bool {
        &&& self.request matches Some(request) ==> request.valid()
        &&& forall|i: int| 0 <= i < self.requests.len() ==> (#[trigger] self.requests[i]).valid()
        &&& forall|i: int| 0 <= i < self.responses.len() ==> (#[trigger] self.responses[i]).valid()
        &&& self.response.valid()
    }

    /// Bodies are kept in the table of bodies alone: no request and no response of the
    /// tables has one.
    pub open spec fn bare(self) -> bool {
        &&& forall|i: int|
            0 <= i < self.requests.len() ==> (#[trigger] self.requests[i]).body == empty_body()
        &&& forall|i: int|
            0 <= i < self.responses.len() ==> (#[trigger] self.responses[i]).body == empty_body()
    }
}

/// A cycle starts in a valid state, with bodies in their table alone.
pub proof fn law_start_is_valid(request: RequestView)
    requires
        request.valid(),
    ensures
        State::initial(request).valid(),
        State::initial(request).bare(),
{
}

/// No host call makes a method, a status or header fields invalid, parts the URI that goes
/// out from the one that the guest reads, or leaves a body outside the table of bodies.
#[verifier::rlimit(50)]
pub proof fn law_calls_keep_validity(state: State, memory: Option<Seq<u8>>, call: HostCall)
    requires
        state.host_call(memory, call) is Some,
    ensures
        state.valid() ==> state.host_call(memory, call)->0.state.valid(),
        state.bare() ==> state.host_call(memory, call)->0.state.bare(),
{
}

/// Sending a request keeps the state valid and the bodies in their table, whatever valid
/// response comes back, and what is sent is valid.
pub proof fn law_sending_keeps_validity(
    state: State,
    memory: Option<Seq<u8>>,
    req_handle: i32,
    body_handle: i32,
    backend_addr: i32,
    backend_len: i32,
    later: State,
    bytes: Seq<u8>,
    response: ResponseView,
    resp_handle_out: i32,
    resp_body_handle_out: i32,
)
    requires
        state.req_send(memory, req_handle, body_handle, backend_addr, backend_len) is Some,
        later.req_sent(bytes, response, resp_handle_out, resp_body_handle_out) is Some,
        response.valid(),
    ensures
        ({
            let sending = state.req_send(
                memory,
                req_handle,
                body_handle,
                backend_addr,
                backend_len,
            )->0;
            let step = later.req_sent(bytes, response, resp_handle_out, resp_body_handle_out)->0;
            &&& state.valid() ==> sending.state.valid()
            &&& state.bare() ==> sending.state.bare()
            &&& state.valid() && sending.answer is Ok ==> sending.answer->Ok_0.1.valid()
            &&& later.valid() ==> step.state.valid()
            &&& later.bare() ==> step.state.bare()
        }),
{
}

/// A call that stops a guest with a memory changes neither the state nor the memory.
#[verifier::rlimit(50)]
pub proof fn law_trap_changes_nothing(state: State, memory: Seq<u8>, call: HostCall)
    requires
        state.host_call(Some(memory), call) is Some,
        state.host_call(Some(memory), call)->0.answer is Err,
    ensures
        state.host_call(Some(memory), call)->0.state == state,
        state.host_call(Some(memory), call)->0.memory == Some(memory),
{
}

/// A call neither gives nor takes the guest a memory, and leaves its size alone.
#[verifier::rlimit(50)]
pub proof fn law_memory_keeps_its_size(state: State, memory: Option<Seq<u8>>, call: HostCall)
    requires
        state.host_call(memory, call) is Some,
    ensures
        ({
            let after = state.host_call(memory, call)->0.memory;
            &&& after is Some == memory is Some
            &&& memory is Some ==> after->0.len() == memory->0.len()
        }),
{
    match call {
        HostCall::BodyDownstreamGet { request_handle_out, body_handle_out } => {},
        HostCall::ReqMethodGet { handle, addr, nwritten_out } => {},
        HostCall::ReqUriGet { handle, addr, nwritten_out } => {},
        HostCall::ReqHeaderNamesGet {
            handle,
            addr,
            cursor,
            ending_cursor_out,
            nwritten_out,
        } => {},
        HostCall::ReqHeaderValuesGet {
            handle,
            name_addr,
            name_size,
            addr,
            cursor,
            ending_cursor_out,
            nwritten_out,
        } => {},
        HostCall::RespHeaderValuesGet {
            handle,
            name_addr,
            name_size,
            addr,
            cursor,
            ending_cursor_out,
            nwritten_out,
        } => {},
        _ => {},
    }
}

/// A guest without a memory never gets results: a call either needs none or stops it.
#[verifier::rlimit(50)]
pub proof fn law_without_memory_nothing_is_told(state: State, call: HostCall)
    requires
        state.host_call(None, call) is Some,
        state.host_call(None, call)->0.answer is Ok,
    ensures
        call is Unsupported || call is Accepted || call is RespSendDownstream
            || call is RespStatusSet,
{
}

/// The answer to the client changes only when the guest settles it, and no call before that
/// touches it.
#[verifier::rlimit(50)]
pub proof fn law_only_send_downstream_settles(
    state: State,
    memory: Option<Seq<u8>>,
    call: HostCall,
)
    requires
        state.host_call(memory, call) is Some,
        state.host_call(memory, call)->0.state.response != state.response,
    ensures
        call matches HostCall::RespSendDownstream { whandle, bhandle, stream } && stream == 0 && holds(
            state.responses.len(),
            whandle,
        ) && holds(state.bodies.len(), bhandle)
            && state.host_call(memory, call)->0.state.response == (ResponseView {
            body: state.bodies[bhandle as int],
            ..state.responses[whandle as int]
        }),
{
}

/// The answer that a guest settles is the response it named with the body it named. Both are
/// gone, the handles below keep their meaning, and those above move down by one.
pub proof fn law_settled_response_is_gone(
    state: State,
    memory: Option<Seq<u8>>,
    whandle: i32,
    bhandle: i32,
)
    requires
        state.resp_send_downstream(memory, whandle, bhandle, 0) is Some,
    ensures
        ({
            let step = state.resp_send_downstream(memory, whandle, bhandle, 0)->0;
            let after = step.state;
            &&& step.answer == Ok::<i32, Seq<char>>(ok())
            &&& after.response == (ResponseView {
                body: state.bodies[bhandle as int],
                ..state.responses[whandle as int]
            })
            &&& after.responses.len() == state.responses.len() - 1
            &&& after.bodies.len() == state.bodies.len() - 1
            &&& forall|i: int|
                0 <= i < after.responses.len() ==> after.responses[i] == state.responses[if i
                    < whandle {
                    i
                } else {
                    i + 1
                }]
            &&& forall|i: int|
                0 <= i < after.bodies.len() ==> after.bodies[i] == state.bodies[if i < bhandle {
                    i
                } else {
                    i + 1
                }]
            &&& after.requests == state.requests
            &&& after.request == state.request
        }),
{
}

/// A guest that asks for streaming is told that it is not supported, and nothing changes.
pub proof fn law_streaming_is_unsupported(
    state: State,
    memory: Option<Seq<u8>>,
    whandle: i32,
    bhandle: i32,
    stream: i32,
)
    requires
        stream != 0,
    ensures
        ({
            let step = state.resp_send_downstream(memory, whandle, bhandle, stream);
            &&& step is Some
            &&& step->0.state == state
            &&& step->0.memory == memory
            &&& step->0.answer == Ok::<i32, Seq<char>>(unsupported())
        }),
{
}

/// The guest gets the client's request once: it is gone afterwards, no other call brings it
/// back, and a second try cannot be carried out.
#[verifier::rlimit(50)]
pub proof fn law_request_is_taken_once(
    state: State,
    memory: Option<Seq<u8>>,
    call: HostCall,
    request_handle_out: i32,
    body_handle_out: i32,
)
    requires
        state.host_call(memory, call) is Some,
    ensures
        ({
            let after = state.host_call(memory, call)->0.state;
            &&& call is BodyDownstreamGet ==> state.request is Some && after.request is None
            &&& !(call is BodyDownstreamGet) ==> after.request == state.request
            &&& after.request is None ==> after.body_downstream_get(
                memory,
                request_handle_out,
                body_handle_out,
            ) is None
        }),
{
}

/// The handle that a guest is told when it takes the client's request names its head. It
/// names its body too, as long as there were as many bodies as requests.
pub proof fn law_downstream_handles(
    state: State,
    memory: Seq<u8>,
    request_handle_out: i32,
    body_handle_out: i32,
)
    requires
        state.body_downstream_get(Some(memory), request_handle_out, body_handle_out) is Some,
        apart(request_handle_out, 4, body_handle_out, 4),
        state.requests.len() <= i32::MAX,
    ensures
        ({
            let step = state.body_downstream_get(
                Some(memory),
                request_handle_out,
                body_handle_out,
            )->0;
            let n = state.requests.len() as int;
            let request = state.request->0;
            &&& step.answer == Ok::<i32, Seq<char>>(ok())
            &&& word_at(step.memory->0, request_handle_out) == Some(n)
            &&& word_at(step.memory->0, body_handle_out) == Some(n)
            &&& step.state.requests[n] == (RequestView { body: empty_body(), ..request })
            &&& state.bodies.len() == n ==> step.state.bodies[n] == request.body
        }),
{
    let n = state.requests.len() as u32;
    law_words_after_write(memory, request_handle_out, n, body_handle_out, n);
}

/// The handle that a guest is told names the request it made, and the requests it had keep
/// their handles.
pub proof fn law_new_request_handle(state: State, memory: Seq<u8>, request_out: i32)
    requires
        state.req_new(Some(memory), request_out) is Some,
        state.requests.len() <= i32::MAX,
    ensures
        ({
            let step = state.req_new(Some(memory), request_out)->0;
            let n = state.requests.len() as int;
            &&& step.answer == Ok::<i32, Seq<char>>(ok())
            &&& word_at(step.memory->0, request_out) == Some(n)
            &&& step.state.requests.len() == n + 1
            &&& step.state.requests[n] == default_request()
            &&& forall|i: int| 0 <= i < n ==> step.state.requests[i] == state.requests[i]
        }),
{
    law_word_after_write(memory, request_out, state.requests.len() as u32);
}

/// The handle that a guest is told names the response it made, and the responses it had keep
/// their handles.
pub proof fn law_new_response_handle(state: State, memory: Seq<u8>, handle_out: i32)
    requires
        state.resp_new(Some(memory), handle_out) is Some,
        state.responses.len() <= i32::MAX,
    ensures
        ({
            let step = state.resp_new(Some(memory), handle_out)->0;
            let n = state.responses.len() as int;
            &&& step.answer == Ok::<i32, Seq<char>>(ok())
            &&& word_at(step.memory->0, handle_out) == Some(n)
            &&& step.state.responses.len() == n + 1
            &&& step.state.responses[n] == default_response()
            &&& forall|i: int| 0 <= i < n ==> step.state.responses[i] == state.responses[i]
        }),
{
    law_word_after_write(memory, handle_out, state.responses.len() as u32);
}

/// The handle that a guest is told names the body it made, and the bodies it had keep their
/// handles.
pub proof fn law_new_body_handle(state: State, memory: Seq<u8>, handle_out: i32)
    requires
        state.body_new(Some(memory), handle_out) is Some,
        state.bodies.len() <= i32::MAX,
    ensures
        ({
            let step = state.body_new(Some(memory), handle_out)->0;
            let n = state.bodies.len() as int;
            &&& step.answer == Ok::<i32, Seq<char>>(ok())
            &&& word_at(step.memory->0, handle_out) == Some(n)
            &&& step.state.bodies.len() == n + 1
            &&& step.state.bodies[n] == empty_body()
            &&& forall|i: int| 0 <= i < n ==> step.state.bodies[i] == state.bodies[i]
        }),
{
    law_word_after_write(memory, handle_out, state.bodies.len() as u32);
}

/// The handles that a guest is told when a backend has answered name the head and the body
/// of the response.
pub proof fn law_response_handles(
    state: State,
    memory: Seq<u8>,
    response: ResponseView,
    resp_handle_out: i32,
    resp_body_handle_out: i32,
)
    requires
        state.req_sent(memory, response, resp_handle_out, resp_body_handle_out) is Some,
        apart(resp_handle_out, 4, resp_body_handle_out, 4),
        state.responses.len() <= i32::MAX,
        state.bodies.len() <= i32::MAX,
    ensures
        ({
            let step = state.req_sent(memory, response, resp_handle_out, resp_body_handle_out)->0;
            let n = state.responses.len() as int;
            let b = state.bodies.len() as int;
            &&& step.answer == Ok::<i32, Seq<char>>(ok())
            &&& word_at(step.memory->0, resp_handle_out) == Some(n)
            &&& word_at(step.memory->0, resp_body_handle_out) == Some(b)
            &&& step.state.responses[n] == (ResponseView { body: empty_body(), ..response })
            &&& step.state.bodies[b] == response.body
        }),
{
    law_words_after_write(
        memory,
        resp_handle_out,
        state.responses.len() as u32,
        resp_body_handle_out,
        state.bodies.len() as u32,
    );
}

/// A request that is sent goes out with the body that the guest named and nothing else
/// changed. It and its body are gone, the handles below keep their meaning, and those above
/// move down by one.
pub proof fn law_sent_request_is_gone(
    state: State,
    memory: Option<Seq<u8>>,
    req_handle: i32,
    body_handle: i32,
    backend_addr: i32,
    backend_len: i32,
)
    requires
        state.req_send(memory, req_handle, body_handle, backend_addr, backend_len) is Some,
        state.req_send(memory, req_handle, body_handle, backend_addr, backend_len)->0.answer is Ok,
    ensures
        ({
            let sending = state.req_send(
                memory,
                req_handle,
                body_handle,
                backend_addr,
                backend_len,
            )->0;
            let after = sending.state;
            let request = sending.answer->Ok_0.1;
            &&& request == (RequestView {
                body: state.bodies[body_handle as int],
                ..state.requests[req_handle as int]
            })
            &&& after.requests.len() == state.requests.len() - 1
            &&& after.bodies.len() == state.bodies.len() - 1
            &&& forall|i: int|
                0 <= i < after.requests.len() ==> after.requests[i] == state.requests[if i
                    < req_handle {
                    i
                } else {
                    i + 1
                }]
            &&& forall|i: int|
                0 <= i < after.bodies.len() ==> after.bodies[i] == state.bodies[if i < body_handle {
                    i
                } else {
                    i + 1
                }]
            &&& after.responses == state.responses
            &&& after.response == state.response
        }),
{
}

/// A request that cannot be sent because the backend's name cannot be read stays.
pub proof fn law_unsent_request_stays(
    state: State,
    memory: Option<Seq<u8>>,
    req_handle: i32,
    body_handle: i32,
    backend_addr: i32,
    backend_len: i32,
)
    requires
        state.req_send(memory, req_handle, body_handle, backend_addr, backend_len) is Some,
        state.req_send(memory, req_handle, body_handle, backend_addr, backend_len)->0.answer is Err,
    ensures
        state.req_send(memory, req_handle, body_handle, backend_addr, backend_len)->0.state
            == state,
{
}

/// In every state a guest can make one more request and one more body and send them to a
/// backend whose name can be read, and then finds what it had, under the handles it had, with
/// the response and its body at the end.
pub proof fn law_another_request_can_be_sent(
    state: State,
    memory: Seq<u8>,
    request_out: i32,
    handle_out: i32,
    later: Seq<u8>,
    backend_addr: i32,
    backend_len: i32,
    last: Seq<u8>,
    response: ResponseView,
    resp_handle_out: i32,
    resp_body_handle_out: i32,
)
    requires
        state.requests.len() <= i32::MAX,
        state.bodies.len() <= i32::MAX,
        state.req_new(Some(memory), request_out) is Some,
        state.body_new(Some(memory), handle_out) is Some,
        bytes_at(later, backend_addr, backend_len) is Some,
        valid_utf8(bytes_at(later, backend_addr, backend_len)->0),
        state.req_sent(last, response, resp_handle_out, resp_body_handle_out) is Some,
    ensures
        ({
            let made = state.req_new(Some(memory), request_out)->0;
            let furnished = made.state.body_new(made.memory, handle_out)->0.state;
            let sending = furnished.req_send(
                Some(later),
                state.requests.len() as i32,
                state.bodies.len() as i32,
                backend_addr,
                backend_len,
            );
            let got = sending->0.state.req_sent(
                last,
                response,
                resp_handle_out,
                resp_body_handle_out,
            );
            &&& made.state.body_new(made.memory, handle_out) is Some
            &&& sending is Some
            &&& sending->0.answer is Ok
            &&& sending->0.state == state
            &&& got is Some
            &&& got->0.answer == Ok::<i32, Seq<char>>(ok())
            &&& got->0.state.requests == state.requests
            &&& got->0.state.responses == state.responses.push(
                ResponseView { body: empty_body(), ..response },
            )
            &&& got->0.state.bodies == state.bodies.push(response.body)
        }),
{
    let made = state.req_new(Some(memory), request_out)->0;
    let furnished = made.state.body_new(made.memory, handle_out)->0.state;
    let sent = furnished.req_send(
        Some(later),
        state.requests.len() as i32,
        state.bodies.len() as i32,
        backend_addr,
        backend_len,
    )->0.state;
    assert(sent.requests =~= state.requests);
    assert(sent.bodies =~= state.bodies);
}

/// A guest that sets a request's method and reads it again gets what it set. No other request
/// changes.
pub proof fn law_method_is_read_back(
    state: State,
    memory: Seq<u8>,
    handle: i32,
    addr: i32,
    size: i32,
    later: Seq<u8>,
    to: i32,
    nwritten_out: i32,
)
    requires
        state.req_method_set(Some(memory), handle, addr, size)->0.answer is Ok,
        ({
            let set = state.req_method_set(Some(memory), handle, addr, size)->0.state;
            let get = set.req_method_get(Some(later), handle, to, nwritten_out);
            get is Some && get->0.answer is Ok
        }),
        apart(to, size as nat, nwritten_out, 4),
    ensures
        ({
            let set = state.req_method_set(Some(memory), handle, addr, size)->0.state;
            let get = set.req_method_get(Some(later), handle, to, nwritten_out)->0;
            &&& bytes_at(get.memory->0, to, size) == bytes_at(memory, addr, size)
            &&& bytes_at(memory, addr, size) is Some
            &&& word_at(get.memory->0, nwritten_out) == Some(size as int)
            &&& set == (State { requests: set.requests, ..state })
            &&& set.requests.len() == state.requests.len()
            &&& forall|i: int|
                0 <= i < state.requests.len() && i != handle ==> set.requests[i]
                    == state.requests[i]
        }),
{
    let text = bytes_at(memory, addr, size)->0;
    lemma_text_is_told(later, to, text, nwritten_out);
}

/// A text that is stored with its length is read back, and so is its length.
proof fn lemma_text_is_told(memory: Seq<u8>, to: i32, text: Seq<u8>, nwritten_out: i32)
    requires
        text.len() <= i32::MAX,
        stored(memory, to, text) is Some,
        stored(stored(memory, to, text)->0, nwritten_out, le_bytes(text.len() as u32)) is Some,
        apart(to, text.len(), nwritten_out, 4),
    ensures
        ({
            let with_text = stored(memory, to, text)->0;
            let after = stored(with_text, nwritten_out, le_bytes(text.len() as u32))->0;
            &&& bytes_at(after, to, text.len() as i32) == Some(text)
            &&& word_at(after, nwritten_out) == Some(text.len() as int)
        }),
{
    let with_text = stored(memory, to, text)->0;
    law_read_after_write(memory, to, text);
    law_write_elsewhere(
        with_text,
        nwritten_out,
        le_bytes(text.len() as u32),
        to,
        text.len() as i32,
    );
    law_word_after_write(with_text, nwritten_out, text.len() as u32);
}

/// The guest is told the client's method and URI as they came in, under the handle it got
/// for the client's request.
pub proof fn law_client_request_is_told(
    request: RequestView,
    memory: Seq<u8>,
    request_handle_out: i32,
    body_handle_out: i32,
    later: Seq<u8>,
    to: i32,
    nwritten_out: i32,
)
    requires
        State::initial(request).body_downstream_get(
            Some(memory),
            request_handle_out,
            body_handle_out,
        ) is Some,
        request.method.len() <= i32::MAX,
        request.uri.len() <= i32::MAX,
    ensures
        ({
            let taken = State::initial(request).body_downstream_get(
                Some(memory),
                request_handle_out,
                body_handle_out,
            )->0.state;
            let method = taken.req_method_get(Some(later), 0, to, nwritten_out);
            let uri = taken.req_uri_get(Some(later), 0, to, nwritten_out);
            &&& apart(to, request.method.len(), nwritten_out, 4) && method is Some
                && method->0.answer is Ok ==> {
                &&& bytes_at(method->0.memory->0, to, request.method.len() as i32) == Some(
                    request.method,
                )
                &&& word_at(method->0.memory->0, nwritten_out) == Some(request.method.len() as int)
            }
            &&& apart(to, request.uri.len(), nwritten_out, 4) && uri is Some && uri->0.answer is Ok
                ==> {
                &&& bytes_at(uri->0.memory->0, to, request.uri.len() as i32) == Some(request.uri)
                &&& word_at(uri->0.memory->0, nwritten_out) == Some(request.uri.len() as int)
            }
        }),
{
    let taken = State::initial(request).body_downstream_get(
        Some(memory),
        request_handle_out,
        body_handle_out,
    )->0.state;
    let method = taken.req_method_get(Some(later), 0, to, nwritten_out);
    let uri = taken.req_uri_get(Some(later), 0, to, nwritten_out);
    assert(taken.requests[0].method == request.method);
    assert(taken.requests[0].uri == request.uri);
    if apart(to, request.method.len(), nwritten_out, 4) && method is Some && method->0.answer is Ok {
        lemma_text_is_told(later, to, request.method, nwritten_out);
    }
    if apart(to, request.uri.len(), nwritten_out, 4) && uri is Some && uri->0.answer is Ok {
        lemma_text_is_told(later, to, request.uri, nwritten_out);
    }
}

/// A guest that sets a request's URI and reads it again gets the text of the URI that it set.
/// What it set is what goes out. No other request changes.
pub proof fn law_uri_is_read_back(
    state: State,
    memory: Seq<u8>,
    handle: i32,
    addr: i32,
    size: i32,
    later: Seq<u8>,
    to: i32,
    nwritten_out: i32,
)
    requires
        state.req_uri_set(Some(memory), handle, addr, size)->0.answer is Ok,
        ({
            let set = state.req_uri_set(Some(memory), handle, addr, size)->0.state;
            let get = set.req_uri_get(Some(later), handle, to, nwritten_out);
            get is Some && get->0.answer is Ok
        }),
        uri_text(bytes_at(memory, addr, size)->0)->0.len() <= i32::MAX,
        apart(to, uri_text(bytes_at(memory, addr, size)->0)->0.len(), nwritten_out, 4),
    ensures
        ({
            let raw = bytes_at(memory, addr, size)->0;
            let text = uri_text(raw)->0;
            let set = state.req_uri_set(Some(memory), handle, addr, size)->0.state;
            let get = set.req_uri_get(Some(later), handle, to, nwritten_out)->0;
            &&& uri_text(raw) is Some
            &&& set.requests[handle as int].target == TargetView::Raw(raw)
            &&& bytes_at(get.memory->0, to, text.len() as i32) == Some(text)
            &&& word_at(get.memory->0, nwritten_out) == Some(text.len() as int)
            &&& set == (State { requests: set.requests, ..state })
            &&& set.requests.len() == state.requests.len()
            &&& forall|i: int|
                0 <= i < state.requests.len() && i != handle ==> set.requests[i]
                    == state.requests[i]
        }),
{
    let text = uri_text(bytes_at(memory, addr, size)->0)->0;
    lemma_text_is_told(later, to, text, nwritten_out);
}

/// A guest that sets a response's status and reads it again gets what it set. No other
/// response changes.
pub proof fn law_status_is_read_back(
    state: State,
    handle: i32,
    status: i32,
    later: Seq<u8>,
    to: i32,
)
    requires
        state.resp_status_set(None, handle, status)->0.answer is Ok,
        ({
            let set = state.resp_status_set(None, handle, status)->0.state;
            set.resp_status_get(Some(later), handle, to) is Some
        }),
    ensures
        ({
            let set = state.resp_status_set(None, handle, status)->0.state;
            let get = set.resp_status_get(Some(later), handle, to)->0;
            &&& get.answer == Ok::<i32, Seq<char>>(ok())
            &&& word_at(get.memory->0, to) == Some((status as int) % 65536)
            &&& 100 <= (status as int) % 65536 < 1000
            &&& set == (State { responses: set.responses, ..state })
            &&& set.responses.len() == state.responses.len()
            &&& forall|i: int|
                0 <= i < state.responses.len() && i != handle ==> set.responses[i]
                    == state.responses[i]
        }),
{
    assert(status as u16 == status % 65536) by (bit_vector);
    law_word_after_write(later, to, status as u16 as u32);
}

/// A body that is written holds the bytes that the guest wrote last, whatever it held before.
/// No other body changes.
pub proof fn law_body_holds_the_last_write(
    state: State,
    memory: Seq<u8>,
    handle: i32,
    addr: i32,
    size: i32,
    nwritten_out: i32,
)
    requires
        state.body_write(Some(memory), handle, addr, size, nwritten_out) is Some,
        state.body_write(Some(memory), handle, addr, size, nwritten_out)->0.answer is Ok,
    ensures
        ({
            let step = state.body_write(Some(memory), handle, addr, size, nwritten_out)->0;
            &&& bytes_at(memory, addr, size) is Some
            &&& step.state.bodies[handle as int] == PayloadView::Bytes(
                bytes_at(memory, addr, size)->0,
            )
            &&& word_at(step.memory->0, nwritten_out) == Some(size as int)
            &&& step.state.bodies.len() == state.bodies.len()
            &&& forall|i: int|
                0 <= i < state.bodies.len() && i != handle ==> step.state.bodies[i]
                    == state.bodies[i]
        }),
{
    law_word_after_write(memory, nwritten_out, size as u32);
}

/// A value that a guest adds to a header field joins the values that the field has, under
/// every spelling of the field's name, and is then one of those that the guest can list. No
/// other field and no other response changes.
pub proof fn law_added_value_is_listed(
    state: State,
    memory: Seq<u8>,
    handle: i32,
    name_addr: i32,
    name_size: i32,
    values_addr: i32,
    values_size: i32,
    spelling: Seq<u8>,
    other: Seq<u8>,
)
    requires
        state.resp_header_values_set(
            Some(memory),
            handle,
            name_addr,
            name_size,
            values_addr,
            values_size,
        ) is Some,
        state.resp_header_values_set(
            Some(memory),
            handle,
            name_addr,
            name_size,
            values_addr,
            values_size,
        )->0.answer is Ok,
        folded(spelling) == folded(bytes_at(memory, name_addr, name_size)->0),
        folded(other) != folded(bytes_at(memory, name_addr, name_size)->0),
    ensures
        ({
            let value = bytes_at(memory, values_addr, values_size)->0;
            let after = state.resp_header_values_set(
                Some(memory),
                handle,
                name_addr,
                name_size,
                values_addr,
                values_size,
            )->0.state;
            let before_fields = state.responses[handle as int].fields;
            let after_fields = after.responses[handle as int].fields;
            let listed = ascending(values_of(after_fields, spelling));
            &&& values_of(after_fields, spelling) == values_of(before_fields, spelling).push(value)
            &&& exists|cursor: int| 0 <= cursor < listed.len() && listed[cursor] == value
            &&& values_of(after_fields, other) == values_of(before_fields, other)
            &&& after.responses.len() == state.responses.len()
            &&& forall|i: int|
                0 <= i < state.responses.len() && i != handle ==> after.responses[i]
                    == state.responses[i]
        }),
{
    broadcast use vstd::seq_lib::group_to_multiset_ensures;

    let value = bytes_at(memory, values_addr, values_size)->0;
    let before = values_of(state.responses[handle as int].fields, spelling);
    let listed = ascending(before.push(value));
    lemma_ascending(before.push(value));
    assert(before.push(value)[before.len() as int] == value);
    assert(before.push(value).contains(value));
    assert(before.push(value).to_multiset().count(value) > 0);
    assert(listed.to_multiset().count(value) > 0);
    assert(listed.contains(value));
}

/// Header fields are found whatever the case of the letters in their names.
pub proof fn law_field_names_ignore_case(
    fields: crate::http::Fields,
    name: Seq<u8>,
    spelling: Seq<u8>,
)
    requires
        folded(name) == folded(spelling),
    ensures
        values_of(fields, name) == values_of(fields, spelling),
{
}

/// A guest that lists the names of a request's header fields gets each name once, in
/// ascending order.
pub proof fn law_names_are_listed_once(names: Set<Seq<u8>>)
    requires
        names.finite(),
    ensures
        ascending(names.to_seq()).no_duplicates(),
        ascending(names.to_seq()).to_set() == names,
        ascending(names.to_seq()).len() == names.len(),
        forall|i: int, j: int|
            0 <= i < j < names.len() ==> at_most(
                #[trigger] ascending(names.to_seq())[i],
                #[trigger] ascending(names.to_seq())[j],
            ),
{
    broadcast use vstd::seq_lib::group_to_multiset_ensures;

    let listed = names.to_seq();
    let sorted = ascending(listed);
    lemma_set_listed_once(names);
    names.lemma_to_seq_to_set_id();
    listed.unique_seq_to_set();
    lemma_ascending(listed);
    listed.lemma_multiset_has_no_duplicates();
    sorted.lemma_multiset_has_no_duplicates_conv();
    assert forall|name: Seq<u8>| sorted.to_set().contains(name) == names.contains(name) by {
        assert(sorted.contains(name) == (sorted.to_multiset().count(name) > 0));
        assert(listed.contains(name) == (listed.to_multiset().count(name) > 0));
        assert(listed.to_set().contains(name) == listed.contains(name));
    }
    assert(sorted.to_set() =~= names);
}

/// A guest that asks for the names of a request's header fields, follows the cursors it is
/// told until it is told -1, and gets each answer with its results apart, hears each name
/// once, however many values the field has, in ascending order. Each name takes it one call,
/// and so does a request without header fields, of which it is told no bytes.
pub proof fn law_names_walk_is_complete(
    state: State,
    handle: i32,
    asks: Seq<Ask>,
    afters: Seq<Seq<u8>>,
)
    requires
        holds(state.requests.len(), handle),
        state.requests[handle as int].fields.dom().finite(),
        walk(asks, afters),
        forall|i: int|
            0 <= i < asks.len() ==> {
                let ask = #[trigger] asks[i];
                let step = state.req_header_names_get(
                    Some(ask.memory),
                    handle,
                    ask.addr,
                    ask.cursor,
                    ask.ending_cursor_out,
                    ask.nwritten_out,
                );
                &&& step is Some
                &&& step->0.memory == Some(afters[i])
                &&& ask.apart(state.requests[handle as int].fields.dom().to_seq())
                &&& ask.memory.len() <= MEMORY_LIMIT
            },
    ensures
        ({
            let names = state.requests[handle as int].fields.dom();
            let listed = heard(asks, afters);
            &&& listed.no_duplicates()
            &&& listed.to_set() == names
            &&& listed.len() == names.len()
            &&& forall|i: int, j: int|
                0 <= i < j < listed.len() ==> #[trigger] listed[i] != #[trigger] listed[j]
                    && at_most(listed[i], listed[j])
            &&& names.len() > 0 ==> asks.len() == names.len()
            &&& names.len() == 0 ==> asks.len() == 1 && asks[0].told_len(afters[0]) == 0
            &&& forall|i: int|
                #![trigger asks[i]]
                0 <= i < listed.len() ==> {
                    &&& asks[i].told(afters[i]) == listed[i].push(0)
                    &&& asks[i].told_len(afters[i]) == listed[i].len() + 1
                }
        }),
{
    let names = state.requests[handle as int].fields.dom();
    law_names_are_listed_once(names);
    lemma_ascending(names.to_seq());
    law_walk_hears_every_item(names.to_seq(), asks, afters);
}

/// A guest that asks for the values of a header field of a request, follows the cursors it is
/// told until it is told -1, and gets each answer with its results apart, hears each value of
/// that field, as often as it occurs, in ascending order, and no others. Each value takes it
/// one call, and so does a field without values, of which it is told no bytes.
pub proof fn law_request_values_walk_is_complete(
    state: State,
    handle: i32,
    name: Seq<u8>,
    name_addr: i32,
    name_size: i32,
    asks: Seq<Ask>,
    afters: Seq<Seq<u8>>,
)
    requires
        holds(state.requests.len(), handle),
        walk(asks, afters),
        forall|i: int|
            0 <= i < asks.len() ==> {
                let ask = #[trigger] asks[i];
                let step = state.req_header_values_get(
                    Some(ask.memory),
                    handle,
                    name_addr,
                    name_size,
                    ask.addr,
                    ask.cursor,
                    ask.ending_cursor_out,
                    ask.nwritten_out,
                );
                &&& bytes_at(ask.memory, name_addr, name_size) == Some(name)
                &&& step is Some
                &&& step->0.memory == Some(afters[i])
                &&& ask.apart(values_of(state.requests[handle as int].fields, name))
                &&& ask.memory.len() <= MEMORY_LIMIT
            },
    ensures
        hears_all(values_of(state.requests[handle as int].fields, name), asks, afters),
{
    let values = values_of(state.requests[handle as int].fields, name);
    lemma_ascending(values);
    law_walk_hears_every_item(values, asks, afters);
}

/// What [`law_request_values_walk_is_complete`] says of a request holds of a response.
pub proof fn law_response_values_walk_is_complete(
    state: State,
    handle: i32,
    name: Seq<u8>,
    name_addr: i32,
    name_size: i32,
    asks: Seq<Ask>,
    afters: Seq<Seq<u8>>,
)
    requires
        holds(state.responses.len(), handle),
        walk(asks, afters),
        forall|i: int|
            0 <= i < asks.len() ==> {
                let ask = #[trigger] asks[i];
                let step = state.resp_header_values_get(
                    Some(ask.memory),
                    handle,
                    name_addr,
                    name_size,
                    ask.addr,
                    ask.cursor,
                    ask.ending_cursor_out,
                    ask.nwritten_out,
                );
                &&& bytes_at(ask.memory, name_addr, name_size) == Some(name)
                &&& step is Some
                &&& step->0.memory == Some(afters[i])
                &&& ask.apart(values_of(state.responses[handle as int].fields, name))
                &&& ask.memory.len() <= MEMORY_LIMIT
            },
    ensures
        hears_all(values_of(state.responses[handle as int].fields, name), asks, afters),
{
    let values = values_of(state.responses[handle as int].fields, name);
    lemma_ascending(values);
    law_walk_hears_every_item(values, asks, afters);
}

/// Whether a guest hears each of `values` on a walk, as often as it occurs, in ascending
/// order, one for each question and with a zero byte behind it; and where there are none, is
/// told no bytes by its only question.
pub open spec fn hears_all(values: Seq<Seq<u8>>, asks: Seq<Ask>, afters: Seq<Seq<u8>>) -> bool {
    let listed = heard(asks, afters);
    &&& listed.to_multiset() == values.to_multiset()
    &&& listed.len() == values.len()
    &&& forall|i: int, j: int|
        0 <= i < j < listed.len() ==> at_most(#[trigger] listed[i], #[trigger] listed[j])
    &&& values.len() > 0 ==> asks.len() == values.len()
    &&& values.len() == 0 ==> asks.len() == 1 && asks[0].told_len(afters[0]) == 0
    &&& forall|i: int|
        #![trigger asks[i]]
        0 <= i < listed.len() ==> {
            &&& asks[i].told(afters[i]) == listed[i].push(0)
            &&& asks[i].told_len(afters[i]) == listed[i].len() + 1
        }
}

/// A call that only reads leaves the state alone.
#[verifier::rlimit(50)]
pub proof fn law_reading_changes_no_state(state: State, memory: Option<Seq<u8>>, call: HostCall)
    requires
        state.host_call(memory, call) is Some,
        call is ReqMethodGet || call is ReqUriGet || call is ReqHeaderNamesGet
            || call is ReqHeaderValuesGet || call is ReqVersionGet || call is RespStatusGet
            || call is RespVersionGet || call is RespHeaderValuesGet || call is Unsupported
            || call is Accepted,
    ensures
        state.host_call(memory, call)->0.state == state,
{
}

/// A call that can be carried out is refused only where it adds a value to a header map that
/// holds at least 6554 names.
pub proof fn law_only_large_header_maps_refuse(state: State, call: HostCall)
    requires
        state.may_refuse(call),
    ensures
        call matches HostCall::RespHeaderValuesSet { handle, .. } && 0 <= handle
            < state.responses.len() && state.responses[handle as int].fields.dom().len() >= 6554,
{
}

/// A cycle starts with the client's request, without anything of the guest's, and with a
/// response that has status 200, no header fields and no body; and the state without a request
/// differs in the request alone.
pub proof fn law_start_holds_the_request_alone(request: RequestView)
    ensures
        ({
            let start = State::initial(request);
            &&& start.request == Some(request)
            &&& start.requests.len() == 0
            &&& start.responses.len() == 0
            &&& start.bodies.len() == 0
            &&& start.response.status == 200
            &&& start.response.fields.dom() == Set::<Seq<u8>>::empty()
            &&& start.response.carried is None
            &&& start.response.body == PayloadView::Bytes(Seq::empty())
            &&& State::blank() == (State { request: None, ..start })
        }),
{
    assert(State::initial(request).response.fields.dom() =~= Set::<Seq<u8>>::empty());
}

} // verus!
