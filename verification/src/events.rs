//! What holds over a whole cycle, whatever the guest does in it.
use crate::call::HostCall;
use crate::laws::{law_calls_keep_validity, law_only_send_downstream_settles};
use crate::memory::{bytes_at, in_bounds};
use crate::message::{
    default_request, default_response, empty_body, PayloadView, RequestView, ResponseView,
};
use crate::model::{holds, State};
use vstd::prelude::*;
use vstd::utf8::valid_utf8;

verus! {

/// Something that happens between a guest and its host.
pub enum Event {
    /// The guest makes a host call.
    Call { memory: Option<Seq<u8>>, call: HostCall },
    /// The guest hands a request over for a backend.
    Send {
        memory: Option<Seq<u8>>,
        req_handle: i32,
        body_handle: i32,
        backend_addr: i32,
        backend_len: i32,
    },
    /// A backend has answered.
    Sent {
        bytes: Seq<u8>,
        response: ResponseView,
        resp_handle_out: i32,
        resp_body_handle_out: i32,
    },
}

impl State {
    /// The state after one event, or `None` where it cannot happen.
    #[verifier::opaque]
    pub open spec fn after(self, event: Event) -> Option<State> {
        match event {
            Event::Call { memory, call } => match self.host_call(memory, call) {
                Some(step) => Some(step.state),
                None => None,
            },
            Event::Send {
                memory,
                req_handle,
                body_handle,
                backend_addr,
                backend_len,
            } => match self.req_send(memory, req_handle, body_handle, backend_addr, backend_len) {
                Some(sending) => Some(sending.state),
                None => None,
            },
            Event::Sent {
                bytes,
                response,
                resp_handle_out,
                resp_body_handle_out,
            } => match self.req_sent(bytes, response, resp_handle_out, resp_body_handle_out) {
                Some(step) => Some(step.state),
                None => None,
            },
        }
    }

    /// The state after a series of events, or `None` where one of them cannot happen.
    pub open spec fn reached(self, events: Seq<Event>) -> Option<State>
        decreases events.len(),
    {
        if events.len() == 0 {
            Some(self)
        } else {
            match self.reached(events.drop_last()) {
                Some(state) => state.after(events.last()),
                None => None,
            }
        }
    }
}

/// Whether an event is the guest's settling of the answer to the client.
pub open spec fn settles(event: Event) -> bool {
    event matches Event::Call { memory, call } && call matches HostCall::RespSendDownstream {
        whandle,
        bhandle,
        stream,
    } && stream == 0
}

/// In every state of a cycle each method can be sent, each URI goes out as the guest reads it,
/// each status is a status code, header fields are finitely many, and bodies are kept in their table alone, as long as what comes
/// from outside is valid.
pub proof fn law_every_state_is_valid(state: State, events: Seq<Event>)
    requires
        state.valid(),
        state.bare(),
        state.reached(events) is Some,
        forall|i: int|
            0 <= i < events.len() ==> (#[trigger] events[i] matches Event::Sent {
                bytes,
                response,
                resp_handle_out,
                resp_body_handle_out,
            } ==> response.valid()),
    ensures
        state.reached(events)->0.valid(),
        state.reached(events)->0.bare(),
    decreases events.len(),
{
    if events.len() > 0 {
        let earlier = events.drop_last();
        assert forall|i: int| 0 <= i < earlier.len() implies (#[trigger] earlier[i] matches Event::Sent {
            bytes,
            response,
            resp_handle_out,
            resp_body_handle_out,
        } ==> response.valid()) by {
            assert(earlier[i] == events[i]);
        }
        law_every_state_is_valid(state, earlier);
        reveal(State::after);
        let before = state.reached(earlier)->0;
        match events.last() {
            Event::Call { memory, call } => {
                law_calls_keep_validity(before, memory, call);
            },
            Event::Send { memory, req_handle, body_handle, backend_addr, backend_len } => {},
            Event::Sent { bytes, response, resp_handle_out, resp_body_handle_out } => {
                assert(events[events.len() - 1] == events.last());
            },
        }
    }
}

/// The answer to the client stands until the guest settles it again. So a guest that never
/// settles it gives the answer that the cycle started with.
pub proof fn law_answer_stands(state: State, events: Seq<Event>)
    requires
        state.reached(events) is Some,
        forall|i: int| 0 <= i < events.len() ==> !settles(#[trigger] events[i]),
    ensures
        state.reached(events)->0.response == state.response,
    decreases events.len(),
{
    if events.len() > 0 {
        let earlier = events.drop_last();
        assert forall|i: int| 0 <= i < earlier.len() implies !settles(#[trigger] earlier[i]) by {
            assert(earlier[i] == events[i]);
        }
        law_answer_stands(state, earlier);
        reveal(State::after);
        let before = state.reached(earlier)->0;
        let last = events.last();
        assert(last == events[events.len() - 1]);
        if let Event::Call { memory, call } = last {
            if before.host_call(memory, call)->0.state.response != before.response {
                law_only_send_downstream_settles(before, memory, call);
            }
        }
    }
}

/// Where a series of events can happen, so can its first `n` events.
proof fn lemma_reached_earlier(state: State, events: Seq<Event>, n: int)
    requires
        0 <= n <= events.len(),
        state.reached(events) is Some,
    ensures
        state.reached(events.take(n)) is Some,
    decreases events.len(),
{
    if n == events.len() {
        assert(events.take(n) =~= events);
    } else {
        assert(state.reached(events.drop_last()) is Some);
        lemma_reached_earlier(state, events.drop_last(), n);
        assert(events.drop_last().take(n) =~= events.take(n));
    }
}

/// Two series of events, one after the other, reach what the second reaches from where the
/// first ends.
proof fn lemma_reached_joins(state: State, first: Seq<Event>, second: Seq<Event>)
    requires
        state.reached(first) is Some,
    ensures
        state.reached(first + second) == state.reached(first)->0.reached(second),
    decreases second.len(),
{
    if second.len() == 0 {
        assert(first + second =~= first);
    } else {
        lemma_reached_joins(state, first, second.drop_last());
        assert((first + second).drop_last() =~= first + second.drop_last());
        assert((first + second).last() == second.last());
    }
}

/// A series of events is its first `n` events and then the others.
proof fn lemma_reached_splits(state: State, events: Seq<Event>, n: int)
    requires
        0 <= n <= events.len(),
        state.reached(events) is Some,
    ensures
        state.reached(events.take(n)) is Some,
        state.reached(events) == state.reached(events.take(n))->0.reached(events.skip(n)),
{
    lemma_reached_earlier(state, events, n);
    lemma_reached_joins(state, events.take(n), events.skip(n));
    assert(events.take(n) + events.skip(n) =~= events);
}

/// The answer of a cycle is the response, with the body, that the guest named when it last
/// settled it, as both were at that moment. A guest that never settles it gives the default
/// response.
pub proof fn law_last_settling_is_the_answer(request: RequestView, events: Seq<Event>)
    requires
        State::initial(request).reached(events) is Some,
    ensures
        ({
            let start = State::initial(request);
            let end = start.reached(events)->0;
            &&& (forall|i: int| 0 <= i < events.len() ==> !settles(#[trigger] events[i]))
                ==> end.response == default_response()
            &&& forall|k: int|
                0 <= k < events.len() && settles(#[trigger] events[k]) && (forall|i: int|
                    k < i < events.len() ==> !settles(#[trigger] events[i])) ==> {
                    let then = start.reached(events.take(k))->0;
                    &&& start.reached(events.take(k)) is Some
                    &&& holds(then.responses.len(), settled_response(events[k]))
                    &&& holds(then.bodies.len(), settled_body(events[k]))
                    &&& end.response == (ResponseView {
                        body: then.bodies[settled_body(events[k]) as int],
                        ..then.responses[settled_response(events[k]) as int]
                    })
                }
        }),
{
    let start = State::initial(request);
    let end = start.reached(events)->0;
    if forall|i: int| 0 <= i < events.len() ==> !settles(#[trigger] events[i]) {
        law_answer_stands(start, events);
    }
    assert forall|k: int|
        0 <= k < events.len() && settles(#[trigger] events[k]) && (forall|i: int|
            k < i < events.len() ==> !settles(#[trigger] events[i])) implies {
        let then = start.reached(events.take(k))->0;
        &&& start.reached(events.take(k)) is Some
        &&& holds(then.responses.len(), settled_response(events[k]))
        &&& holds(then.bodies.len(), settled_body(events[k]))
        &&& end.response == (ResponseView {
            body: then.bodies[settled_body(events[k]) as int],
            ..then.responses[settled_response(events[k]) as int]
        })
    } by {
        let rest = events.skip(k + 1);
        lemma_reached_splits(start, events, k);
        lemma_reached_splits(start, events, k + 1);
        assert(events.take(k + 1).drop_last() =~= events.take(k));
        assert(events.take(k + 1).last() == events[k]);
        assert forall|i: int| 0 <= i < rest.len() implies !settles(#[trigger] rest[i]) by {
            assert(rest[i] == events[k + 1 + i]);
        }
        law_answer_stands(start.reached(events.take(k + 1))->0, rest);
        lemma_settling_event(start.reached(events.take(k))->0, events[k]);
    }
}

/// What an event that settles the answer makes of it.
proof fn lemma_settling_event(state: State, event: Event)
    requires
        settles(event),
        state.after(event) is Some,
    ensures
        holds(state.responses.len(), settled_response(event)),
        holds(state.bodies.len(), settled_body(event)),
        state.after(event)->0.response == (ResponseView {
            body: state.bodies[settled_body(event) as int],
            ..state.responses[settled_response(event) as int]
        }),
{
    reveal(State::after);
}

/// The handle of the response that an event settles as the answer.
pub open spec fn settled_response(event: Event) -> i32 {
    event->call->RespSendDownstream_whandle
}

/// The handle of the body that an event settles as the answer's.
pub open spec fn settled_body(event: Event) -> i32 {
    event->call->RespSendDownstream_bhandle
}

/// Whether an event takes a response from the guest or sets something of one.
pub open spec fn alters_responses(event: Event) -> bool {
    settles(event) || (event matches Event::Call { memory, call } && (call is RespStatusSet
        || call is RespHeaderValuesSet))
}

/// However many requests a guest sends and whatever else it does, every response that it has
/// stays what it is, under the handle it has, until the guest settles the answer or sets
/// something of a response.
#[verifier::rlimit(50)]
pub proof fn law_responses_keep_their_handles(state: State, events: Seq<Event>)
    requires
        state.reached(events) is Some,
        forall|i: int| 0 <= i < events.len() ==> !alters_responses(#[trigger] events[i]),
    ensures
        state.responses.is_prefix_of(state.reached(events)->0.responses),
    decreases events.len(),
{
    if events.len() > 0 {
        let earlier = events.drop_last();
        assert forall|i: int| 0 <= i < earlier.len() implies !alters_responses(
            #[trigger] earlier[i],
        ) by {
            assert(earlier[i] == events[i]);
        }
        law_responses_keep_their_handles(state, earlier);
        let before = state.reached(earlier)->0;
        let after = state.reached(events)->0;
        assert(!alters_responses(events[events.len() - 1]));
        assert(before.responses.is_prefix_of(after.responses)) by {
            lemma_event_keeps_responses(before, events.last());
        }
    }
}

#[verifier::rlimit(50)]
proof fn lemma_event_keeps_responses(state: State, event: Event)
    requires
        state.after(event) is Some,
        !alters_responses(event),
    ensures
        state.responses.is_prefix_of(state.after(event)->0.responses),
{
    reveal(State::after);
}

/// What a guest needs to make and send one request: the memories that it has at each of the
/// four steps, where the handles go, where the backend's name stands, and the response that
/// comes back.
pub struct Round {
    pub at_request: Seq<u8>,
    pub request_out: i32,
    pub at_body: Seq<u8>,
    pub handle_out: i32,
    pub at_send: Seq<u8>,
    pub backend_addr: i32,
    pub backend_len: i32,
    pub at_response: Seq<u8>,
    pub response: ResponseView,
    pub resp_handle_out: i32,
    pub resp_body_handle_out: i32,
}

impl Round {
    /// Whether the handles fit in the memories, and the backend's name can be read.
    pub open spec fn possible(self) -> bool {
        &&& in_bounds(self.at_request.len(), self.request_out, 4)
        &&& in_bounds(self.at_body.len(), self.handle_out, 4)
        &&& bytes_at(self.at_send, self.backend_addr, self.backend_len) is Some
        &&& valid_utf8(bytes_at(self.at_send, self.backend_addr, self.backend_len)->0)
        &&& in_bounds(self.at_response.len(), self.resp_handle_out, 4)
        &&& in_bounds(self.at_response.len(), self.resp_body_handle_out, 4)
    }

    /// The guest makes a request and a body, sends them under the handles that it is told, and
    /// gets the response.
    pub open spec fn events(self, req_handle: i32, body_handle: i32) -> Seq<Event> {
        seq![
            Event::Call {
                memory: Some(self.at_request),
                call: HostCall::ReqNew { request: self.request_out },
            },
            Event::Call {
                memory: Some(self.at_body),
                call: HostCall::BodyNew { handle_out: self.handle_out },
            },
            Event::Send {
                memory: Some(self.at_send),
                req_handle,
                body_handle,
                backend_addr: self.backend_addr,
                backend_len: self.backend_len,
            },
            Event::Sent {
                bytes: self.at_response,
                response: self.response,
                resp_handle_out: self.resp_handle_out,
                resp_body_handle_out: self.resp_body_handle_out,
            },
        ]
    }
}

impl State {
    /// The events of a guest that makes and sends one request after the other.
    pub open spec fn sends(self, rounds: Seq<Round>) -> Seq<Event>
        decreases rounds.len(),
    {
        if rounds.len() == 0 {
            Seq::empty()
        } else {
            self.sends(rounds.drop_last()) + rounds.last().events(
                self.requests.len() as i32,
                (self.bodies.len() + rounds.len() - 1) as i32,
            )
        }
    }
}

/// One event reaches the state after it.
proof fn lemma_reached_one(state: State, event: Event)
    ensures
        state.reached(seq![event]) == state.after(event),
{
    assert(seq![event].drop_last() =~= Seq::empty());
    assert(state.reached(seq![event].drop_last()) == Some(state));
}

/// One request is made and sent.
proof fn lemma_round(state: State, round: Round)
    requires
        round.possible(),
        state.requests.len() <= i32::MAX,
        state.bodies.len() <= i32::MAX,
    ensures
        state.reached(
            round.events(state.requests.len() as i32, state.bodies.len() as i32),
        ) == Some(
            State {
                responses: state.responses.push(
                    ResponseView { body: empty_body(), ..round.response },
                ),
                bodies: state.bodies.push(round.response.body),
                ..state
            },
        ),
{
    let events = round.events(state.requests.len() as i32, state.bodies.len() as i32);
    let with_request = State { requests: state.requests.push(default_request()), ..state };
    let with_body = State { bodies: state.bodies.push(empty_body()), ..with_request };
    lemma_request_made(state, round.at_request, round.request_out);
    lemma_body_made(with_request, round.at_body, round.handle_out);
    lemma_last_sent(
        state,
        default_request(),
        empty_body(),
        round.at_send,
        round.backend_addr,
        round.backend_len,
    );
    lemma_response_got(
        state,
        round.at_response,
        round.response,
        round.resp_handle_out,
        round.resp_body_handle_out,
    );
    let first = seq![events[0]];
    let second = seq![events[1]];
    let third = seq![events[2]];
    let fourth = seq![events[3]];
    lemma_reached_one(state, events[0]);
    lemma_reached_one(with_request, events[1]);
    lemma_reached_one(with_body, events[2]);
    lemma_reached_one(state, events[3]);
    lemma_reached_joins(state, first, second);
    lemma_reached_joins(state, first + second, third);
    lemma_reached_joins(state, first + second + third, fourth);
    assert(first + second + third + fourth =~= events);
}

/// The guest makes a request.
proof fn lemma_request_made(state: State, memory: Seq<u8>, request: i32)
    requires
        in_bounds(memory.len(), request, 4),
    ensures
        state.after(
            Event::Call { memory: Some(memory), call: HostCall::ReqNew { request } },
        ) == Some(State { requests: state.requests.push(default_request()), ..state }),
{
    reveal(State::after);
}

/// The guest makes a body.
proof fn lemma_body_made(state: State, memory: Seq<u8>, handle_out: i32)
    requires
        in_bounds(memory.len(), handle_out, 4),
    ensures
        state.after(
            Event::Call { memory: Some(memory), call: HostCall::BodyNew { handle_out } },
        ) == Some(State { bodies: state.bodies.push(empty_body()), ..state }),
{
    reveal(State::after);
}

/// The guest sends the request and the body that it made last.
proof fn lemma_last_sent(
    state: State,
    request: RequestView,
    body: PayloadView,
    memory: Seq<u8>,
    backend_addr: i32,
    backend_len: i32,
)
    requires
        bytes_at(memory, backend_addr, backend_len) is Some,
        valid_utf8(bytes_at(memory, backend_addr, backend_len)->0),
        state.requests.len() <= i32::MAX,
        state.bodies.len() <= i32::MAX,
    ensures
        ({
            let made = State {
                requests: state.requests.push(request),
                bodies: state.bodies.push(body),
                ..state
            };
            let event = Event::Send {
                memory: Some(memory),
                req_handle: state.requests.len() as i32,
                body_handle: state.bodies.len() as i32,
                backend_addr,
                backend_len,
            };
            made.after(event) == Some(state)
        }),
{
    reveal(State::after);
    let requests = state.requests.push(request);
    let bodies = state.bodies.push(body);
    assert(requests.remove(state.requests.len() as int) =~= state.requests);
    assert(bodies.remove(state.bodies.len() as int) =~= state.bodies);
}

/// The guest gets a response.
proof fn lemma_response_got(
    state: State,
    bytes: Seq<u8>,
    response: ResponseView,
    resp_handle_out: i32,
    resp_body_handle_out: i32,
)
    requires
        in_bounds(bytes.len(), resp_handle_out, 4),
        in_bounds(bytes.len(), resp_body_handle_out, 4),
    ensures
        state.after(
            Event::Sent { bytes, response, resp_handle_out, resp_body_handle_out },
        ) == Some(
            State {
                responses: state.responses.push(ResponseView { body: empty_body(), ..response }),
                bodies: state.bodies.push(response.body),
                ..state
            },
        ),
{
    reveal(State::after);
}

/// A guest may send any number of requests, one after the other. It then has the requests, the
/// responses and the bodies that it had, under the handles they had, and behind them every
/// response and its body, in the order in which they came. The answer to the client is the
/// one it was.
pub proof fn law_any_number_of_requests_can_be_sent(state: State, rounds: Seq<Round>)
    requires
        forall|i: int| 0 <= i < rounds.len() ==> (#[trigger] rounds[i]).possible(),
        state.requests.len() <= i32::MAX,
        state.bodies.len() + rounds.len() <= i32::MAX,
    ensures
        state.reached(state.sends(rounds)) == Some(
            State {
                responses: state.responses + rounds.map_values(
                    |round: Round| ResponseView { body: empty_body(), ..round.response },
                ),
                bodies: state.bodies + rounds.map_values(|round: Round| round.response.body),
                ..state
            },
        ),
    decreases rounds.len(),
{
    let heads = |round: Round| ResponseView { body: empty_body(), ..round.response };
    let bodies = |round: Round| round.response.body;
    let end = state.reached(state.sends(rounds));
    if rounds.len() == 0 {
        assert(state.responses + rounds.map_values(heads) =~= state.responses);
        assert(state.bodies + rounds.map_values(bodies) =~= state.bodies);
    } else {
        let earlier = rounds.drop_last();
        let round = rounds.last();
        assert forall|i: int| 0 <= i < earlier.len() implies (#[trigger] earlier[i]).possible() by {
            assert(earlier[i] == rounds[i]);
        }
        law_any_number_of_requests_can_be_sent(state, earlier);
        let before = state.reached(state.sends(earlier))->0;
        assert(rounds[rounds.len() - 1].possible());
        let events = round.events(before.requests.len() as i32, before.bodies.len() as i32);
        lemma_round(before, round);
        lemma_reached_joins(state, state.sends(earlier), events);
        assert(rounds.map_values(heads) =~= earlier.map_values(heads).push(heads(round)));
        assert(rounds.map_values(bodies) =~= earlier.map_values(bodies).push(bodies(round)));
        assert(end->0.responses =~= state.responses + rounds.map_values(heads));
        assert(end->0.bodies =~= state.bodies + rounds.map_values(bodies));
    }
}

} // verus!
