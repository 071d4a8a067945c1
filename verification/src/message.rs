//! Requests, responses and their bodies.
use crate::http::{
    header_contents, header_map_new, method_default, no_fields, status_default, uri_default,
    uri_text, valid_method, valid_status, Fields,
};
use vstd::prelude::*;

verus! {

/// The body of a message.
pub enum Payload {
    /// Bytes that the guest wrote.
    Bytes(Vec<u8>),
    /// A stream from the client or from a backend.
    Stream(hyper::Body),
}

/// What a [`Payload`] holds.
pub enum PayloadView {
    Bytes(Seq<u8>),
    Stream(hyper::Body),
}

impl View for Payload {
    type V = PayloadView;

    open spec fn view(&self) -> PayloadView {
        match self {
            Payload::Bytes(bytes) => PayloadView::Bytes(bytes@),
            Payload::Stream(stream) => PayloadView::Stream(*stream),
        }
    }
}

/// A body without bytes.
pub open spec fn empty_body() -> PayloadView {
    PayloadView::Bytes(Seq::empty())
}

impl Default for Payload {
    fn default() -> (body: Payload)
        ensures
            body@ == empty_body(),
    {
        Payload::Bytes(Vec::new())
    }
}

/// The URI of a request in the form in which it goes out.
pub enum Target {
    /// The client's, as it came in.
    Parsed(hyper::Uri),
    /// The bytes that the URI was read from.
    Raw(Vec<u8>),
}

/// What a [`Target`] holds.
pub enum TargetView {
    Parsed(hyper::Uri),
    Raw(Seq<u8>),
}

impl TargetView {
    /// Whether the bytes that the URI was read from are those of a URI with the text `text`.
    /// Of a URI that came in parsed, nothing is said.
    pub open spec fn is_written(self, text: Seq<u8>) -> bool {
        match self {
            TargetView::Parsed(uri) => true,
            TargetView::Raw(raw) => uri_text(raw) == Some(text) || (raw == default_uri() && text
                == default_uri()),
        }
    }
}

/// The text of the URI that a new request has, `/`.
pub open spec fn default_uri() -> Seq<u8> {
    seq![47u8]
}

impl View for Target {
    type V = TargetView;

    open spec fn view(&self) -> TargetView {
        match self {
            Target::Parsed(uri) => TargetView::Parsed(*uri),
            Target::Raw(raw) => TargetView::Raw(raw@),
        }
    }
}

/// What a message from outside carries that no host function reads: its protocol version
/// and its extensions.
pub struct Carried {
    pub version: hyper::Version,
    pub extensions: hyper::http::Extensions,
}

/// A request. One that the guest made carries nothing and has `hyper`'s defaults for it.
///
/// The guest reads the URI as `uri`, the text it is written as; what goes out is `target`.
pub struct Request {
    pub method: Vec<u8>,
    pub uri: Vec<u8>,
    pub target: Target,
    pub headers: hyper::HeaderMap,
    pub carried: Option<Carried>,
    pub body: Payload,
}

/// What a [`Request`] holds.
#[verifier::ext_equal]
pub struct RequestView {
    pub method: Seq<u8>,
    pub uri: Seq<u8>,
    pub target: TargetView,
    pub fields: Fields,
    pub carried: Option<Carried>,
    pub body: PayloadView,
}

impl View for Request {
    type V = RequestView;

    open spec fn view(&self) -> RequestView {
        RequestView {
            method: self.method@,
            uri: self.uri@,
            target: self.target@,
            fields: header_contents(self.headers),
            carried: self.carried,
            body: self.body@,
        }
    }
}

impl RequestView {
    /// Whether the request's method is one that can be sent, the URI that goes out is the one
    /// that the guest reads, and the header fields are finitely many.
    pub open spec fn valid(self) -> bool {
        &&& valid_method(self.method)
        &&& self.target.is_written(self.uri)
        &&& self.fields.dom().finite()
    }
}

/// `GET /` without header fields and body.
pub open spec fn default_request() -> RequestView {
    RequestView {
        method: seq![71u8, 69u8, 84u8],
        uri: default_uri(),
        target: TargetView::Raw(default_uri()),
        fields: no_fields(),
        carried: None,
        body: empty_body(),
    }
}

impl Default for Request {
    fn default() -> (request: Request)
        ensures
            request@ == default_request(),
    {
        Request {
            method: method_default(),
            uri: uri_default(),
            target: Target::Raw(uri_default()),
            headers: header_map_new(),
            carried: None,
            body: Payload::default(),
        }
    }
}

/// A response. One that the guest made carries nothing and has `hyper`'s defaults for it.
pub struct Response {
    pub status: u16,
    pub headers: hyper::HeaderMap,
    pub carried: Option<Carried>,
    pub body: Payload,
}

/// What a [`Response`] holds.
#[verifier::ext_equal]
pub struct ResponseView {
    pub status: u16,
    pub fields: Fields,
    pub carried: Option<Carried>,
    pub body: PayloadView,
}

impl View for Response {
    type V = ResponseView;

    open spec fn view(&self) -> ResponseView {
        ResponseView {
            status: self.status,
            fields: header_contents(self.headers),
            carried: self.carried,
            body: self.body@,
        }
    }
}

impl ResponseView {
    /// Whether the response's status is a status code, and its header fields are finitely
    /// many.
    pub open spec fn valid(self) -> bool {
        valid_status(self.status) && self.fields.dom().finite()
    }
}

/// Status 200 without header fields and body.
pub open spec fn default_response() -> ResponseView {
    ResponseView { status: 200, fields: no_fields(), carried: None, body: empty_body() }
}

impl Default for Response {
    fn default() -> (response: Response)
        ensures
            response@ == default_response(),
    {
        Response {
            status: status_default(),
            headers: header_map_new(),
            carried: None,
            body: Payload::default(),
        }
    }
}

/// A view leaves nothing of a request out: two requests with the same view have the same
/// method, URI, header fields, version, extensions and body.
pub proof fn law_request_views_tell_all(a: Request, b: Request)
    requires
        a@ == b@,
    ensures
        a.method@ == b.method@,
        a.uri@ == b.uri@,
        a.target@ == b.target@,
        header_contents(a.headers) == header_contents(b.headers),
        a.carried == b.carried,
        a.body@ == b.body@,
{
}

/// A view leaves nothing of a response out: two responses with the same view have the same
/// status, header fields, version, extensions and body.
pub proof fn law_response_views_tell_all(a: Response, b: Response)
    requires
        a@ == b@,
    ensures
        a.status == b.status,
        header_contents(a.headers) == header_contents(b.headers),
        a.carried == b.carried,
        a.body@ == b.body@,
{
}

/// Bodies and targets with the same view hold the same bytes, or the same stream or URI.
pub proof fn law_body_and_target_views_tell_all(a: Payload, b: Payload, c: Target, d: Target)
    ensures
        a@ == b@ ==> match (a, b) {
            (Payload::Bytes(x), Payload::Bytes(y)) => x@ == y@,
            (Payload::Stream(x), Payload::Stream(y)) => x == y,
            _ => false,
        },
        c@ == d@ ==> match (c, d) {
            (Target::Raw(x), Target::Raw(y)) => x@ == y@,
            (Target::Parsed(x), Target::Parsed(y)) => x == y,
            _ => false,
        },
{
}

} // verus!
