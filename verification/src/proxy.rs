//! The credential-injecting forwarding engine.
//!
//! A logical request names an upstream by identifier; [`prepare`] resolves it
//! against the registry and builds the physical request to send, delivering
//! the upstream's secret either as an extra header or by substituting a
//! placeholder inside the URI.  The host layer performs the one HTTP call and
//! hands the outcome to [`complete`], which maps it to the response envelope
//! the caller sees.

use crate::registry::{lookup_in, ApiView, Registry};
use crate::text::{
    is_valid_header_name, is_valid_header_value, occurs_in, replace_all, replaced,
    valid_header_name, valid_header_value,
};
use vstd::prelude::*;

verus! {

/// Status reported when the request names an unknown identifier.
pub const STATUS_NOT_FOUND: u16 = 404;

/// Status reported when the physical call fails, or when a configured
/// header name or secret is not valid header syntax.
pub const STATUS_INTERNAL_ERROR: u16 = 500;

/// The HTTP method of a logical request.  Only a POST carries a body: PUT
/// and DELETE deliberately send none, a restriction this design keeps even
/// though some upstream APIs expect bodies on those verbs.
pub enum Method {
    Get,
    Post(String),
    Put,
    Delete,
}

/// The mathematical image of a [`Method`].
pub enum MethodView {
    Get,
    Post(Seq<char>),
    Put,
    Delete,
}

impl View for Method {
    type V = MethodView;

    open spec fn view(&self) -> MethodView {
        match self {
            Method::Get => MethodView::Get,
            Method::Post(b) => MethodView::Post(b@),
            Method::Put => MethodView::Put,
            Method::Delete => MethodView::Delete,
        }
    }
}

/// How the upstream's secret key travels: as the value of a named header,
/// or substituted for a placeholder inside the URI.
pub enum KeyTransport {
    Header(String),
    Replace(String),
}

/// The mathematical image of a [`KeyTransport`].
pub enum KeyTransportView {
    Header(Seq<char>),
    Replace(Seq<char>),
}

impl View for KeyTransport {
    type V = KeyTransportView;

    open spec fn view(&self) -> KeyTransportView {
        match self {
            KeyTransport::Header(h) => KeyTransportView::Header(h@),
            KeyTransport::Replace(p) => KeyTransportView::Replace(p@),
        }
    }
}

/// A logical request to the proxy: which upstream, where to, how, and how
/// the secret should travel.
pub struct ProxyRequest {
    pub identifier: String,
    pub uri: String,
    pub method: Method,
    pub transport: Option<KeyTransport>,
}

/// The mathematical image of a [`ProxyRequest`].
pub struct RequestView {
    pub identifier: Seq<char>,
    pub uri: Seq<char>,
    pub method: MethodView,
    pub transport: Option<KeyTransportView>,
}

impl View for ProxyRequest {
    type V = RequestView;

    open spec fn view(&self) -> RequestView {
        RequestView {
            identifier: self.identifier@,
            uri: self.uri@,
            method: self.method@,
            transport: match self.transport {
                Option::Some(t) => Option::Some(t@),
                Option::None => Option::None,
            },
        }
    }
}

/// The envelope handed back to the caller: the upstream's status (or a
/// locally synthesized 404 or 500) and its body, when one could be decoded.
pub struct ProxyResponse {
    pub body: Option<String>,
    pub status: u16,
}

/// The mathematical image of a [`ProxyResponse`].
pub struct ResponseView {
    pub body: Option<Seq<char>>,
    pub status: u16,
}

impl View for ProxyResponse {
    type V = ResponseView;

    open spec fn view(&self) -> ResponseView {
        ResponseView {
            body: match self.body {
                Option::Some(b) => Option::Some(b@),
                Option::None => Option::None,
            },
            status: self.status,
        }
    }
}

/// The physical request to send upstream: final URI, extra headers, method.
pub struct OutgoingRequest {
    pub uri: String,
    pub headers: Vec<(String, String)>,
    pub method: Method,
}

/// The mathematical image of an [`OutgoingRequest`].
pub struct OutgoingView {
    pub uri: Seq<char>,
    pub headers: Seq<(Seq<char>, Seq<char>)>,
    pub method: MethodView,
}

impl View for OutgoingRequest {
    type V = OutgoingView;

    open spec fn view(&self) -> OutgoingView {
        OutgoingView {
            uri: self.uri@,
            headers: self.headers@.map_values(|h: (String, String)| (h.0@, h.1@)),
            method: self.method@,
        }
    }
}

/// What [`prepare`] decides: either the response is already settled (unknown
/// identifier, or unusable header syntax) and nothing must be sent, or
/// exactly one physical request is to be dispatched.
pub enum Prepared {
    Done(ProxyResponse),
    Dispatch(OutgoingRequest),
}

/// The mathematical image of a [`Prepared`] decision.
pub enum PreparedView {
    Done(ResponseView),
    Dispatch(OutgoingView),
}

impl View for Prepared {
    type V = PreparedView;

    open spec fn view(&self) -> PreparedView {
        match self {
            Prepared::Done(r) => PreparedView::Done(r@),
            Prepared::Dispatch(o) => PreparedView::Dispatch(o@),
        }
    }
}

/// How the one physical call ended: a response with its status and, when the
/// body could be decoded as text, that body; or a transport-level failure
/// (connection, DNS, TLS, timeout), whose detail never reaches the caller.
pub enum FetchOutcome {
    Response { status: u16, body: Option<String> },
    Failure,
}

/// The mathematical image of a [`FetchOutcome`].
pub enum FetchOutcomeView {
    Response { status: u16, body: Option<Seq<char>> },
    Failure,
}

impl View for FetchOutcome {
    type V = FetchOutcomeView;

    open spec fn view(&self) -> FetchOutcomeView {
        match self {
            FetchOutcome::Response { status, body } => FetchOutcomeView::Response {
                status: *status,
                body: match body {
                    Option::Some(b) => Option::Some(b@),
                    Option::None => Option::None,
                },
            },
            FetchOutcome::Failure => FetchOutcomeView::Failure,
        }
    }
}

/// The whole pre-dispatch decision, as a function of the registry contents
/// and the logical request.
pub open spec fn spec_prepare(reg: Seq<ApiView>, req: RequestView) -> PreparedView {
    match lookup_in(reg, req.identifier) {
        Option::None => PreparedView::Done(
            ResponseView { body: Option::None, status: STATUS_NOT_FOUND },
        ),
        Option::Some(api) => match (req.transport, api.api_key) {
            (Option::Some(KeyTransportView::Header(h)), Option::Some(k)) => if valid_header_name(h)
                && valid_header_value(k) {
                PreparedView::Dispatch(
                    OutgoingView { uri: req.uri, headers: seq![(h, k)], method: req.method },
                )
            } else {
                PreparedView::Done(
                    ResponseView { body: Option::None, status: STATUS_INTERNAL_ERROR },
                )
            },
            (Option::Some(KeyTransportView::Replace(p)), Option::Some(k)) => PreparedView::Dispatch(
                OutgoingView {
                    uri: replaced(req.uri, p, k),
                    headers: Seq::empty(),
                    method: req.method,
                },
            ),
            _ => PreparedView::Dispatch(
                OutgoingView { uri: req.uri, headers: Seq::empty(), method: req.method },
            ),
        },
    }
}

/// The response envelope for a given outcome of the physical call.
pub open spec fn spec_complete(o: FetchOutcomeView) -> ResponseView {
    match o {
        FetchOutcomeView::Response { status, body } => ResponseView { body, status },
        FetchOutcomeView::Failure => ResponseView {
            body: Option::None,
            status: STATUS_INTERNAL_ERROR,
        },
    }
}

/// Resolves the request against the registry and builds the physical
/// request, injecting the upstream's secret as the transport asks.
///
/// An unknown identifier settles the call at once with a 404 and no body; a
/// header transport whose name or secret is not valid header syntax settles
/// it with a 500; in every other case exactly one physical request is to be
/// dispatched.  A transport without a configured secret is silently ignored.
pub fn prepare(registry: &Registry, request: ProxyRequest) -> (p: Prepared)
    ensures
        p@ == spec_prepare(registry@, request@),
{
    let ProxyRequest { identifier, uri, method, transport } = request;
    match registry.lookup(&identifier) {
        Option::None => Prepared::Done(
            ProxyResponse { body: None, status: STATUS_NOT_FOUND },
        ),
        Option::Some(api) => match (transport, &api.api_key) {
            (Option::Some(KeyTransport::Header(h)), Option::Some(k)) => {
                if is_valid_header_name(h.as_str()) && is_valid_header_value(k.as_str()) {
                    let mut headers: Vec<(String, String)> = Vec::new();
                    headers.push((h, k.clone()));
                    let out = OutgoingRequest { uri, headers, method };
                    proof {
                        assert(out@.headers =~= seq![(out.headers@[0].0@, out.headers@[0].1@)]);
                    }
                    Prepared::Dispatch(out)
                } else {
                    Prepared::Done(ProxyResponse { body: None, status: STATUS_INTERNAL_ERROR })
                }
            },
            (Option::Some(KeyTransport::Replace(p)), Option::Some(k)) => {
                let new_uri = replace_all(uri.as_str(), p.as_str(), k.as_str());
                let out = OutgoingRequest { uri: new_uri, headers: Vec::new(), method };
                proof {
                    assert(out@.headers =~= Seq::<(Seq<char>, Seq<char>)>::empty());
                }
                Prepared::Dispatch(out)
            },
            _ => {
                let out = OutgoingRequest { uri, headers: Vec::new(), method };
                proof {
                    assert(out@.headers =~= Seq::<(Seq<char>, Seq<char>)>::empty());
                }
                Prepared::Dispatch(out)
            },
        },
    }
}

/// Maps the outcome of the physical call to the caller's envelope: a
/// completed exchange keeps the upstream's status and whatever body could be
/// decoded; a transport failure becomes a bare 500.
pub fn complete(outcome: FetchOutcome) -> (r: ProxyResponse)
    ensures
        r@ == spec_complete(outcome@),
{
    match outcome {
        FetchOutcome::Response { status, body } => ProxyResponse { body, status },
        FetchOutcome::Failure => ProxyResponse { body: None, status: STATUS_INTERNAL_ERROR },
    }
}

/// An identifier absent from the registry settles the call at once: status
/// 404, no body, and nothing to dispatch upstream.
pub proof fn lemma_unknown_identifier_rejected(reg: Seq<ApiView>, req: RequestView)
    requires
        lookup_in(reg, req.identifier) is None,
    ensures
        spec_prepare(reg, req) == PreparedView::Done(
            ResponseView { body: Option::None, status: STATUS_NOT_FOUND },
        ),
{
}

/// Without a transport the physical request is the logical one: same URI,
/// same method, no extra headers — whether or not a secret is configured.
pub proof fn lemma_no_transport_leaves_request_unchanged(
    reg: Seq<ApiView>,
    req: RequestView,
    api: ApiView,
)
    requires
        lookup_in(reg, req.identifier) == Option::Some(api),
        req.transport is None,
    ensures
        spec_prepare(reg, req) == PreparedView::Dispatch(
            OutgoingView { uri: req.uri, headers: Seq::empty(), method: req.method },
        ),
{
}

/// With a replace transport and a configured secret, the outgoing URI is the
/// logical URI with every occurrence of the placeholder replaced by the
/// secret, and no headers are added; a placeholder that never occurs leaves
/// the URI unchanged.
pub proof fn lemma_replace_substitutes_secret(
    reg: Seq<ApiView>,
    req: RequestView,
    api: ApiView,
    p: Seq<char>,
    k: Seq<char>,
)
    requires
        lookup_in(reg, req.identifier) == Option::Some(api),
        req.transport == Option::Some(KeyTransportView::Replace(p)),
        api.api_key == Option::Some(k),
    ensures
        spec_prepare(reg, req) == PreparedView::Dispatch(
            OutgoingView { uri: replaced(req.uri, p, k), headers: Seq::empty(), method: req.method },
        ),
        !occurs_in(req.uri, p) ==> spec_prepare(reg, req) == PreparedView::Dispatch(
            OutgoingView { uri: req.uri, headers: Seq::empty(), method: req.method },
        ),
{
    if !occurs_in(req.uri, p) {
        crate::text::lemma_replaced_absent(req.uri, p, k);
    }
}

/// With a header transport, a configured secret, and well-formed header
/// syntax, the outgoing request carries exactly the one header naming the
/// secret, and the URI is unchanged.
pub proof fn lemma_header_carries_secret(
    reg: Seq<ApiView>,
    req: RequestView,
    api: ApiView,
    h: Seq<char>,
    k: Seq<char>,
)
    requires
        lookup_in(reg, req.identifier) == Option::Some(api),
        req.transport == Option::Some(KeyTransportView::Header(h)),
        api.api_key == Option::Some(k),
        valid_header_name(h),
        valid_header_value(k),
    ensures
        spec_prepare(reg, req) == PreparedView::Dispatch(
            OutgoingView { uri: req.uri, headers: seq![(h, k)], method: req.method },
        ),
{
}

/// When the resolved upstream has no secret, any transport is a no-op: the
/// physical request equals the logical one.
pub proof fn lemma_no_secret_ignores_transport(reg: Seq<ApiView>, req: RequestView, api: ApiView)
    requires
        lookup_in(reg, req.identifier) == Option::Some(api),
        api.api_key is None,
    ensures
        spec_prepare(reg, req) == PreparedView::Dispatch(
            OutgoingView { uri: req.uri, headers: Seq::empty(), method: req.method },
        ),
{
}

} // verus!
