//! Outbound HTTP for server scripts (`PerformHttpRequest`).
//!
//! A native cannot wait. So it validates the request, allocates a token and queues the
//! request for a worker; the worker performs the call and dispatches the reply back into
//! the calling resource as the [`HTTP_RESPONSE_EVENT`] event.
use crate::json::{json_member, json_pairs, json_text, parse_member, parse_pairs, Json, JsonModel};
use crate::tally::{count_one, one_more};
use crate::text::{ascii_upper, uppercased};
use vstd::prelude::*;

verus! {

/// The event a completed request is reported through.
pub const HTTP_RESPONSE_EVENT: &'static str = "__cfx_internal:httpResponse";

/// Queue depth for in-flight requests. A resource looping on `PerformHttpRequest`
/// without backpressure hits this rather than growing the queue until the process dies.
pub const REQUEST_CAPACITY: usize = 1024;

/// The models of a list of headers.
pub open spec fn header_models(headers: Seq<(String, String)>) -> Seq<(Seq<char>, Seq<char>)> {
    headers.map_values(|h: (String, String)| (h.0@, h.1@))
}

/// One outbound request.
#[derive(Debug, Clone, PartialEq, Eq)]
pub struct HttpRequest {
    /// Resource that asked, and that the reply is dispatched back to.
    pub resource: String,
    /// Correlation token the script holds.
    pub token: u32,
    pub url: String,
    pub method: String,
    pub body: String,
    pub headers: Vec<(String, String)>,
}

/// What the worker learned, ready to hand back to the script.
#[derive(Debug, Clone, PartialEq, Eq)]
pub struct HttpReply {
    pub resource: String,
    pub token: u32,
    /// HTTP status, or `0` when the request never completed.
    pub status: u16,
    pub body: String,
    pub headers: Vec<(String, String)>,
    /// Populated only on failure; the script's callback receives it as its error
    /// argument, so a failed request is distinguishable from an empty 200.
    pub error: Option<String>,
}

/// A validated request, still missing its token.
#[derive(Debug, Clone, PartialEq, Eq)]
pub struct HttpRequestSpec {
    pub resource: String,
    pub url: String,
    pub method: String,
    pub body: String,
    pub headers: Vec<(String, String)>,
}

/// What a request says.
#[verifier::ext_equal]
pub struct RequestModel {
    pub resource: Seq<char>,
    pub url: Seq<char>,
    pub method: Seq<char>,
    pub body: Seq<char>,
    pub headers: Seq<(Seq<char>, Seq<char>)>,
}

impl View for HttpRequestSpec {
    type V = RequestModel;

    open spec fn view(&self) -> RequestModel {
        RequestModel {
            resource: self.resource@,
            url: self.url@,
            method: self.method@,
            body: self.body@,
            headers: header_models(self.headers@),
        }
    }
}

impl View for HttpRequest {
    type V = (RequestModel, u32);

    open spec fn view(&self) -> (RequestModel, u32) {
        (
            RequestModel {
                resource: self.resource@,
                url: self.url@,
                method: self.method@,
                body: self.body@,
                headers: header_models(self.headers@),
            },
            self.token,
        )
    }
}

impl HttpRequestSpec {
    pub fn with_token(self, token: u32) -> (request: HttpRequest)
        ensures
            request@ == (self@, token),
    {
        HttpRequest {
            resource: self.resource,
            token,
            url: self.url,
            method: self.method,
            body: self.body,
            headers: self.headers,
        }
    }
}

/// A value as a text: a string as it is, anything else by its JSON text.
pub open spec fn as_text(value: JsonModel) -> Seq<char> {
    match value {
        JsonModel::Text(s) => s,
        other => json_text(other),
    }
}

pub(crate) fn text_of(value: &Json) -> (text: String)
    ensures
        text@ == as_text(value@),
{
    match value {
        Json::Text(s) => s.clone(),
        other => other.to_json(),
    }
}

/// The request that the members of an object stand for.
pub open spec fn request_of(
    resource: Seq<char>,
    url: Option<JsonModel>,
    method: Option<JsonModel>,
    data: Option<JsonModel>,
    headers: Option<Seq<(Seq<char>, JsonModel)>>,
) -> Option<RequestModel> {
    match url {
        Some(JsonModel::Text(url)) => Some(
            RequestModel {
                resource,
                url,
                method: match method {
                    Some(JsonModel::Text(m)) => ascii_upper(m),
                    _ => ascii_upper("GET"@),
                },
                body: match data {
                    Some(value) => as_text(value),
                    None => Seq::empty(),
                },
                headers: match headers {
                    Some(pairs) => pairs.map_values(
                        |p: (Seq<char>, JsonModel)| (p.0, as_text(p.1)),
                    ),
                    None => Seq::empty(),
                },
            },
        ),
        _ => None,
    }
}

/// The members of a value that is an object.
pub open spec fn members_of(value: Option<JsonModel>) -> Option<Seq<(Seq<char>, JsonModel)>> {
    match value {
        Some(JsonModel::Nested(text)) => json_pairs(text),
        _ => None,
    }
}

/// The request that a text stands for.
pub open spec fn parsed_request(resource: Seq<char>, raw: Seq<char>) -> Option<RequestModel> {
    request_of(
        resource,
        json_member(raw, "url"@),
        json_member(raw, "method"@),
        json_member(raw, "data"@),
        members_of(json_member(raw, "headers"@)),
    )
}

/// What an optional spec holds.
pub open spec fn spec_model(spec: Option<HttpRequestSpec>) -> Option<RequestModel> {
    match spec {
        Some(s) => Some(s@),
        None => None,
    }
}

/// What an optional value holds.
pub open spec fn json_model(value: Option<Json>) -> Option<JsonModel> {
    match value {
        Some(v) => Some(v@),
        None => None,
    }
}

/// Put a request together from the members of a request object: a missing method is
/// `GET`, a missing body or header list is empty.
pub fn build_request(
    resource: &str,
    url: Option<Json>,
    method: Option<Json>,
    data: Option<Json>,
    headers: Option<Vec<(String, Json)>>,
) -> (spec: Option<HttpRequestSpec>)
    ensures
        spec_model(spec) == request_of(
            resource@,
            json_model(url),
            json_model(method),
            json_model(data),
            match headers {
                Some(h) => Some(crate::json::pair_models(h@)),
                None => None,
            },
        ),
{
    let url = match url {
        Some(Json::Text(url)) => url,
        _ => {
            return None;
        },
    };
    let method = match method {
        Some(Json::Text(m)) => uppercased(m.as_str()),
        _ => uppercased("GET"),
    };
    let body = match &data {
        Some(value) => text_of(value),
        None => String::new(),
    };
    let mut list: Vec<(String, String)> = Vec::new();
    if let Some(pairs) = &headers {
        let mut i: usize = 0;
        while i < pairs.len()
            invariant
                i <= pairs@.len(),
                list@.len() == i,
                forall|j: int|
                    0 <= j < i ==> (#[trigger] list@[j]).0@ == pairs@[j].0@ && list@[j].1@ == as_text(
                        pairs@[j].1@,
                    ),
            decreases pairs@.len() - i,
        {
            list.push((pairs[i].0.clone(), text_of(&pairs[i].1)));
            i = i + 1;
        }
        assert(header_models(list@) =~= crate::json::pair_models(pairs@).map_values(
            |p: (Seq<char>, JsonModel)| (p.0, as_text(p.1)),
        ));
    } else {
        assert(header_models(list@) =~= Seq::empty());
    }
    assert(body@ =~= match json_model(data) {
        Some(value) => as_text(value),
        None => Seq::empty(),
    });
    Some(HttpRequestSpec { resource: resource.to_owned(), url, method, body, headers: list })
}

/// Parse the JSON request object the native carries.
///
/// `{ url, method, data, headers }` is read; anything else is ignored rather than
/// rejected, because a resource written against a newer FiveM must not break on a field
/// that is not read yet.
pub fn parse_request(resource: &str, raw: &str) -> (spec: Option<HttpRequestSpec>)
    ensures
        spec_model(spec) == parsed_request(resource@, raw@),
{
    let headers = match parse_member(raw, "headers") {
        Some(Json::Nested(text)) => parse_pairs(text.as_str()),
        _ => None,
    };
    build_request(
        resource,
        parse_member(raw, "url"),
        parse_member(raw, "method"),
        parse_member(raw, "data"),
        headers,
    )
}

/// The bridge's content.
#[verifier::ext_equal]
pub struct BridgeModel {
    /// The requests the worker has not taken yet, oldest first.
    pub queue: Seq<(RequestModel, u32)>,
    /// The token of the next request.
    pub next_token: u32,
    /// Whether there is a worker.
    pub open: bool,
    /// How many requests were dropped.
    pub dropped: u64,
}

/// The token that follows; zero means failure and is never one.
pub open spec fn next_token(token: u32) -> u32 {
    if token == u32::MAX {
        1
    } else {
        (token + 1) as u32
    }
}

pub open spec fn request_models(queue: Seq<HttpRequest>) -> Seq<(RequestModel, u32)> {
    queue.map_values(|r: HttpRequest| r@)
}

/// The queue of requests between the natives and the worker.
#[derive(Debug)]
pub struct HttpBridge {
    queue: Vec<HttpRequest>,
    next_token: u32,
    open: bool,
    dropped: u64,
}

impl View for HttpBridge {
    type V = BridgeModel;

    closed spec fn view(&self) -> BridgeModel {
        BridgeModel {
            queue: request_models(self.queue@),
            next_token: self.next_token,
            open: self.open,
            dropped: self.dropped,
        }
    }
}

impl HttpBridge {
    pub closed spec fn wf(&self) -> bool {
        self.queue@.len() <= REQUEST_CAPACITY && self.next_token != 0
    }

    pub fn new() -> (bridge: Self)
        ensures
            bridge.wf(),
            bridge@ == (BridgeModel { queue: Seq::empty(), next_token: 1, open: true, dropped: 0 }),
    {
        let bridge = HttpBridge { queue: Vec::new(), next_token: 1, open: true, dropped: 0 };
        assert(bridge@.queue =~= Seq::empty());
        bridge
    }

    /// The worker is gone.
    pub fn close(&mut self)
        requires
            old(self).wf(),
        ensures
            final(self).wf(),
            final(self)@ == (BridgeModel { open: false, ..old(self)@ }),
    {
        self.open = false;
    }

    /// Queue a request and return its token, or `None` when the queue is full or the
    /// worker is gone.
    pub fn submit(&mut self, spec: HttpRequestSpec) -> (token: Option<u32>)
        requires
            old(self).wf(),
        ensures
            final(self).wf(),
            ({
                let taken = old(self)@.open && old(self)@.queue.len() < REQUEST_CAPACITY;
                let number = old(self)@.next_token;
                &&& number != 0
                &&& token == if taken {
                    Some(number)
                } else {
                    None
                }
                &&& final(self)@ == (BridgeModel {
                    queue: if taken {
                        old(self)@.queue.push((spec@, number))
                    } else {
                        old(self)@.queue
                    },
                    next_token: next_token(number),
                    dropped: if taken {
                        old(self)@.dropped
                    } else {
                        one_more(old(self)@.dropped)
                    },
                    ..old(self)@
                })
            }),
    {
        let token: u32 = self.next_token;
        self.next_token = if token == u32::MAX {
            1
        } else {
            token + 1
        };
        if self.open && self.queue.len() < REQUEST_CAPACITY {
            let ghost model = spec@;
            let ghost before = self.queue@;
            self.queue.push(spec.with_token(token));
            assert(request_models(self.queue@) =~= request_models(before).push((model, token)));
            Some(token)
        } else {
            self.dropped = count_one(self.dropped);
            None
        }
    }

    /// How many requests were dropped.
    pub fn dropped(&self) -> (count: u64)
        ensures
            count == self@.dropped,
    {
        self.dropped
    }

    /// Take every queued request, oldest first.
    pub fn drain(&mut self) -> (requests: Vec<HttpRequest>)
        requires
            old(self).wf(),
        ensures
            final(self).wf(),
            request_models(requests@) == old(self)@.queue,
            final(self)@ == (BridgeModel { queue: Seq::empty(), ..old(self)@ }),
    {
        let mut requests: Vec<HttpRequest> = Vec::new();
        std::mem::swap(&mut requests, &mut self.queue);
        assert(self@.queue =~= Seq::empty());
        requests
    }
}

/// Two requests in a row get different tokens, and none is zero.
pub proof fn tokens_differ(token: u32)
    requires
        token != 0,
    ensures
        next_token(token) != token,
        next_token(token) != 0,
{
}

} // verus!
