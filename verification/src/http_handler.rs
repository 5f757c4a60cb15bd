//! Inbound HTTP for server scripts (`SetHttpHandler`).
//!
//! The gateway parks a request here, dispatches it into the owning resource as the
//! [`HTTP_REQUEST_EVENT`] event, and waits for the answer. If the handler never answers,
//! the gateway gives the request up: a resource that forgets to answer costs one slow
//! request, not a leak.
use crate::dash::{texts_get, texts_held, texts_insert, texts_new, texts_remove};
use crate::http_bridge::{as_text, header_models, text_of};
use crate::json::{
    json_array, json_pairs, models, pair_models, parse_array, parse_pairs, Json, JsonModel,
};
use crate::slots::SlotMap;
use dashmap::DashMap;
use vstd::prelude::*;
use vstd::string::StringExecFns;

verus! {

/// The event an inbound request is dispatched through.
pub const HTTP_REQUEST_EVENT: &'static str = "__cfx_internal:httpRequest";

/// What a resource's handler produced.
#[derive(Debug, Clone, PartialEq, Eq)]
pub struct ScriptHttpResponse {
    pub status: u16,
    pub headers: Vec<(String, String)>,
    pub body: String,
}

impl Default for ScriptHttpResponse {
    fn default() -> (response: Self)
        ensures
            response.status == 200,
            header_models(response.headers@) == Seq::<(Seq<char>, Seq<char>)>::empty(),
            response.body@ == Seq::<char>::empty(),
    {
        let response = ScriptHttpResponse { status: 200, headers: Vec::new(), body: String::new() };
        assert(header_models(response.headers@) =~= Seq::<(Seq<char>, Seq<char>)>::empty());
        assert(response.body@ =~= Seq::<char>::empty());
        response
    }
}

/// The registry's content.
pub struct HandlersModel {
    /// The resources that answer requests.
    pub handlers: Set<Seq<char>>,
    /// The requests that wait for an answer.
    pub waiting: Set<u32>,
    /// The answers that nobody has picked up yet.
    pub answered: Map<u32, ScriptHttpResponse>,
    /// The latest request's id.
    pub latest: u32,
}

/// The id that follows; zero means no request.
pub open spec fn next_id(latest: u32) -> u32 {
    if latest == u32::MAX {
        1
    } else {
        (latest + 1) as u32
    }
}

/// Registry of resources exposing an HTTP handler, plus the requests currently waiting
/// on one.
pub struct HttpHandlerRegistry {
    handlers: DashMap<String, String>,
    waiting: SlotMap<()>,
    answered: SlotMap<ScriptHttpResponse>,
    latest: u32,
}

/// A registry in which nobody answers and nothing was asked.
pub open spec fn no_handlers() -> HandlersModel {
    HandlersModel {
        handlers: Set::empty(),
        waiting: Set::empty(),
        answered: Map::empty(),
        latest: 0,
    }
}

impl View for HttpHandlerRegistry {
    type V = HandlersModel;

    closed spec fn view(&self) -> HandlersModel {
        HandlersModel {
            handlers: texts_held(self.handlers).dom(),
            waiting: self.waiting@.dom(),
            answered: self.answered@,
            latest: self.latest,
        }
    }
}

impl HttpHandlerRegistry {
    pub closed spec fn wf(&self) -> bool {
        self.waiting.wf() && self.answered.wf()
    }

    pub fn new() -> (registry: Self)
        ensures
            registry.wf(),
            registry@ == no_handlers(),
    {
        let registry = HttpHandlerRegistry {
            handlers: texts_new(),
            waiting: SlotMap::new(),
            answered: SlotMap::new(),
            latest: 0,
        };
        assert(registry@.handlers =~= Set::empty());
        assert(registry@.waiting =~= Set::empty());
        registry
    }

    /// `SetHttpHandler(handler)`. Re-registering replaces the previous handler, which is
    /// what a resource restart does.
    pub fn register(&mut self, resource: &str)
        requires
            old(self).wf(),
        ensures
            final(self).wf(),
            final(self)@ == (HandlersModel {
                handlers: old(self)@.handlers.insert(resource@),
                ..old(self)@
            }),
    {
        texts_insert(&mut self.handlers, resource.to_owned(), String::new());
        assert(self@.handlers =~= old(self)@.handlers.insert(resource@));
    }

    /// Drop a stopped resource's registration so its route stops answering.
    pub fn unregister(&mut self, resource: &str)
        requires
            old(self).wf(),
        ensures
            final(self).wf(),
            final(self)@ == (HandlersModel {
                handlers: old(self)@.handlers.remove(resource@),
                ..old(self)@
            }),
    {
        texts_remove(&mut self.handlers, resource);
        assert(self@.handlers =~= old(self)@.handlers.remove(resource@));
    }

    pub fn has_handler(&self, resource: &str) -> (yes: bool)
        ensures
            yes == self@.handlers.contains(resource@),
    {
        texts_get(&self.handlers, resource).is_some()
    }

    /// Park a request. The caller dispatches the event, then waits for the answer under
    /// its own deadline.
    pub fn begin(&mut self) -> (id: u32)
        requires
            old(self).wf(),
        ensures
            final(self).wf(),
            id == next_id(old(self)@.latest),
            id != 0,
            final(self)@ == (HandlersModel {
                waiting: old(self)@.waiting.insert(id),
                answered: old(self)@.answered.remove(id),
                latest: id,
                ..old(self)@
            }),
    {
        // Zero is the "no such request" value on the script side.
        let id: u32 = if self.latest == u32::MAX {
            1
        } else {
            self.latest + 1
        };
        self.latest = id;
        self.waiting.insert(id, ());
        self.answered.remove(id);
        assert(self@.waiting =~= old(self)@.waiting.insert(id));
        id
    }

    /// `response.send()`. Returns whether a waiter was still there: a second `send()`,
    /// or one after the gateway timed out, does nothing.
    pub fn complete(&mut self, id: u32, response: ScriptHttpResponse) -> (delivered: bool)
        requires
            old(self).wf(),
        ensures
            final(self).wf(),
            delivered == old(self)@.waiting.contains(id),
            final(self)@ == if delivered {
                HandlersModel {
                    waiting: old(self)@.waiting.remove(id),
                    answered: old(self)@.answered.insert(id, response),
                    ..old(self)@
                }
            } else {
                old(self)@
            },
    {
        if self.waiting.contains(id) {
            self.waiting.remove(id);
            self.answered.insert(id, response);
            assert(self@.waiting =~= old(self)@.waiting.remove(id));
            true
        } else {
            false
        }
    }

    /// The answer to a request, once there is one.
    pub fn receive(&mut self, id: u32) -> (response: Option<ScriptHttpResponse>)
        requires
            old(self).wf(),
        ensures
            final(self).wf(),
            response == if old(self)@.answered.contains_key(id) {
                Some(old(self)@.answered[id])
            } else {
                None
            },
            final(self)@ == (HandlersModel {
                answered: old(self)@.answered.remove(id),
                ..old(self)@
            }),
    {
        self.answered.remove(id)
    }

    /// Give up on a request (timeout, or the resource went away).
    pub fn abandon(&mut self, id: u32)
        requires
            old(self).wf(),
        ensures
            final(self).wf(),
            final(self)@ == (HandlersModel {
                waiting: old(self)@.waiting.remove(id),
                answered: old(self)@.answered.remove(id),
                ..old(self)@
            }),
    {
        self.waiting.remove(id);
        self.answered.remove(id);
        assert(self@.waiting =~= old(self)@.waiting.remove(id));
    }

    /// How many requests wait for an answer.
    pub fn pending_count(&self) -> (n: usize)
        requires
            self.wf(),
        ensures
            n == self@.waiting.len(),
    {
        self.waiting.len()
    }
}

// --- what a handler hands back ---

/// Texts with a separator between them.
pub open spec fn separated(texts: Seq<Seq<char>>) -> Seq<char>
    decreases texts.len(),
{
    if texts.len() == 0 {
        Seq::empty()
    } else if texts.len() == 1 {
        texts[0]
    } else {
        separated(texts.drop_last()) + ", "@ + texts.last()
    }
}

/// The value of a header. `writeHead` accepts an array for a repeated one.
pub open spec fn header_value(value: JsonModel) -> Seq<char> {
    match value {
        JsonModel::Nested(text) => match json_array(text) {
            Ok(items) => separated(items.map_values(|item: JsonModel| as_text(item))),
            Err(_) => text,
        },
        other => as_text(other),
    }
}

/// The headers that an object stands for. A malformed one costs the headers, not the
/// response.
pub open spec fn headers_of(members: Option<Seq<(Seq<char>, JsonModel)>>) -> Seq<
    (Seq<char>, Seq<char>),
> {
    match members {
        Some(pairs) => pairs.map_values(|p: (Seq<char>, JsonModel)| (p.0, header_value(p.1))),
        None => Seq::empty(),
    }
}

/// The status that goes out: one that no response can have counts as a server error.
pub open spec fn status_of(status: u32) -> u16 {
    if status <= u16::MAX {
        status as u16
    } else {
        500
    }
}

fn join_items(items: &Vec<Json>) -> (text: String)
    ensures
        text@ == separated(models(items@).map_values(|item: JsonModel| as_text(item))),
{
    let ghost all = models(items@).map_values(|item: JsonModel| as_text(item));
    let mut text = String::new();
    let mut i: usize = 0;
    assert(text@ =~= separated(all.take(0)));
    while i < items.len()
        invariant
            i <= items@.len() == all.len(),
            all == models(items@).map_values(|item: JsonModel| as_text(item)),
            text@ == separated(all.take(i as int)),
        decreases items@.len() - i,
    {
        let ghost before = text@;
        if i > 0 {
            text.append(", ");
        }
        text.append(text_of(&items[i]).as_str());
        proof {
            assert(all.take(i + 1).drop_last() =~= all.take(i as int));
            assert(all.take(i + 1).last() == as_text(items@[i as int]@));
            if i == 0 {
                assert(before =~= Seq::empty());
                assert(text@ =~= all.take(1)[0]);
            }
        }
        i = i + 1;
    }
    assert(all.take(i as int) =~= all);
    text
}

fn print_header(value: &Json) -> (text: String)
    ensures
        text@ == header_value(value@),
{
    match value {
        Json::Nested(nested) => match parse_array(nested.as_str()) {
            Ok(items) => join_items(&items),
            Err(_) => nested.clone(),
        },
        other => text_of(other),
    }
}

/// The response that a script wrote, from the members of its header object.
pub fn build_response(
    status: u32,
    members: Option<Vec<(String, Json)>>,
    body: String,
) -> (response: ScriptHttpResponse)
    ensures
        response.status == status_of(status),
        header_models(response.headers@) == headers_of(
            match members {
                Some(pairs) => Some(pair_models(pairs@)),
                None => None,
            },
        ),
        response.body@ == body@,
{
    let status: u16 = if status <= 65535 {
        status as u16
    } else {
        500
    };
    let mut headers: Vec<(String, String)> = Vec::new();
    if let Some(pairs) = &members {
        let mut i: usize = 0;
        while i < pairs.len()
            invariant
                i <= pairs@.len(),
                headers@.len() == i,
                forall|j: int|
                    0 <= j < i ==> (#[trigger] headers@[j]).0@ == pairs@[j].0@ && headers@[j].1@
                        == header_value(pairs@[j].1@),
            decreases pairs@.len() - i,
        {
            headers.push((pairs[i].0.clone(), print_header(&pairs[i].1)));
            i = i + 1;
        }
        assert(header_models(headers@) =~= headers_of(Some(pair_models(pairs@))));
    } else {
        assert(header_models(headers@) =~= Seq::empty());
    }
    ScriptHttpResponse { status, headers, body }
}

/// Whether a response is what a script wrote.
pub open spec fn written_response(
    response: ScriptHttpResponse,
    status: u32,
    headers_json: Seq<char>,
    body: Seq<char>,
) -> bool {
    &&& response.status == status_of(status)
    &&& header_models(response.headers@) == headers_of(json_pairs(headers_json))
    &&& response.body@ == body
}

impl HttpHandlerRegistry {
    /// `response.send()`: answer the parked request. `false` means that the request no
    /// longer waits: a second answer, or one past the gateway's deadline.
    pub fn respond(&mut self, id: u32, status: u32, headers_json: &str, body: String) -> (delivered:
        bool)
        requires
            old(self).wf(),
        ensures
            final(self).wf(),
            delivered == old(self)@.waiting.contains(id),
            delivered ==> exists|response: ScriptHttpResponse|
                #[trigger] written_response(response, status, headers_json@, body@)
                    && final(self)@ == (HandlersModel {
                    waiting: old(self)@.waiting.remove(id),
                    answered: old(self)@.answered.insert(id, response),
                    ..old(self)@
                }),
            !delivered ==> final(self)@ == old(self)@,
    {
        let ghost sent = body@;
        let response = build_response(status, parse_pairs(headers_json), body);
        assert(written_response(response, status, headers_json@, sent));
        self.complete(id, response)
    }
}

/// A second answer finds nobody waiting, and so does one to an abandoned request.
pub proof fn a_request_is_answered_once(m: HandlersModel, id: u32)
    ensures
        !m.waiting.remove(id).contains(id),
{
}

} // verus!
