//! The method dispatcher: the protocol state machine over the session store
//! and the model registry, and the whole handling of one connection's text.

use vstd::prelude::*;
use crate::envelope::{
    is_error_response, is_success_response, MCPError, MCPRequest, MCPResponse, ResultPayload,
    INTERNAL_ERROR, INVALID_PARAMS, METHOD_NOT_FOUND, PARSE_ERROR,
};
use crate::registry::{ModelHandler, ModelRegistry};
use crate::store::{SessionStore, SessionView};
use crate::framer::{
    bad_request_reply, body_after_first_boundary, frame_reply, frame_request, has_boundary,
    is_post, method_not_allowed,
    method_not_allowed_reply, missing_body, missing_body_reply, ok_reply, FrameOutcome,
};
use crate::codec::{decode_err_msg, decode_ok, decode_request, decoded_envelope, encode_response, response_json};

verus! {

use vstd::string::StringExecFns;

/// The error envelope sent when the body of an accepted submission was not a
/// well-formed request envelope: the fixed sentinel id, the parse-error
/// code, and the underlying syntax problem.
pub fn parse_error_response(message: &str) -> (r: MCPResponse)
    ensures
        is_error_response(r, "error"@, PARSE_ERROR as int, "Parse error: "@ + message@),
{
    let mut msg = String::from_str("Parse error: ");
    msg.append(message);
    MCPResponse {
        id: String::from_str("error"),
        result: ResultPayload::Null,
        error: Some(MCPError { code: PARSE_ERROR, message: msg }),
    }
}

/// The dispatch relation: everything `process_request` promises of the
/// server state before and after, the request, and the response envelope.
/// Every accepted request satisfies exactly one of its method clauses.
pub open spec fn dispatch_spec<H: ModelHandler>(
    pre: MCPServer<H>,
    post: MCPServer<H>,
    request: MCPRequest,
    r: MCPResponse,
) -> bool {
        &&& (post.wf())
        &&& (post.model_names() == pre.model_names())
        // session.create: a missing or non-string model name is an
        // invalid-params error, an unregistered one likewise; otherwise a
        // fresh, never-issued identifier is returned and a session with
        // an empty context is stored under it.
        &&& (request.method@ == "session.create"@ && request.params.model is None
                ==> is_error_response(
                r,
                request.id@,
                INVALID_PARAMS as int,
                "Invalid params: missing model"@,
            ) && post == pre)
        &&& (request.method@ == "session.create"@ && request.params.model is Some && !pre.has_model(request.params.model->0@) ==> is_error_response(
                r,
                request.id@,
                INVALID_PARAMS as int,
                "Model not found: "@ + request.params.model->0@,
            ) && post == pre)
        &&& (request.method@ == "session.create"@ && request.params.model is Some && pre.has_model(request.params.model->0@) ==> is_success_response(r, request.id@)
                && r.result is SessionId && !pre.issued().contains(r.result->SessionId_0@)
                && post.issued() == pre.issued().push(r.result->SessionId_0@) && post.sessions_map() == pre.sessions_map().insert(
                r.result->SessionId_0@,
                (SessionView { model: request.params.model->0@, context: Seq::empty() }),
            ))
        // session.generate: parameters are checked in order, an unknown
        // session is an invalid-params error, and otherwise the handler's
        // verdict decides: on success the returned text is exactly what
        // was appended to the context, after the prompt; on failure the
        // session is untouched and the handler's message is carried in an
        // internal error. A handler lookup miss cannot happen.
        &&& (request.method@ == "session.generate"@ && request.params.session_id is None
                ==> is_error_response(
                r,
                request.id@,
                INVALID_PARAMS as int,
                "Invalid params: missing session_id"@,
            ) && post == pre)
        &&& (request.method@ == "session.generate"@ && request.params.session_id is Some
                && request.params.prompt is None ==> is_error_response(
                r,
                request.id@,
                INVALID_PARAMS as int,
                "Invalid params: missing prompt"@,
            ) && post == pre)
        &&& (request.method@ == "session.generate"@ && request.params.session_id is Some
                && request.params.prompt is Some && !pre.sessions_map().contains_key(
                request.params.session_id->0@,
            ) ==> is_error_response(
                r,
                request.id@,
                INVALID_PARAMS as int,
                "Session not found: "@ + request.params.session_id->0@,
            ) && post == pre)
        &&& (request.method@ == "session.generate"@ && request.params.session_id is Some
                && request.params.prompt is Some && pre.sessions_map().contains_key(
                request.params.session_id->0@,
            ) ==> r.id@ == request.id@ && ((r.result is Generated && r.error is None && post.sessions_map() == pre.sessions_map().insert(
                request.params.session_id->0@,
                (SessionView {
                    model: pre.sessions_map()[request.params.session_id->0@].model,
                    context: pre.sessions_map()[request.params.session_id->0@].context
                        + seq![request.params.prompt->0@, r.result->Generated_0@],
                }),
            ) && post.issued() == pre.issued()) || (r.result is Null
                && r.error is Some && r.error->0.code == INTERNAL_ERROR
                && "Model error: "@.is_prefix_of(r.error->0.message@) && post == pre)))
        // session.close: a missing identifier or an unknown one is an
        // invalid-params error; otherwise the session is removed, for
        // good, and success is reported.
        &&& (request.method@ == "session.close"@ && request.params.session_id is None
                ==> is_error_response(
                r,
                request.id@,
                INVALID_PARAMS as int,
                "Invalid params: missing session_id"@,
            ) && post == pre)
        &&& (request.method@ == "session.close"@ && request.params.session_id is Some && !pre.sessions_map().contains_key(request.params.session_id->0@) ==> is_error_response(
                r,
                request.id@,
                INVALID_PARAMS as int,
                "Session not found: "@ + request.params.session_id->0@,
            ) && post == pre)
        &&& (request.method@ == "session.close"@ && request.params.session_id is Some && pre.sessions_map().contains_key(request.params.session_id->0@) ==> is_success_response(
                r,
                request.id@,
            ) && r.result is Success && r.result->Success_0 && post.sessions_map() == pre.sessions_map().remove(request.params.session_id->0@) && post.issued() == pre.issued())
        // models.list: always succeeds with exactly the registered
        // names, and changes nothing.
        &&& (request.method@ == "models.list"@ ==> is_success_response(r, request.id@)
                && r.result is Models && r.result->Models_0.deep_view() == pre.model_names()
                && post == pre)
        // anything else: method not found, nothing executed.
        &&& (request.method@ != "session.create"@ && request.method@ != "session.generate"@
                && request.method@ != "session.close"@ && request.method@ != "models.list"@
                ==> is_error_response(
                r,
                request.id@,
                METHOD_NOT_FOUND as int,
                "Method not found: "@ + request.method@,
            ) && post == pre)
}

/// Holds when `r` is the one reply owed for the body `b` of an accepted
/// submission: when the body decodes, a success frame around the JSON of a
/// response the dispatch relation allows; when it does not, a rejection
/// frame around the parse-error envelope, the state untouched.
pub open spec fn handled_reply<H: ModelHandler>(
    pre: MCPServer<H>,
    post: MCPServer<H>,
    b: Seq<char>,
    r: Seq<char>,
) -> bool {
    if decode_ok(b) {
        exists|req: MCPRequest, resp: MCPResponse|
            #![trigger dispatch_spec(pre, post, req, resp)]
            {
                &&& decoded_envelope(b, req)
                &&& dispatch_spec(pre, post, req, resp)
                &&& r == ok_reply(response_json(resp))
            }
    } else {
        exists|resp: MCPResponse|
            #![trigger response_json(resp)]
            {
                &&& is_error_response(
                    resp,
                    "error"@,
                    PARSE_ERROR as int,
                    "Parse error: "@ + decode_err_msg(b),
                )
                &&& post == pre
                &&& r == bad_request_reply(response_json(resp))
            }
    }
}

/// The server: the model registry and the session store, dispatching one
/// decoded request at a time.
pub struct MCPServer<H> {
    models: ModelRegistry<H>,
    sessions: SessionStore,
}

impl<H: ModelHandler> MCPServer<H> {
    /// The registered model names, in registration order.
    pub closed spec fn model_names(&self) -> Seq<Seq<char>> {
        self.models.names()
    }

    /// Whether a model name is registered.
    pub open spec fn has_model(&self, name: Seq<char>) -> bool {
        self.model_names().contains(name)
    }

    /// The bindings: which handler each registered name maps to.
    pub closed spec fn model_handlers(&self) -> Map<Seq<char>, H> {
        self.models.handlers()
    }

    /// The live sessions.
    pub closed spec fn sessions_map(&self) -> Map<Seq<char>, SessionView> {
        self.sessions.sessions()
    }

    /// Every session identifier ever issued.
    pub closed spec fn issued(&self) -> Seq<Seq<char>> {
        self.sessions.issued_ids()
    }

    /// Well-formedness: registry and store are well-formed, and every live
    /// session is bound to a registered model, so a handler lookup for a
    /// live session never misses.
    pub closed spec fn wf(&self) -> bool {
        &&& self.models.wf()
        &&& self.sessions.wf()
        &&& forall|k: Seq<char>|
            self.sessions.sessions().contains_key(k) ==> self.models.has_model(
                (#[trigger] self.sessions.sessions()[k]).model,
            )
    }

    /// A server with no models and no sessions.
    pub fn new() -> (r: Self)
        ensures
            r.wf(),
            r.model_names() == Seq::<Seq<char>>::empty(),
            r.sessions_map() == Map::<Seq<char>, SessionView>::empty(),
            r.issued() == Seq::<Seq<char>>::empty(),
    {
        MCPServer { models: ModelRegistry::new(), sessions: SessionStore::new() }
    }

    /// Registers a handler under a name, or replaces the one already there.
    /// Only meant for startup, before any connection is served.
    pub fn register_model(&mut self, name: &str, handler: H)
        requires
            old(self).wf(),
        ensures
            final(self).wf(),
            final(self).has_model(name@),
            final(self).model_names() == if old(self).has_model(name@) {
                old(self).model_names()
            } else {
                old(self).model_names().push(name@)
            },
            final(self).model_handlers() == old(self).model_handlers().insert(name@, handler),
            final(self).sessions_map() == old(self).sessions_map(),
            final(self).issued() == old(self).issued(),
    {
        self.models.register(name, handler);
        proof {
            assert forall|k: Seq<char>| self.sessions.sessions().contains_key(k) implies self
                .models.has_model((#[trigger] self.sessions.sessions()[k]).model) by {
                let m = self.sessions.sessions()[k].model;
                assert(old(self).models.has_model(m));
                if !old(self).has_model(name@) {
                    let w = choose|w: int|
                        0 <= w < old(self).models.names().len() && old(self).models.names()[w] == m;
                    assert(self.models.names()[w] == m);
                }
            }
        }
    }

    /// The error envelope for a failed request: null result, the given code
    /// and message, the id echoed.
    pub fn error_response(id: String, code: i32, message: &str) -> (r: MCPResponse)
        ensures
            is_error_response(r, id@, code as int, message@),
    {
        MCPResponse {
            id,
            result: ResultPayload::Null,
            error: Some(MCPError { code, message: message.to_owned() }),
        }
    }

    /// Dispatches one decoded request: validates the parameters of the
    /// method it names, consults the registry and the session store, and
    /// produces exactly one response envelope, success or error.
    pub fn process_request(&mut self, request: MCPRequest) -> (r: MCPResponse)
        requires
            old(self).wf(),
        ensures
            dispatch_spec(*old(self), *final(self), request, r),
    {
        proof {
            reveal_strlit("session.create");
            reveal_strlit("session.generate");
            reveal_strlit("session.close");
            reveal_strlit("models.list");
            assert("session.create"@.len() == 14);
            assert("session.generate"@.len() == 16);
            assert("session.close"@.len() == 13);
            assert("models.list"@.len() == 11);
        }
        let MCPRequest { id, method, params } = request;
        if method == String::from_str("session.create") {
            let model = match params.model {
                Some(m) => m,
                None => {
                    return Self::error_response(id, INVALID_PARAMS, "Invalid params: missing model");
                },
            };
            if self.models.lookup(&model).is_none() {
                let mut msg = String::from_str("Model not found: ");
                msg.append(model.as_str());
                return Self::error_response(id, INVALID_PARAMS, msg.as_str());
            }
            let session_id = self.sessions.create(model.clone());
            proof {
                assert forall|k: Seq<char>| self.sessions.sessions().contains_key(k) implies self
                    .models.has_model((#[trigger] self.sessions.sessions()[k]).model) by {
                    if k != session_id@ {
                        assert(old(self).sessions.sessions().contains_key(k));
                    }
                }
            }
            MCPResponse {
                id,
                result: ResultPayload::SessionId(session_id),
                error: None,
            }
        } else if method == String::from_str("session.generate") {
            let session_id = match params.session_id {
                Some(s) => s,
                None => {
                    return Self::error_response(
                        id,
                        INVALID_PARAMS,
                        "Invalid params: missing session_id",
                    );
                },
            };
            let prompt = match params.prompt {
                Some(p) => p,
                None => {
                    return Self::error_response(
                        id,
                        INVALID_PARAMS,
                        "Invalid params: missing prompt",
                    );
                },
            };
            let (model_name, context) = match self.sessions.get_session(&session_id) {
                Some(s) => s,
                None => {
                    let mut msg = String::from_str("Session not found: ");
                    msg.append(session_id.as_str());
                    return Self::error_response(id, INVALID_PARAMS, msg.as_str());
                },
            };
            let outcome = match self.models.lookup(&model_name) {
                Some(handler) => handler.generate(prompt.as_str(), context.as_slice()),
                None => {
                    // Unreachable: a live session's model is always
                    // registered, which the well-formedness of the server
                    // guarantees.
                    proof {
                        assert(self.models.has_model(model_name@));
                        assert(false);
                    }
                    return Self::error_response(
                        id,
                        INTERNAL_ERROR,
                        "Internal error: model handler not found",
                    );
                },
            };
            match outcome {
                Ok(response) => {
                    let appended = self.sessions.append_exchange(&session_id, &prompt, &response);
                    proof {
                        assert(appended);
                        assert forall|k: Seq<char>|
                            self.sessions.sessions().contains_key(k) implies self
                            .models.has_model(
                            (#[trigger] self.sessions.sessions()[k]).model,
                        ) by {
                            if k != session_id@ {
                                assert(old(self).sessions.sessions().contains_key(k));
                            } else {
                                assert(self.sessions.sessions()[k].model == old(self).sessions.sessions()[k].model);
                            }
                        }
                    }
                    MCPResponse {
                        id,
                        result: ResultPayload::Generated(response),
                        error: None,
                    }
                },
                Err(e) => {
                    let mut msg = String::from_str("Model error: ");
                    msg.append(e.as_str());
                    proof {
                        assert("Model error: "@.is_prefix_of(msg@));
                    }
                    Self::error_response(id, INTERNAL_ERROR, msg.as_str())
                },
            }
        } else if method == String::from_str("session.close") {
            let session_id = match params.session_id {
                Some(s) => s,
                None => {
                    return Self::error_response(
                        id,
                        INVALID_PARAMS,
                        "Invalid params: missing session_id",
                    );
                },
            };
            let removed = self.sessions.close(&session_id);
            if !removed {
                let mut msg = String::from_str("Session not found: ");
                msg.append(session_id.as_str());
                return Self::error_response(id, INVALID_PARAMS, msg.as_str());
            }
            proof {
                assert forall|k: Seq<char>| self.sessions.sessions().contains_key(k) implies self
                    .models.has_model((#[trigger] self.sessions.sessions()[k]).model) by {
                    assert(old(self).sessions.sessions().contains_key(k));
                }
            }
            MCPResponse { id, result: ResultPayload::Success(true), error: None }
        } else if method == String::from_str("models.list") {
            let model_names = self.models.list();
            MCPResponse { id, result: ResultPayload::Models(model_names), error: None }
        } else {
            let mut msg = String::from_str("Method not found: ");
            msg.append(method.as_str());
            Self::error_response(id, METHOD_NOT_FOUND, msg.as_str())
        }
    }

    /// Reads one live session: its model name and a copy of its context.
    /// `None` exactly when no live session has the identifier.
    pub fn session_state(&self, session_id: &String) -> (r: Option<(String, Vec<String>)>)
        requires
            self.wf(),
        ensures
            r is Some <==> self.sessions_map().contains_key(session_id@),
            r matches Some(p) ==> p.0@ == self.sessions_map()[session_id@].model
                && p.1.deep_view() == self.sessions_map()[session_id@].context,
    {
        self.sessions.get_session(session_id)
    }

    /// Handles the whole text of one connection: frames out the body,
    /// decodes it, dispatches, and wraps exactly one reply. A submission
    /// without the accepted verb or without a body gets the fixed rejection;
    /// a body that does not decode gets the parse-error envelope in a
    /// rejection frame and leaves the server untouched; a decoded request
    /// gets a success frame around the response the dispatch relation ties
    /// to it.
    pub fn handle_client_data(&mut self, data: &str) -> (r: String)
        requires
            old(self).wf(),
        ensures
            final(self).wf(),
            final(self).model_names() == old(self).model_names(),
            old(self).issued().is_prefix_of(final(self).issued()),
            !is_post(data@) ==> r@ == method_not_allowed_reply() && *final(self) == *old(self),
            is_post(data@) && !has_boundary(data@) ==> r@ == missing_body_reply() && *final(self)
                == *old(self),
            is_post(data@) && has_boundary(data@) ==> exists|b: Seq<char>|
                #[trigger] body_after_first_boundary(data@, b) && handled_reply(
                    *old(self),
                    *final(self),
                    b,
                    r@,
                ),
    {
        proof {
            lemma_issued_append_only(old(self).issued(), old(self).issued());
        }
        match frame_request(data) {
            FrameOutcome::NotPost => method_not_allowed(),
            FrameOutcome::MissingBody => missing_body(),
            FrameOutcome::Body(body) => {
                match decode_request(body.as_str()) {
                    Ok(request) => {
                        let ghost decoded = request;
                        let response = self.process_request(request);
                        proof {
                            if response.result is SessionId {
                                lemma_issued_append_only(
                                    old(self).issued(),
                                    old(self).issued().push(response.result->SessionId_0@),
                                );
                            }
                            assert(old(self).issued().is_prefix_of(self.issued()));
                        }
                        let encoded = encode_response(&response);
                        let framed = frame_reply(true, encoded.as_str());
                        proof {
                            assert(decoded_envelope(body@, decoded));
                            assert(dispatch_spec(*old(self), *self, decoded, response));
                            assert(framed@ == ok_reply(response_json(response)));
                            assert(handled_reply(*old(self), *self, body@, framed@));
                        }
                        framed
                    },
                    Err(message) => {
                        let response = parse_error_response(message.as_str());
                        let encoded = encode_response(&response);
                        let framed = frame_reply(false, encoded.as_str());
                        proof {
                            assert(is_error_response(
                                response,
                                "error"@,
                                PARSE_ERROR as int,
                                "Parse error: "@ + decode_err_msg(body@),
                            ));
                            assert(framed@ == bad_request_reply(response_json(response)));
                            assert(handled_reply(*old(self), *self, body@, framed@));
                        }
                        framed
                    },
                }
            },
        }
    }
}

/// A sequence is a prefix of itself and of any one-element extension of
/// itself; with the dispatcher's promise that the issued identifiers either
/// stay or grow by the one identifier just returned, the issued list is
/// append-only.
proof fn lemma_issued_append_only(s: Seq<Seq<char>>, t: Seq<Seq<char>>)
    requires
        t == s || exists|x: Seq<char>| t == s.push(x),
    ensures
        s.is_prefix_of(t),
{
    if t == s {
        assert(t.subrange(0, s.len() as int) =~= s);
    } else {
        let x = choose|x: Seq<char>| t == s.push(x);
        assert(t.subrange(0, s.len() as int) =~= s);
    }
}

/// Law: the registered names are pairwise distinct, so the list the
/// dispatcher reports holds each registered name exactly once.
pub proof fn lemma_model_names_distinct<H: ModelHandler>(s: &MCPServer<H>)
    requires
        s.wf(),
    ensures
        forall|i: int, j: int|
            0 <= i < j < s.model_names().len() ==> s.model_names()[i] != s.model_names()[j],
{
}

/// Law: every live session's identifier was issued; with `create`'s promise
/// that a returned identifier is fresh against everything issued, a fresh
/// identifier is in particular no key of the live session map.
pub proof fn lemma_live_sessions_were_issued<H: ModelHandler>(s: &MCPServer<H>)
    requires
        s.wf(),
    ensures
        forall|k: Seq<char>| #[trigger] s.sessions_map().contains_key(k) ==> s.issued().contains(k),
{
    crate::store::lemma_live_ids_issued(&s.sessions);
}

/// Law: a closed session stays closed. `session.close` removes the
/// identifier from the live map, and the dispatcher's contract sends every
/// later generate or close on an identifier outside the map to the
/// invalid-params error, never the internal one.
pub proof fn lemma_closed_session_rejected(m: Map<Seq<char>, SessionView>, sid: Seq<char>)
    ensures
        !m.remove(sid).contains_key(sid),
{
}

/// Law: every live session's context holds a whole number of exchanges —
/// its length is even, growing by exactly two on each successful generate
/// call.
pub proof fn lemma_context_length_even<H: ModelHandler>(s: &MCPServer<H>)
    requires
        s.wf(),
    ensures
        forall|k: Seq<char>|
            s.sessions_map().contains_key(k) ==> (#[trigger] s.sessions_map()[k]).context.len() % 2
                == 0,
{
}

/// Law: a generate call touches only its own session. Its effect is an
/// insert at that session's identifier, and an insert at one key leaves
/// every other key's presence and state exactly as it was, whatever the
/// interleaving of calls on other sessions.
pub proof fn lemma_sessions_isolated(
    pre: Map<Seq<char>, SessionView>,
    post: Map<Seq<char>, SessionView>,
    sid: Seq<char>,
    v: SessionView,
    other: Seq<char>,
)
    requires
        post == pre.insert(sid, v),
        other != sid,
    ensures
        post.contains_key(other) == pre.contains_key(other),
        pre.contains_key(other) ==> post[other] == pre[other],
{
}

} // verus!
