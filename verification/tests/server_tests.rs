use mcp_server::envelope::{MCPRequest, Params, ResultPayload};
use mcp_server::registry::{example_model_handler, ExampleModel, ModelHandler};
use mcp_server::server::MCPServer;

struct FailingModel;

impl ModelHandler for FailingModel {
    fn generate(&self, _prompt: &str, _context: &[String]) -> Result<String, String> {
        Err("boom".to_string())
    }
}

fn request(id: &str, method: &str, model: Option<&str>, sid: Option<&str>, prompt: Option<&str>) -> MCPRequest {
    MCPRequest {
        id: id.to_string(),
        method: method.to_string(),
        params: Params {
            model: model.map(|s| s.to_string()),
            session_id: sid.map(|s| s.to_string()),
            prompt: prompt.map(|s| s.to_string()),
        },
    }
}

fn created_session_id(server: &mut MCPServer<ExampleModel>, model: &str) -> String {
    let resp = server.process_request(request("c", "session.create", Some(model), None, None));
    assert!(resp.error.is_none());
    match resp.result {
        ResultPayload::SessionId(s) => s,
        _ => panic!("expected a session id"),
    }
}

#[test]
fn example_handler_reply_is_exact() {
    let r = example_model_handler("hi", &[]).unwrap();
    assert_eq!(r, "Response to: hi. This is turn #1 in the conversation.");
    let ctx = vec!["a".to_string(), "b".to_string()];
    let r2 = example_model_handler("again", &ctx).unwrap();
    assert_eq!(r2, "Response to: again. This is turn #2 in the conversation.");
}

#[test]
fn create_requires_model_param() {
    let mut server: MCPServer<ExampleModel> = MCPServer::new();
    server.register_model("example-model", ExampleModel);
    let resp = server.process_request(request("1", "session.create", None, None, None));
    let err = resp.error.unwrap();
    assert_eq!(err.code, -32602);
    assert_eq!(err.message, "Invalid params: missing model");
    assert!(matches!(resp.result, ResultPayload::Null));
    assert_eq!(resp.id, "1");
}

#[test]
fn create_rejects_unknown_model() {
    let mut server: MCPServer<ExampleModel> = MCPServer::new();
    server.register_model("example-model", ExampleModel);
    let resp = server.process_request(request("2", "session.create", Some("ghost"), None, None));
    let err = resp.error.unwrap();
    assert_eq!(err.code, -32602);
    assert_eq!(err.message, "Model not found: ghost");
}

#[test]
fn created_identifiers_are_distinct() {
    let mut server: MCPServer<ExampleModel> = MCPServer::new();
    server.register_model("example-model", ExampleModel);
    let a = created_session_id(&mut server, "example-model");
    let b = created_session_id(&mut server, "example-model");
    let c = created_session_id(&mut server, "example-model");
    assert_ne!(a, b);
    assert_ne!(a, c);
    assert_ne!(b, c);
}

#[test]
fn closed_identifier_is_not_reissued() {
    let mut server: MCPServer<ExampleModel> = MCPServer::new();
    server.register_model("example-model", ExampleModel);
    let a = created_session_id(&mut server, "example-model");
    let resp = server.process_request(request("x", "session.close", None, Some(&a), None));
    assert!(resp.error.is_none());
    let b = created_session_id(&mut server, "example-model");
    assert_ne!(a, b);
}

#[test]
fn generate_appends_prompt_then_response() {
    let mut server: MCPServer<ExampleModel> = MCPServer::new();
    server.register_model("example-model", ExampleModel);
    let sid = created_session_id(&mut server, "example-model");

    let resp = server.process_request(request("g1", "session.generate", None, Some(&sid), Some("hi")));
    assert!(resp.error.is_none());
    let first = match resp.result {
        ResultPayload::Generated(s) => s,
        _ => panic!("expected a generated response"),
    };
    let (model, context) = server.session_state(&sid.to_string()).unwrap();
    assert_eq!(model, "example-model");
    assert_eq!(context, vec!["hi".to_string(), first.clone()]);

    let resp2 = server.process_request(request("g2", "session.generate", None, Some(&sid), Some("more")));
    let second = match resp2.result {
        ResultPayload::Generated(s) => s,
        _ => panic!("expected a generated response"),
    };
    let (_, context2) = server.session_state(&sid.to_string()).unwrap();
    assert_eq!(
        context2,
        vec!["hi".to_string(), first, "more".to_string(), second]
    );
    assert_eq!(context2.len() % 2, 0);
}

#[test]
fn generate_requires_session_and_prompt_params() {
    let mut server: MCPServer<ExampleModel> = MCPServer::new();
    server.register_model("example-model", ExampleModel);
    let sid = created_session_id(&mut server, "example-model");

    let no_sid = server.process_request(request("a", "session.generate", None, None, Some("hi")));
    let err = no_sid.error.unwrap();
    assert_eq!(err.code, -32602);
    assert_eq!(err.message, "Invalid params: missing session_id");

    let no_prompt = server.process_request(request("b", "session.generate", None, Some(&sid), None));
    let err = no_prompt.error.unwrap();
    assert_eq!(err.code, -32602);
    assert_eq!(err.message, "Invalid params: missing prompt");
}

#[test]
fn generate_on_unknown_session_is_invalid_params() {
    let mut server: MCPServer<ExampleModel> = MCPServer::new();
    server.register_model("example-model", ExampleModel);
    let resp = server.process_request(request("u", "session.generate", None, Some("nope"), Some("hi")));
    let err = resp.error.unwrap();
    assert_eq!(err.code, -32602);
    assert_eq!(err.message, "Session not found: nope");
}

#[test]
fn handler_failure_is_internal_error_and_leaves_context() {
    let mut server: MCPServer<FailingModel> = MCPServer::new();
    server.register_model("bad", FailingModel);
    let resp = server.process_request(request("c", "session.create", Some("bad"), None, None));
    let sid = match resp.result {
        ResultPayload::SessionId(s) => s,
        _ => panic!("expected a session id"),
    };
    let failed = server.process_request(request("g", "session.generate", None, Some(&sid), Some("hi")));
    let err = failed.error.unwrap();
    assert_eq!(err.code, -32603);
    assert_eq!(err.message, "Model error: boom");
    let (_, context) = server.session_state(&sid).unwrap();
    assert!(context.is_empty());
}

#[test]
fn close_then_any_call_is_invalid_params() {
    let mut server: MCPServer<ExampleModel> = MCPServer::new();
    server.register_model("example-model", ExampleModel);
    let sid = created_session_id(&mut server, "example-model");

    let closed = server.process_request(request("c1", "session.close", None, Some(&sid), None));
    assert!(closed.error.is_none());
    assert!(matches!(closed.result, ResultPayload::Success(true)));

    let gen = server.process_request(request("c2", "session.generate", None, Some(&sid), Some("x")));
    let err = gen.error.unwrap();
    assert_eq!(err.code, -32602);

    let again = server.process_request(request("c3", "session.close", None, Some(&sid), None));
    let err = again.error.unwrap();
    assert_eq!(err.code, -32602);
    assert_eq!(err.message, format!("Session not found: {}", sid));
}

#[test]
fn close_requires_session_id() {
    let mut server: MCPServer<ExampleModel> = MCPServer::new();
    let resp = server.process_request(request("c", "session.close", None, None, None));
    let err = resp.error.unwrap();
    assert_eq!(err.code, -32602);
    assert_eq!(err.message, "Invalid params: missing session_id");
}

#[test]
fn models_list_returns_registered_set_in_any_order() {
    let mut one: MCPServer<ExampleModel> = MCPServer::new();
    one.register_model("a", ExampleModel);
    one.register_model("b", ExampleModel);
    let mut two: MCPServer<ExampleModel> = MCPServer::new();
    two.register_model("b", ExampleModel);
    two.register_model("a", ExampleModel);

    let mut names_one = match one.process_request(request("l", "models.list", None, None, None)).result {
        ResultPayload::Models(v) => v,
        _ => panic!("expected a model list"),
    };
    let mut names_two = match two.process_request(request("l", "models.list", None, None, None)).result {
        ResultPayload::Models(v) => v,
        _ => panic!("expected a model list"),
    };
    names_one.sort();
    names_two.sort();
    assert_eq!(names_one, vec!["a".to_string(), "b".to_string()]);
    assert_eq!(names_one, names_two);
}

#[test]
fn registering_a_name_twice_keeps_one_entry() {
    let mut server: MCPServer<ExampleModel> = MCPServer::new();
    server.register_model("a", ExampleModel);
    server.register_model("a", ExampleModel);
    let names = match server.process_request(request("l", "models.list", None, None, None)).result {
        ResultPayload::Models(v) => v,
        _ => panic!("expected a model list"),
    };
    assert_eq!(names, vec!["a".to_string()]);
}

#[test]
fn unknown_method_is_method_not_found() {
    let mut server: MCPServer<ExampleModel> = MCPServer::new();
    let resp = server.process_request(request("m", "session.explode", None, None, None));
    let err = resp.error.unwrap();
    assert_eq!(err.code, -32601);
    assert_eq!(err.message, "Method not found: session.explode");
    assert_eq!(resp.id, "m");
}

#[test]
fn distinct_sessions_do_not_disturb_each_other() {
    let mut server: MCPServer<ExampleModel> = MCPServer::new();
    server.register_model("example-model", ExampleModel);
    let s1 = created_session_id(&mut server, "example-model");
    let s2 = created_session_id(&mut server, "example-model");

    server.process_request(request("i1", "session.generate", None, Some(&s1), Some("one")));
    server.process_request(request("i2", "session.generate", None, Some(&s2), Some("two")));
    server.process_request(request("i3", "session.generate", None, Some(&s1), Some("three")));

    let (_, c1) = server.session_state(&s1).unwrap();
    let (_, c2) = server.session_state(&s2).unwrap();
    assert_eq!(c1.len(), 4);
    assert_eq!(c2.len(), 2);
    assert_eq!(c1[0], "one");
    assert_eq!(c1[2], "three");
    assert_eq!(c2[0], "two");
}

#[test]
fn fresh_session_starts_with_empty_context() {
    let mut server: MCPServer<ExampleModel> = MCPServer::new();
    server.register_model("example-model", ExampleModel);
    let sid = created_session_id(&mut server, "example-model");
    let (model, context) = server.session_state(&sid).unwrap();
    assert_eq!(model, "example-model");
    assert!(context.is_empty());
}

#[test]
fn empty_registry_lists_nothing() {
    let mut server: MCPServer<ExampleModel> = MCPServer::new();
    let resp = server.process_request(request("l", "models.list", None, None, None));
    assert!(resp.error.is_none());
    match resp.result {
        ResultPayload::Models(v) => assert!(v.is_empty()),
        _ => panic!("expected a model list"),
    }
}

struct FixedReply {
    reply: String,
}

impl ModelHandler for FixedReply {
    fn generate(&self, _prompt: &str, _context: &[String]) -> Result<String, String> {
        Ok(self.reply.clone())
    }
}

#[test]
fn reregistering_a_name_rebinds_the_handler() {
    let mut server: MCPServer<FixedReply> = MCPServer::new();
    server.register_model("m", FixedReply { reply: "one".to_string() });
    server.register_model("m", FixedReply { reply: "two".to_string() });
    let resp = server.process_request(request("c", "session.create", Some("m"), None, None));
    let sid = match resp.result {
        ResultPayload::SessionId(s) => s,
        _ => panic!("expected a session id"),
    };
    let generated = server.process_request(request("g", "session.generate", None, Some(&sid), Some("hi")));
    match generated.result {
        ResultPayload::Generated(text) => assert_eq!(text, "two"),
        _ => panic!("expected a generated response"),
    }
}
