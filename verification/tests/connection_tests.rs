use mcp_server::registry::ExampleModel;
use mcp_server::server::MCPServer;

fn server_with_example() -> MCPServer<ExampleModel> {
    let mut server: MCPServer<ExampleModel> = MCPServer::new();
    server.register_model("example-model", ExampleModel);
    server
}

fn post(body: &str) -> String {
    format!(
        "POST / HTTP/1.1\r\nHost: localhost\r\nContent-Length: {}\r\n\r\n{}",
        body.len(),
        body
    )
}

fn body_of(reply: &str) -> &str {
    let at = reply.find("\r\n\r\n").unwrap();
    &reply[at + 4..]
}

#[test]
fn non_post_gets_fixed_rejection() {
    let mut server = server_with_example();
    let reply = server.handle_client_data("GET / HTTP/1.1\r\n\r\n");
    assert_eq!(
        reply,
        "HTTP/1.1 405 Method Not Allowed\r\nContent-Type: text/plain\r\nContent-Length: 17\r\n\r\nUse POST requests"
    );
}

#[test]
fn post_without_blank_line_gets_missing_body() {
    let mut server = server_with_example();
    let reply = server.handle_client_data("POST / HTTP/1.1\r\nHost: x\r\n");
    assert_eq!(
        reply,
        "HTTP/1.1 400 Bad Request\r\nContent-Type: text/plain\r\nContent-Length: 20\r\n\r\nMissing request body"
    );
}

#[test]
fn malformed_body_gets_parse_error_envelope() {
    let mut server = server_with_example();
    let reply = server.handle_client_data(&post("{not json"));
    assert!(reply.starts_with("HTTP/1.1 400 Bad Request\r\n"));
    let v: serde_json::Value = serde_json::from_str(body_of(&reply)).unwrap();
    assert_eq!(v.get("id").unwrap().as_str().unwrap(), "error");
    assert_eq!(
        v.get("error").unwrap().get("code").unwrap().as_i64().unwrap(),
        -32700
    );
    let message = v
        .get("error")
        .unwrap()
        .get("message")
        .unwrap()
        .as_str()
        .unwrap();
    assert!(message.starts_with("Parse error: "));
    assert!(v.get("result").unwrap().is_null());
}

fn parse_error_message(reply: &str) -> String {
    let v: serde_json::Value = serde_json::from_str(body_of(reply)).unwrap();
    assert!(reply.starts_with("HTTP/1.1 400 Bad Request\r\n"));
    assert_eq!(v.get("id").unwrap().as_str().unwrap(), "error");
    assert_eq!(
        v.get("error").unwrap().get("code").unwrap().as_i64().unwrap(),
        -32700
    );
    v.get("error")
        .unwrap()
        .get("message")
        .unwrap()
        .as_str()
        .unwrap()
        .to_string()
}

#[test]
fn envelope_without_id_gets_parse_error() {
    let mut server = server_with_example();
    let reply = server.handle_client_data(&post("{\"method\":\"models.list\",\"params\":{}}"));
    assert_eq!(
        parse_error_message(&reply),
        "Parse error: missing or invalid field: id"
    );
}

#[test]
fn envelope_without_method_gets_parse_error() {
    let mut server = server_with_example();
    let reply = server.handle_client_data(&post("{\"id\":\"1\",\"params\":{}}"));
    assert_eq!(
        parse_error_message(&reply),
        "Parse error: missing or invalid field: method"
    );
}

#[test]
fn envelope_without_params_gets_parse_error() {
    let mut server = server_with_example();
    let reply = server.handle_client_data(&post("{\"id\":\"1\",\"method\":\"models.list\"}"));
    assert_eq!(parse_error_message(&reply), "Parse error: missing field: params");
}

#[test]
fn non_object_id_gets_parse_error() {
    let mut server = server_with_example();
    let reply = server.handle_client_data(&post("{\"id\":7,\"method\":\"models.list\",\"params\":{}}"));
    assert_eq!(
        parse_error_message(&reply),
        "Parse error: missing or invalid field: id"
    );
}

#[test]
fn whole_session_lifecycle_over_one_connection_each() {
    let mut server = server_with_example();

    let reply = server.handle_client_data(&post(
        "{\"id\":\"1\",\"method\":\"session.create\",\"params\":{\"model\":\"example-model\"}}",
    ));
    assert!(reply.starts_with("HTTP/1.1 200 OK\r\n"));
    let v: serde_json::Value = serde_json::from_str(body_of(&reply)).unwrap();
    assert_eq!(v.get("id").unwrap().as_str().unwrap(), "1");
    let sid = v
        .get("result")
        .unwrap()
        .get("session_id")
        .unwrap()
        .as_str()
        .unwrap()
        .to_string();

    let gen_body = format!(
        "{{\"id\":\"2\",\"method\":\"session.generate\",\"params\":{{\"session_id\":\"{}\",\"prompt\":\"hi\"}}}}",
        sid
    );
    let reply = server.handle_client_data(&post(&gen_body));
    assert!(reply.starts_with("HTTP/1.1 200 OK\r\n"));
    let v: serde_json::Value = serde_json::from_str(body_of(&reply)).unwrap();
    let response = v
        .get("result")
        .unwrap()
        .get("response")
        .unwrap()
        .as_str()
        .unwrap()
        .to_string();
    assert_eq!(response, "Response to: hi. This is turn #1 in the conversation.");
    let (_, context) = server.session_state(&sid).unwrap();
    assert_eq!(context, vec!["hi".to_string(), response]);

    let close_body = format!(
        "{{\"id\":\"3\",\"method\":\"session.close\",\"params\":{{\"session_id\":\"{}\"}}}}",
        sid
    );
    let reply = server.handle_client_data(&post(&close_body));
    let v: serde_json::Value = serde_json::from_str(body_of(&reply)).unwrap();
    assert_eq!(
        v.get("result").unwrap().get("success").unwrap().as_bool().unwrap(),
        true
    );

    let reply = server.handle_client_data(&post(&gen_body));
    let v: serde_json::Value = serde_json::from_str(body_of(&reply)).unwrap();
    assert_eq!(
        v.get("error").unwrap().get("code").unwrap().as_i64().unwrap(),
        -32602
    );
}

#[test]
fn content_length_matches_body_exactly() {
    let mut server = server_with_example();
    let reply =
        server.handle_client_data(&post("{\"id\":\"1\",\"method\":\"models.list\",\"params\":{}}"));
    let header_end = reply.find("\r\n\r\n").unwrap();
    let headers = &reply[..header_end];
    let body = &reply[header_end + 4..];
    let declared: usize = headers
        .lines()
        .find(|l| l.starts_with("Content-Length: "))
        .unwrap()
        .trim_start_matches("Content-Length: ")
        .parse()
        .unwrap();
    assert_eq!(declared, body.len());
    let v: serde_json::Value = serde_json::from_str(body).unwrap();
    let models = v.get("result").unwrap().get("models").unwrap();
    assert_eq!(models.get(0).unwrap().as_str().unwrap(), "example-model");
}

#[test]
fn non_string_param_counts_as_missing() {
    let mut server = server_with_example();
    let reply = server.handle_client_data(&post(
        "{\"id\":\"9\",\"method\":\"session.create\",\"params\":{\"model\":5}}",
    ));
    assert!(reply.starts_with("HTTP/1.1 200 OK\r\n"));
    let v: serde_json::Value = serde_json::from_str(body_of(&reply)).unwrap();
    let err = v.get("error").unwrap();
    assert_eq!(err.get("code").unwrap().as_i64().unwrap(), -32602);
    assert_eq!(
        err.get("message").unwrap().as_str().unwrap(),
        "Invalid params: missing model"
    );
}
