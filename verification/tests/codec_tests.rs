use mcp_server::envelope::{MCPError, MCPResponse, ResultPayload};
use mcp_server::codec::encode_response;
use mcp_server::text::{i32_to_string, u64_to_string};

#[test]
fn renders_zero() {
    assert_eq!(u64_to_string(0), "0");
}

#[test]
fn renders_large_number() {
    assert_eq!(u64_to_string(1234567890), "1234567890");
}

#[test]
fn renders_negative_code() {
    assert_eq!(i32_to_string(-32602), "-32602");
    assert_eq!(i32_to_string(7), "7");
}

#[test]
fn encodes_session_id_result() {
    let r = MCPResponse {
        id: "1".to_string(),
        result: ResultPayload::SessionId("abc".to_string()),
        error: None,
    };
    assert_eq!(
        encode_response(&r),
        "{\"id\":\"1\",\"result\":{\"session_id\":\"abc\"},\"error\":null}"
    );
}

#[test]
fn encodes_generated_result() {
    let r = MCPResponse {
        id: "7".to_string(),
        result: ResultPayload::Generated("hello".to_string()),
        error: None,
    };
    assert_eq!(
        encode_response(&r),
        "{\"id\":\"7\",\"result\":{\"response\":\"hello\"},\"error\":null}"
    );
}

#[test]
fn encodes_success_result() {
    let r = MCPResponse {
        id: "c".to_string(),
        result: ResultPayload::Success(true),
        error: None,
    };
    assert_eq!(
        encode_response(&r),
        "{\"id\":\"c\",\"result\":{\"success\":true},\"error\":null}"
    );
}

#[test]
fn encodes_model_list() {
    let r = MCPResponse {
        id: "m".to_string(),
        result: ResultPayload::Models(vec!["a".to_string(), "b".to_string()]),
        error: None,
    };
    assert_eq!(
        encode_response(&r),
        "{\"id\":\"m\",\"result\":{\"models\":[\"a\",\"b\"]},\"error\":null}"
    );
}

#[test]
fn encodes_empty_model_list() {
    let r = MCPResponse {
        id: "m".to_string(),
        result: ResultPayload::Models(vec![]),
        error: None,
    };
    assert_eq!(
        encode_response(&r),
        "{\"id\":\"m\",\"result\":{\"models\":[]},\"error\":null}"
    );
}

#[test]
fn encodes_error_envelope() {
    let r = MCPResponse {
        id: "error".to_string(),
        result: ResultPayload::Null,
        error: Some(MCPError {
            code: -32700,
            message: "Parse error: bad".to_string(),
        }),
    };
    assert_eq!(
        encode_response(&r),
        "{\"id\":\"error\",\"result\":null,\"error\":{\"code\":-32700,\"message\":\"Parse error: bad\"}}"
    );
}

#[test]
fn escapes_quotes_backslashes_and_controls() {
    let r = MCPResponse {
        id: "a\"b\\c\nd\te\ru{".to_string(),
        result: ResultPayload::Null,
        error: None,
    };
    assert_eq!(
        encode_response(&r),
        "{\"id\":\"a\\\"b\\\\c\\nd\\te\\ru{\",\"result\":null,\"error\":null}"
    );
}

#[test]
fn escapes_rare_control_characters() {
    let r = MCPResponse {
        id: "x\u{8}\u{c}\u{1}\u{1f}".to_string(),
        result: ResultPayload::Null,
        error: None,
    };
    assert_eq!(
        encode_response(&r),
        "{\"id\":\"x\\b\\f\\u0001\\u001f\",\"result\":null,\"error\":null}"
    );
}

#[test]
fn encoded_output_parses_back() {
    let r = MCPResponse {
        id: "q\"x".to_string(),
        result: ResultPayload::Generated("line\nbreak".to_string()),
        error: None,
    };
    let text = encode_response(&r);
    let v: serde_json::Value = serde_json::from_str(&text).unwrap();
    assert_eq!(v.get("id").unwrap().as_str().unwrap(), "q\"x");
    assert_eq!(
        v.get("result")
            .unwrap()
            .get("response")
            .unwrap()
            .as_str()
            .unwrap(),
        "line\nbreak"
    );
    assert!(v.get("error").unwrap().is_null());
}
