use mcp_server::framer::{frame_reply, frame_request, method_not_allowed, missing_body, FrameOutcome};

#[test]
fn rejects_non_post_submission() {
    let out = frame_request("GET / HTTP/1.1\r\nHost: x\r\n\r\n{}");
    assert!(matches!(out, FrameOutcome::NotPost));
}

#[test]
fn rejects_short_input() {
    let out = frame_request("PO");
    assert!(matches!(out, FrameOutcome::NotPost));
}

#[test]
fn rejects_post_without_blank_line() {
    let out = frame_request("POST / HTTP/1.1\r\nHost: x\r\n{}");
    assert!(matches!(out, FrameOutcome::MissingBody));
}

#[test]
fn extracts_body_after_first_blank_line() {
    let out = frame_request("POST / HTTP/1.1\r\nHost: x\r\n\r\n{\"id\":\"1\"}");
    match out {
        FrameOutcome::Body(b) => assert_eq!(b, "{\"id\":\"1\"}"),
        _ => panic!("expected a body"),
    }
}

#[test]
fn body_may_hold_blank_lines_of_its_own() {
    let out = frame_request("POST /\r\n\r\nfirst\r\n\r\nsecond");
    match out {
        FrameOutcome::Body(b) => assert_eq!(b, "first\r\n\r\nsecond"),
        _ => panic!("expected a body"),
    }
}

#[test]
fn frames_success_reply_with_exact_length() {
    let framed = frame_reply(true, "abc");
    assert_eq!(
        framed,
        "HTTP/1.1 200 OK\r\nContent-Type: application/json\r\nContent-Length: 3\r\n\r\nabc"
    );
}

#[test]
fn frames_rejection_reply_with_exact_length() {
    let framed = frame_reply(false, "{\"id\":\"error\"}");
    assert_eq!(
        framed,
        "HTTP/1.1 400 Bad Request\r\nContent-Type: application/json\r\nContent-Length: 14\r\n\r\n{\"id\":\"error\"}"
    );
}

#[test]
fn content_length_counts_bytes_not_characters() {
    let body = "\u{e9}";
    let framed = frame_reply(true, body);
    assert_eq!(
        framed,
        format!(
            "HTTP/1.1 200 OK\r\nContent-Type: application/json\r\nContent-Length: 2\r\n\r\n{}",
            body
        )
    );
}

#[test]
fn fixed_rejections_are_exact() {
    assert_eq!(
        method_not_allowed(),
        "HTTP/1.1 405 Method Not Allowed\r\nContent-Type: text/plain\r\nContent-Length: 17\r\n\r\nUse POST requests"
    );
    assert_eq!(
        missing_body(),
        "HTTP/1.1 400 Bad Request\r\nContent-Type: text/plain\r\nContent-Length: 20\r\n\r\nMissing request body"
    );
}

#[test]
fn bare_verb_without_boundary_is_missing_body() {
    assert!(matches!(frame_request("POST"), FrameOutcome::MissingBody));
}
