//! Extracts exactly one request body from the text read off a connection and
//! wraps exactly one response for writing back.
//!
//! The framing rule: the first line must begin with the single accepted
//! submission verb; the body is everything after the first blank line
//! (`\r\n\r\n`). A reply is a status line, a content-length header that gives
//! the exact byte length of the body, a blank line, and the body.

use vstd::prelude::*;
use crate::text::dec_nat;

verus! {

use vstd::string::StrSliceExecFns;
use vstd::string::StringExecFns;

/// Holds when the text begins with the accepted submission verb.
pub open spec fn is_post(s: Seq<char>) -> bool {
    s.len() >= 4 && s[0] == 'P' && s[1] == 'O' && s[2] == 'S' && s[3] == 'T'
}

/// Holds when the header terminator (a blank line) stands at position `i`.
pub open spec fn boundary_at(s: Seq<char>, i: int) -> bool {
    &&& 0 <= i
    &&& i + 4 <= s.len()
    &&& s[i] == '\r'
    &&& s[i + 1] == '\n'
    &&& s[i + 2] == '\r'
    &&& s[i + 3] == '\n'
}

/// Holds when the text holds a header terminator anywhere.
pub open spec fn has_boundary(s: Seq<char>) -> bool {
    exists|i: int| boundary_at(s, i)
}

/// Holds when `body` is the text after the first header terminator of `s`.
pub open spec fn body_after_first_boundary(s: Seq<char>, body: Seq<char>) -> bool {
    exists|i: int|
        {
            &&& #[trigger] boundary_at(s, i)
            &&& forall|j: int| 0 <= j < i ==> !boundary_at(s, j)
            &&& body == s.subrange(i + 4, s.len() as int)
        }
}

/// What the framer makes of one connection's text.
pub enum FrameOutcome {
    /// The text was an accepted submission and this is its body.
    Body(String),
    /// The first line did not carry the accepted verb.
    NotPost,
    /// The verb was right but no blank line ended the headers.
    MissingBody,
}

/// Reads one request out of the text of a connection: rejects a submission
/// whose first line does not carry the accepted verb, rejects one without a
/// blank line ending its headers, and otherwise hands back the body after
/// the first blank line.
pub fn frame_request(req: &str) -> (r: FrameOutcome)
    ensures
        r is NotPost <==> !is_post(req@),
        r is MissingBody <==> is_post(req@) && !has_boundary(req@),
        r matches FrameOutcome::Body(b) ==> is_post(req@) && body_after_first_boundary(
            req@,
            b@,
        ),
        is_post(req@) && has_boundary(req@) ==> r is Body,
{
    let len = req.unicode_len();
    if len < 4 {
        return FrameOutcome::NotPost;
    }
    if !(req.get_char(0) == 'P' && req.get_char(1) == 'O' && req.get_char(2) == 'S'
        && req.get_char(3) == 'T') {
        return FrameOutcome::NotPost;
    }
    let mut i: usize = 0;
    while i <= len - 4
        invariant
            len == req@.len(),
            4 <= len,
            is_post(req@),
            i <= len - 3,
            forall|j: int| 0 <= j < i ==> !boundary_at(req@, j),
        decreases len - i,
    {
        if req.get_char(i) == '\r' && req.get_char(i + 1) == '\n' && req.get_char(i + 2) == '\r'
            && req.get_char(i + 3) == '\n' {
            let body = req.substring_char(i + 4, len).to_owned();
            proof {
                assert(boundary_at(req@, i as int));
            }
            return FrameOutcome::Body(body);
        }
        i += 1;
    }
    proof {
        assert(forall|j: int| boundary_at(req@, j) ==> 0 <= j < i);
    }
    FrameOutcome::MissingBody
}

/// The byte length of a piece of text under its usual encoding.
pub open spec fn byte_len(s: Seq<char>) -> nat {
    vstd::utf8::encode_utf8(s).len()
}

/// The byte length as the machine reports it. The cast is the identity for
/// any text that fits in memory; it mirrors the specification of `str::len`.
pub open spec fn content_len(s: Seq<char>) -> nat {
    (byte_len(s) as usize) as nat
}

/// The reply to an accepted, decoded request: a success status line, the
/// content-length of the body, a blank line, and the JSON body.
pub open spec fn ok_reply(body: Seq<char>) -> Seq<char> {
    "HTTP/1.1 200 OK\r\nContent-Type: application/json\r\nContent-Length: "@ + dec_nat(content_len(body)) + "\r\n\r\n"@ + body
}

/// The reply to a request whose body was not a well-formed envelope: a
/// rejection status line around the JSON error body.
pub open spec fn bad_request_reply(body: Seq<char>) -> Seq<char> {
    "HTTP/1.1 400 Bad Request\r\nContent-Type: application/json\r\nContent-Length: "@ + dec_nat(content_len(body)) + "\r\n\r\n"@ + body
}

/// The fixed plain-text rejection of a submission that does not carry the
/// accepted verb.
pub open spec fn method_not_allowed_reply() -> Seq<char> {
    "HTTP/1.1 405 Method Not Allowed\r\nContent-Type: text/plain\r\nContent-Length: 17\r\n\r\nUse POST requests"@
}

/// The fixed plain-text rejection of a submission without a body.
pub open spec fn missing_body_reply() -> Seq<char> {
    "HTTP/1.1 400 Bad Request\r\nContent-Type: text/plain\r\nContent-Length: 20\r\n\r\nMissing request body"@
}

/// Wraps one JSON body in a reply frame, success or rejection status as the
/// caller decided.
pub fn frame_reply(ok: bool, body: &str) -> (r: String)
    ensures
        ok ==> r@ == ok_reply(body@),
        !ok ==> r@ == bad_request_reply(body@),
{
    let mut out = if ok {
        String::from_str("HTTP/1.1 200 OK\r\nContent-Type: application/json\r\nContent-Length: ")
    } else {
        String::from_str(
            "HTTP/1.1 400 Bad Request\r\nContent-Type: application/json\r\nContent-Length: ",
        )
    };
    let blen = body.len();
    out.append(crate::text::u64_to_string(blen as u64).as_str());
    out.append("\r\n\r\n");
    out.append(body);
    out
}

/// The rejection sent for a submission whose first line does not carry the
/// accepted verb.
pub fn method_not_allowed() -> (r: String)
    ensures
        r@ == method_not_allowed_reply(),
{
    String::from_str(
        "HTTP/1.1 405 Method Not Allowed\r\nContent-Type: text/plain\r\nContent-Length: 17\r\n\r\nUse POST requests",
    )
}

/// The rejection sent for an accepted submission whose headers never end.
pub fn missing_body() -> (r: String)
    ensures
        r@ == missing_body_reply(),
{
    String::from_str(
        "HTTP/1.1 400 Bad Request\r\nContent-Type: text/plain\r\nContent-Length: 20\r\n\r\nMissing request body",
    )
}

} // verus!
