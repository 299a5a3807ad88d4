//! The envelope codec: encodes a response envelope as one JSON document with
//! an exact character-level specification, and decodes a request envelope
//! from text through the JSON parser of an outside crate.

use vstd::prelude::*;
use crate::envelope::{MCPError, MCPRequest, MCPResponse, Params, ResultPayload};
use crate::text::{dec_int, hex_digit};

verus! {

use vstd::string::StrSliceExecFns;
use vstd::string::StringExecFns;

/// How one character is written inside a JSON string literal: the quote, the
/// backslash and the control characters are escaped, every other character
/// stands as itself.
pub open spec fn esc_char(c: char) -> Seq<char> {
    if c == '"' {
        seq!['\\', '"']
    } else if c == '\\' {
        seq!['\\', '\\']
    } else if c == '\u{8}' {
        seq!['\\', 'b']
    } else if c == '\u{c}' {
        seq!['\\', 'f']
    } else if c == '\n' {
        seq!['\\', 'n']
    } else if c == '\r' {
        seq!['\\', 'r']
    } else if c == '\t' {
        seq!['\\', 't']
    } else if (c as u32) < 32 {
        seq!['\\', 'u', '0', '0', hex_digit((c as u32 / 16) as nat), hex_digit(
            (c as u32 % 16) as nat,
        )]
    } else {
        seq![c]
    }
}

/// The body of a JSON string literal: each character escaped as needed.
pub open spec fn json_escape(s: Seq<char>) -> Seq<char>
    decreases s.len(),
{
    if s.len() == 0 {
        Seq::empty()
    } else {
        json_escape(s.drop_last()) + esc_char(s.last())
    }
}

/// A JSON string literal: the escaped text between double quotes.
pub open spec fn json_quote(s: Seq<char>) -> Seq<char> {
    seq!['"'] + json_escape(s) + seq!['"']
}

/// Appends the escaped form of `s` to `out`.
fn escape_append(out: &mut String, s: &str)
    ensures
        final(out)@ == old(out)@ + json_escape(s@),
{
    let n = s.unicode_len();
    let mut i: usize = 0;
    while i < n
        invariant
            n == s@.len(),
            i <= n,
            out@ == old(out)@ + json_escape(s@.take(i as int)),
        decreases n - i,
    {
        let c = s.get_char(i);
        if c == '"' {
            proof {
                reveal_strlit("\\\"");
                assert("\\\""@ =~= esc_char(c));
            }
            out.append("\\\"");
        } else if c == '\\' {
            proof {
                reveal_strlit("\\\\");
                assert("\\\\"@ =~= esc_char(c));
            }
            out.append("\\\\");
        } else if c == '\u{8}' {
            proof {
                reveal_strlit("\\b");
                assert("\\b"@ =~= esc_char(c));
            }
            out.append("\\b");
        } else if c == '\u{c}' {
            proof {
                reveal_strlit("\\f");
                assert("\\f"@ =~= esc_char(c));
            }
            out.append("\\f");
        } else if c == '\n' {
            proof {
                reveal_strlit("\\n");
                assert("\\n"@ =~= esc_char(c));
            }
            out.append("\\n");
        } else if c == '\r' {
            proof {
                reveal_strlit("\\r");
                assert("\\r"@ =~= esc_char(c));
            }
            out.append("\\r");
        } else if c == '\t' {
            proof {
                reveal_strlit("\\t");
                assert("\\t"@ =~= esc_char(c));
            }
            out.append("\\t");
        } else if (c as u32) < 32 {
            let code: u32 = c as u32;
            proof {
                reveal_strlit("\\u00");
                assert("\\u00"@ + seq![hex_digit((code / 16) as nat)] + seq![hex_digit(
                    (code % 16) as nat,
                )] =~= esc_char(c));
            }
            out.append("\\u00");
            out.append(crate::text::hex_digit_str((code / 16) as u64));
            out.append(crate::text::hex_digit_str((code % 16) as u64));
        } else {
            let one = s.substring_char(i, i + 1);
            proof {
                assert(one@ =~= seq![s@[i as int]]);
                assert(seq![s@[i as int]] =~= esc_char(c));
            }
            out.append(one);
        }
        proof {
            assert(s@.take(i + 1 as int).drop_last() =~= s@.take(i as int));
            assert(s@.take(i + 1 as int).last() == s@[i as int]);
        }
        i += 1;
    }
    proof {
        assert(s@.take(n as int) =~= s@);
    }
}

/// Appends the JSON string literal for `s` to `out`.
fn quote_append(out: &mut String, s: &str)
    ensures
        final(out)@ == old(out)@ + json_quote(s@),
{
    proof {
        reveal_strlit("\"");
        assert("\""@ =~= seq!['"']);
    }
    out.append("\"");
    escape_append(out, s);
    out.append("\"");
}

/// The comma-separated JSON string literals of a list of names, without the
/// surrounding brackets.
pub open spec fn names_json_inner(items: Seq<Seq<char>>) -> Seq<char>
    decreases items.len(),
{
    if items.len() == 0 {
        Seq::empty()
    } else if items.len() == 1 {
        json_quote(items[0])
    } else {
        names_json_inner(items.drop_last()) + seq![','] + json_quote(items.last())
    }
}

/// A JSON array of string literals.
pub open spec fn names_json(items: Seq<Seq<char>>) -> Seq<char> {
    seq!['['] + names_json_inner(items) + seq![']']
}

/// Appends the JSON array of the given names to `out`.
#[verifier::loop_isolation(false)]
fn names_append(out: &mut String, names: &Vec<String>)
    ensures
        final(out)@ == old(out)@ + names_json(names.deep_view()),
{
    proof {
        reveal_strlit("[");
        reveal_strlit("]");
        assert("["@ =~= seq!['[']);
        assert("]"@ =~= seq![']']);
        reveal_strlit(",");
        assert(","@ =~= seq![',']);
    }
    out.append("[");
    let n = names.len();
    let mut i: usize = 0;
    while i < n
        invariant
            n == names@.len(),
            i <= n,
            names.deep_view().len() == n,
            forall|j: int| 0 <= j < n ==> names.deep_view()[j] == names@[j]@,
            out@ == old(out)@ + seq!['['] + names_json_inner(names.deep_view().take(i as int)),
        decreases n - i,
    {
        if i > 0 {
            out.append(",");
        }
        quote_append(out, names[i].as_str());
        proof {
            let dv = names.deep_view();
            if i == 0 {
                assert(dv.take(1)[0] == dv[0]);
            } else {
                assert(dv.take(i + 1 as int).drop_last() =~= dv.take(i as int));
                assert(dv.take(i + 1 as int).last() == dv[i as int]);
            }
            assert(out@ =~= old(out)@ + seq!['['] + names_json_inner(dv.take(i + 1 as int)));
        }
        i += 1;
    }
    proof {
        assert(names.deep_view().take(n as int) =~= names.deep_view());
    }
    out.append("]");
}

/// The JSON document for a result payload.
pub open spec fn payload_json(p: ResultPayload) -> Seq<char> {
    match p {
        ResultPayload::Null => "null"@,
        ResultPayload::SessionId(s) => "{\"session_id\":"@ + json_quote(s@) + "}"@,
        ResultPayload::Generated(s) => "{\"response\":"@ + json_quote(s@) + "}"@,
        ResultPayload::Success(b) => if b {
            "{\"success\":true}"@
        } else {
            "{\"success\":false}"@
        },
        ResultPayload::Models(v) => "{\"models\":"@ + names_json(v.deep_view()) + "}"@,
    }
}

/// The JSON document for the error slot: `null` when there is no error.
pub open spec fn error_json(e: Option<MCPError>) -> Seq<char> {
    match e {
        Option::None => "null"@,
        Option::Some(err) => "{\"code\":"@ + dec_int(err.code as int) + ",\"message\":"@
            + json_quote(err.message@) + "}"@,
    }
}

/// The JSON document for a whole response envelope: the echoed id, the
/// result payload, and the error slot, in that order.
pub open spec fn response_json(r: MCPResponse) -> Seq<char> {
    "{\"id\":"@ + json_quote(r.id@) + ",\"result\":"@ + payload_json(r.result) + ",\"error\":"@
        + error_json(r.error) + "}"@
}

/// Encodes a response envelope as one JSON document. Total: every envelope
/// the dispatcher builds has exactly this rendering.
pub fn encode_response(r: &MCPResponse) -> (out: String)
    ensures
        out@ == response_json(*r),
{
    let mut out = String::from_str("{\"id\":");
    quote_append(&mut out, r.id.as_str());
    out.append(",\"result\":");
    match &r.result {
        ResultPayload::Null => {
            out.append("null");
        },
        ResultPayload::SessionId(s) => {
            out.append("{\"session_id\":");
            quote_append(&mut out, s.as_str());
            out.append("}");
        },
        ResultPayload::Generated(s) => {
            out.append("{\"response\":");
            quote_append(&mut out, s.as_str());
            out.append("}");
        },
        ResultPayload::Success(b) => {
            if *b {
                out.append("{\"success\":true}");
            } else {
                out.append("{\"success\":false}");
            }
        },
        ResultPayload::Models(v) => {
            out.append("{\"models\":");
            names_append(&mut out, v);
            out.append("}");
        },
    }
    out.append(",\"error\":");
    match &r.error {
        Option::None => {
            out.append("null");
        },
        Option::Some(err) => {
            out.append("{\"code\":");
            out.append(crate::text::i32_to_string(err.code).as_str());
            out.append(",\"message\":");
            quote_append(&mut out, err.message.as_str());
            out.append("}");
        },
    }
    out.append("}");
    out
}

/// The parse verdict the outside parser gives one piece of text: `None`
/// when it is a well-formed JSON document, else the message describing the
/// syntax problem. The verdict depends on the text alone.
pub uninterp spec fn parse_err(s: Seq<char>) -> Option<Seq<char>>;

/// The string under a top-level key of the document the text parses to:
/// `None` when the text does not parse, is not an object, lacks the key, or
/// holds something other than a string there. A function of text and key.
pub uninterp spec fn top_str(s: Seq<char>, key: Seq<char>) -> Option<Seq<char>>;

/// Whether the document the text parses to is an object holding the
/// top-level key at all, whatever stands under it.
pub uninterp spec fn has_top(s: Seq<char>, key: Seq<char>) -> bool;

/// The string under a key of the document's top-level `params` member:
/// `None` when anything along that path is missing, not an object, or not a
/// string. A function of text and key.
pub uninterp spec fn param_str(s: Seq<char>, key: Seq<char>) -> Option<Seq<char>>;

/// Relies on `serde_json::from_str::<serde_json::Value>` for the verdict and
/// on the message rendering of `serde_json::Error`, both deterministic in
/// the text.
#[verifier::external_body]
fn json_parse_outcome(s: &str) -> (r: Option<String>)
    ensures
        r is Some <==> parse_err(s@) is Some,
        r matches Some(m) ==> parse_err(s@) == Some(m@),
{
    match serde_json::from_str::<serde_json::Value>(s) {
        Ok(_) => None,
        Err(e) => Some(e.to_string()),
    }
}

/// Relies on `serde_json::from_str::<serde_json::Value>`, `Value::get` and
/// `Value::as_str`: the string under a top-level key, deterministic in text
/// and key.
#[verifier::external_body]
fn json_top_string(s: &str, key: &str) -> (r: Option<String>)
    ensures
        r is Some <==> top_str(s@, key@) is Some,
        r matches Some(x) ==> top_str(s@, key@) == Some(x@),
{
    match serde_json::from_str::<serde_json::Value>(s) {
        Ok(v) => match v.get(key) {
            Some(f) => match f.as_str() {
                Some(x) => Some(x.to_owned()),
                None => None,
            },
            None => None,
        },
        Err(_) => None,
    }
}

/// Relies on `serde_json::from_str::<serde_json::Value>` and `Value::get`:
/// whether the document is an object holding the key, deterministic in text
/// and key.
#[verifier::external_body]
fn json_has_top(s: &str, key: &str) -> (r: bool)
    ensures
        r == has_top(s@, key@),
{
    match serde_json::from_str::<serde_json::Value>(s) {
        Ok(v) => match v.get(key) {
            Some(_) => true,
            None => false,
        },
        Err(_) => false,
    }
}

/// Relies on `serde_json::from_str::<serde_json::Value>`, `Value::get` and
/// `Value::as_str`: the string under a key of the `params` member,
/// deterministic in text and key.
#[verifier::external_body]
fn json_param_string(s: &str, key: &str) -> (r: Option<String>)
    ensures
        r is Some <==> param_str(s@, key@) is Some,
        r matches Some(x) ==> param_str(s@, key@) == Some(x@),
{
    match serde_json::from_str::<serde_json::Value>(s) {
        Ok(v) => match v.get("params") {
            Some(p) => match p.get(key) {
                Some(f) => match f.as_str() {
                    Some(x) => Some(x.to_owned()),
                    None => None,
                },
                None => None,
            },
            None => None,
        },
        Err(_) => None,
    }
}

/// Whether the text decodes as a request envelope: it parses, `id` and
/// `method` are strings, and a `params` member is there.
pub open spec fn decode_ok(s: Seq<char>) -> bool {
    &&& parse_err(s) is None
    &&& top_str(s, "id"@) is Some
    &&& top_str(s, "method"@) is Some
    &&& has_top(s, "params"@)
}

/// The message a failed decode carries: the parser's own message for a
/// syntax problem, else which required member was missing or mistyped, in
/// the order the envelope is read.
pub open spec fn decode_err_msg(s: Seq<char>) -> Seq<char> {
    if parse_err(s) is Some {
        parse_err(s)->0
    } else if top_str(s, "id"@) is None {
        "missing or invalid field: id"@
    } else if top_str(s, "method"@) is None {
        "missing or invalid field: method"@
    } else {
        "missing field: params"@
    }
}

/// The view of an optional string.
pub open spec fn opt_str_view(o: Option<String>) -> Option<Seq<char>> {
    match o {
        Option::Some(x) => Option::Some(x@),
        Option::None => Option::None,
    }
}

/// Holds when `req` is exactly the envelope decoded from the text: the id
/// and method strings, and each parameter field present if and only if the
/// body held it as a string, with that content.
pub open spec fn decoded_envelope(s: Seq<char>, req: MCPRequest) -> bool {
    &&& Option::Some(req.id@) == top_str(s, "id"@)
    &&& Option::Some(req.method@) == top_str(s, "method"@)
    &&& opt_str_view(req.params.model) == param_str(s, "model"@)
    &&& opt_str_view(req.params.session_id) == param_str(s, "session_id"@)
    &&& opt_str_view(req.params.prompt) == param_str(s, "prompt"@)
}

/// Decodes a request envelope out of one body. The body must be one JSON
/// object with a string `id`, a string `method` and a `params` member;
/// anything else is a decode failure carrying a message, and never a
/// partially populated envelope.
pub fn decode_request(body: &str) -> (r: Result<MCPRequest, String>)
    ensures
        r is Ok <==> decode_ok(body@),
        r matches Ok(req) ==> decoded_envelope(body@, req),
        r matches Err(m) ==> m@ == decode_err_msg(body@),
{
    if let Some(msg) = json_parse_outcome(body) {
        return Err(msg);
    }
    let id = match json_top_string(body, "id") {
        Option::Some(s) => s,
        Option::None => {
            return Err("missing or invalid field: id".to_owned());
        },
    };
    let method = match json_top_string(body, "method") {
        Option::Some(s) => s,
        Option::None => {
            return Err("missing or invalid field: method".to_owned());
        },
    };
    if !json_has_top(body, "params") {
        return Err("missing field: params".to_owned());
    }
    let params = Params {
        model: json_param_string(body, "model"),
        session_id: json_param_string(body, "session_id"),
        prompt: json_param_string(body, "prompt"),
    };
    Ok(MCPRequest { id, method, params })
}

} // verus!
