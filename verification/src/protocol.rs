//! One request/response round trip, as values: building the request
//! line that carries a fresh correlation id, judging the line that
//! comes back against that id, and checking the one-time readiness
//! message a child emits after it starts.
//!
//! The stream handling around these functions writes one line and
//! reads one line; everything these functions decide is stated here
//! and proved.

use vstd::prelude::*;

use crate::json::JVal;
use crate::json::Json;
use crate::json::enc_val;
use crate::json::enc_field;
use crate::json::enc_fields;
use crate::json::enc_string;
use crate::json::get_field;
use crate::json::str_eq;
use crate::json::push_char;
use crate::json::push_string;
use crate::parse::parse_text;
use crate::parse::parse_json;

verus! {

/// The member name that carries the correlation id.
pub open spec fn key_id() -> Seq<char> {
    seq!['i', 'd']
}

/// The member name that carries the method.
pub open spec fn key_method() -> Seq<char> {
    seq!['m', 'e', 't', 'h', 'o', 'd']
}

/// The member name that carries the parameters.
pub open spec fn key_params() -> Seq<char> {
    seq!['p', 'a', 'r', 'a', 'm', 's']
}

/// The member name that carries a reported failure.
pub open spec fn key_error() -> Seq<char> {
    seq!['e', 'r', 'r', 'o', 'r']
}

/// The member name that carries a result.
pub open spec fn key_result() -> Seq<char> {
    seq!['r', 'e', 's', 'u', 'l', 't']
}

/// The fixed value whose arrival means the child is ready.
pub open spec fn ready_sentinel() -> Seq<char> {
    seq!['b', 'r', 'i', 'd', 'g', 'e', '_', 'r', 'e', 'a', 'd', 'y']
}

/// Why a call failed.
#[derive(Debug, PartialEq, Eq)]
pub enum CallError {
    /// The line read back was not a well-formed envelope; carries the
    /// raw line for diagnostics.
    Unparsable(String),
    /// The envelope's id was absent, not a string, or not the id of
    /// the request.
    IdMismatch,
    /// The child reported a failure; carries its content.
    Remote(Json),
}

/// Why startup failed.
#[derive(Debug, PartialEq, Eq)]
pub enum StartError {
    /// The first line was not a well-formed envelope; carries it.
    Unparsable(String),
    /// The first line parsed but was not the readiness message;
    /// carries it.
    NotReady(String),
}

/// What a response line means for the call that waits on it.
pub ghost enum CallOutcome {
    /// The line is not a well-formed envelope.
    BadLine,
    /// The envelope does not echo the request's id.
    WrongId,
    /// The child reported this failure.
    Failed(JVal),
    /// The child answered with this result.
    Answered(JVal),
}

/// The id a response envelope carries, when it carries one as a string.
pub open spec fn resp_id(v: JVal) -> Option<Seq<char>> {
    match get_field(v, key_id()) {
        Some(f) => match f {
            JVal::Str(s) => Some(s),
            _ => None,
        },
        None => None,
    }
}

/// How a call judges the line read back for the request with id `id`:
/// an unparsable line fails; then a wrong or missing id fails,
/// whatever else the envelope holds; then a reported error fails with
/// its content; otherwise the result answers, a missing result
/// standing for null.
pub open spec fn response_outcome(line: Seq<char>, id: Seq<char>) -> CallOutcome {
    match parse_text(line) {
        None => CallOutcome::BadLine,
        Some(v) => if resp_id(v) != Some(id) {
            CallOutcome::WrongId
        } else {
            match get_field(v, key_error()) {
                Some(e) => CallOutcome::Failed(e),
                None => match get_field(v, key_result()) {
                    Some(res) => CallOutcome::Answered(res),
                    None => CallOutcome::Answered(JVal::Null),
                },
            }
        },
    }
}

/// The request envelope for one call.
pub open spec fn request_body(id: Seq<char>, method: Seq<char>, params: JVal) -> JVal {
    JVal::Obj(
        seq![
            (key_id(), JVal::Str(id)),
            (key_method(), JVal::Str(method)),
            (key_params(), params),
        ],
    )
}

/// The request line for one call: the encoded envelope, newline
/// terminated.
pub open spec fn request_line(id: Seq<char>, method: Seq<char>, params: JVal) -> Seq<char> {
    enc_val(request_body(id, method, params)) + seq!['\n']
}

/// Whether `c` may appear in a correlation id: a lowercase hex digit
/// or a hyphen.
pub open spec fn is_id_char(c: char) -> bool {
    (48 <= (c as u32) && (c as u32) <= 57) || (97 <= (c as u32) && (c as u32) <= 102) || c == '-'
}

/// Relies on uuid::Uuid::new_v4 and its Display form: 36 characters,
/// lowercase hyphenated hex. Nothing is assumed about which id comes
/// back beyond its shape.
#[verifier::external_body]
fn fresh_request_id() -> (r: String)
    ensures
        r@.len() == 36,
        forall|k: int| 0 <= k < r@.len() ==> is_id_char(#[trigger] r@[k]),
{
    uuid::Uuid::new_v4().to_string()
}

/// The request line that carries `id`, `method` and `params`.
pub fn encode_request(id: &str, method: &str, params: &Json) -> (r: String)
    ensures
        r@ == request_line(id@, method@, params@),
{
    let mut out = String::new();
    push_char(&mut out, '{');
    push_string(&mut out, "id");
    push_char(&mut out, ':');
    push_string(&mut out, id);
    push_char(&mut out, ',');
    push_string(&mut out, "method");
    push_char(&mut out, ':');
    push_string(&mut out, method);
    push_char(&mut out, ',');
    push_string(&mut out, "params");
    push_char(&mut out, ':');
    params.write_to(&mut out);
    push_char(&mut out, '}');
    push_char(&mut out, '\n');
    proof {
        reveal_strlit("id");
        reveal_strlit("method");
        reveal_strlit("params");
        assert("id"@ =~= key_id());
        assert("method"@ =~= key_method());
        assert("params"@ =~= key_params());
        let f1 = (key_id(), JVal::Str(id@));
        let f2 = (key_method(), JVal::Str(method@));
        let f3 = (key_params(), params@);
        let fs = seq![f1, f2, f3];
        assert(fs.drop_last() =~= seq![f1, f2]);
        assert(seq![f1, f2].drop_last() =~= seq![f1]);
        assert(enc_fields(seq![f1]) == enc_field(f1));
        assert(enc_fields(seq![f1, f2]) == enc_fields(seq![f1]) + seq![','] + enc_field(f2));
        assert(enc_fields(fs) == enc_fields(seq![f1, f2]) + seq![','] + enc_field(f3));
        assert(enc_field(f1) == enc_string(key_id()) + seq![':'] + enc_string(id@));
        assert(enc_field(f2) == enc_string(key_method()) + seq![':'] + enc_string(method@));
        assert(enc_field(f3) == enc_string(key_params()) + seq![':'] + enc_val(params@));
        assert(enc_val(request_body(id@, method@, params@)) == seq!['{'] + enc_fields(fs) + seq!['}']);
        assert(out@ =~= request_line(id@, method@, params@));
    }
    out
}

/// A fresh correlation id together with the request line that carries
/// it; the id is what the response must echo.
pub fn make_request(method: &str, params: &Json) -> (r: (String, String))
    ensures
        r.1@ == request_line(r.0@, method@, params@),
        r.0@.len() == 36,
        forall|k: int| 0 <= k < r.0@.len() ==> is_id_char(#[trigger] r.0@[k]),
{
    let id = fresh_request_id();
    let line = encode_request(id.as_str(), method, params);
    (id, line)
}

/// Judges the line read back for the request with id `id` and returns
/// the call's result: the reported result on a match, and otherwise
/// the failure `response_outcome` names.
pub fn process_response(line: &str, id: &str) -> (r: Result<Json, CallError>)
    ensures
        match response_outcome(line@, id@) {
            CallOutcome::BadLine => (r matches Err(CallError::Unparsable(raw)) && raw@ == line@),
            CallOutcome::WrongId => r == Err::<Json, CallError>(CallError::IdMismatch),
            CallOutcome::Failed(e) => (r matches Err(CallError::Remote(je)) && je@ == e),
            CallOutcome::Answered(res) => (r matches Ok(j) && j@ == res),
        },
{
    match parse_json(line) {
        None => Err(CallError::Unparsable(line.to_owned())),
        Some(resp) => {
            proof {
                reveal_strlit("id");
                reveal_strlit("error");
                reveal_strlit("result");
                assert("id"@ =~= key_id());
                assert("error"@ =~= key_error());
                assert("result"@ =~= key_result());
            }
            let id_ok = match resp.get("id") {
                Some(f) => match f {
                    Json::Str(s) => str_eq(s.as_str(), id),
                    _ => false,
                },
                None => false,
            };
            if !id_ok {
                Err(CallError::IdMismatch)
            } else {
                match resp.get("error") {
                    Some(e) => Err(CallError::Remote(e.deep_copy())),
                    None => match resp.get("result") {
                        Some(res) => Ok(res.deep_copy()),
                        None => Ok(Json::Null),
                    },
                }
            }
        },
    }
}

/// Judges the first line the child emits: startup may proceed exactly
/// when it is a well-formed envelope whose result is the readiness
/// sentinel.
pub fn check_ready(line: &str) -> (r: Result<(), StartError>)
    ensures
        match parse_text(line@) {
            None => (r matches Err(StartError::Unparsable(raw)) && raw@ == line@),
            Some(v) => if get_field(v, key_result()) == Some(JVal::Str(ready_sentinel())) {
                r == Ok::<(), StartError>(())
            } else {
                (r matches Err(StartError::NotReady(raw)) && raw@ == line@)
            },
        },
{
    match parse_json(line) {
        None => Err(StartError::Unparsable(line.to_owned())),
        Some(msg) => {
            proof {
                reveal_strlit("result");
                reveal_strlit("bridge_ready");
                assert("result"@ =~= key_result());
                assert("bridge_ready"@ =~= ready_sentinel());
            }
            let ok = match msg.get("result") {
                Some(f) => match f {
                    Json::Str(s) => str_eq(s.as_str(), "bridge_ready"),
                    _ => false,
                },
                None => false,
            };
            if ok {
                Ok(())
            } else {
                Err(StartError::NotReady(line.to_owned()))
            }
        },
    }
}

/// A request occupies one line exactly: its last character is the
/// newline the framing appends, and no other character of it is one,
/// whatever the id, the method and the parameters hold.
pub proof fn lemma_request_single_line(id: Seq<char>, method: Seq<char>, params: JVal)
    ensures
        request_line(id, method, params).len() > 0,
        request_line(id, method, params).last() == '\n',
        forall|k: int| 0 <= k < request_line(id, method, params).len() - 1
            ==> request_line(id, method, params)[k] != '\n',
{
    crate::json::lemma_enc_val_single_line(request_body(id, method, params));
}

/// Back-to-back calls correlate independently: a response line is
/// judged only against its own request's id, so two consecutive calls
/// that each read back a well-formed, matching, error-free envelope
/// each receive their own result, whether or not the two ids agree.
pub proof fn lemma_back_to_back(
    l1: Seq<char>,
    id1: Seq<char>,
    l2: Seq<char>,
    id2: Seq<char>,
    v1: JVal,
    v2: JVal,
    r1: JVal,
    r2: JVal,
)
    requires
        parse_text(l1) == Some(v1),
        resp_id(v1) == Some(id1),
        get_field(v1, key_error()) is None,
        get_field(v1, key_result()) == Some(r1),
        parse_text(l2) == Some(v2),
        resp_id(v2) == Some(id2),
        get_field(v2, key_error()) is None,
        get_field(v2, key_result()) == Some(r2),
    ensures
        response_outcome(l1, id1) == CallOutcome::Answered(r1),
        response_outcome(l2, id2) == CallOutcome::Answered(r2),
{
}

} // verus!
