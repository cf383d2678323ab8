//! Answers: an HTTP status with a JSON body.

use crate::json::{has_just, json_text, object_text, says_text, Json, JsonObject, JsonView};
use vstd::prelude::*;

verus! {

pub const OK: u16 = 200;

pub const BAD_REQUEST: u16 = 400;

pub const UNAUTHORIZED: u16 = 401;

pub const FORBIDDEN: u16 = 403;

pub const NOT_FOUND: u16 = 404;

pub const CONFLICT: u16 = 409;

pub const INTERNAL_SERVER_ERROR: u16 = 500;

pub const BAD_GATEWAY: u16 = 502;

pub const GATEWAY_TIMEOUT: u16 = 504;

/// An answer.
#[derive(Debug, PartialEq)]
pub struct Reply {
    pub status: u16,
    pub body: Json,
    /// The members of objects go out in the order in which the body has them, not in that of their
    /// keys.
    pub in_order: bool,
}

/// What an answer is.
pub struct ReplyView {
    pub status: u16,
    pub body: JsonView,
    /// The body as it goes out.
    pub text: Seq<char>,
}

impl View for Reply {
    type V = ReplyView;

    open spec fn view(&self) -> ReplyView {
        ReplyView {
            status: self.status,
            body: self.body@,
            text: if self.in_order {
                self.body.written()
            } else {
                json_text(self.body@)
            },
        }
    }
}

/// The body of a failure: `{"error": {"message": …, "type": …}}`.
pub open spec fn error_json(message: Seq<char>, kind: Seq<char>) -> JsonView {
    JsonView::Object(
        map![
            "error"@ => JsonView::Object(map![
                "message"@ => JsonView::Text(message),
                "type"@ => JsonView::Text(kind),
            ]),
        ],
    )
}

/// What a failure says, in order.
pub open spec fn detail_parts(message: Seq<char>, kind: Seq<char>) -> Seq<(Seq<char>, Seq<char>)> {
    seq![
        ("message"@, json_text(JsonView::Text(message))),
        ("type"@, json_text(JsonView::Text(kind))),
    ]
}

/// The body of a failure as it goes out.
pub open spec fn error_text(message: Seq<char>, kind: Seq<char>) -> Seq<char> {
    object_text(seq![("error"@, object_text(detail_parts(message, kind)))])
}

/// A failure as an answer.
pub open spec fn failure(status: u16, message: Seq<char>, kind: Seq<char>) -> ReplyView {
    ReplyView { status, body: error_json(message, kind), text: error_text(message, kind) }
}

/// A success as an answer, with members in the order of their keys.
pub open spec fn success(body: JsonView) -> ReplyView {
    ReplyView { status: OK, body, text: json_text(body) }
}

/// A success as an answer, with members in the order in which `text` has them.
pub open spec fn success_in_order(body: JsonView, text: Seq<char>) -> ReplyView {
    ReplyView { status: OK, body, text }
}

/// The body of a failure.
pub fn error_body(message: &str, kind: &str) -> (r: Json)
    ensures
        r@ == error_json(message@, kind@),
        r.written() == error_text(message@, kind@),
{
    let detail = JsonObject::new().with("message", Json::text(message)).with(
        "type",
        Json::text(kind),
    );
    assert(detail.parts() =~= detail_parts(message@, kind@));
    let body = JsonObject::new().with("error", Json::object(detail));
    assert(body.parts() =~= seq![("error"@, object_text(detail_parts(message@, kind@)))]);
    Json::object(body)
}

/// An answer that reports a failure.
pub fn error(status: u16, message: &str, kind: &str) -> (r: Reply)
    ensures
        r@ == failure(status, message@, kind@),
{
    Reply { status, body: error_body(message, kind), in_order: true }
}

/// An answer that reports a success, with members in the order of their keys.
pub fn answer(body: Json) -> (r: Reply)
    ensures
        r@ == success(body@),
{
    Reply { status: OK, body, in_order: false }
}

/// An answer that reports a success, with members in the order in which the body has them.
pub fn answer_in_order(body: Json) -> (r: Reply)
    ensures
        r@ == success_in_order(body@, body.written()),
{
    Reply { status: OK, body, in_order: true }
}

impl Reply {
    /// The body as it goes out.
    pub fn into_text(self) -> (r: String)
        ensures
            r@ == self@.text,
    {
        if self.in_order {
            self.body.into_written()
        } else {
            self.body.into_text()
        }
    }
}

proof fn lemma_keys_differ()
    ensures
        "error"@ != "message"@,
        "error"@ != "type"@,
        "message"@ != "type"@,
{
    reveal_strlit("error");
    reveal_strlit("message");
    reveal_strlit("type");
    assert("error"@.len() == 5);
    assert("message"@.len() == 7);
    assert("type"@.len() == 4);
}

/// An answer has a status, and its body says what went wrong and of what kind that is, in the value
/// and in the text that goes out.
pub open spec fn tells(reply: ReplyView, status: u16, message: Seq<char>, kind: Seq<char>) -> bool {
    &&& reply.status == status
    &&& has_just(reply.body, set!["error"@])
    &&& has_just(reply.body->Object_0["error"@], set!["message"@, "type"@])
    &&& says_text(reply.body->Object_0["error"@], "message"@, message)
    &&& says_text(reply.body->Object_0["error"@], "type"@, kind)
    &&& reply.text == object_text(
        seq![
            (
                "error"@,
                object_text(
                    seq![
                        ("message"@, json_text(JsonView::Text(message))),
                        ("type"@, json_text(JsonView::Text(kind))),
                    ],
                ),
            ),
        ],
    )
}

/// A failure keeps its status, and tells its message and its kind.
pub proof fn failures_say_what_went_wrong(status: u16, message: Seq<char>, kind: Seq<char>)
    ensures
        tells(failure(status, message, kind), status, message, kind),
{
    lemma_keys_differ();
}

/// A success has status 200 and the body that it was given; its text is that of the body, with the
/// members in the order of their keys unless another order is asked for.
pub proof fn successes_hold_their_body(body: JsonView, text: Seq<char>)
    ensures
        success(body).status == 200,
        success(body).body == body,
        success(body).text == json_text(body),
        success_in_order(body, text).status == 200,
        success_in_order(body, text).body == body,
        success_in_order(body, text).text == text,
{
}

/// The view of an answer has its status and its body, and the text in which the body goes out.
pub proof fn views_of_answers_leave_nothing_out(reply: Reply)
    ensures
        reply@.status == reply.status,
        reply@.body == reply.body@,
        reply.in_order ==> reply@.text == reply.body.written(),
        !reply.in_order ==> reply@.text == json_text(reply.body@),
{
}

/// The statuses are those of HTTP.
pub proof fn statuses_are_those_of_http()
    ensures
        OK == 200,
        BAD_REQUEST == 400,
        UNAUTHORIZED == 401,
        FORBIDDEN == 403,
        NOT_FOUND == 404,
        CONFLICT == 409,
        INTERNAL_SERVER_ERROR == 500,
        BAD_GATEWAY == 502,
        GATEWAY_TIMEOUT == 504,
{
}

} // verus!
