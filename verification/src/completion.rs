//! From a provider's reply to the chat format that clients read.

use crate::conversation::{
    blocks, request_block, Block, BlockView, CallView, InCallView, Message, ToolRequest,
};
use crate::json::{
    has_just, is_silent_on, json_text, json_texts, json_views, list_text, object_text, plain, says,
    says_text, Json, JsonObject, JsonView,
};
use crate::seqs::lemma_filter_push;
use crate::text::{decimal, integer_text, join, joined, joining_adds_at_the_end, texts};
use vstd::prelude::*;

verus! {

/// The tokens that a reply took.
#[derive(Clone, Copy, Debug, PartialEq, Eq, Structural)]
pub struct Usage {
    pub prompt_tokens: i64,
    pub completion_tokens: i64,
    pub total_tokens: i64,
}

/// The tokens that a provider reports, as far as it does.
#[derive(Clone, Copy, Debug, PartialEq, Eq, Structural)]
pub struct ProviderUsage {
    pub input_tokens: Option<i32>,
    pub output_tokens: Option<i32>,
    pub total_tokens: Option<i32>,
}

/// A tool call as clients read it.
#[derive(Debug)]
pub struct OutToolCall {
    pub id: String,
    pub function: OutFunction,
}

#[derive(Debug)]
pub struct OutFunction {
    pub name: String,
    /// A JSON object, as text.
    pub arguments: String,
}

pub struct OutCallView {
    pub id: Seq<char>,
    pub name: Seq<char>,
    pub arguments: Seq<char>,
}

impl View for OutToolCall {
    type V = OutCallView;

    open spec fn view(&self) -> OutCallView {
        OutCallView {
            id: self.id@,
            name: self.function.name@,
            arguments: self.function.arguments@,
        }
    }
}

/// Tool calls, each taken by its view.
pub open spec fn out_calls(all: Seq<OutToolCall>) -> Seq<OutCallView> {
    all.map_values(|c: OutToolCall| c@)
}

/// No tokens.
pub open spec fn no_usage() -> Usage {
    Usage { prompt_tokens: 0, completion_tokens: 0, total_tokens: 0 }
}

impl Default for Usage {
    fn default() -> (r: Self)
        ensures
            r == no_usage(),
    {
        Usage { prompt_tokens: 0, completion_tokens: 0, total_tokens: 0 }
    }
}

/// A count of tokens; 0 where the provider gives none.
pub open spec fn count(n: Option<i32>) -> i64 {
    match n {
        Some(n) => n as i64,
        None => 0,
    }
}

/// What a provider reports, in the terms of the chat format.
pub open spec fn reported(usage: ProviderUsage) -> Usage {
    Usage {
        prompt_tokens: count(usage.input_tokens),
        completion_tokens: count(usage.output_tokens),
        total_tokens: count(usage.total_tokens),
    }
}

fn count_of(n: Option<i32>) -> (r: i64)
    ensures
        r == count(n),
{
    match n {
        Some(n) => n as i64,
        None => 0,
    }
}

/// What a provider reports, in the terms of the chat format.
pub fn out_usage(usage: &ProviderUsage) -> (r: Usage)
    ensures
        r == reported(*usage),
{
    Usage {
        prompt_tokens: count_of(usage.input_tokens),
        completion_tokens: count_of(usage.output_tokens),
        total_tokens: count_of(usage.total_tokens),
    }
}

/// The arguments of a call as text. A call without arguments has the object without members.
pub open spec fn arguments_text(arguments: Option<Map<Seq<char>, JsonView>>) -> Seq<char> {
    json_text(
        JsonView::Object(
            match arguments {
                Some(members) => members,
                None => Map::empty(),
            },
        ),
    )
}

/// The tool call that a part of a reply asks for; none where the provider made no sense of it.
pub open spec fn call_in(block: BlockView) -> Option<OutCallView> {
    match block {
        BlockView::ToolRequest(id, Some(call)) => Some(
            OutCallView { id, name: call.name, arguments: arguments_text(call.arguments) },
        ),
        _ => None,
    }
}

/// The text of a part of a reply, where it has any.
pub open spec fn text_in(block: BlockView) -> Option<Seq<char>> {
    match block {
        BlockView::Text(s) => if s.len() > 0 {
            Some(s)
        } else {
            None
        },
        _ => None,
    }
}

/// The tool calls of a reply, in order.
pub open spec fn calls_in(content: Seq<BlockView>) -> Seq<OutCallView> {
    content.filter(|b: BlockView| call_in(b) is Some).map_values(|b: BlockView| call_in(b)->0)
}

/// The texts of a reply, in order.
pub open spec fn texts_in(content: Seq<BlockView>) -> Seq<Seq<char>> {
    content.filter(|b: BlockView| text_in(b) is Some).map_values(|b: BlockView| text_in(b)->0)
}

/// One part more.
pub proof fn lemma_calls_in_push(content: Seq<BlockView>, b: BlockView)
    ensures
        calls_in(content.push(b)) == match call_in(b) {
            Some(c) => calls_in(content).push(c),
            None => calls_in(content),
        },
{
    lemma_filter_push(content, b, |x: BlockView| call_in(x) is Some);
    assert(calls_in(content.push(b)) =~= match call_in(b) {
        Some(c) => calls_in(content).push(c),
        None => calls_in(content),
    });
}

/// One part more.
pub proof fn lemma_texts_in_push(content: Seq<BlockView>, b: BlockView)
    ensures
        texts_in(content.push(b)) == match text_in(b) {
            Some(t) => texts_in(content).push(t),
            None => texts_in(content),
        },
{
    lemma_filter_push(content, b, |x: BlockView| text_in(x) is Some);
    assert(texts_in(content.push(b)) =~= match text_in(b) {
        Some(t) => texts_in(content).push(t),
        None => texts_in(content),
    });
}

/// A client that sends a tool call back as it read it asks for what the model asked for: the same
/// tool, under the same id and with the same arguments. That is not claimed of arguments with
/// fractions, with arrays and objects more than 127 deep, or with an object whose first key is
/// `$serde_json::private::RawValue`.
pub open spec fn comes_back(asked: BlockView, call: OutCallView) -> bool {
    let arguments = match asked->ToolRequest_1->0.arguments {
        Some(members) => members,
        None => Map::empty(),
    };
    plain(JsonView::Object(arguments), 127) ==> request_block(
        InCallView { id: call.id, name: call.name, arguments: call.arguments },
    ) == BlockView::ToolRequest(
        asked->ToolRequest_0,
        Some(CallView { name: asked->ToolRequest_1->0.name, arguments: Some(arguments) }),
    )
}

/// A request for a tool call as clients read it; `None` where the provider made no sense of it.
pub fn out_tool_call(req: ToolRequest) -> (r: Option<OutToolCall>)
    ensures
        r is Some == call_in(Block::ToolRequest(req)@) is Some,
        r matches Some(call) ==> call_in(Block::ToolRequest(req)@) == Some(call@),
        r matches Some(call) ==> (req.tool_call->0.arguments is None ==> call.function.arguments@
            == seq!['{', '}']),
        r matches Some(call) ==> comes_back(Block::ToolRequest(req)@, call@),
{
    match req.tool_call {
        Some(call) => {
            let object = match call.arguments {
                Some(object) => object,
                None => JsonObject::new(),
            };
            let arguments = Json::Object(object).into_text();
            Some(OutToolCall { id: req.id, function: OutFunction { name: call.name, arguments } })
        },
        None => None,
    }
}

/// The text of a reply: its texts, one on each line; none where it has none.
pub open spec fn reply_text(content: Seq<BlockView>) -> Option<Seq<char>> {
    if texts_in(content).len() == 0 {
        None
    } else {
        Some(joined(texts_in(content), "\n"@))
    }
}

/// The text and the tool calls of a reply.
pub fn from_goose(reply: Message) -> (r: (Option<String>, Vec<OutToolCall>))
    ensures
        r.0 is Some == reply_text(reply@.content) is Some,
        r.0 matches Some(text) ==> reply_text(reply@.content) == Some(text@),
        out_calls(r.1@) == calls_in(reply@.content),
{
    let mut found: Vec<String> = Vec::new();
    let mut calls: Vec<OutToolCall> = Vec::new();
    let ghost all = reply@.content;
    let content = reply.content;
    proof {
        reveal(Seq::filter);
        assert(texts_in(all.take(0)) =~= texts(found@));
        assert(calls_in(all.take(0)) =~= out_calls(calls@));
    }
    for block in it: content
        invariant
            it.seq() == content@,
            all == blocks(content@),
            texts(found@) == texts_in(all.take(it.index())),
            out_calls(calls@) == calls_in(all.take(it.index())),
    {
        let ghost texts_before = texts(found@);
        let ghost calls_before = out_calls(calls@);
        proof {
            assert(all[it.index()] == block@);
            assert(all.take(it.index() + 1) =~= all.take(it.index()).push(block@));
            lemma_calls_in_push(all.take(it.index()), block@);
            lemma_texts_in_push(all.take(it.index()), block@);
        }
        match block {
            Block::Text(text) => {
                if !text.as_str().is_empty() {
                    found.push(text);
                    assert(texts(found@) =~= texts_before.push(text@));
                }
            },
            Block::ToolRequest(req) => {
                if let Some(call) = out_tool_call(req) {
                    calls.push(call);
                    assert(out_calls(calls@) =~= calls_before.push(call@));
                }
            },
            _ => {},
        }
    }
    assert(all.take(all.len() as int) =~= all);
    assert(texts(found@).len() == found@.len());
    let text = if found.len() == 0 {
        None
    } else {
        Some(join(&found, "\n"))
    };
    (text, calls)
}

/// A tool call in JSON.
pub open spec fn call_members(call: OutCallView) -> Map<Seq<char>, JsonView> {
    map![
        "id"@ => JsonView::Text(call.id),
        "type"@ => JsonView::Text("function"@),
        "function"@ => JsonView::Object(map![
            "name"@ => JsonView::Text(call.name),
            "arguments"@ => JsonView::Text(call.arguments),
        ]),
    ]
}

/// What a tool call consists of as it goes out in a completion, in order.
pub open spec fn call_parts(call: OutCallView) -> Seq<(Seq<char>, Seq<char>)> {
    seq![
        ("id"@, json_text(JsonView::Text(call.id))),
        ("type"@, json_text(JsonView::Text("function"@))),
        ("function"@, object_text(function_parts(call))),
    ]
}

/// What the function of a tool call consists of, in order.
pub open spec fn function_parts(call: OutCallView) -> Seq<(Seq<char>, Seq<char>)> {
    seq![
        ("name"@, json_text(JsonView::Text(call.name))),
        ("arguments"@, json_text(JsonView::Text(call.arguments))),
    ]
}

/// A tool call in JSON.
pub fn call_object(call: OutToolCall) -> (r: JsonObject)
    ensures
        r@ == call_members(call@),
        r.parts() == call_parts(call@),
{
    let ghost view = call@;
    let function = JsonObject::new().with(
        "name",
        Json::text(call.function.name.as_str()),
    ).with("arguments", Json::text(call.function.arguments.as_str()));
    assert(function.parts() =~= function_parts(view));
    let r = JsonObject::new().with("id", Json::text(call.id.as_str())).with(
        "type",
        Json::text("function"),
    ).with("function", Json::object(function));
    assert(r.parts() =~= call_parts(view));
    r
}

/// Token counts in JSON.
pub open spec fn usage_json(usage: Usage) -> JsonView {
    JsonView::Object(
        map![
            "prompt_tokens"@ => JsonView::Int(usage.prompt_tokens as int),
            "completion_tokens"@ => JsonView::Int(usage.completion_tokens as int),
            "total_tokens"@ => JsonView::Int(usage.total_tokens as int),
        ],
    )
}

/// Token counts as they go out in a completion, in order.
pub open spec fn usage_parts(usage: Usage) -> Seq<(Seq<char>, Seq<char>)> {
    seq![
        ("prompt_tokens"@, json_text(JsonView::Int(usage.prompt_tokens as int))),
        ("completion_tokens"@, json_text(JsonView::Int(usage.completion_tokens as int))),
        ("total_tokens"@, json_text(JsonView::Int(usage.total_tokens as int))),
    ]
}

/// Token counts in JSON.
pub fn usage_value(usage: &Usage) -> (r: Json)
    ensures
        r@ == usage_json(*usage),
        r.written() == object_text(usage_parts(*usage)),
{
    let object = JsonObject::new().with("prompt_tokens", Json::signed(usage.prompt_tokens)).with(
        "completion_tokens",
        Json::signed(usage.completion_tokens),
    ).with("total_tokens", Json::signed(usage.total_tokens));
    assert(object.parts() =~= usage_parts(*usage));
    Json::object(object)
}

/// Why a reply ended: the client is to run tools, or the model is done.
pub open spec fn finish_reason(calls: nat) -> Seq<char> {
    if calls > 0 {
        "tool_calls"@
    } else {
        "stop"@
    }
}

/// The name of a completion that was made at a time.
pub open spec fn completion_id(created: i64) -> Seq<char> {
    "chatcmpl-"@ + decimal(created as int)
}

/// The name of a completion that was made at a time.
pub fn completion_name(created: i64) -> (r: String)
    ensures
        r@ == completion_id(created),
{
    "chatcmpl-".to_owned().concat(integer_text(created).as_str())
}

/// The message of a completion in JSON. `tool_calls` is left out where there are none.
pub open spec fn reply_json(text: Option<Seq<char>>, calls: Seq<OutCallView>) -> JsonView {
    let said = map![
        "role"@ => JsonView::Text("assistant"@),
        "content"@ => match text {
            Some(t) => JsonView::Text(t),
            None => JsonView::Null,
        },
    ];
    JsonView::Object(
        if calls.len() == 0 {
            said
        } else {
            said.insert(
                "tool_calls"@,
                JsonView::Array(
                    calls.map_values(|c: OutCallView| JsonView::Object(call_members(c))),
                ),
            )
        },
    )
}

/// A completion in JSON.
pub open spec fn completion_json(
    created: i64,
    model: Seq<char>,
    content: Seq<BlockView>,
    usage: ProviderUsage,
) -> JsonView {
    let choice = JsonView::Object(
        map![
            "index"@ => JsonView::Int(0),
            "message"@ => reply_json(reply_text(content), calls_in(content)),
            "finish_reason"@ => JsonView::Text(finish_reason(calls_in(content).len())),
        ],
    );
    JsonView::Object(
        map![
            "id"@ => JsonView::Text(completion_id(created)),
            "object"@ => JsonView::Text("chat.completion"@),
            "created"@ => JsonView::Int(created as int),
            "model"@ => JsonView::Text(model),
            "choices"@ => JsonView::Array(seq![choice]),
            "usage"@ => usage_json(reported(usage)),
        ],
    )
}

/// What the message of a completion consists of as it goes out, in order.
pub open spec fn reply_parts(text: Option<Seq<char>>, calls: Seq<OutCallView>) -> Seq<
    (Seq<char>, Seq<char>),
> {
    let said = seq![
        ("role"@, json_text(JsonView::Text("assistant"@))),
        (
            "content"@,
            json_text(
                match text {
                    Some(t) => JsonView::Text(t),
                    None => JsonView::Null,
                },
            ),
        ),
    ];
    if calls.len() == 0 {
        said
    } else {
        said.push(
            (
                "tool_calls"@,
                list_text(calls.map_values(|c: OutCallView| object_text(call_parts(c)))),
            ),
        )
    }
}

/// What the choice of a completion consists of as it goes out, in order.
pub open spec fn choice_parts(content: Seq<BlockView>) -> Seq<(Seq<char>, Seq<char>)> {
    seq![
        ("index"@, json_text(JsonView::Int(0))),
        ("message"@, object_text(reply_parts(reply_text(content), calls_in(content)))),
        (
            "finish_reason"@,
            json_text(JsonView::Text(finish_reason(calls_in(content).len()))),
        ),
    ]
}

/// What a completion consists of as it goes out, in order.
pub open spec fn completion_parts(
    created: i64,
    model: Seq<char>,
    content: Seq<BlockView>,
    usage: ProviderUsage,
) -> Seq<(Seq<char>, Seq<char>)> {
    seq![
        ("id"@, json_text(JsonView::Text(completion_id(created)))),
        ("object"@, json_text(JsonView::Text("chat.completion"@))),
        ("created"@, json_text(JsonView::Int(created as int))),
        ("model"@, json_text(JsonView::Text(model))),
        ("choices"@, list_text(seq![object_text(choice_parts(content))])),
        ("usage"@, object_text(usage_parts(reported(usage)))),
    ]
}

fn calls_value(calls: Vec<OutToolCall>) -> (r: Json)
    ensures
        r@ == JsonView::Array(
            out_calls(calls@).map_values(|c: OutCallView| JsonView::Object(call_members(c))),
        ),
        r.written() == list_text(
            out_calls(calls@).map_values(|c: OutCallView| object_text(call_parts(c))),
        ),
{
    let mut items: Vec<Json> = Vec::new();
    let ghost as_json = |c: OutCallView| JsonView::Object(call_members(c));
    let ghost as_text = |c: OutCallView| object_text(call_parts(c));
    let ghost all = out_calls(calls@).map_values(as_json);
    let ghost all_texts = out_calls(calls@).map_values(as_text);
    for call in it: calls
        invariant
            it.seq() == calls@,
            as_json == (|c: OutCallView| JsonView::Object(call_members(c))),
            as_text == (|c: OutCallView| object_text(call_parts(c))),
            all == out_calls(calls@).map_values(as_json),
            all_texts == out_calls(calls@).map_values(as_text),
            json_views(items@) == all.take(it.index()),
            json_texts(items@) == all_texts.take(it.index()),
    {
        let ghost before = json_views(items@);
        let ghost texts_before = json_texts(items@);
        let ghost view = call@;
        items.push(Json::object(call_object(call)));
        assert(json_views(items@) =~= before.push(as_json(view)));
        assert(json_texts(items@) =~= texts_before.push(as_text(view)));
        assert(json_views(items@) =~= all.take(it.index() + 1));
        assert(json_texts(items@) =~= all_texts.take(it.index() + 1));
    }
    assert(all.take(all.len() as int) =~= all);
    assert(all_texts.take(all_texts.len() as int) =~= all_texts);
    Json::array(items)
}

/// A reply as a completion in JSON.
pub fn completion(created: i64, model: &str, reply: Message, usage: &ProviderUsage) -> (r: Json)
    ensures
        r@ == completion_json(created, model@, reply@.content, *usage),
        r.written() == object_text(completion_parts(created, model@, reply@.content, *usage)),
{
    let ghost content = reply@.content;
    let (text, calls) = from_goose(reply);
    let ghost out = out_calls(calls@);
    assert(out.len() == calls@.len());
    let reason = if calls.len() == 0 {
        "stop"
    } else {
        "tool_calls"
    };
    let said = match text {
        Some(t) => Json::text(t.as_str()),
        None => Json::Null,
    };
    let message = JsonObject::new().with("role", Json::text("assistant")).with("content", said);
    let message = if calls.len() == 0 {
        message
    } else {
        message.with("tool_calls", calls_value(calls))
    };
    assert(message.parts() =~= reply_parts(reply_text(content), out));
    let choice = JsonObject::new().with("index", Json::signed(0)).with(
        "message",
        Json::object(message),
    ).with("finish_reason", Json::text(reason));
    assert(choice.parts() =~= choice_parts(content));
    let name = completion_name(created);
    let whole = JsonObject::new().with("id", Json::text(name.as_str())).with(
        "object",
        Json::text("chat.completion"),
    ).with("created", Json::signed(created)).with("model", Json::text(model)).with(
        "choices",
        Json::array_of(Json::object(choice)),
    ).with("usage", usage_value(&out_usage(usage)));
    assert(whole.parts() =~= completion_parts(created, model@, content, *usage));
    Json::object(whole)
}

// ---------------------------------------------------------------------------
// What clients read out of a completion
// ---------------------------------------------------------------------------

proof fn lemma_keys_differ()
    ensures
        "id"@ != "object"@,
        "id"@ != "created"@,
        "id"@ != "model"@,
        "id"@ != "choices"@,
        "id"@ != "usage"@,
        "object"@ != "created"@,
        "object"@ != "model"@,
        "object"@ != "choices"@,
        "object"@ != "usage"@,
        "created"@ != "model"@,
        "created"@ != "choices"@,
        "created"@ != "usage"@,
        "model"@ != "choices"@,
        "model"@ != "usage"@,
        "choices"@ != "usage"@,
{
    reveal_strlit("id");
    reveal_strlit("object");
    reveal_strlit("created");
    reveal_strlit("model");
    reveal_strlit("choices");
    reveal_strlit("usage");
    assert("id"@.len() == 2);
    assert("object"@.len() == 6);
    assert("created"@.len() == 7);
    assert("model"@.len() == 5);
    assert("choices"@.len() == 7);
    assert("usage"@.len() == 5);
    assert("created"@[1] == 'r' && "choices"@[1] == 'h');
    assert("model"@[0] == 'm' && "usage"@[0] == 'u');
}

proof fn lemma_choice_keys_differ()
    ensures
        "index"@ != "message"@,
        "index"@ != "finish_reason"@,
        "index"@ != "role"@,
        "index"@ != "content"@,
        "index"@ != "tool_calls"@,
        "message"@ != "finish_reason"@,
        "message"@ != "role"@,
        "message"@ != "content"@,
        "message"@ != "tool_calls"@,
        "finish_reason"@ != "role"@,
        "finish_reason"@ != "content"@,
        "finish_reason"@ != "tool_calls"@,
        "role"@ != "content"@,
        "role"@ != "tool_calls"@,
        "content"@ != "tool_calls"@,
{
    reveal_strlit("index");
    reveal_strlit("message");
    reveal_strlit("finish_reason");
    reveal_strlit("role");
    reveal_strlit("content");
    reveal_strlit("tool_calls");
    assert("index"@.len() == 5);
    assert("message"@.len() == 7);
    assert("finish_reason"@.len() == 13);
    assert("role"@.len() == 4);
    assert("content"@.len() == 7);
    assert("tool_calls"@.len() == 10);
    assert("message"@[0] == 'm' && "content"@[0] == 'c');
}

proof fn lemma_call_keys_differ()
    ensures
        "id"@ != "type"@,
        "id"@ != "function"@,
        "id"@ != "name"@,
        "id"@ != "arguments"@,
        "type"@ != "function"@,
        "type"@ != "name"@,
        "type"@ != "arguments"@,
        "function"@ != "name"@,
        "function"@ != "arguments"@,
        "name"@ != "arguments"@,
{
    reveal_strlit("id");
    reveal_strlit("type");
    reveal_strlit("function");
    reveal_strlit("name");
    reveal_strlit("arguments");
    assert("id"@.len() == 2);
    assert("type"@.len() == 4);
    assert("function"@.len() == 8);
    assert("name"@.len() == 4);
    assert("arguments"@.len() == 9);
    assert("type"@[0] == 't' && "name"@[0] == 'n');
}

proof fn lemma_usage_keys_differ()
    ensures
        "prompt_tokens"@ != "completion_tokens"@,
        "prompt_tokens"@ != "total_tokens"@,
        "completion_tokens"@ != "total_tokens"@,
{
    reveal_strlit("prompt_tokens");
    reveal_strlit("completion_tokens");
    reveal_strlit("total_tokens");
    assert("prompt_tokens"@.len() == 13);
    assert("completion_tokens"@.len() == 17);
    assert("total_tokens"@.len() == 12);
}

/// A part of a reply asks for a tool call that makes sense.
pub open spec fn asks_for_a_call(block: BlockView) -> bool {
    block is ToolRequest && block->ToolRequest_1 is Some
}

/// The arguments that a part of a reply asks a tool to be called with; none are an empty object.
pub open spec fn asked_arguments(block: BlockView) -> JsonView {
    match block->ToolRequest_1->0.arguments {
        Some(members) => JsonView::Object(members),
        None => JsonView::Object(Map::empty()),
    }
}

/// A call in JSON is the one that a part of a reply asks for: its id, the name of the tool, and the
/// arguments as the text that `serde_json` writes for them.
pub open spec fn is_the_call_asked_for(call: JsonView, block: BlockView) -> bool {
    &&& says_text(call, "id"@, block->ToolRequest_0)
    &&& says_text(call, "type"@, "function"@)
    &&& call->Object_0.dom().contains("function"@)
    &&& has_just(call->Object_0["function"@], set!["name"@, "arguments"@])
    &&& says_text(call->Object_0["function"@], "name"@, block->ToolRequest_1->0.name)
    &&& says_text(
        call->Object_0["function"@],
        "arguments"@,
        json_text(asked_arguments(block)),
    )
}

/// Every part that asks for a call adds that call at the end; no other part adds any.
pub proof fn every_call_asked_for_is_passed_on(content: Seq<BlockView>, b: BlockView)
    ensures
        calls_in(Seq::empty()) == Seq::<OutCallView>::empty(),
        !asks_for_a_call(b) ==> calls_in(content.push(b)) == calls_in(content),
        asks_for_a_call(b) ==> {
            let after = calls_in(content.push(b));
            &&& after.len() == calls_in(content).len() + 1
            &&& after.drop_last() == calls_in(content)
            &&& after.last().id == b->ToolRequest_0
            &&& after.last().name == b->ToolRequest_1->0.name
            &&& after.last().arguments == json_text(asked_arguments(b))
        },
{
    lemma_calls_in_push(content, b);
    if asks_for_a_call(b) {
        assert(calls_in(content.push(b)).drop_last() =~= calls_in(content));
    }
    reveal(Seq::filter);
    assert(calls_in(Seq::empty()) =~= Seq::empty());
}

/// Every text that is not empty is a line of the reply; nothing else adds to it.
pub proof fn every_text_is_a_line_of_the_reply(content: Seq<BlockView>, b: BlockView)
    ensures
        reply_text(Seq::empty()) is None,
        !(b matches BlockView::Text(s) && s.len() > 0) ==> reply_text(content.push(b)) == reply_text(
            content,
        ),
        b matches BlockView::Text(s) && s.len() > 0 ==> reply_text(content.push(b)) == match reply_text(
            content,
        ) {
            None => Some(b->Text_0),
            Some(before) => Some(before + seq!['\n'] + b->Text_0),
        },
{
    reveal_strlit("\n");
    assert("\n"@ =~= seq!['\n']);
    lemma_texts_in_push(content, b);
    if b is Text {
        joining_adds_at_the_end(texts_in(content), b->Text_0, "\n"@);
    }
    reveal(Seq::filter);
    assert(texts_in(Seq::empty()) =~= Seq::empty());
}

proof fn lemma_calls_asked_for(content: Seq<BlockView>)
    ensures
        calls_in(content).len() > 0 <==> exists|i: int|
            0 <= i < content.len() && asks_for_a_call(#[trigger] content[i]),
    decreases content.len(),
{
    if content.len() > 0 {
        let rest = content.drop_last();
        let last = content.last();
        lemma_calls_asked_for(rest);
        assert(rest.push(last) =~= content);
        lemma_calls_in_push(rest, last);
        if exists|i: int| 0 <= i < rest.len() && asks_for_a_call(#[trigger] rest[i]) {
            let i = choose|i: int| 0 <= i < rest.len() && asks_for_a_call(#[trigger] rest[i]);
            assert(asks_for_a_call(content[i]));
        }
        if asks_for_a_call(last) {
            assert(asks_for_a_call(content[content.len() - 1]));
        }
        if exists|i: int| 0 <= i < content.len() && asks_for_a_call(#[trigger] content[i]) {
            let i = choose|i: int| 0 <= i < content.len() && asks_for_a_call(#[trigger] content[i]);
            if i < rest.len() {
                assert(rest[i] == content[i]);
            }
        }
    } else {
        reveal(Seq::filter);
    }
}

/// The reason that a completion gives in its only choice, in the value and in the text that goes
/// out: `tool_calls` exactly where a part of the reply asks for a call that makes sense, and else
/// `stop`, whether or not there is text.
pub proof fn a_completion_asks_for_tools_exactly_where_the_model_does(
    created: i64,
    model: Seq<char>,
    content: Seq<BlockView>,
    usage: ProviderUsage,
)
    ensures
        ({
            let asked = exists|i: int|
                0 <= i < content.len() && asks_for_a_call(#[trigger] content[i]);
            let reason = JsonView::Text(
                if asked {
                    "tool_calls"@
                } else {
                    "stop"@
                },
            );
            let value = completion_json(created, model, content, usage);
            let parts = completion_parts(created, model, content, usage);
            &&& value->Object_0["choices"@]->Array_0.len() == 1
            &&& says(value->Object_0["choices"@]->Array_0[0], "finish_reason"@, reason)
            &&& parts[4].0 == "choices"@
            &&& parts[4].1 == list_text(seq![object_text(choice_parts(content))])
            &&& choice_parts(content).len() == 3
            &&& choice_parts(content)[2].0 == "finish_reason"@
            &&& choice_parts(content)[2].1 == json_text(reason)
        }),
{
    lemma_calls_asked_for(content);
    lemma_keys_differ();
    lemma_choice_keys_differ();
}

/// A completion names itself after its time, and tells its kind, its time and its model. Its only
/// choice holds the message of the assistant: the text of the reply, or null where it has none.
pub proof fn a_completion_tells_what_the_model_said(
    created: i64,
    model: Seq<char>,
    content: Seq<BlockView>,
    usage: ProviderUsage,
)
    ensures
        ({
            let value = completion_json(created, model, content, usage);
            let choice = value->Object_0["choices"@]->Array_0[0];
            let message = choice->Object_0["message"@];
            &&& says_text(value, "id"@, "chatcmpl-"@ + decimal(created as int))
            &&& says_text(value, "object"@, "chat.completion"@)
            &&& says(value, "created"@, JsonView::Int(created as int))
            &&& says_text(value, "model"@, model)
            &&& value->Object_0.dom().contains("choices"@)
            &&& says(choice, "index"@, JsonView::Int(0))
            &&& choice->Object_0.dom().contains("message"@)
            &&& says_text(message, "role"@, "assistant"@)
            &&& match reply_text(content) {
                Some(text) => says_text(message, "content"@, text),
                None => says(message, "content"@, JsonView::Null),
            }
        }),
{
    lemma_keys_differ();
    lemma_choice_keys_differ();
}

/// The calls of a reply stand in the message one by one, in order, each with its id, its tool and its
/// arguments; where there are none the message does not speak of them.
pub proof fn a_completion_lists_the_calls(
    created: i64,
    model: Seq<char>,
    content: Seq<BlockView>,
    usage: ProviderUsage,
    k: int,
)
    ensures
        ({
            let value = completion_json(created, model, content, usage);
            let message = value->Object_0["choices"@]->Array_0[0]->Object_0["message"@];
            let calls = calls_in(content);
            &&& calls.len() == 0 ==> is_silent_on(message, "tool_calls"@)
            &&& calls.len() > 0 ==> {
                &&& message->Object_0.dom().contains("tool_calls"@)
                &&& message->Object_0["tool_calls"@] is Array
                &&& message->Object_0["tool_calls"@]->Array_0.len() == calls.len()
            }
            &&& 0 <= k < calls.len() ==> {
                let call = message->Object_0["tool_calls"@]->Array_0[k];
                &&& says_text(call, "id"@, calls[k].id)
                &&& says_text(call, "type"@, "function"@)
                &&& call->Object_0.dom().contains("function"@)
                &&& says_text(call->Object_0["function"@], "name"@, calls[k].name)
                &&& says_text(call->Object_0["function"@], "arguments"@, calls[k].arguments)
            }
        }),
{
    lemma_keys_differ();
    lemma_choice_keys_differ();
    lemma_call_keys_differ();
}

/// A completion reports the tokens that the provider counted, each count under its own name; a count
/// that the provider does not give is 0.
pub proof fn a_completion_reports_what_was_counted(
    created: i64,
    model: Seq<char>,
    content: Seq<BlockView>,
    usage: ProviderUsage,
)
    ensures
        ({
            let value = completion_json(created, model, content, usage);
            let counts = value->Object_0["usage"@];
            let number = |n: Option<i32>|
                JsonView::Int(
                    match n {
                        Some(n) => n as int,
                        None => 0,
                    },
                );
            &&& value->Object_0.dom().contains("usage"@)
            &&& says(counts, "prompt_tokens"@, number(usage.input_tokens))
            &&& says(counts, "completion_tokens"@, number(usage.output_tokens))
            &&& says(counts, "total_tokens"@, number(usage.total_tokens))
            &&& reported(usage).prompt_tokens == number(usage.input_tokens)->Int_0
            &&& reported(usage).completion_tokens == number(usage.output_tokens)->Int_0
            &&& reported(usage).total_tokens == number(usage.total_tokens)->Int_0
        }),
{
    lemma_keys_differ();
    lemma_usage_keys_differ();
}

/// What a completion consists of goes out under these keys, in this order, each once.
pub proof fn a_completion_goes_out_in_order(
    created: i64,
    model: Seq<char>,
    content: Seq<BlockView>,
    usage: ProviderUsage,
)
    ensures
        ({
            let parts = completion_parts(created, model, content, usage);
            let value = completion_json(created, model, content, usage)->Object_0;
            let counts = value["usage"@]->Object_0;
            &&& parts.len() == 6
            &&& parts[0] == ("id"@, json_text(value["id"@]))
            &&& parts[1] == ("object"@, json_text(value["object"@]))
            &&& parts[2] == ("created"@, json_text(value["created"@]))
            &&& parts[3] == ("model"@, json_text(value["model"@]))
            &&& parts[4].0 == "choices"@
            &&& parts[5] == ("usage"@, object_text(usage_parts(reported(usage))))
            &&& usage_parts(reported(usage)) == seq![
                ("prompt_tokens"@, json_text(counts["prompt_tokens"@])),
                ("completion_tokens"@, json_text(counts["completion_tokens"@])),
                ("total_tokens"@, json_text(counts["total_tokens"@])),
            ]
        }),
{
    lemma_keys_differ();
    lemma_usage_keys_differ();
}

/// What the choice of a completion consists of goes out under these keys, in this order, each once;
/// so does its message, and each of the calls in that.
pub proof fn a_choice_goes_out_in_order(
    created: i64,
    model: Seq<char>,
    content: Seq<BlockView>,
    usage: ProviderUsage,
    k: int,
)
    ensures
        ({
            let value = completion_json(created, model, content, usage);
            let choice = value->Object_0["choices"@]->Array_0[0]->Object_0;
            let message = choice["message"@]->Object_0;
            let calls = calls_in(content);
            let said = reply_parts(reply_text(content), calls);
            let listed = calls.map_values(|c: OutCallView| object_text(call_parts(c)));
            &&& choice_parts(content).len() == 3
            &&& choice_parts(content)[0] == ("index"@, json_text(choice["index"@]))
            &&& choice_parts(content)[1] == ("message"@, object_text(said))
            &&& choice_parts(content)[2].0 == "finish_reason"@
            &&& said[0] == ("role"@, json_text(message["role"@]))
            &&& said[1] == ("content"@, json_text(message["content"@]))
            &&& calls.len() == 0 ==> said.len() == 2
            &&& calls.len() > 0 ==> said.len() == 3 && said[2] == (
                "tool_calls"@,
                list_text(listed),
            )
            &&& 0 <= k < calls.len() ==> {
                let call = message["tool_calls"@]->Array_0[k]->Object_0;
                let function = call["function"@]->Object_0;
                &&& call_parts(calls[k]) == seq![
                    ("id"@, json_text(call["id"@])),
                    ("type"@, json_text(call["type"@])),
                    ("function"@, object_text(function_parts(calls[k]))),
                ]
                &&& function_parts(calls[k]) == seq![
                    ("name"@, json_text(function["name"@])),
                    ("arguments"@, json_text(function["arguments"@])),
                ]
            }
        }),
{
    lemma_keys_differ();
    lemma_choice_keys_differ();
    lemma_call_keys_differ();
}

/// The view of a tool call leaves no field out, and calls are viewed one by one, in order.
pub proof fn views_of_calls_leave_nothing_out(call: OutToolCall, all: Seq<OutToolCall>, i: int)
    ensures
        call@.id == call.id@,
        call@.name == call.function.name@,
        call@.arguments == call.function.arguments@,
        out_calls(all).len() == all.len(),
        0 <= i < all.len() ==> out_calls(all)[i] == all[i]@,
{
}

/// A completion says all of this and nothing else.
pub proof fn a_completion_says_nothing_else(
    created: i64,
    model: Seq<char>,
    content: Seq<BlockView>,
    usage: ProviderUsage,
    k: int,
)
    ensures
        ({
            let value = completion_json(created, model, content, usage);
            let choice = value->Object_0["choices"@]->Array_0[0];
            let message = choice->Object_0["message"@];
            let calls = message->Object_0["tool_calls"@]->Array_0;
            &&& has_just(
                value,
                set!["id"@, "object"@, "created"@, "model"@, "choices"@, "usage"@],
            )
            &&& has_just(choice, set!["index"@, "message"@, "finish_reason"@])
            &&& has_just(
                message,
                if calls_in(content).len() > 0 {
                    set!["role"@, "content"@, "tool_calls"@]
                } else {
                    set!["role"@, "content"@]
                },
            )
            &&& has_just(
                value->Object_0["usage"@],
                set!["prompt_tokens"@, "completion_tokens"@, "total_tokens"@],
            )
            &&& 0 <= k < calls_in(content).len() ==> {
                &&& has_just(calls[k], set!["id"@, "type"@, "function"@])
                &&& has_just(calls[k]->Object_0["function"@], set!["name"@, "arguments"@])
            }
        }),
{
    lemma_keys_differ();
    lemma_choice_keys_differ();
    lemma_call_keys_differ();
    lemma_usage_keys_differ();
}

} // verus!
