//! From the chat format that clients send to the messages that a provider takes.

use crate::json::{
    array_view, is_silent_on, json_parse, member, says_text, Json, JsonObject, JsonView,
};
use crate::seqs::lemma_filter_push;
use crate::text::{begins_with, join, joined, joining_adds_at_the_end, same, texts};
use vstd::prelude::*;

verus! {

// ---------------------------------------------------------------------------
// What a client sends
// ---------------------------------------------------------------------------

/// A request for a chat completion.
#[derive(Debug)]
pub struct ChatRequest {
    pub model: Option<String>,
    /// The provider to answer through.
    pub provider: Option<String>,
    pub messages: Vec<InMessage>,
    pub tools: Vec<InTool>,
    pub stream: bool,
    pub stream_options: Option<StreamOptions>,
}

#[derive(Clone, Copy, Debug, PartialEq, Eq, Structural)]
pub struct StreamOptions {
    pub include_usage: bool,
}

/// A message of the transcript.
#[derive(Debug)]
pub struct InMessage {
    pub role: String,
    /// A string, or parts that each may carry a `text`.
    pub content: Option<Json>,
    pub tool_calls: Vec<InToolCall>,
    /// For a `tool` message, the call that it answers.
    pub tool_call_id: Option<String>,
}

#[derive(Debug)]
pub struct InToolCall {
    pub id: String,
    pub function: InFunction,
}

#[derive(Debug)]
pub struct InFunction {
    pub name: String,
    /// A JSON object, as text.
    pub arguments: String,
}

/// A tool on offer.
#[derive(Debug)]
pub struct InTool {
    pub function: InToolDef,
}

#[derive(Debug)]
pub struct InToolDef {
    pub name: String,
    pub description: String,
    /// The JSON Schema of the arguments.
    pub parameters: Option<Json>,
}

pub struct InMessageView {
    pub role: Seq<char>,
    pub content: Option<JsonView>,
    pub tool_calls: Seq<InCallView>,
    pub tool_call_id: Option<Seq<char>>,
}

pub struct InCallView {
    pub id: Seq<char>,
    pub name: Seq<char>,
    pub arguments: Seq<char>,
}

pub struct InToolView {
    pub name: Seq<char>,
    pub description: Seq<char>,
    pub parameters: Option<JsonView>,
}

/// An optional text.
pub open spec fn opt_text(s: Option<String>) -> Option<Seq<char>> {
    match s {
        Some(t) => Some(t@),
        None => None,
    }
}

/// An optional JSON value.
pub open spec fn opt_json(j: Option<Json>) -> Option<JsonView> {
    match j {
        Some(v) => Some(v@),
        None => None,
    }
}

impl View for InToolCall {
    type V = InCallView;

    open spec fn view(&self) -> InCallView {
        InCallView {
            id: self.id@,
            name: self.function.name@,
            arguments: self.function.arguments@,
        }
    }
}

impl View for InMessage {
    type V = InMessageView;

    open spec fn view(&self) -> InMessageView {
        InMessageView {
            role: self.role@,
            content: opt_json(self.content),
            tool_calls: self.tool_calls@.map_values(|c: InToolCall| c@),
            tool_call_id: opt_text(self.tool_call_id),
        }
    }
}

impl View for InTool {
    type V = InToolView;

    open spec fn view(&self) -> InToolView {
        InToolView {
            name: self.function.name@,
            description: self.function.description@,
            parameters: opt_json(self.function.parameters),
        }
    }
}

/// The messages of a transcript, each taken by its view.
pub open spec fn in_messages(all: Seq<InMessage>) -> Seq<InMessageView> {
    all.map_values(|m: InMessage| m@)
}

// ---------------------------------------------------------------------------
// What a provider takes and gives
// ---------------------------------------------------------------------------

/// Who a message is from.
#[derive(Clone, Copy, Debug, PartialEq, Eq, Structural)]
pub enum Role {
    User,
    Assistant,
}

/// A message to or from a provider.
#[derive(Debug)]
pub struct Message {
    pub role: Role,
    pub content: Vec<Block>,
}

/// A part of a message.
#[derive(Debug)]
pub enum Block {
    Text(String),
    ToolRequest(ToolRequest),
    ToolResponse(ToolResponse),
    /// A part that chat clients have no use for.
    Other,
}

/// A tool call that the model asks for.
#[derive(Debug)]
pub struct ToolRequest {
    pub id: String,
    /// `None` where the provider could not make sense of the call.
    pub tool_call: Option<ToolCall>,
}

#[derive(Debug)]
pub struct ToolCall {
    pub name: String,
    pub arguments: Option<JsonObject>,
}

/// The result of a tool call.
#[derive(Debug)]
pub struct ToolResponse {
    pub id: String,
    /// The text of a success, or the message of an internal error.
    pub tool_result: Result<String, String>,
}

/// A tool that the model may call.
#[derive(Debug)]
pub struct Tool {
    pub name: String,
    pub description: String,
    /// The JSON Schema of the arguments.
    pub schema: JsonObject,
}

pub struct MessageView {
    pub role: Role,
    pub content: Seq<BlockView>,
}

pub enum BlockView {
    Text(Seq<char>),
    ToolRequest(Seq<char>, Option<CallView>),
    ToolResponse(Seq<char>, Result<Seq<char>, Seq<char>>),
    Other,
}

pub struct CallView {
    pub name: Seq<char>,
    pub arguments: Option<Map<Seq<char>, JsonView>>,
}

pub struct ToolView {
    pub name: Seq<char>,
    pub description: Seq<char>,
    pub schema: Map<Seq<char>, JsonView>,
}

impl View for ToolCall {
    type V = CallView;

    open spec fn view(&self) -> CallView {
        CallView {
            name: self.name@,
            arguments: match self.arguments {
                Some(o) => Some(o@),
                None => None,
            },
        }
    }
}

impl View for Block {
    type V = BlockView;

    open spec fn view(&self) -> BlockView {
        match *self {
            Block::Text(s) => BlockView::Text(s@),
            Block::ToolRequest(q) => BlockView::ToolRequest(
                q.id@,
                match q.tool_call {
                    Some(c) => Some(c@),
                    None => None,
                },
            ),
            Block::ToolResponse(p) => BlockView::ToolResponse(
                p.id@,
                match p.tool_result {
                    Ok(s) => Ok(s@),
                    Err(s) => Err(s@),
                },
            ),
            Block::Other => BlockView::Other,
        }
    }
}

/// The parts of a message, each taken by its view.
pub open spec fn blocks(all: Seq<Block>) -> Seq<BlockView> {
    all.map_values(|b: Block| b@)
}

impl View for Message {
    type V = MessageView;

    open spec fn view(&self) -> MessageView {
        MessageView { role: self.role, content: blocks(self.content@) }
    }
}

/// Messages, each taken by its view.
pub open spec fn messages_view(all: Seq<Message>) -> Seq<MessageView> {
    all.map_values(|m: Message| m@)
}

impl View for Tool {
    type V = ToolView;

    open spec fn view(&self) -> ToolView {
        ToolView { name: self.name@, description: self.description@, schema: self.schema@ }
    }
}

// ---------------------------------------------------------------------------
// Text and arguments
// ---------------------------------------------------------------------------

/// The text that a part of a content carries.
pub open spec fn part_text(part: JsonView) -> Option<Seq<char>> {
    match member(part, "text"@) {
        Some(JsonView::Text(t)) => Some(t),
        _ => None,
    }
}

/// The texts that the parts of a content carry, in order.
pub open spec fn part_texts(parts: Seq<JsonView>) -> Seq<Seq<char>> {
    parts.filter(|p: JsonView| part_text(p) is Some).map_values(|p: JsonView| part_text(p)->0)
}

/// The text of a content: the string itself, or the texts of the parts, one on each line.
pub open spec fn content_text(content: Option<JsonView>) -> Seq<char> {
    match content {
        Some(JsonView::Text(s)) => s,
        Some(JsonView::Array(parts)) => joined(part_texts(parts), "\n"@),
        _ => Seq::empty(),
    }
}

proof fn lemma_part_texts_push(parts: Seq<JsonView>, p: JsonView)
    ensures
        part_texts(parts.push(p)) == match part_text(p) {
            Some(t) => part_texts(parts).push(t),
            None => part_texts(parts),
        },
{
    reveal(Seq::filter);
    assert(parts.push(p).drop_last() =~= parts);
    assert(part_texts(parts.push(p)) =~= match part_text(p) {
        Some(t) => part_texts(parts).push(t),
        None => part_texts(parts),
    });
}

/// The text of a message's content.
pub fn text_of(content: &Option<Json>) -> (r: String)
    ensures
        r@ == content_text(opt_json(*content)),
{
    match content {
        Some(Json::Text(s)) => s.clone(),
        Some(Json::Array(parts)) => {
            let mut found: Vec<String> = Vec::new();
            let ghost all = array_view(parts@);
            proof {
                reveal(Seq::filter);
                assert(part_texts(array_view(parts@.take(0))) =~= texts(found@));
            }
            for i in 0..parts.len()
                invariant
                    texts(found@) == part_texts(array_view(parts@.take(i as int))),
            {
                let ghost before = texts(found@);
                proof {
                    assert(parts@.take(i + 1).drop_last() =~= parts@.take(i as int));
                    lemma_part_texts_push(array_view(parts@.take(i as int)), parts@[i as int]@);
                }
                if let Some(value) = parts[i].get("text") {
                    if let Some(text) = value.as_str() {
                        found.push(text.to_owned());
                        assert(texts(found@) =~= before.push(text@));
                    }
                }
            }
            assert(parts@.take(parts@.len() as int) =~= parts@);
            join(&found, "\n")
        },
        _ => String::new(),
    }
}

/// The object that a text writes in JSON. A text that is empty, no JSON or no object stands for the
/// object without members.
pub open spec fn arguments_of(text: Seq<char>) -> Map<Seq<char>, JsonView> {
    if text.len() == 0 {
        Map::empty()
    } else {
        match json_parse(text) {
            Some(JsonView::Object(members)) => members,
            _ => Map::empty(),
        }
    }
}

/// Reads the arguments of a tool call.
pub fn json_object(text: &str) -> (r: JsonObject)
    ensures
        r@ == arguments_of(text@),
{
    if text.is_empty() {
        return JsonObject::new();
    }
    match Json::parse(text) {
        Some(Json::Object(object)) => object,
        _ => JsonObject::new(),
    }
}

// ---------------------------------------------------------------------------
// The transcript
// ---------------------------------------------------------------------------

/// A system prompt with the messages after it.
pub struct Transcript {
    pub system: Seq<char>,
    pub messages: Seq<MessageView>,
}

/// A text under those before it, on a line of its own.
pub open spec fn with_line(before: Seq<char>, line: Seq<char>) -> Seq<char> {
    if before.len() == 0 {
        line
    } else {
        before.push('\n') + line
    }
}

/// What a user message says.
pub open spec fn user_message(m: InMessageView) -> MessageView {
    MessageView { role: Role::User, content: seq![BlockView::Text(content_text(m.content))] }
}

/// The request for a tool call.
pub open spec fn request_block(call: InCallView) -> BlockView {
    BlockView::ToolRequest(
        call.id,
        Some(CallView { name: call.name, arguments: Some(arguments_of(call.arguments)) }),
    )
}

/// What an assistant message says: its text, where there is any, and then its tool calls.
pub open spec fn assistant_message(m: InMessageView) -> MessageView {
    let text = content_text(m.content);
    let said = if text.len() == 0 {
        Seq::<BlockView>::empty()
    } else {
        seq![BlockView::Text(text)]
    };
    MessageView {
        role: Role::Assistant,
        content: said + m.tool_calls.map_values(|c: InCallView| request_block(c)),
    }
}

/// The result that a tool message brings. One whose text begins with `Error:` is a failure.
pub open spec fn response_block(m: InMessageView) -> BlockView {
    let text = content_text(m.content);
    let id = match m.tool_call_id {
        Some(id) => id,
        None => Seq::empty(),
    };
    BlockView::ToolResponse(
        id,
        if "Error:"@.is_prefix_of(text) {
            Err(text)
        } else {
            Ok(text)
        },
    )
}

/// A user message with nothing but results of tool calls.
pub open spec fn holds_results(m: MessageView) -> bool {
    m.role == Role::User && forall|i: int|
        0 <= i < m.content.len() ==> #[trigger] m.content[i] is ToolResponse
}

/// One result more: in the last message where that holds results, else in a message of its own.
pub open spec fn with_result(messages: Seq<MessageView>, result: BlockView) -> Seq<MessageView> {
    if messages.len() > 0 && holds_results(messages.last()) {
        messages.drop_last().push(
            MessageView {
                role: messages.last().role,
                content: messages.last().content.push(result),
            },
        )
    } else {
        messages.push(MessageView { role: Role::User, content: seq![result] })
    }
}

/// One message more. A message whose role is none of the four adds nothing.
pub open spec fn with_message(t: Transcript, m: InMessageView) -> Transcript {
    if m.role == "system"@ {
        Transcript { system: with_line(t.system, content_text(m.content)), messages: t.messages }
    } else if m.role == "user"@ {
        Transcript { system: t.system, messages: t.messages.push(user_message(m)) }
    } else if m.role == "assistant"@ {
        Transcript { system: t.system, messages: t.messages.push(assistant_message(m)) }
    } else if m.role == "tool"@ {
        Transcript { system: t.system, messages: with_result(t.messages, response_block(m)) }
    } else {
        t
    }
}

/// The system prompt and the messages of a chat transcript.
///
/// Chat clients send the result of a tool call as a message of its own, which names the call; a
/// provider takes it as a part of a user message. Results that follow each other share one.
pub open spec fn transcript(all: Seq<InMessageView>) -> Transcript
    decreases all.len(),
{
    if all.len() == 0 {
        Transcript { system: Seq::empty(), messages: Seq::empty() }
    } else {
        with_message(transcript(all.drop_last()), all.last())
    }
}

/// Whether a message holds nothing but results of tool calls.
fn is_results(m: &Message) -> (r: bool)
    ensures
        r == holds_results(m@),
{
    if m.role != Role::User {
        return false;
    }
    for i in 0..m.content.len()
        invariant
            forall|j: int| 0 <= j < i ==> #[trigger] m@.content[j] is ToolResponse,
    {
        match m.content[i] {
            Block::ToolResponse(_) => {},
            _ => {
                assert(!(m@.content[i as int] is ToolResponse));
                return false;
            },
        }
    }
    true
}

/// The message of an assistant.
fn assistant(
    content: &Option<Json>,
    tool_calls: Vec<InToolCall>,
    Ghost(m): Ghost<InMessageView>,
) -> (r: Message)
    requires
        m.content == opt_json(*content),
        m.tool_calls == tool_calls@.map_values(|c: InToolCall| c@),
    ensures
        r@ == assistant_message(m),
{
    let mut out: Vec<Block> = Vec::new();
    let text = text_of(content);
    if !text.as_str().is_empty() {
        out.push(Block::Text(text));
    }
    let ghost said = blocks(out@);
    let ghost requests = m.tool_calls.map_values(|c: InCallView| request_block(c));
    assert(said =~= if text@.len() == 0 {
        Seq::<BlockView>::empty()
    } else {
        seq![BlockView::Text(text@)]
    });
    for call in it: tool_calls
        invariant
            it.seq() == tool_calls@,
            m.tool_calls == tool_calls@.map_values(|c: InToolCall| c@),
            requests == m.tool_calls.map_values(|c: InCallView| request_block(c)),
            blocks(out@) == said + requests.take(it.index()),
    {
        let ghost before = out@;
        assert(requests[it.index()] == request_block(call@));
        let arguments = json_object(call.function.arguments.as_str());
        out.push(
            Block::ToolRequest(
                ToolRequest {
                    id: call.id,
                    tool_call: Some(
                        ToolCall { name: call.function.name, arguments: Some(arguments) },
                    ),
                },
            ),
        );
        assert(blocks(out@) =~= blocks(before).push(requests[it.index()]));
        assert(blocks(out@) =~= said + requests.take(it.index() + 1));
    }
    assert(requests.take(requests.len() as int) =~= requests);
    Message { role: Role::Assistant, content: out }
}

/// Adds the result of a tool call.
fn add_result(messages: &mut Vec<Message>, result: ToolResponse)
    ensures
        messages_view(final(messages)@) == with_result(
            messages_view(old(messages)@),
            Block::ToolResponse(result)@,
        ),
{
    let ghost before = messages_view(messages@);
    let ghost part = Block::ToolResponse(result)@;
    let len: usize = messages.len();
    if len > 0 && is_results(&messages[len - 1]) {
        assert(before.last() == messages@[len - 1]@);
        let ghost was = messages@;
        if let Some(last) = messages.pop() {
            let mut content = last.content;
            let ghost parts = content@;
            content.push(Block::ToolResponse(result));
            assert(blocks(content@) =~= blocks(parts).push(part));
            messages.push(Message { role: last.role, content });
        }
        assert(messages_view(messages@) =~= with_result(before, part));
    } else {
        assert(len > 0 ==> before.last() == messages@[len - 1]@);
        let mut content: Vec<Block> = Vec::new();
        content.push(Block::ToolResponse(result));
        assert(blocks(content@) =~= seq![part]);
        messages.push(Message { role: Role::User, content });
        assert(messages_view(messages@) =~= with_result(before, part));
    }
}

/// Splits a chat transcript into the system prompt and the messages for a provider.
pub fn to_goose(messages: Vec<InMessage>) -> (r: (String, Vec<Message>))
    ensures
        r.0@ == transcript(in_messages(messages@)).system,
        messages_view(r.1@) == transcript(in_messages(messages@)).messages,
{
    let mut system = String::new();
    let mut out: Vec<Message> = Vec::new();
    let ghost all = in_messages(messages@);
    assert(messages_view(out@) =~= transcript(all.take(0)).messages);
    for m in it: messages
        invariant
            it.seq() == messages@,
            all == in_messages(messages@),
            system@ == transcript(all.take(it.index())).system,
            messages_view(out@) == transcript(all.take(it.index())).messages,
    {
        let ghost view = m@;
        proof {
            assert(all.take(it.index() + 1).drop_last() =~= all.take(it.index()));
            assert(all.take(it.index() + 1).last() == view);
        }
        let ghost before = messages_view(out@);
        let InMessage { role, content, tool_calls, tool_call_id } = m;
        if same(role.as_str(), "system") {
            if !system.as_str().is_empty() {
                system.push('\n');
            }
            let text = text_of(&content);
            let ghost so_far = system@;
            system.append(text.as_str());
            assert(so_far.len() == 0 ==> system@ =~= text@);
        } else if same(role.as_str(), "user") {
            let mut parts: Vec<Block> = Vec::new();
            parts.push(Block::Text(text_of(&content)));
            assert(blocks(parts@) =~= user_message(view).content);
            out.push(Message { role: Role::User, content: parts });
            assert(messages_view(out@) =~= before.push(user_message(view)));
        } else if same(role.as_str(), "assistant") {
            let message = assistant(&content, tool_calls, Ghost(view));
            out.push(message);
            assert(messages_view(out@) =~= before.push(assistant_message(view)));
        } else if same(role.as_str(), "tool") {
            let id = match tool_call_id {
                Some(id) => id,
                None => String::new(),
            };
            let text = text_of(&content);
            let tool_result = if begins_with(text.as_str(), "Error:") {
                Err(text)
            } else {
                Ok(text)
            };
            add_result(&mut out, ToolResponse { id, tool_result });
        }
    }
    assert(all.take(all.len() as int) =~= all);
    (system, out)
}

/// The schema of a tool's arguments; any object where none is given.
pub open spec fn schema_of(parameters: Option<JsonView>) -> Map<Seq<char>, JsonView> {
    match parameters {
        Some(JsonView::Object(members)) => members,
        _ => map!["type"@ => JsonView::Text("object"@)],
    }
}

/// A tool on offer as the model sees it.
pub open spec fn offered(tool: InToolView) -> ToolView {
    ToolView {
        name: tool.name,
        description: tool.description,
        schema: schema_of(tool.parameters),
    }
}

/// The tools on offer.
pub fn to_tools(tools: Vec<InTool>) -> (r: Vec<Tool>)
    ensures
        r@.map_values(|t: Tool| t@) == tools@.map_values(|t: InTool| offered(t@)),
{
    let mut out: Vec<Tool> = Vec::new();
    let ghost all = tools@.map_values(|t: InTool| offered(t@));
    for tool in it: tools
        invariant
            it.seq() == tools@,
            all == tools@.map_values(|t: InTool| offered(t@)),
            out@.map_values(|t: Tool| t@) == all.take(it.index()),
    {
        let ghost before = out@.map_values(|t: Tool| t@);
        let ghost view = tool@;
        let schema = match tool.function.parameters {
            Some(Json::Object(object)) => object,
            _ => JsonObject::new().with("type", Json::text("object")),
        };
        out.push(
            Tool { name: tool.function.name, description: tool.function.description, schema },
        );
        assert(out@.map_values(|t: Tool| t@) =~= before.push(offered(view)));
        assert(before.push(offered(view)) =~= all.take(it.index() + 1));
    }
    assert(all.take(all.len() as int) =~= all);
    out
}

// ---------------------------------------------------------------------------
// What holds of every transcript
// ---------------------------------------------------------------------------

/// The results of tool calls among the parts of a message, in order.
pub open spec fn results_in(content: Seq<BlockView>) -> Seq<BlockView> {
    content.filter(|b: BlockView| b is ToolResponse)
}

/// The results of tool calls in messages, in order.
pub open spec fn all_results(messages: Seq<MessageView>) -> Seq<BlockView>
    decreases messages.len(),
{
    if messages.len() == 0 {
        Seq::empty()
    } else {
        all_results(messages.drop_last()) + results_in(messages.last().content)
    }
}

/// The results that tool messages bring, in order.
pub open spec fn results_sent(all: Seq<InMessageView>) -> Seq<BlockView> {
    all.filter(|m: InMessageView| m.role == "tool"@).map_values(
        |m: InMessageView| response_block(m),
    )
}

/// A message of a user or an assistant.
pub open spec fn spoken(m: InMessageView) -> bool {
    m.role == "user"@ || m.role == "assistant"@
}

/// The messages of users and assistants, as a provider takes them, in order.
pub open spec fn spoken_messages(all: Seq<InMessageView>) -> Seq<MessageView> {
    all.filter(|m: InMessageView| spoken(m)).map_values(
        |m: InMessageView|
            if m.role == "user"@ {
                user_message(m)
            } else {
                assistant_message(m)
            },
    )
}

/// The system messages, in order.
pub open spec fn system_messages(all: Seq<InMessageView>) -> Seq<InMessageView> {
    all.filter(|m: InMessageView| m.role == "system"@)
}

proof fn lemma_roles_differ()
    ensures
        "system"@ != "user"@,
        "system"@ != "assistant"@,
        "system"@ != "tool"@,
        "user"@ != "assistant"@,
        "user"@ != "tool"@,
        "assistant"@ != "tool"@,
{
    reveal_strlit("system");
    reveal_strlit("user");
    reveal_strlit("assistant");
    reveal_strlit("tool");
    assert("system"@.len() == 6 && "user"@.len() == 4 && "assistant"@.len() == 9 && "tool"@.len()
        == 4);
    assert("user"@[0] != "tool"@[0]);
}

/// Neither a user message nor an assistant message passes for results of tool calls.
proof fn lemma_spoken_is_no_result(m: InMessageView)
    ensures
        !holds_results(user_message(m)),
        !holds_results(assistant_message(m)),
        results_in(user_message(m).content) == Seq::<BlockView>::empty(),
        results_in(assistant_message(m).content) == Seq::<BlockView>::empty(),
{
    assert(!(user_message(m).content[0] is ToolResponse));
    lemma_no_results(user_message(m).content);
    lemma_no_results(assistant_message(m).content);
}

proof fn lemma_no_results(content: Seq<BlockView>)
    requires
        forall|i: int| 0 <= i < content.len() ==> !(#[trigger] content[i] is ToolResponse),
    ensures
        results_in(content) == Seq::<BlockView>::empty(),
    decreases content.len(),
{
    reveal(Seq::filter);
    if content.len() > 0 {
        lemma_no_results(content.drop_last());
    }
}

/// Results of tool calls that follow each other share one message: no two neighbours both hold
/// nothing but results.
pub proof fn neighbouring_results_share_one_message(all: Seq<InMessageView>)
    ensures
        forall|i: int|
            0 <= i < transcript(all).messages.len() - 1 && holds_results(
                #[trigger] transcript(all).messages[i],
            ) ==> !holds_results(transcript(all).messages[i + 1]),
    decreases all.len(),
{
    if all.len() > 0 {
        let m = all.last();
        let before = transcript(all.drop_last()).messages;
        let after = transcript(all).messages;
        neighbouring_results_share_one_message(all.drop_last());
        lemma_roles_differ();
        lemma_spoken_is_no_result(m);
        assert forall|i: int| 0 <= i < after.len() - 1 && holds_results(#[trigger] after[i]) implies
            !holds_results(after[i + 1]) by {
            assert(after[i] == before[i]);
            if i + 1 < before.len() {
                if m.role == "tool"@ && holds_results(before.last()) && i + 1 == before.len() - 1 {
                    assert(!holds_results(before[i + 1]));
                    assert(false);
                }
                assert(after[i + 1] == before[i + 1]);
            }
        }
    }
}

/// Every tool message is delivered exactly once and in order, as the result it brings; no other
/// message brings a result.
pub proof fn every_result_is_delivered_once(all: Seq<InMessageView>)
    ensures
        all_results(transcript(all).messages) == results_sent(all),
    decreases all.len(),
{
    if all.len() > 0 {
        let m = all.last();
        let rest = all.drop_last();
        let before = transcript(rest).messages;
        let after = transcript(all).messages;
        every_result_is_delivered_once(rest);
        lemma_roles_differ();
        lemma_spoken_is_no_result(m);
        assert(rest.push(m) =~= all);
        lemma_filter_push(rest, m, |x: InMessageView| x.role == "tool"@);
        if m.role == "tool"@ {
            let part = response_block(m);
            let is_result = |b: BlockView| b is ToolResponse;
            assert(results_sent(all) =~= results_sent(rest).push(part));
            if before.len() > 0 && holds_results(before.last()) {
                lemma_filter_push(before.last().content, part, is_result);
                assert(after.drop_last() =~= before.drop_last());
                assert(all_results(after) =~= all_results(before).push(part));
            } else {
                assert(seq![part] =~= Seq::<BlockView>::empty().push(part));
                lemma_filter_push(Seq::<BlockView>::empty(), part, is_result);
                lemma_no_results(Seq::empty());
                assert(after.drop_last() =~= before);
                assert(all_results(after) =~= all_results(before).push(part));
            }
        } else {
            assert(results_sent(all) =~= results_sent(rest));
            if spoken(m) {
                assert(after.drop_last() =~= before);
                assert(all_results(after) =~= all_results(before));
            }
        }
    } else {
        reveal(Seq::filter);
        assert(results_sent(all) =~= Seq::empty());
    }
}

/// What users and assistants say is kept, in order and with nothing added: apart from the messages
/// that hold results of tool calls there is nothing else.
pub proof fn everything_spoken_is_kept_in_order(all: Seq<InMessageView>)
    ensures
        transcript(all).messages.filter(|m: MessageView| !holds_results(m)) == spoken_messages(all),
    decreases all.len(),
{
    let speech = |m: MessageView| !holds_results(m);
    if all.len() > 0 {
        let m = all.last();
        let rest = all.drop_last();
        let before = transcript(rest).messages;
        let after = transcript(all).messages;
        everything_spoken_is_kept_in_order(rest);
        lemma_roles_differ();
        lemma_spoken_is_no_result(m);
        assert(rest.push(m) =~= all);
        lemma_filter_push(rest, m, |x: InMessageView| spoken(x));
        if spoken(m) {
            lemma_filter_push(before, after.last(), speech);
            assert(spoken_messages(all) =~= spoken_messages(rest).push(after.last()));
        } else if m.role == "tool"@ {
            assert(spoken_messages(all) =~= spoken_messages(rest));
            let part = response_block(m);
            if before.len() > 0 && holds_results(before.last()) {
                let kept = before.drop_last();
                assert(before =~= kept.push(before.last()));
                lemma_filter_push(kept, before.last(), speech);
                lemma_filter_push(kept, after.last(), speech);
                assert forall|i: int| 0 <= i < after.last().content.len() implies #[trigger] after.last().content[i] is ToolResponse by {
                    if i < before.last().content.len() {
                        assert(after.last().content[i] == before.last().content[i]);
                    }
                }
                assert(holds_results(after.last()));
            } else {
                lemma_filter_push(before, after.last(), speech);
                assert(holds_results(after.last()));
            }
        } else {
            assert(spoken_messages(all) =~= spoken_messages(rest));
        }
    } else {
        reveal(Seq::filter);
        assert(spoken_messages(all) =~= Seq::empty());
        assert(transcript(all).messages.filter(speech) =~= Seq::empty());
    }
}

/// The system prompt comes from the system messages alone.
pub proof fn system_prompt_comes_from_system_messages(all: Seq<InMessageView>)
    ensures
        transcript(all).system == transcript(system_messages(all)).system,
    decreases all.len(),
{
    if all.len() > 0 {
        let m = all.last();
        let rest = all.drop_last();
        system_prompt_comes_from_system_messages(rest);
        lemma_roles_differ();
        assert(rest.push(m) =~= all);
        lemma_filter_push(rest, m, |x: InMessageView| x.role == "system"@);
        if m.role == "system"@ {
            assert(system_messages(all).drop_last() =~= system_messages(rest));
        }
    } else {
        reveal(Seq::filter);
        assert(system_messages(all) =~= all);
    }
}

// ---------------------------------------------------------------------------
// What becomes of each message
// ---------------------------------------------------------------------------

/// A part of a content carries a text.
pub open spec fn carries(part: JsonView, text: Seq<char>) -> bool {
    says_text(part, "text"@, text)
}

/// A part of a content carries some text.
pub open spec fn carries_any(part: JsonView) -> bool {
    exists|text: Seq<char>| carries(part, text)
}

proof fn lemma_carries(part: JsonView)
    ensures
        part_text(part) is Some == carries_any(part),
        part_text(part) is Some ==> carries(part, part_text(part)->0),
        forall|text: Seq<char>| carries(part, text) ==> part_text(part) == Some(text),
{
    if part_text(part) is Some {
        assert(carries(part, part_text(part)->0));
    }
}

proof fn lemma_any_text(parts: Seq<JsonView>)
    ensures
        part_texts(parts).len() > 0 <==> exists|i: int|
            0 <= i < parts.len() && carries_any(#[trigger] parts[i]),
    decreases parts.len(),
{
    if parts.len() > 0 {
        let rest = parts.drop_last();
        let last = parts.last();
        lemma_any_text(rest);
        lemma_carries(last);
        assert(rest.push(last) =~= parts);
        lemma_part_texts_push(rest, last);
        if part_texts(rest).len() > 0 {
            let i = choose|i: int| 0 <= i < rest.len() && carries_any(#[trigger] rest[i]);
            assert(carries_any(parts[i]));
        }
        if carries_any(last) {
            assert(carries_any(parts[parts.len() - 1]));
        }
        if exists|i: int| 0 <= i < parts.len() && carries_any(#[trigger] parts[i]) {
            let i = choose|i: int| 0 <= i < parts.len() && carries_any(#[trigger] parts[i]);
            if i < rest.len() {
                assert(rest[i] == parts[i]);
            }
        }
    } else {
        reveal(Seq::filter);
    }
}

/// A content that is a string is its own text. One of parts says what its parts carry, each on a
/// line of its own; a part that carries nothing adds nothing. Anything else says nothing.
pub proof fn every_part_that_carries_text_is_said(
    s: Seq<char>,
    parts: Seq<JsonView>,
    part: JsonView,
    text: Seq<char>,
    other: JsonView,
)
    ensures
        ({
            let before = content_text(Some(JsonView::Array(parts)));
            let after = content_text(Some(JsonView::Array(parts.push(part))));
            let spoke = exists|i: int| 0 <= i < parts.len() && carries_any(#[trigger] parts[i]);
            &&& content_text(Some(JsonView::Text(s))) == s
            &&& content_text(Some(JsonView::Array(Seq::empty()))) == Seq::<char>::empty()
            &&& !carries_any(part) ==> after == before
            &&& carries(part, text) && !spoke ==> after == text
            &&& carries(part, text) && spoke ==> after == before + seq!['\n'] + text
            &&& content_text(None) == Seq::<char>::empty()
            &&& !(other is Text || other is Array) ==> content_text(Some(other)) == Seq::<
                char,
            >::empty()
        }),
{
    reveal_strlit("\n");
    assert("\n"@ =~= seq!['\n']);
    lemma_any_text(parts);
    lemma_carries(part);
    lemma_part_texts_push(parts, part);
    if carries(part, text) {
        assert(carries_any(part));
        joining_adds_at_the_end(part_texts(parts), text, "\n"@);
    }
    reveal(Seq::filter);
    assert(part_texts(Seq::empty()) =~= Seq::empty());
}

/// The arguments of a call are the object that their text writes; a text that is empty, or that
/// writes anything else, stands for no arguments.
pub proof fn arguments_are_what_their_text_writes(
    text: Seq<char>,
    members: Map<Seq<char>, JsonView>,
)
    ensures
        arguments_of(Seq::empty()) == Map::<Seq<char>, JsonView>::empty(),
        text.len() > 0 && json_parse(text) == Some(JsonView::Object(members)) ==> arguments_of(text)
            == members,
        json_parse(text) is None ==> arguments_of(text) == Map::<Seq<char>, JsonView>::empty(),
        json_parse(text) is Some && !(json_parse(text)->0 is Object) ==> arguments_of(text)
            == Map::<Seq<char>, JsonView>::empty(),
{
}

/// A transcript of no messages says nothing. A system message changes the prompt alone: what it says
/// becomes its last line.
pub proof fn a_system_message_is_a_line_of_the_prompt(all: Seq<InMessageView>, m: InMessageView)
    requires
        m.role == "system"@,
    ensures
        transcript(Seq::empty()).system == Seq::<char>::empty(),
        transcript(Seq::empty()).messages == Seq::<MessageView>::empty(),
        transcript(all.push(m)).messages == transcript(all).messages,
        transcript(all).system.len() == 0 ==> transcript(all.push(m)).system == content_text(
            m.content,
        ),
        transcript(all).system.len() > 0 ==> transcript(all.push(m)).system == transcript(
            all,
        ).system + seq!['\n'] + content_text(m.content),
{
    lemma_roles_differ();
    assert(all.push(m).drop_last() =~= all);
    let before = transcript(all).system;
    assert(before.push('\n') =~= before + seq!['\n']);
}

/// A user message becomes one message of the user that holds its text and nothing else.
pub proof fn a_user_message_is_its_text(all: Seq<InMessageView>, m: InMessageView)
    requires
        m.role == "user"@,
    ensures
        ({
            let before = transcript(all);
            let after = transcript(all.push(m));
            &&& after.system == before.system
            &&& after.messages.len() == before.messages.len() + 1
            &&& after.messages.drop_last() == before.messages
            &&& after.messages.last().role == Role::User
            &&& after.messages.last().content.len() == 1
            &&& after.messages.last().content[0] == BlockView::Text(content_text(m.content))
        }),
{
    lemma_roles_differ();
    assert(all.push(m).drop_last() =~= all);
    assert(transcript(all.push(m)).messages.drop_last() =~= transcript(all).messages);
}

/// An assistant message becomes one message of the assistant: first its text, where it has any,
/// whatever calls there are beside it; then a request for each call, in order and with the id, the
/// name and the arguments of the call.
pub proof fn an_assistant_message_keeps_its_text_and_calls(
    all: Seq<InMessageView>,
    m: InMessageView,
    i: int,
)
    requires
        m.role == "assistant"@,
    ensures
        ({
            let before = transcript(all);
            let after = transcript(all.push(m));
            let content = after.messages.last().content;
            let text = content_text(m.content);
            let first: int = if text.len() > 0 {
                1
            } else {
                0
            };
            &&& after.system == before.system
            &&& after.messages.len() == before.messages.len() + 1
            &&& after.messages.drop_last() == before.messages
            &&& after.messages.last().role == Role::Assistant
            &&& content.len() == first + m.tool_calls.len()
            &&& text.len() > 0 ==> content[0] == BlockView::Text(text)
            &&& 0 <= i < m.tool_calls.len() ==> {
                let call = m.tool_calls[i];
                &&& content[first + i] is ToolRequest
                &&& content[first + i]->ToolRequest_0 == call.id
                &&& content[first + i]->ToolRequest_1 is Some
                &&& content[first + i]->ToolRequest_1->0.name == call.name
                &&& content[first + i]->ToolRequest_1->0.arguments == Some(
                    arguments_of(call.arguments),
                )
            }
        }),
{
    lemma_roles_differ();
    assert(all.push(m).drop_last() =~= all);
    assert(transcript(all.push(m)).messages.drop_last() =~= transcript(all).messages);
}

/// A tool message becomes a result under the id of its call: a failure exactly where its text begins
/// with `Error:`. It goes to the end of the last message where that is one of the user with nothing
/// but results, and else into a message of its own. Nothing before it changes.
pub proof fn a_tool_message_is_a_result(all: Seq<InMessageView>, m: InMessageView)
    requires
        m.role == "tool"@,
    ensures
        ({
            let before = transcript(all).messages;
            let after = transcript(all.push(m)).messages;
            let text = content_text(m.content);
            let last = after.last();
            let joins = before.len() > 0 && before.last().role == Role::User && forall|i: int|
                0 <= i < before.last().content.len()
                    ==> #[trigger] before.last().content[i] is ToolResponse;
            let failed = text.len() >= 6 && text.take(6) == seq!['E', 'r', 'r', 'o', 'r', ':'];
            &&& transcript(all.push(m)).system == transcript(all).system
            &&& last.role == Role::User
            &&& last.content.len() > 0
            &&& last.content.last() is ToolResponse
            &&& last.content.last()->ToolResponse_0 == match m.tool_call_id {
                Some(id) => id,
                None => Seq::empty(),
            }
            &&& failed ==> last.content.last()->ToolResponse_1 == Err::<Seq<char>, Seq<char>>(text)
            &&& !failed ==> last.content.last()->ToolResponse_1 == Ok::<Seq<char>, Seq<char>>(text)
            &&& joins ==> after.len() == before.len() && after.drop_last() == before.drop_last()
                && last.content.drop_last() == before.last().content
            &&& !joins ==> after.len() == before.len() + 1 && after.drop_last() == before
                && last.content.len() == 1
        }),
{
    lemma_roles_differ();
    assert(all.push(m).drop_last() =~= all);
    let before = transcript(all).messages;
    let after = transcript(all.push(m)).messages;
    let text = content_text(m.content);
    reveal_strlit("Error:");
    assert("Error:"@ =~= seq!['E', 'r', 'r', 'o', 'r', ':']);
    if text.len() >= 6 {
        assert("Error:"@.is_prefix_of(text) == (text.take(6) =~= "Error:"@));
    }
    if before.len() > 0 && holds_results(before.last()) {
        assert(after.drop_last() =~= before.drop_last());
        assert(after.last().content.drop_last() =~= before.last().content);
    } else {
        assert(after.drop_last() =~= before);
    }
}

/// A message of any other role changes nothing.
pub proof fn a_message_of_another_role_changes_nothing(all: Seq<InMessageView>, m: InMessageView)
    requires
        m.role != "system"@,
        m.role != "user"@,
        m.role != "assistant"@,
        m.role != "tool"@,
    ensures
        transcript(all.push(m)) == transcript(all),
{
    assert(all.push(m).drop_last() =~= all);
}

/// A tool is offered under its name, with its description and its schema; where the schema is no
/// object, any object will do.
pub proof fn a_tool_is_offered_as_it_is(tool: InToolView)
    ensures
        offered(tool).name == tool.name,
        offered(tool).description == tool.description,
        tool.parameters matches Some(JsonView::Object(schema)) ==> offered(tool).schema == schema,
        !(tool.parameters matches Some(JsonView::Object(_))) ==> {
            let any = JsonView::Object(offered(tool).schema);
            says_text(any, "type"@, "object"@) && forall|key: Seq<char>|
                key != "type"@ ==> is_silent_on(any, key)
        },
{
}

/// The views of what clients send and providers take leave no field out.
pub proof fn views_of_messages_leave_nothing_out(
    m: InMessage,
    c: InToolCall,
    t: InTool,
    out: Message,
    call: ToolCall,
    tool: Tool,
    i: int,
)
    ensures
        m@.role == m.role@,
        m.content matches Some(j) ==> m@.content == Some(j@),
        m.content is None ==> m@.content is None,
        m@.tool_calls.len() == m.tool_calls@.len(),
        0 <= i < m.tool_calls@.len() ==> m@.tool_calls[i] == m.tool_calls@[i]@,
        m.tool_call_id matches Some(id) ==> m@.tool_call_id == Some(id@),
        m.tool_call_id is None ==> m@.tool_call_id is None,
        c@.id == c.id@ && c@.name == c.function.name@ && c@.arguments == c.function.arguments@,
        t@.name == t.function.name@ && t@.description == t.function.description@,
        t.function.parameters matches Some(j) ==> t@.parameters == Some(j@),
        t.function.parameters is None ==> t@.parameters is None,
        out@.role == out.role && out@.content.len() == out.content@.len(),
        0 <= i < out.content@.len() ==> out@.content[i] == out.content@[i]@,
        call@.name == call.name@,
        call.arguments matches Some(o) ==> call@.arguments == Some(o@),
        call.arguments is None ==> call@.arguments is None,
        tool@.name == tool.name@ && tool@.description == tool.description@,
        tool@.schema == tool.schema@,
{
}

/// Messages and parts are viewed one by one, in order.
pub proof fn views_of_lists_keep_their_order(
    all: Seq<InMessage>,
    out: Seq<Message>,
    parts: Seq<Block>,
    i: int,
)
    ensures
        in_messages(all).len() == all.len(),
        0 <= i < all.len() ==> in_messages(all)[i] == all[i]@,
        messages_view(out).len() == out.len(),
        0 <= i < out.len() ==> messages_view(out)[i] == out[i]@,
        blocks(parts).len() == parts.len(),
        0 <= i < parts.len() ==> blocks(parts)[i] == parts[i]@,
{
}

/// The view of a part of a message tells what it is and all that is in it.
pub proof fn views_of_parts_leave_nothing_out(s: String, q: ToolRequest, p: ToolResponse)
    ensures
        Block::Text(s)@ == BlockView::Text(s@),
        Block::Other@ is Other,
        Block::ToolRequest(q)@ is ToolRequest,
        Block::ToolRequest(q)@->ToolRequest_0 == q.id@,
        q.tool_call matches Some(c) ==> Block::ToolRequest(q)@->ToolRequest_1 == Some(c@),
        q.tool_call is None ==> Block::ToolRequest(q)@->ToolRequest_1 is None,
        Block::ToolResponse(p)@ is ToolResponse,
        Block::ToolResponse(p)@->ToolResponse_0 == p.id@,
        p.tool_result matches Ok(t) ==> Block::ToolResponse(p)@->ToolResponse_1 == Ok::<
            Seq<char>,
            Seq<char>,
        >(t@),
        p.tool_result matches Err(t) ==> Block::ToolResponse(p)@->ToolResponse_1 == Err::<
            Seq<char>,
            Seq<char>,
        >(t@),
{
}

} // verus!
