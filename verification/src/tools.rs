//! Tools of an MCP server, offered to clients.

use crate::json::{
    has_just, is_silent_on, json_text, json_views, object_text, says, says_text, Json, JsonObject,
    JsonView,
};
use crate::reply::{
    answer, answer_in_order, error, failure, failures_say_what_went_wrong, success, success_in_order,
    tells, Reply, ReplyView, BAD_GATEWAY, GATEWAY_TIMEOUT, NOT_FOUND,
};
use crate::text::{
    decimal, join, joined, joining_adds_at_the_end, natural_text, split_words, texts, words,
};
use vstd::prelude::*;

verus! {

/// How many seconds a tool call may take. A payment can take a while to settle or fail; past this
/// the client is told that the outcome is not known, not that it failed.
pub const CALL_TIMEOUT_SECONDS: u64 = 120;

// ---------------------------------------------------------------------------
// The server
// ---------------------------------------------------------------------------

/// An MCP server: a program with its arguments. It is started on first use, and again after it went
/// away.
#[derive(Debug)]
pub struct McpTools {
    pub program: String,
    pub args: Vec<String>,
}

/// What is known of the server that was started last.
#[derive(Clone, Copy, Debug, PartialEq, Eq, Structural)]
pub enum Session {
    /// None has been started, or it was given up.
    Absent,
    /// It is running.
    Open,
    /// It went away.
    Closed,
}

impl McpTools {
    /// A command: a program and its arguments, with white space between them.
    pub fn from_command(command: &str) -> (r: Option<Self>)
        ensures
            match r {
                Some(tools) => words(command@).len() > 0 && tools.program@ == words(command@)[0]
                    && texts(tools.args@) == words(command@).skip(1),
                None => words(command@).len() == 0,
            },
    {
        let mut parts = split_words(command);
        assert(texts(parts@).len() == parts@.len());
        if parts.len() == 0 {
            return None;
        }
        let ghost all = parts@;
        assert(all[0]@ == texts(all)[0]);
        let program = parts.remove(0);
        assert(texts(parts@) =~= texts(all).skip(1));
        Some(McpTools { program, args: parts })
    }

    /// The program.
    pub fn program(&self) -> (r: &str)
        ensures
            r@ == self.program@,
    {
        self.program.as_str()
    }

    /// Whether a server has to be started.
    pub fn must_start(&self, session: Session) -> (r: bool)
        ensures
            r == !(session is Open),
    {
        match session {
            Session::Open => false,
            _ => true,
        }
    }

    /// What is wrong where the program could not be started.
    pub fn start_error(&self, e: &str) -> (r: String)
        ensures
            r@ == "could not start "@ + self.program@ + ": "@ + e@,
    {
        "could not start ".to_owned().concat(self.program.as_str()).concat(": ").concat(e)
    }

    /// What is wrong where the program does not serve tools.
    pub fn serve_error(&self, e: &str) -> (r: String)
        ensures
            r@ == self.program@ + " did not start as an MCP server: "@ + e@,
    {
        self.program.as_str().to_owned().concat(" did not start as an MCP server: ").concat(e)
    }
}

/// The answer where no server is set.
pub open spec fn not_configured_reply() -> ReplyView {
    failure(
        NOT_FOUND,
        "no tools: set GOOSE_GATEWAY_MCP_COMMAND to serve an MCP server's tools"@,
        "not_found"@,
    )
}

/// The answer where no server is set.
pub fn not_configured() -> (r: Reply)
    ensures
        r@ == not_configured_reply(),
{
    error(
        NOT_FOUND,
        "no tools: set GOOSE_GATEWAY_MCP_COMMAND to serve an MCP server's tools",
        "not_found",
    )
}

// ---------------------------------------------------------------------------
// Listing
// ---------------------------------------------------------------------------

/// Hints that a server gives about a tool.
#[derive(Clone, Copy, Debug)]
pub struct ToolHints {
    pub read_only: Option<bool>,
    pub destructive: Option<bool>,
}

/// A tool as a server describes it.
#[derive(Debug)]
pub struct ServedTool {
    pub name: String,
    pub description: Option<String>,
    /// JSON Schema for the arguments.
    pub input_schema: JsonObject,
    pub annotations: Option<ToolHints>,
}

/// A tool as clients see it: the shape of a function in a chat request, and the hints.
#[derive(Debug)]
pub struct ToolInfo {
    pub name: String,
    pub description: String,
    /// JSON Schema for the arguments, as in a chat request.
    pub parameters: Json,
    /// Whether it only reads, where the server says so. Only a hint: it is the server that says so.
    pub read_only: Option<bool>,
    /// Whether it destroys, where the server says so.
    pub destructive: Option<bool>,
}

pub struct ServedToolView {
    pub name: Seq<char>,
    pub description: Option<Seq<char>>,
    pub input_schema: Map<Seq<char>, JsonView>,
    pub annotations: Option<ToolHints>,
}

pub struct ToolInfoView {
    pub name: Seq<char>,
    pub description: Seq<char>,
    pub parameters: JsonView,
    pub read_only: Option<bool>,
    pub destructive: Option<bool>,
}

impl View for ServedTool {
    type V = ServedToolView;

    open spec fn view(&self) -> ServedToolView {
        ServedToolView {
            name: self.name@,
            description: match self.description {
                Some(d) => Some(d@),
                None => None,
            },
            input_schema: self.input_schema@,
            annotations: self.annotations,
        }
    }
}

impl View for ToolInfo {
    type V = ToolInfoView;

    open spec fn view(&self) -> ToolInfoView {
        ToolInfoView {
            name: self.name@,
            description: self.description@,
            parameters: self.parameters@,
            read_only: self.read_only,
            destructive: self.destructive,
        }
    }
}

/// What clients see of a tool. One that is not described has an empty description.
pub open spec fn tool_info(tool: ServedToolView) -> ToolInfoView {
    ToolInfoView {
        name: tool.name,
        description: match tool.description {
            Some(d) => d,
            None => Seq::empty(),
        },
        parameters: JsonView::Object(tool.input_schema),
        read_only: match tool.annotations {
            Some(hints) => hints.read_only,
            None => None,
        },
        destructive: match tool.annotations {
            Some(hints) => hints.destructive,
            None => None,
        },
    }
}

/// A member that is left out where there is nothing to say.
pub open spec fn with_hint(
    members: Map<Seq<char>, JsonView>,
    key: Seq<char>,
    hint: Option<bool>,
) -> Map<Seq<char>, JsonView> {
    match hint {
        Some(b) => members.insert(key, JsonView::Bool(b)),
        None => members,
    }
}

/// A tool in JSON. Hints that the server does not give stay out.
pub open spec fn tool_json(tool: ToolInfoView) -> JsonView {
    let members = map![
        "name"@ => JsonView::Text(tool.name),
        "description"@ => JsonView::Text(tool.description),
        "parameters"@ => tool.parameters,
    ];
    JsonView::Object(
        with_hint(
            with_hint(members, "read_only"@, tool.read_only),
            "destructive"@,
            tool.destructive,
        ),
    )
}

/// Tools as a server describes them, each taken by its view.
pub open spec fn served_views(all: Seq<ServedTool>) -> Seq<ServedToolView> {
    all.map_values(|t: ServedTool| t@)
}

/// The list of tools in JSON.
pub open spec fn tools_json(all: Seq<ServedToolView>) -> JsonView {
    JsonView::Object(
        map![
            "tools"@ => JsonView::Array(
                all.map_values(|t: ServedToolView| tool_json(tool_info(t))),
            ),
        ],
    )
}

fn hinted(object: JsonObject, key: &str, hint: Option<bool>) -> (r: JsonObject)
    ensures
        r@ == with_hint(object@, key@, hint),
{
    match hint {
        Some(b) => object.with(key, Json::Bool(b)),
        None => object,
    }
}

impl ToolInfo {
    /// What clients see of a tool.
    pub fn from(tool: ServedTool) -> (r: Self)
        ensures
            r@ == tool_info(tool@),
            r.name@ == tool.name@,
            tool.description matches Some(d) ==> r.description@ == d@,
            tool.description is None ==> r.description@ == Seq::<char>::empty(),
            r.parameters@ == JsonView::Object(tool.input_schema@),
    {
        let (read_only, destructive) = match tool.annotations {
            Some(hints) => (hints.read_only, hints.destructive),
            None => (None, None),
        };
        let description = match tool.description {
            Some(d) => d,
            None => String::new(),
        };
        let parameters = Json::Object(tool.input_schema);
        ToolInfo { name: tool.name, description, parameters, read_only, destructive }
    }

    /// The tool in JSON.
    pub fn into_json(self) -> (r: Json)
        ensures
            r@ == tool_json(self@),
    {
        let object = JsonObject::new().with("name", Json::Text(self.name)).with(
            "description",
            Json::Text(self.description),
        ).with("parameters", self.parameters);
        let object = hinted(object, "read_only", self.read_only);
        Json::Object(hinted(object, "destructive", self.destructive))
    }
}

/// The answer that lists tools.
fn tool_list(tools: Vec<ServedTool>) -> (r: Reply)
    ensures
        r@ == success(tools_json(served_views(tools@))),
{
    let ghost shown = |t: ServedToolView| tool_json(tool_info(t));
    let ghost all = served_views(tools@).map_values(shown);
    let mut items: Vec<Json> = Vec::new();
    assert(json_views(items@) =~= all.take(0));
    for tool in it: tools
        invariant
            it.seq() == tools@,
            shown == (|t: ServedToolView| tool_json(tool_info(t))),
            all == served_views(tools@).map_values(shown),
            json_views(items@) == all.take(it.index()),
    {
        let ghost before = json_views(items@);
        let ghost item = tool_json(tool_info(tool@));
        items.push(ToolInfo::from(tool).into_json());
        assert(json_views(items@) =~= before.push(item));
        assert(json_views(items@) =~= all.take(it.index() + 1));
    }
    assert(all.take(all.len() as int) =~= all);
    answer(Json::Object(JsonObject::new().with("tools", Json::array(items))))
}

/// How far a listing has come.
#[derive(Clone, Copy, Debug, PartialEq, Eq, Structural)]
pub enum ListStage {
    /// The server is made ready; `again` says that it failed once already.
    Connecting { again: bool },
    /// The server was asked.
    Asking { again: bool },
    /// The server is given up.
    Resetting,
    /// The request is answered.
    Done,
}

/// What happens to the server.
#[derive(Debug)]
pub enum ListEvent {
    /// It is ready.
    Connected,
    /// It could not be made ready.
    Unavailable(String),
    /// Its tools.
    Listed(Vec<ServedTool>),
    /// It did not list them.
    Failed(String),
    /// It was given up.
    Reset,
}

pub enum ListEventView {
    Connected,
    Unavailable(Seq<char>),
    Listed(Seq<ServedToolView>),
    Failed(Seq<char>),
    Reset,
}

/// What to do.
#[derive(Debug)]
pub enum ListAction {
    /// Make the server ready.
    Connect,
    /// Ask it for its tools.
    Ask,
    /// Give it up.
    Reset,
    Answer(Reply),
    /// Nothing is owed to an event that comes out of turn.
    Ignore,
}

pub enum ListActionView {
    Connect,
    Ask,
    Reset,
    Answer(ReplyView),
    Ignore,
}

impl View for ListEvent {
    type V = ListEventView;

    open spec fn view(&self) -> ListEventView {
        match *self {
            ListEvent::Connected => ListEventView::Connected,
            ListEvent::Unavailable(e) => ListEventView::Unavailable(e@),
            ListEvent::Listed(tools) => ListEventView::Listed(served_views(tools@)),
            ListEvent::Failed(e) => ListEventView::Failed(e@),
            ListEvent::Reset => ListEventView::Reset,
        }
    }
}

impl View for ListAction {
    type V = ListActionView;

    open spec fn view(&self) -> ListActionView {
        match *self {
            ListAction::Connect => ListActionView::Connect,
            ListAction::Ask => ListActionView::Ask,
            ListAction::Reset => ListActionView::Reset,
            ListAction::Answer(reply) => ListActionView::Answer(reply@),
            ListAction::Ignore => ListActionView::Ignore,
        }
    }
}

/// What happens next to a listing. It has no effects, so a server that failed is given up and asked
/// once more.
pub open spec fn list_next(stage: ListStage, event: ListEventView) -> (ListStage, ListActionView) {
    match (stage, event) {
        (ListStage::Connecting { again }, ListEventView::Connected) => (
            ListStage::Asking { again },
            ListActionView::Ask,
        ),
        (ListStage::Connecting { again }, ListEventView::Unavailable(e)) => (
            ListStage::Done,
            ListActionView::Answer(failure(BAD_GATEWAY, e, "upstream_error"@)),
        ),
        (ListStage::Asking { again }, ListEventView::Listed(tools)) => (
            ListStage::Done,
            ListActionView::Answer(success(tools_json(tools))),
        ),
        (ListStage::Asking { again: false }, ListEventView::Failed(e)) => (
            ListStage::Resetting,
            ListActionView::Reset,
        ),
        (ListStage::Asking { again: true }, ListEventView::Failed(e)) => (
            ListStage::Done,
            ListActionView::Answer(
                failure(BAD_GATEWAY, "listing tools failed: "@ + e, "upstream_error"@),
            ),
        ),
        (ListStage::Resetting, ListEventView::Reset) => (
            ListStage::Connecting { again: true },
            ListActionView::Connect,
        ),
        _ => (stage, ListActionView::Ignore),
    }
}

/// Begins a listing.
pub fn start_list(tools: Option<&McpTools>) -> (r: (ListStage, ListAction))
    ensures
        (r.0, r.1@) == match tools {
            Some(_) => (ListStage::Connecting { again: false }, ListActionView::Connect),
            None => (ListStage::Done, ListActionView::Answer(not_configured_reply())),
        },
{
    match tools {
        Some(_) => (ListStage::Connecting { again: false }, ListAction::Connect),
        None => (ListStage::Done, ListAction::Answer(not_configured())),
    }
}

/// Takes a listing further.
pub fn list(stage: ListStage, event: ListEvent) -> (r: (ListStage, ListAction))
    ensures
        (r.0, r.1@) == list_next(stage, event@),
{
    match (stage, event) {
        (ListStage::Connecting { again }, ListEvent::Connected) => (
            ListStage::Asking { again },
            ListAction::Ask,
        ),
        (ListStage::Connecting { again: _ }, ListEvent::Unavailable(e)) => (
            ListStage::Done,
            ListAction::Answer(error(BAD_GATEWAY, e.as_str(), "upstream_error")),
        ),
        (ListStage::Asking { again: _ }, ListEvent::Listed(tools)) => (
            ListStage::Done,
            ListAction::Answer(tool_list(tools)),
        ),
        (ListStage::Asking { again: false }, ListEvent::Failed(_)) => (
            ListStage::Resetting,
            ListAction::Reset,
        ),
        (ListStage::Asking { again: true }, ListEvent::Failed(e)) => {
            let message = "listing tools failed: ".to_owned().concat(e.as_str());
            (
                ListStage::Done,
                ListAction::Answer(error(BAD_GATEWAY, message.as_str(), "upstream_error")),
            )
        },
        (ListStage::Resetting, ListEvent::Reset) => (
            ListStage::Connecting { again: true },
            ListAction::Connect,
        ),
        (stage, _) => (stage, ListAction::Ignore),
    }
}

// ---------------------------------------------------------------------------
// Calling
// ---------------------------------------------------------------------------

/// A piece of what a tool returned.
#[derive(Debug)]
pub enum Content {
    Text(String),
    /// An image, a sound, a link or the like.
    Other,
}

/// What a tool returned.
#[derive(Debug)]
pub struct ToolResult {
    pub content: Vec<Content>,
    pub structured_content: Option<Json>,
    pub is_error: Option<bool>,
}

/// What clients see of what a tool returned.
#[derive(Debug, PartialEq)]
pub struct CallOutput {
    /// The text, or the structured content as JSON where there is no text.
    pub output: String,
    /// The server reported that the call failed; `output` says why.
    pub is_error: bool,
}

/// The pieces that are texts, in order.
pub open spec fn text_parts(content: Seq<Content>) -> Seq<Seq<char>>
    decreases content.len(),
{
    if content.len() == 0 {
        Seq::empty()
    } else {
        match content.last() {
            Content::Text(s) => text_parts(content.drop_last()).push(s@),
            Content::Other => text_parts(content.drop_last()),
        }
    }
}

/// What clients see of a result: the texts, one to a line; where there is none, the structured
/// content as JSON; where there is neither, nothing.
pub open spec fn output_text(content: Seq<Content>, structured: Option<JsonView>) -> Seq<char> {
    if text_parts(content).len() > 0 {
        joined(text_parts(content), "\n"@)
    } else {
        match structured {
            Some(value) => json_text(value),
            None => Seq::empty(),
        }
    }
}

/// What a result came to, in JSON.
pub open spec fn output_json(output: Seq<char>, is_error: bool) -> JsonView {
    JsonView::Object(
        map!["output"@ => JsonView::Text(output), "is_error"@ => JsonView::Bool(is_error)],
    )
}

/// What a result came to as it goes out, in order.
pub open spec fn output_parts(output: Seq<char>, is_error: bool) -> Seq<(Seq<char>, Seq<char>)> {
    seq![
        ("output"@, json_text(JsonView::Text(output))),
        ("is_error"@, json_text(JsonView::Bool(is_error))),
    ]
}

/// The text that clients see of a result.
pub open spec fn result_output(result: ToolResult) -> Seq<char> {
    output_text(
        result.content@,
        match result.structured_content {
            Some(value) => Some(value@),
            None => None,
        },
    )
}

/// What a result is answered with. A call has not failed unless the server says so.
pub open spec fn result_reply(result: ToolResult) -> ReplyView {
    let failed = result.is_error == Some(true);
    success_in_order(
        output_json(result_output(result), failed),
        object_text(output_parts(result_output(result), failed)),
    )
}

fn texts_in(content: Vec<Content>) -> (r: Vec<String>)
    ensures
        texts(r@) == text_parts(content@),
{
    let ghost all = content@;
    let mut out: Vec<String> = Vec::new();
    assert(texts(out@) =~= text_parts(all.take(0)));
    for part in it: content
        invariant
            it.seq() == content@,
            all == content@,
            texts(out@) == text_parts(all.take(it.index())),
    {
        let ghost before = texts(out@);
        assert(all.take(it.index() + 1).drop_last() =~= all.take(it.index()));
        assert(all.take(it.index() + 1).last() == part);
        match part {
            Content::Text(s) => {
                let ghost text = s@;
                out.push(s);
                assert(texts(out@) =~= before.push(text));
            },
            Content::Other => {},
        }
    }
    assert(all.take(all.len() as int) =~= all);
    out
}

impl CallOutput {
    /// What clients see of what a tool returned.
    pub fn from(result: ToolResult) -> (r: Self)
        ensures
            r.output@ == result_output(result),
            r.is_error == (result.is_error == Some(true)),
    {
        let parts = texts_in(result.content);
        assert(texts(parts@).len() == parts@.len());
        let output = if parts.len() > 0 {
            join(&parts, "\n")
        } else {
            match result.structured_content {
                Some(value) => value.into_text(),
                None => String::new(),
            }
        };
        let is_error: bool = match result.is_error {
            Some(failed) => failed,
            None => false,
        };
        CallOutput { output, is_error }
    }

    /// What a tool returned, in JSON.
    pub fn into_json(self) -> (r: Json)
        ensures
            r@ == output_json(self.output@, self.is_error),
            r.written() == object_text(output_parts(self.output@, self.is_error)),
    {
        let object = JsonObject::new().with("output", Json::text(self.output.as_str())).with(
            "is_error",
            Json::Bool(self.is_error),
        );
        assert(object.parts() =~= output_parts(self.output@, self.is_error));
        Json::object(object)
    }
}

/// What came of calling a tool.
#[derive(Debug)]
pub enum CallOutcome {
    /// The server could not be made ready.
    Unavailable(String),
    /// The tool returned.
    Complete(ToolResult),
    /// The server answered with anything else: a request for input, or a task.
    Unfinished,
    /// The call broke.
    Failed(String),
    /// There was no answer in time.
    TimedOut,
}

/// The answer to a call.
#[derive(Debug)]
pub struct CallAnswer {
    pub reply: Reply,
    /// Whether the server is to be given up, so that the next request starts another.
    pub reset: bool,
}

/// The answer to a call, from what came of it.
pub open spec fn call_reply(name: Seq<char>, outcome: CallOutcome) -> ReplyView {
    match outcome {
        CallOutcome::Unavailable(e) => failure(BAD_GATEWAY, e@, "upstream_error"@),
        CallOutcome::Complete(result) => result_reply(result),
        CallOutcome::Unfinished => failure(
            BAD_GATEWAY,
            name + " asked for input or a task; the gateway only takes direct results"@,
            "upstream_error"@,
        ),
        CallOutcome::Failed(e) => failure(
            BAD_GATEWAY,
            name + " failed and may or may not have run: "@ + e@,
            "upstream_error"@,
        ),
        CallOutcome::TimedOut => failure(
            GATEWAY_TIMEOUT,
            name + " did not answer within "@ + decimal(CALL_TIMEOUT_SECONDS as int)
                + "s; it may still complete"@,
            "timeout"@,
        ),
    }
}

/// Begins a call: the answer where no server is set.
pub fn start_call(tools: Option<&McpTools>) -> (r: Option<Reply>)
    ensures
        r is Some == (tools is None),
        r matches Some(reply) ==> reply@ == not_configured_reply(),
{
    match tools {
        Some(_) => None,
        None => Some(not_configured()),
    }
}

/// The answer to a call, from what came of it. A call that broke may still have run, so none is
/// ever made again; the server is given up where a call broke.
pub fn call(name: &str, outcome: CallOutcome) -> (r: CallAnswer)
    ensures
        r.reply@ == call_reply(name@, outcome),
        r.reset == (outcome is Failed),
{
    match outcome {
        CallOutcome::Unavailable(e) => CallAnswer {
            reply: error(BAD_GATEWAY, e.as_str(), "upstream_error"),
            reset: false,
        },
        CallOutcome::Complete(result) => CallAnswer {
            reply: answer_in_order(CallOutput::from(result).into_json()),
            reset: false,
        },
        CallOutcome::Unfinished => {
            let message = name.to_owned().concat(
                " asked for input or a task; the gateway only takes direct results",
            );
            CallAnswer {
                reply: error(BAD_GATEWAY, message.as_str(), "upstream_error"),
                reset: false,
            }
        },
        CallOutcome::Failed(e) => {
            let message = name.to_owned().concat(" failed and may or may not have run: ").concat(
                e.as_str(),
            );
            CallAnswer {
                reply: error(BAD_GATEWAY, message.as_str(), "upstream_error"),
                reset: true,
            }
        },
        CallOutcome::TimedOut => {
            let message = name.to_owned().concat(" did not answer within ").concat(
                natural_text(CALL_TIMEOUT_SECONDS).as_str(),
            ).concat("s; it may still complete");
            CallAnswer { reply: error(GATEWAY_TIMEOUT, message.as_str(), "timeout"), reset: false }
        },
    }
}

// ---------------------------------------------------------------------------
// Laws
// ---------------------------------------------------------------------------

/// What a listing does in the course of events.
pub open spec fn list_actions(stage: ListStage, events: Seq<ListEventView>) -> Seq<ListActionView>
    decreases events.len(),
{
    if events.len() == 0 {
        Seq::empty()
    } else {
        let next = list_next(stage, events[0]);
        seq![next.1] + list_actions(next.0, events.skip(1))
    }
}

/// How often a server is asked for its tools.
pub open spec fn times_asked(actions: Seq<ListActionView>) -> nat
    decreases actions.len(),
{
    if actions.len() == 0 {
        0
    } else {
        times_asked(actions.skip(1)) + if actions[0] is Ask {
            1nat
        } else {
            0nat
        }
    }
}

/// How often a request is answered.
pub open spec fn times_answered(actions: Seq<ListActionView>) -> nat
    decreases actions.len(),
{
    if actions.len() == 0 {
        0
    } else {
        times_answered(actions.skip(1)) + if actions[0] is Answer {
            1nat
        } else {
            0nat
        }
    }
}

/// How often a server can still be asked.
spec fn chances(stage: ListStage) -> nat {
    match stage {
        ListStage::Connecting { again: false } => 2,
        ListStage::Asking { again: false } => 1,
        ListStage::Resetting => 1,
        ListStage::Connecting { again: true } => 1,
        ListStage::Asking { again: true } => 0,
        ListStage::Done => 0,
    }
}

proof fn lemma_list_actions(stage: ListStage, events: Seq<ListEventView>)
    ensures
        times_asked(list_actions(stage, events)) <= chances(stage),
        times_answered(list_actions(stage, events)) <= if stage is Done {
            0nat
        } else {
            1nat
        },
    decreases events.len(),
{
    if events.len() > 0 {
        let next = list_next(stage, events[0]);
        let rest = list_actions(next.0, events.skip(1));
        lemma_list_actions(next.0, events.skip(1));
        assert((seq![next.1] + rest).skip(1) =~= rest);
    }
}

/// Whatever the server does, one listing asks it twice at most and answers once at most.
pub proof fn a_listing_is_retried_once(events: Seq<ListEventView>)
    ensures
        times_asked(list_actions(ListStage::Connecting { again: false }, events)) <= 2,
        times_answered(list_actions(ListStage::Connecting { again: false }, events)) <= 1,
{
    lemma_list_actions(ListStage::Connecting { again: false }, events);
}

/// A server that died since the last request does not show: once it has been started again, its
/// tools are listed.
pub proof fn a_listing_survives_a_restart(e: Seq<char>, tools: Seq<ServedToolView>)
    ensures
        list_actions(
            ListStage::Connecting { again: false },
            seq![
                ListEventView::Connected,
                ListEventView::Failed(e),
                ListEventView::Reset,
                ListEventView::Connected,
                ListEventView::Listed(tools),
            ],
        ) == seq![
            ListActionView::Ask,
            ListActionView::Reset,
            ListActionView::Connect,
            ListActionView::Ask,
            ListActionView::Answer(success(tools_json(tools))),
        ],
{
    reveal_with_fuel(list_actions, 6);
    let events = seq![
        ListEventView::Connected,
        ListEventView::Failed(e),
        ListEventView::Reset,
        ListEventView::Connected,
        ListEventView::Listed(tools),
    ];
    assert(events.skip(1).skip(1) =~= events.skip(2));
    assert(events.skip(2).skip(1) =~= events.skip(3));
    assert(events.skip(3).skip(1) =~= events.skip(4));
    assert(events.skip(4).skip(1).len() == 0);
    assert(list_actions(ListStage::Connecting { again: false }, events) =~= seq![
        ListActionView::Ask,
        ListActionView::Reset,
        ListActionView::Connect,
        ListActionView::Ask,
        ListActionView::Answer(success(tools_json(tools))),
    ]);
}

/// What a server does not say about a tool, clients are not told.
pub proof fn absent_hints_stay_absent(tool: ToolInfoView)
    ensures
        tool_json(tool)->Object_0.dom().contains("read_only"@) == (tool.read_only is Some),
        tool_json(tool)->Object_0.dom().contains("destructive"@) == (tool.destructive is Some),
{
    reveal_strlit("read_only");
    reveal_strlit("destructive");
    reveal_strlit("name");
    reveal_strlit("description");
    reveal_strlit("parameters");
    assert("read_only"@.len() == 9 && "destructive"@.len() == 11);
    assert("name"@.len() == 4 && "parameters"@.len() == 10);
    assert("description"@.len() == 11 && "description"@[2] == 's' && "destructive"@[3] == 't');
    assert("description"@[3] == 'c');
}

proof fn lemma_tool_keys_differ()
    ensures
        "name"@ != "description"@,
        "name"@ != "parameters"@,
        "name"@ != "read_only"@,
        "name"@ != "destructive"@,
        "description"@ != "parameters"@,
        "description"@ != "read_only"@,
        "description"@ != "destructive"@,
        "parameters"@ != "read_only"@,
        "parameters"@ != "destructive"@,
        "read_only"@ != "destructive"@,
{
    reveal_strlit("name");
    reveal_strlit("description");
    reveal_strlit("parameters");
    reveal_strlit("read_only");
    reveal_strlit("destructive");
    assert("name"@.len() == 4);
    assert("description"@.len() == 11);
    assert("parameters"@.len() == 10);
    assert("read_only"@.len() == 9);
    assert("destructive"@.len() == 11);
    assert("description"@[3] == 'c' && "destructive"@[3] == 't');
}

proof fn lemma_output_keys_differ()
    ensures
        "output"@ != "is_error"@,
{
    reveal_strlit("output");
    reveal_strlit("is_error");
    assert("output"@.len() == 6);
    assert("is_error"@.len() == 8);
}

/// A value says a hint under a key, or nothing where there is none.
pub open spec fn says_hint(value: JsonView, key: Seq<char>, hint: Option<bool>) -> bool {
    match hint {
        Some(b) => says(value, key, JsonView::Bool(b)),
        None => is_silent_on(value, key),
    }
}

/// A tool is shown as its server describes it: under its name, with its description, which is empty
/// only where the server gives none or an empty one, with the schema of its arguments, and with the
/// hints that the server gives and no others.
pub proof fn a_tool_is_shown_as_it_is(tool: ServedToolView)
    ensures
        ({
            let value = tool_json(tool_info(tool));
            &&& value->Object_0.dom().subset_of(
                set!["name"@, "description"@, "parameters"@, "read_only"@, "destructive"@],
            )
            &&& says_text(value, "name"@, tool.name)
            &&& tool.description matches Some(d) ==> says_text(value, "description"@, d)
            &&& tool.description is None ==> says_text(value, "description"@, Seq::empty())
            &&& says(value, "parameters"@, JsonView::Object(tool.input_schema))
            &&& tool.annotations matches Some(hints) ==> {
                &&& says_hint(value, "read_only"@, hints.read_only)
                &&& says_hint(value, "destructive"@, hints.destructive)
            }
            &&& tool.annotations is None ==> {
                &&& is_silent_on(value, "read_only"@)
                &&& is_silent_on(value, "destructive"@)
            }
        }),
{
    lemma_tool_keys_differ();
}

/// The list of tools has them one by one, in order.
pub proof fn tools_are_listed_in_order(all: Seq<ServedToolView>, i: int)
    ensures
        ({
            let value = tools_json(all);
            let tools = value->Object_0["tools"@];
            &&& has_just(value, set!["tools"@])
            &&& tools is Array
            &&& tools->Array_0.len() == all.len()
            &&& 0 <= i < all.len() ==> tools->Array_0[i] == tool_json(tool_info(all[i]))
        }),
{
}

/// A listing goes from one step to the next: a server that is ready is asked, what it lists is the
/// answer, and one that fails is given up, made ready and asked once more.
pub proof fn a_listing_goes_step_by_step(
    again: bool,
    e: Seq<char>,
    tools: Seq<ServedToolView>,
)
    ensures
        list_next(ListStage::Connecting { again }, ListEventView::Connected) == (
            ListStage::Asking { again },
            ListActionView::Ask,
        ),
        ({
            let (stage, action) = list_next(
                ListStage::Connecting { again },
                ListEventView::Unavailable(e),
            );
            &&& stage is Done
            &&& action is Answer
            &&& tells(action->Answer_0, 502, e, "upstream_error"@)
        }),
        ({
            let (stage, action) = list_next(
                ListStage::Asking { again },
                ListEventView::Listed(tools),
            );
            &&& stage is Done
            &&& action is Answer
            &&& action->Answer_0.status == 200
            &&& action->Answer_0.body == tools_json(tools)
            &&& action->Answer_0.text == json_text(tools_json(tools))
        }),
        list_next(ListStage::Asking { again: false }, ListEventView::Failed(e)) == (
            ListStage::Resetting,
            ListActionView::Reset,
        ),
        ({
            let (stage, action) = list_next(
                ListStage::Asking { again: true },
                ListEventView::Failed(e),
            );
            &&& stage is Done
            &&& action is Answer
            &&& tells(
                action->Answer_0,
                502,
                "listing tools failed: "@ + e,
                "upstream_error"@,
            )
        }),
        list_next(ListStage::Resetting, ListEventView::Reset) == (
            ListStage::Connecting { again: true },
            ListActionView::Connect,
        ),
{
    failures_say_what_went_wrong(502, e, "upstream_error"@);
    failures_say_what_went_wrong(502, "listing tools failed: "@ + e, "upstream_error"@);
}

/// What comes out of turn changes nothing, and nothing is owed to it.
pub proof fn what_comes_out_of_turn_is_ignored(stage: ListStage, event: ListEventView)
    requires
        stage is Connecting ==> !(event is Connected || event is Unavailable),
        stage is Asking ==> !(event is Listed || event is Failed),
        stage is Resetting ==> !(event is Reset),
    ensures
        list_next(stage, event) == (stage, ListActionView::Ignore),
{
}

/// Every text that a tool returns is a line of the output; nothing else is. Where there is no text,
/// the output is the structured content as JSON, or else nothing.
pub proof fn every_text_returned_is_a_line(
    content: Seq<Content>,
    piece: Content,
    structured: Option<JsonView>,
)
    ensures
        ({
            let none = forall|i: int| 0 <= i < content.len() ==> (#[trigger] content[i]) is Other;
            &&& none ==> output_text(content, structured) == match structured {
                Some(value) => json_text(value),
                None => Seq::empty(),
            }
            &&& piece is Other ==> output_text(content.push(piece), structured) == output_text(
                content,
                structured,
            )
            &&& piece matches Content::Text(s) ==> output_text(content.push(piece), structured)
                == if none {
                s@
            } else {
                output_text(content, structured) + seq!['\n'] + s@
            }
        }),
{
    reveal_strlit("\n");
    assert("\n"@ =~= seq!['\n']);
    lemma_no_texts(content);
    assert(content.push(piece).drop_last() =~= content);
    if let Content::Text(s) = piece {
        joining_adds_at_the_end(text_parts(content), s@, "\n"@);
    }
}

proof fn lemma_no_texts(content: Seq<Content>)
    ensures
        text_parts(content).len() == 0 <==> forall|i: int|
            0 <= i < content.len() ==> (#[trigger] content[i]) is Other,
    decreases content.len(),
{
    if content.len() > 0 {
        let rest = content.drop_last();
        let n = content.len() - 1;
        lemma_no_texts(rest);
        if text_parts(content).len() == 0 {
            assert forall|i: int| 0 <= i < content.len() implies (#[trigger] content[i]) is Other by {
                if i < n {
                    assert(rest[i] == content[i]);
                }
            }
        } else if content[n] is Other {
            let i = choose|i: int| 0 <= i < rest.len() && !((#[trigger] rest[i]) is Other);
            assert(rest[i] == content[i]);
        }
    }
}

/// What a tool returned is answered with 200: its output, and that it failed exactly where the server
/// says so, in the value and in the text that goes out.
pub proof fn a_result_is_answered_with_its_output(name: Seq<char>, result: ToolResult)
    ensures
        ({
            let reply = call_reply(name, CallOutcome::Complete(result));
            let structured = match result.structured_content {
                Some(value) => Some(value@),
                None => None,
            };
            let output = output_text(result.content@, structured);
            let failed = result.is_error matches Some(e) && e;
            &&& reply.status == 200
            &&& says_text(reply.body, "output"@, output)
            &&& says(reply.body, "is_error"@, JsonView::Bool(failed))
            &&& has_just(reply.body, set!["output"@, "is_error"@])
            &&& reply.text == object_text(
                seq![
                    ("output"@, json_text(JsonView::Text(output))),
                    ("is_error"@, json_text(JsonView::Bool(failed))),
                ],
            )
        }),
{
    lemma_output_keys_differ();
}

/// A call that brings no result is answered with what is known of it: 502, or 504 where there was no
/// answer in time.
pub proof fn a_call_without_a_result_says_why(name: Seq<char>, e: String)
    ensures
        tells(call_reply(name, CallOutcome::Unavailable(e)), 502, e@, "upstream_error"@),
        tells(
            call_reply(name, CallOutcome::Unfinished),
            502,
            name + " asked for input or a task; the gateway only takes direct results"@,
            "upstream_error"@,
        ),
        tells(
            call_reply(name, CallOutcome::Failed(e)),
            502,
            name + " failed and may or may not have run: "@ + e@,
            "upstream_error"@,
        ),
        tells(
            call_reply(name, CallOutcome::TimedOut),
            504,
            name + " did not answer within "@ + decimal(120) + "s; it may still complete"@,
            "timeout"@,
        ),
        tells(
            not_configured_reply(),
            404,
            "no tools: set GOOSE_GATEWAY_MCP_COMMAND to serve an MCP server's tools"@,
            "not_found"@,
        ),
{
    failures_say_what_went_wrong(502, e@, "upstream_error"@);
    failures_say_what_went_wrong(
        502,
        name + " asked for input or a task; the gateway only takes direct results"@,
        "upstream_error"@,
    );
    failures_say_what_went_wrong(
        502,
        name + " failed and may or may not have run: "@ + e@,
        "upstream_error"@,
    );
    failures_say_what_went_wrong(
        504,
        name + " did not answer within "@ + decimal(120) + "s; it may still complete"@,
        "timeout"@,
    );
    failures_say_what_went_wrong(
        404,
        "no tools: set GOOSE_GATEWAY_MCP_COMMAND to serve an MCP server's tools"@,
        "not_found"@,
    );
}

/// The view of a tool leaves no field out.
pub proof fn views_of_tools_leave_nothing_out(served: ServedTool, info: ToolInfo)
    ensures
        served@.name == served.name@,
        served@.description is Some == served.description is Some,
        served.description matches Some(d) ==> served@.description == Some(d@),
        served@.input_schema == served.input_schema@,
        served@.annotations == served.annotations,
        info@.name == info.name@,
        info@.description == info.description@,
        info@.parameters == info.parameters@,
        info@.read_only == info.read_only,
        info@.destructive == info.destructive,
{
}

/// The view of an event or an action of a listing leaves nothing out.
pub proof fn views_of_listings_leave_nothing_out(
    e: String,
    tools: Vec<ServedTool>,
    reply: Reply,
    i: int,
)
    ensures
        ListEvent::Connected@ is Connected,
        ListEvent::Unavailable(e)@ == ListEventView::Unavailable(e@),
        ListEvent::Listed(tools)@ is Listed,
        ListEvent::Listed(tools)@->Listed_0.len() == tools@.len(),
        0 <= i < tools@.len() ==> ListEvent::Listed(tools)@->Listed_0[i] == tools@[i]@,
        ListEvent::Failed(e)@ == ListEventView::Failed(e@),
        ListEvent::Reset@ is Reset,
        ListAction::Connect@ is Connect,
        ListAction::Ask@ is Ask,
        ListAction::Reset@ is Reset,
        ListAction::Answer(reply)@ == ListActionView::Answer(reply@),
        ListAction::Ignore@ is Ignore,
{
}

} // verus!
