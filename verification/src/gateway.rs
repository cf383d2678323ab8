//! The requests that the gateway answers: chat completions, the models of a provider, and its
//! health.

use crate::completion::{completion, completion_json, completion_parts, ProviderUsage};
use crate::conversation::{
    in_messages, messages_view, offered, opt_text, to_goose, to_tools, transcript, ChatRequest,
    InTool, Message, MessageView, Tool,
};
use crate::failure::{about_sign_in, failure_reply, looks_like_auth_failure, upstream_reply};
use crate::json::{
    has_just, is_silent_on, json_parse, json_views, member, object_text, says, says_text, Json,
    JsonObject, JsonView,
};
use crate::reply::{
    answer, answer_in_order, error, failure, failures_say_what_went_wrong, success, success_in_order,
    tells, Reply, ReplyView, UNAUTHORIZED,
};
use crate::text::{
    decimal, decimals_are_read_back, natural_text, read_u16, same, texts, trim, trimmed,
    written_number,
};
use vstd::prelude::*;

verus! {

// ---------------------------------------------------------------------------
// Where the gateway listens
// ---------------------------------------------------------------------------

/// The port to listen on: the one that is set, where it is a port, else 8791.
pub open spec fn port_of(setting: Option<Seq<char>>) -> nat {
    match setting {
        Some(s) => match written_number(s, 0xffff) {
            Some(n) => n,
            None => 8791,
        },
        None => 8791,
    }
}

/// The port to listen on.
pub fn listen_port(setting: Option<&str>) -> (r: u16)
    ensures
        r == port_of(opt_str(setting)),
{
    match setting {
        Some(s) => match read_u16(s) {
            Some(n) => n,
            None => 8791,
        },
        None => 8791,
    }
}

/// An optional text.
pub open spec fn opt_str(s: Option<&str>) -> Option<Seq<char>> {
    match s {
        Some(t) => Some(t@),
        None => None,
    }
}

/// The address to listen on: host and port.
pub open spec fn address_of(host: Option<Seq<char>>, port: Option<Seq<char>>) -> Seq<char> {
    (match host {
        Some(h) => h,
        None => "127.0.0.1"@,
    }) + ":"@ + decimal(port_of(port) as int)
}

/// The address to listen on. Without settings it is this machine alone.
pub fn listen_address(host: Option<&str>, port: Option<&str>) -> (r: String)
    ensures
        r@ == address_of(opt_str(host), opt_str(port)),
{
    let host = match host {
        Some(h) => h.to_owned(),
        None => "127.0.0.1".to_owned(),
    };
    let port = natural_text(listen_port(port) as u64);
    host.concat(":").concat(port.as_str())
}

// ---------------------------------------------------------------------------
// Which provider and which model
// ---------------------------------------------------------------------------

/// A name that is given and not empty.
pub open spec fn given(name: Option<Seq<char>>) -> bool {
    name matches Some(n) && n.len() > 0
}

/// The provider of a request: the one it names, else the one that is set, else `xai_oauth`.
pub open spec fn chosen_provider(
    named: Option<Seq<char>>,
    setting: Option<Seq<char>>,
) -> Seq<char> {
    if given(named) {
        named->0
    } else if given(setting) {
        setting->0
    } else {
        "xai_oauth"@
    }
}

/// The model of a request: the one it names, else `grok-4.7`.
pub open spec fn chosen_model(named: Option<Seq<char>>) -> Seq<char> {
    if given(named) {
        named->0
    } else {
        "grok-4.7"@
    }
}

/// The provider of a request.
pub fn provider_for(named: Option<&str>, setting: Option<&str>) -> (r: String)
    ensures
        r@ == chosen_provider(opt_str(named), opt_str(setting)),
{
    if let Some(n) = named {
        if !n.is_empty() {
            return n.to_owned();
        }
    }
    if let Some(s) = setting {
        if !s.is_empty() {
            return s.to_owned();
        }
    }
    "xai_oauth".to_owned()
}

/// The model of a request.
pub fn model_for(named: Option<&str>) -> (r: String)
    ensures
        r@ == chosen_model(opt_str(named)),
{
    if let Some(n) = named {
        if !n.is_empty() {
            return n.to_owned();
        }
    }
    "grok-4.7".to_owned()
}

// ---------------------------------------------------------------------------
// Whether a provider is set up
// ---------------------------------------------------------------------------

/// A token file that holds a sign-in: JSON with a refresh token that is not blank. The access token
/// does not matter, because it is renewed from the refresh token on use.
pub open spec fn holds_sign_in(raw: Seq<char>) -> bool {
    match json_parse(raw) {
        Some(value) => refreshable(value),
        None => false,
    }
}

/// Has a refresh token that is not blank.
pub open spec fn refreshable(tokens: JsonView) -> bool {
    match member(tokens, "refresh_token"@) {
        Some(JsonView::Text(token)) => trimmed(token).len() > 0,
        _ => false,
    }
}

/// Whether tokens include a refresh token that is not blank.
pub fn has_refresh_token(tokens: &Json) -> (r: bool)
    ensures
        r == refreshable(tokens@),
{
    match tokens.get("refresh_token") {
        Some(value) => match value.as_str() {
            Some(token) => !trim(token).as_str().is_empty(),
            None => false,
        },
        None => false,
    }
}

/// Whether a token file holds a sign-in; `None` stands for a file that cannot be read.
pub fn credential_present(raw: Option<&str>) -> (r: bool)
    ensures
        r == (opt_str(raw) matches Some(text) && holds_sign_in(text)),
{
    match raw {
        Some(text) => match Json::parse(text) {
            Some(tokens) => has_refresh_token(&tokens),
            None => false,
        },
        None => false,
    }
}

/// Whether a provider is set up: `xai_oauth` where its token file holds a sign-in, any other where
/// it counts as configured.
pub open spec fn set_up(provider: Seq<char>, tokens: Option<Seq<char>>, configured: bool) -> bool {
    if provider == "xai_oauth"@ {
        tokens matches Some(text) && holds_sign_in(text)
    } else {
        configured
    }
}

/// Whether a provider is set up. `tokens` is the token file of `xai_oauth`.
pub fn is_set_up(provider: &str, tokens: Option<&str>, configured: bool) -> (r: bool)
    ensures
        r == set_up(provider@, opt_str(tokens), configured),
{
    if same(provider, "xai_oauth") {
        credential_present(tokens)
    } else {
        configured
    }
}

/// What to tell a client whose provider is not set up.
pub open spec fn not_set_up_message(provider: Seq<char>) -> Seq<char> {
    if provider == "xai_oauth"@ {
        "goose is not signed in to xAI. On the host, run `goose configure` and choose xai_oauth."@
    } else {
        provider + " is not set up. Save its settings or sign in to it first."@
    }
}

/// The answer to a request whose provider is not set up.
pub open spec fn not_set_up(provider: Seq<char>) -> ReplyView {
    failure(UNAUTHORIZED, not_set_up_message(provider), "authentication_error"@)
}

/// The answer to a request whose provider is not set up.
pub fn not_set_up_reply(provider: &str) -> (r: Reply)
    ensures
        r@ == not_set_up(provider@),
{
    if same(provider, "xai_oauth") {
        error(
            UNAUTHORIZED,
            "goose is not signed in to xAI. On the host, run `goose configure` and choose xai_oauth.",
            "authentication_error",
        )
    } else {
        let message = provider.to_owned().concat(
            " is not set up. Save its settings or sign in to it first.",
        );
        error(UNAUTHORIZED, message.as_str(), "authentication_error")
    }
}

/// What to tell a client whose provider could not be built.
pub fn build_error(provider: &str, e: &str) -> (r: String)
    ensures
        r@ == "building goose's "@ + provider@ + " provider; run `goose configure` and choose "@
            + provider@ + " first: "@ + e@,
{
    "building goose's ".to_owned().concat(provider).concat(
        " provider; run `goose configure` and choose ",
    ).concat(provider).concat(" first: ").concat(e)
}

// ---------------------------------------------------------------------------
// Health and models
// ---------------------------------------------------------------------------

/// The health of a provider. It has a credential where it is set up and can be built.
pub open spec fn health_json(provider: Seq<char>, set_up: bool, built: bool) -> JsonView {
    JsonView::Object(
        map![
            "ok"@ => JsonView::Bool(true),
            "provider"@ => JsonView::Text(provider),
            "credential"@ => JsonView::Bool(set_up && built),
        ],
    )
}

/// The answer to a question after the health of a provider.
pub fn health(provider: &str, set_up: bool, built: bool) -> (r: Reply)
    ensures
        r@ == success(health_json(provider@, set_up, built)),
{
    answer(
        Json::Object(
            JsonObject::new().with("ok", Json::Bool(true)).with(
                "provider",
                Json::text(provider),
            ).with("credential", Json::Bool(set_up && built)),
        ),
    )
}

/// Who owns the models of a provider: xAI those of `xai_oauth`, any other provider its own.
pub open spec fn owner_of(provider: Seq<char>) -> Seq<char> {
    if provider == "xai_oauth"@ {
        "xai"@
    } else {
        provider
    }
}

/// A model in a list.
pub open spec fn model_json(id: Seq<char>, owner: Seq<char>) -> JsonView {
    JsonView::Object(
        map![
            "id"@ => JsonView::Text(id),
            "object"@ => JsonView::Text("model"@),
            "owned_by"@ => JsonView::Text(owner),
        ],
    )
}

/// A list of models with one owner.
pub open spec fn model_list_json(ids: Seq<Seq<char>>, owner: Seq<char>) -> JsonView {
    JsonView::Object(
        map![
            "object"@ => JsonView::Text("list"@),
            "data"@ => JsonView::Array(ids.map_values(|id: Seq<char>| model_json(id, owner))),
        ],
    )
}

fn model_list(ids: &Vec<String>, owner: &str) -> (r: Json)
    ensures
        r@ == model_list_json(texts(ids@), owner@),
{
    let ghost all = texts(ids@).map_values(|id: Seq<char>| model_json(id, owner@));
    let mut data: Vec<Json> = Vec::new();
    assert(json_views(data@) =~= all.take(0));
    for i in 0..ids.len()
        invariant
            all == texts(ids@).map_values(|id: Seq<char>| model_json(id, owner@)),
            json_views(data@) == all.take(i as int),
    {
        let ghost before = json_views(data@);
        data.push(
            Json::Object(
                JsonObject::new().with("id", Json::Text(ids[i].clone())).with(
                    "object",
                    Json::text("model"),
                ).with("owned_by", Json::text(owner)),
            ),
        );
        assert(json_views(data@) =~= before.push(model_json(ids@[i as int]@, owner@)));
        assert(json_views(data@) =~= all.take(i + 1));
    }
    assert(all.take(all.len() as int) =~= all);
    Json::Object(
        JsonObject::new().with("object", Json::text("list")).with("data", Json::array(data)),
    )
}

/// The answer to a question after the models of a provider: those that goose knows for it.
pub fn models(provider: &str, known: &Vec<String>) -> (r: Reply)
    ensures
        r@ == success(model_list_json(texts(known@), owner_of(provider@))),
{
    let owner = if same(provider, "xai_oauth") {
        "xai"
    } else {
        provider
    };
    answer(model_list(known, owner))
}

// ---------------------------------------------------------------------------
// Chat
// ---------------------------------------------------------------------------

/// What a chat request asks for.
#[derive(Debug)]
pub struct ChatPlan {
    pub provider: String,
    pub model: String,
    pub stream: bool,
    pub include_usage: bool,
    pub system: String,
    pub messages: Vec<Message>,
    pub tools: Vec<Tool>,
}

/// Reads a chat request. `setting` is the provider for requests that name none.
pub fn plan_chat(req: ChatRequest, setting: Option<&str>) -> (r: ChatPlan)
    ensures
        r.provider@ == chosen_provider(opt_text(req.provider), opt_str(setting)),
        r.model@ == chosen_model(opt_text(req.model)),
        r.stream == req.stream,
        r.include_usage == (req.stream_options matches Some(o) && o.include_usage),
        r.system@ == transcript(in_messages(req.messages@)).system,
        messages_view(r.messages@) == transcript(in_messages(req.messages@)).messages,
        r.tools@.map_values(|t: Tool| t@) == req.tools@.map_values(|t: InTool| offered(t@)),
{
    let ChatRequest { model, provider, messages, tools, stream, stream_options } = req;
    let provider = match &provider {
        Some(p) => provider_for(Some(p.as_str()), setting),
        None => provider_for(None, setting),
    };
    let model = match &model {
        Some(m) => model_for(Some(m.as_str())),
        None => model_for(None),
    };
    let include_usage = match stream_options {
        Some(o) => o.include_usage,
        None => false,
    };
    let (system, messages) = to_goose(messages);
    ChatPlan { provider, model, stream, include_usage, system, messages, tools: to_tools(tools) }
}

/// How far a chat request has come.
#[derive(Clone, Copy, Debug, PartialEq, Eq, Structural)]
pub enum ChatStage {
    /// Is the provider set up?
    Checking,
    /// The provider is built, or taken from those that are ready.
    Building,
    /// The provider was asked for a whole reply.
    Completing,
    /// The reply is streamed: a stream session takes over.
    Streaming,
    /// The request is answered.
    Done,
}

/// What happens outside.
#[derive(Debug)]
pub enum ChatEvent {
    /// The provider is set up, or not.
    SetUp(bool),
    /// The provider is ready.
    Ready,
    /// The provider cannot be built.
    Unready(String),
    /// The reply.
    Replied(Message, ProviderUsage),
    /// There is no reply.
    Failed(String),
}

pub enum ChatEventView {
    SetUp(bool),
    Ready,
    Unready(Seq<char>),
    Replied(MessageView, ProviderUsage),
    Failed(Seq<char>),
}

impl View for ChatEvent {
    type V = ChatEventView;

    open spec fn view(&self) -> ChatEventView {
        match *self {
            ChatEvent::SetUp(b) => ChatEventView::SetUp(b),
            ChatEvent::Ready => ChatEventView::Ready,
            ChatEvent::Unready(s) => ChatEventView::Unready(s@),
            ChatEvent::Replied(m, u) => ChatEventView::Replied(m@, u),
            ChatEvent::Failed(s) => ChatEventView::Failed(s@),
        }
    }
}

/// What to do.
#[derive(Debug)]
pub enum ChatAction {
    /// Build the provider.
    Build,
    /// Ask the provider for a whole reply.
    Complete,
    /// Ask the provider for a stream.
    Stream,
    /// Answer; drop the provider first where `forget` holds, because its sign-in failed.
    Answer { reply: Reply, forget: bool },
    /// Nothing is owed to an event that comes out of turn.
    Ignore,
}

pub enum ChatActionView {
    Build,
    Complete,
    Stream,
    Answer(ReplyView, bool),
    Ignore,
}

impl View for ChatAction {
    type V = ChatActionView;

    open spec fn view(&self) -> ChatActionView {
        match *self {
            ChatAction::Build => ChatActionView::Build,
            ChatAction::Complete => ChatActionView::Complete,
            ChatAction::Stream => ChatActionView::Stream,
            ChatAction::Answer { reply, forget } => ChatActionView::Answer(reply@, forget),
            ChatAction::Ignore => ChatActionView::Ignore,
        }
    }
}

/// What happens next to a chat request.
pub open spec fn chat_next(
    stage: ChatStage,
    provider: Seq<char>,
    model: Seq<char>,
    stream: bool,
    event: ChatEventView,
    created: i64,
) -> (ChatStage, ChatActionView) {
    match (stage, event) {
        (ChatStage::Checking, ChatEventView::SetUp(true)) => (
            ChatStage::Building,
            ChatActionView::Build,
        ),
        (ChatStage::Checking, ChatEventView::SetUp(false)) => (
            ChatStage::Done,
            ChatActionView::Answer(not_set_up(provider), false),
        ),
        (ChatStage::Building, ChatEventView::Ready) => if stream {
            (ChatStage::Streaming, ChatActionView::Stream)
        } else {
            (ChatStage::Completing, ChatActionView::Complete)
        },
        (ChatStage::Building, ChatEventView::Unready(message)) => (
            ChatStage::Done,
            ChatActionView::Answer(
                failure(UNAUTHORIZED, message, "authentication_error"@),
                false,
            ),
        ),
        (ChatStage::Completing, ChatEventView::Replied(reply, usage)) => (
            ChatStage::Done,
            ChatActionView::Answer(
                success_in_order(
                    completion_json(created, model, reply.content, usage),
                    object_text(completion_parts(created, model, reply.content, usage)),
                ),
                false,
            ),
        ),
        (ChatStage::Completing, ChatEventView::Failed(message)) => (
            ChatStage::Done,
            ChatActionView::Answer(upstream_reply(message), about_sign_in(message)),
        ),
        _ => (stage, ChatActionView::Ignore),
    }
}

/// Takes an event. `created` is the time by the clock.
pub fn chat(stage: ChatStage, plan: &ChatPlan, event: ChatEvent, created: i64) -> (r: (
    ChatStage,
    ChatAction,
))
    ensures
        r.0 == chat_next(stage, plan.provider@, plan.model@, plan.stream, event@, created).0,
        r.1@ == chat_next(stage, plan.provider@, plan.model@, plan.stream, event@, created).1,
{
    match (stage, event) {
        (ChatStage::Checking, ChatEvent::SetUp(set_up)) => if set_up {
            (ChatStage::Building, ChatAction::Build)
        } else {
            let reply = not_set_up_reply(plan.provider.as_str());
            (ChatStage::Done, ChatAction::Answer { reply, forget: false })
        },
        (ChatStage::Building, ChatEvent::Ready) => if plan.stream {
            (ChatStage::Streaming, ChatAction::Stream)
        } else {
            (ChatStage::Completing, ChatAction::Complete)
        },
        (ChatStage::Building, ChatEvent::Unready(message)) => {
            let reply = error(UNAUTHORIZED, message.as_str(), "authentication_error");
            (ChatStage::Done, ChatAction::Answer { reply, forget: false })
        },
        (ChatStage::Completing, ChatEvent::Replied(message, usage)) => {
            let body = completion(created, plan.model.as_str(), message, &usage);
            (ChatStage::Done, ChatAction::Answer { reply: answer_in_order(body), forget: false })
        },
        (ChatStage::Completing, ChatEvent::Failed(message)) => {
            let reply = failure_reply(message.as_str());
            let forget = looks_like_auth_failure(message.as_str());
            (ChatStage::Done, ChatAction::Answer { reply, forget })
        },
        _ => (stage, ChatAction::Ignore),
    }
}

/// A chat request after events.
pub open spec fn chat_run(
    provider: Seq<char>,
    model: Seq<char>,
    stream: bool,
    events: Seq<ChatEventView>,
    created: i64,
) -> ChatStage
    decreases events.len(),
{
    if events.len() == 0 {
        ChatStage::Checking
    } else {
        chat_next(
            chat_run(provider, model, stream, events.drop_last(), created),
            provider,
            model,
            stream,
            events.last(),
            created,
        ).0
    }
}

/// A provider is asked for a reply only once it is known to be set up and is ready.
pub proof fn only_ready_providers_are_asked(
    provider: Seq<char>,
    model: Seq<char>,
    stream: bool,
    events: Seq<ChatEventView>,
    created: i64,
)
    ensures
        chat_run(provider, model, stream, events, created) is Building ==> events.contains(
            ChatEventView::SetUp(true),
        ),
        chat_run(provider, model, stream, events, created) is Completing || chat_run(
            provider,
            model,
            stream,
            events,
            created,
        ) is Streaming ==> events.contains(ChatEventView::SetUp(true)) && events.contains(
            ChatEventView::Ready,
        ),
    decreases events.len(),
{
    if events.len() > 0 {
        let rest = events.drop_last();
        only_ready_providers_are_asked(provider, model, stream, rest, created);
        assert(events =~= rest.push(events.last()));
        assert(events[events.len() - 1] == events.last());
        assert forall|e: ChatEventView| rest.contains(e) implies events.contains(e) by {
            let k = choose|k: int| 0 <= k < rest.len() && rest[k] == e;
            assert(events[k] == e);
        }
    }
}

/// A request whose provider is not set up is answered 401, and the health of that provider reports
/// no credential.
pub proof fn a_provider_that_is_not_set_up_is_refused(
    provider: Seq<char>,
    model: Seq<char>,
    stream: bool,
    built: bool,
    created: i64,
)
    ensures
        chat_next(
            ChatStage::Checking,
            provider,
            model,
            stream,
            ChatEventView::SetUp(false),
            created,
        ) == (ChatStage::Done, ChatActionView::Answer(not_set_up(provider), false)),
        not_set_up(provider).status == 401,
        member(health_json(provider, false, built), "credential"@) == Some(JsonView::Bool(false)),
{
}

/// An answered request is done with: no event brings another answer.
pub proof fn a_request_is_answered_once(
    provider: Seq<char>,
    model: Seq<char>,
    stream: bool,
    stage: ChatStage,
    event: ChatEventView,
    created: i64,
)
    ensures
        chat_next(stage, provider, model, stream, event, created).1 is Answer ==> chat_next(
            stage,
            provider,
            model,
            stream,
            event,
            created,
        ).0 is Done,
        stage is Done ==> chat_next(stage, provider, model, stream, event, created) == (
            ChatStage::Done,
            ChatActionView::Ignore,
        ),
{
}

// ---------------------------------------------------------------------------
// What clients are told
// ---------------------------------------------------------------------------

/// Any port can be set by its number, and what is no number of a port leaves it at 8791.
pub proof fn any_port_can_be_set(n: u16, setting: Seq<char>)
    ensures
        port_of(None) == 8791,
        port_of(Some(decimal(n as int))) == n,
        written_number(setting, 65535) is None ==> port_of(Some(setting)) == 8791,
        written_number(setting, 65535) matches Some(p) ==> port_of(Some(setting)) == p,
{
    decimals_are_read_back(n as nat, 65535);
}

/// The address is host, colon and port; without a host that is set, only this machine can call it.
pub proof fn addresses_are_host_and_port(host: Seq<char>, port: Option<Seq<char>>)
    ensures
        address_of(Some(host), port) == host + ":"@ + decimal(port_of(port) as int),
        address_of(None, port) == "127.0.0.1"@ + ":"@ + decimal(port_of(port) as int),
{
}

/// What a request names comes first; then, for the provider, what is set. An empty name counts for
/// none.
pub proof fn what_a_request_names_comes_first(named: Seq<char>, setting: Option<Seq<char>>)
    requires
        named.len() > 0,
    ensures
        chosen_provider(Some(named), setting) == named,
        chosen_provider(None, Some(named)) == named,
        chosen_provider(Some(Seq::empty()), Some(named)) == named,
        chosen_provider(None, None) == "xai_oauth"@,
        chosen_provider(Some(Seq::empty()), None) == "xai_oauth"@,
        chosen_provider(None, Some(Seq::empty())) == "xai_oauth"@,
        chosen_provider(Some(Seq::empty()), Some(Seq::empty())) == "xai_oauth"@,
        chosen_model(Some(named)) == named,
        chosen_model(None) == "grok-4.7"@,
        chosen_model(Some(Seq::empty())) == "grok-4.7"@,
{
}

/// Tokens hold a sign-in exactly where they have a text that is not blank under `refresh_token`.
pub proof fn a_refresh_token_is_a_sign_in(tokens: JsonView, token: Seq<char>)
    ensures
        says_text(tokens, "refresh_token"@, token) ==> (refreshable(tokens) <==> trimmed(
            token,
        ).len() > 0),
        is_silent_on(tokens, "refresh_token"@) ==> !refreshable(tokens),
        refreshable(tokens) ==> tokens is Object && tokens->Object_0["refresh_token"@] is Text,
{
}

/// A provider is set up where it counts as configured; but `xai_oauth` where its token file is JSON
/// that holds a sign-in, whatever counts as configured.
pub proof fn a_provider_is_set_up_by_its_own_rule(
    provider: Seq<char>,
    tokens: Option<Seq<char>>,
    text: Seq<char>,
    configured: bool,
)
    ensures
        provider != "xai_oauth"@ ==> set_up(provider, tokens, configured) == configured,
        !set_up("xai_oauth"@, None, configured),
        json_parse(text) is None ==> !set_up("xai_oauth"@, Some(text), configured),
        json_parse(text) matches Some(value) ==> set_up("xai_oauth"@, Some(text), configured)
            == refreshable(value),
{
}

/// A request whose provider is not set up is answered with 401 and with what to do about it.
pub proof fn a_provider_that_is_not_set_up_is_told(provider: Seq<char>)
    ensures
        tells(
            not_set_up("xai_oauth"@),
            401,
            "goose is not signed in to xAI. On the host, run `goose configure` and choose xai_oauth."@,
            "authentication_error"@,
        ),
        provider != "xai_oauth"@ ==> tells(
            not_set_up(provider),
            401,
            provider + " is not set up. Save its settings or sign in to it first."@,
            "authentication_error"@,
        ),
{
    failures_say_what_went_wrong(
        401,
        "goose is not signed in to xAI. On the host, run `goose configure` and choose xai_oauth."@,
        "authentication_error"@,
    );
    failures_say_what_went_wrong(
        401,
        provider + " is not set up. Save its settings or sign in to it first."@,
        "authentication_error"@,
    );
}

proof fn lemma_health_keys_differ()
    ensures
        "ok"@ != "provider"@,
        "ok"@ != "credential"@,
        "provider"@ != "credential"@,
{
    reveal_strlit("ok");
    reveal_strlit("provider");
    reveal_strlit("credential");
    assert("ok"@.len() == 2);
    assert("provider"@.len() == 8);
    assert("credential"@.len() == 10);
}

proof fn lemma_model_keys_differ()
    ensures
        "id"@ != "object"@,
        "id"@ != "owned_by"@,
        "id"@ != "data"@,
        "object"@ != "owned_by"@,
        "object"@ != "data"@,
        "owned_by"@ != "data"@,
{
    reveal_strlit("id");
    reveal_strlit("object");
    reveal_strlit("owned_by");
    reveal_strlit("data");
    assert("id"@.len() == 2);
    assert("object"@.len() == 6);
    assert("owned_by"@.len() == 8);
    assert("data"@.len() == 4);
}

/// The health of a provider names it, and reports a credential exactly where it is set up and could
/// be built.
pub proof fn health_reports_the_credential(provider: Seq<char>, set_up: bool, built: bool)
    ensures
        ({
            let value = health_json(provider, set_up, built);
            &&& has_just(value, set!["ok"@, "provider"@, "credential"@])
            &&& says(value, "ok"@, JsonView::Bool(true))
            &&& says_text(value, "provider"@, provider)
            &&& set_up && built ==> says(value, "credential"@, JsonView::Bool(true))
            &&& !set_up || !built ==> says(value, "credential"@, JsonView::Bool(false))
        }),
{
    lemma_health_keys_differ();
}

/// The list of models has them one by one, in order, each under its id and with its owner: xAI for
/// those of `xai_oauth`, and the provider itself for any other.
pub proof fn models_are_listed_with_their_owner(ids: Seq<Seq<char>>, provider: Seq<char>, i: int)
    ensures
        ({
            let value = model_list_json(ids, owner_of(provider));
            let data = value->Object_0["data"@];
            let owner = if provider == "xai_oauth"@ {
                "xai"@
            } else {
                provider
            };
            &&& has_just(value, set!["object"@, "data"@])
            &&& says_text(value, "object"@, "list"@)
            &&& value->Object_0.dom().contains("data"@)
            &&& data is Array
            &&& data->Array_0.len() == ids.len()
            &&& 0 <= i < ids.len() ==> {
                &&& has_just(data->Array_0[i], set!["id"@, "object"@, "owned_by"@])
                &&& says_text(data->Array_0[i], "id"@, ids[i])
                &&& says_text(data->Array_0[i], "object"@, "model"@)
                &&& says_text(data->Array_0[i], "owned_by"@, owner)
            }
        }),
{
    lemma_model_keys_differ();
}

/// A chat request goes from one step to the next: a provider that is set up is built, and then asked
/// for a stream exactly where the request wants one. What it replies is the completion, and what
/// fails is told; the provider is dropped exactly where the failure is about its sign-in.
pub proof fn a_chat_goes_step_by_step(
    provider: Seq<char>,
    model: Seq<char>,
    stream: bool,
    reply: MessageView,
    usage: ProviderUsage,
    message: Seq<char>,
    created: i64,
)
    ensures
        ({
            let step = |stage: ChatStage, event: ChatEventView|
                chat_next(stage, provider, model, stream, event, created);
            &&& step(ChatStage::Checking, ChatEventView::SetUp(true)) == (
                ChatStage::Building,
                ChatActionView::Build,
            )
            &&& step(ChatStage::Checking, ChatEventView::SetUp(false)) == (
                ChatStage::Done,
                ChatActionView::Answer(not_set_up(provider), false),
            )
            &&& stream ==> step(ChatStage::Building, ChatEventView::Ready) == (
                ChatStage::Streaming,
                ChatActionView::Stream,
            )
            &&& !stream ==> step(ChatStage::Building, ChatEventView::Ready) == (
                ChatStage::Completing,
                ChatActionView::Complete,
            )
            &&& ({
                let (stage, action) = step(ChatStage::Building, ChatEventView::Unready(message));
                &&& stage is Done
                &&& action is Answer
                &&& !action->Answer_1
                &&& tells(action->Answer_0, 401, message, "authentication_error"@)
            })
            &&& ({
                let (stage, action) = step(
                    ChatStage::Completing,
                    ChatEventView::Replied(reply, usage),
                );
                &&& stage is Done
                &&& action is Answer
                &&& !action->Answer_1
                &&& action->Answer_0.status == 200
                &&& action->Answer_0.body == completion_json(created, model, reply.content, usage)
                &&& action->Answer_0.text == object_text(
                    completion_parts(created, model, reply.content, usage),
                )
            })
            &&& step(ChatStage::Completing, ChatEventView::Failed(message)) == (
                ChatStage::Done,
                ChatActionView::Answer(upstream_reply(message), about_sign_in(message)),
            )
        }),
{
    failures_say_what_went_wrong(401, message, "authentication_error"@);
}

/// What comes out of turn changes nothing, and nothing is owed to it.
pub proof fn what_comes_out_of_turn_is_ignored(
    provider: Seq<char>,
    model: Seq<char>,
    stream: bool,
    stage: ChatStage,
    event: ChatEventView,
    created: i64,
)
    requires
        stage is Checking ==> !(event is SetUp),
        stage is Building ==> !(event is Ready || event is Unready),
        stage is Completing ==> !(event is Replied || event is Failed),
    ensures
        chat_next(stage, provider, model, stream, event, created) == (
            stage,
            ChatActionView::Ignore,
        ),
{
}

/// The view of an event or an action of a chat leaves nothing out.
pub proof fn views_of_chats_leave_nothing_out(
    m: Message,
    u: ProviderUsage,
    e: String,
    reply: Reply,
    b: bool,
    text: &str,
)
    ensures
        ChatEvent::SetUp(b)@ == ChatEventView::SetUp(b),
        ChatEvent::Ready@ is Ready,
        ChatEvent::Unready(e)@ == ChatEventView::Unready(e@),
        ChatEvent::Replied(m, u)@ == ChatEventView::Replied(m@, u),
        ChatEvent::Failed(e)@ == ChatEventView::Failed(e@),
        ChatAction::Build@ is Build,
        ChatAction::Complete@ is Complete,
        ChatAction::Stream@ is Stream,
        (ChatAction::Answer { reply, forget: b })@ == ChatActionView::Answer(reply@, b),
        ChatAction::Ignore@ is Ignore,
        opt_str(Some(text)) == Some(text@),
        opt_str(None) is None,
{
}

} // verus!
