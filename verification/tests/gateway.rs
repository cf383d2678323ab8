use goose_gateway::completion::ProviderUsage;
use goose_gateway::conversation::{
    Block, ChatRequest, InMessage, Message, Role, StreamOptions,
};
use goose_gateway::gateway::{
    build_error, chat, credential_present, health, is_set_up, listen_address, listen_port, model_for,
    models, not_set_up_reply, plan_chat, provider_for, ChatAction, ChatEvent, ChatStage,
};
use goose_gateway::json::Json;

fn request(stream: bool) -> ChatRequest {
    ChatRequest {
        model: None,
        provider: None,
        messages: vec![InMessage {
            role: "user".to_owned(),
            content: Some(Json::text("hi")),
            tool_calls: vec![],
            tool_call_id: None,
        }],
        tools: vec![],
        stream,
        stream_options: Some(StreamOptions { include_usage: true }),
    }
}

const NO_COUNTS: ProviderUsage =
    ProviderUsage { input_tokens: None, output_tokens: None, total_tokens: None };

fn status(action: &ChatAction) -> u16 {
    match action {
        ChatAction::Answer { reply, .. } => reply.status,
        _ => panic!("expected an answer"),
    }
}

#[test]
fn credential_requires_a_refresh_token() {
    let good = r#"{"access_token":"a","refresh_token":"r","expires_at":"2020-01-01T00:00:00Z"}"#;
    assert!(credential_present(Some(good)), "an expired access token is fine: goose renews it");
    let empty = r#"{"access_token":"a","refresh_token":"  "}"#;
    assert!(!credential_present(Some(empty)));
    assert!(!credential_present(Some("not json")));
    assert!(!credential_present(None));
}

#[test]
fn refresh_tokens_of_other_kinds_do_not_count() {
    assert!(!credential_present(Some(r#"{"refresh_token":1}"#)));
    assert!(!credential_present(Some(r#"["refresh_token"]"#)));
    assert!(!credential_present(Some(r#"{"refresh_token":"　\t"}"#)));
}

#[test]
fn the_port_falls_back() {
    assert_eq!(listen_port(None), 8791);
    assert_eq!(listen_port(Some("80")), 80);
    assert_eq!(listen_port(Some("+80")), 80);
    assert_eq!(listen_port(Some("65535")), 65535);
    for bad in ["65536", "", "-1", " 80", "80 ", "0x50", "+", "99999999999999999999"] {
        assert_eq!(listen_port(Some(bad)), 8791, "{bad}");
        assert!(bad.parse::<u16>().is_err(), "{bad}");
    }
}

#[test]
fn the_address_is_this_machine_unless_set() {
    assert_eq!(listen_address(None, None), "127.0.0.1:8791");
    assert_eq!(listen_address(Some("0.0.0.0"), Some("9000")), "0.0.0.0:9000");
}

#[test]
fn requests_pick_their_provider_and_model() {
    assert_eq!(provider_for(None, None), "xai_oauth");
    assert_eq!(provider_for(None, Some("openai")), "openai");
    assert_eq!(provider_for(Some(""), Some("")), "xai_oauth");
    assert_eq!(provider_for(Some("anthropic"), Some("openai")), "anthropic");
    assert_eq!(model_for(None), "grok-4.7");
    assert_eq!(model_for(Some("")), "grok-4.7");
    assert_eq!(model_for(Some("m")), "m");
}

#[test]
fn providers_that_are_not_set_up_are_refused() {
    assert!(!is_set_up("xai_oauth", None, true));
    assert!(is_set_up("xai_oauth", Some(r#"{"refresh_token":"r"}"#), false));
    assert!(is_set_up("openai", None, true));
    assert!(!is_set_up("openai", Some(r#"{"refresh_token":"r"}"#), false));
    let xai = not_set_up_reply("xai_oauth");
    assert_eq!(xai.status, 401);
    let message = xai.body.get("error").unwrap().get("message").unwrap().as_str().unwrap();
    assert_eq!(
        message,
        "goose is not signed in to xAI. On the host, run `goose configure` and choose xai_oauth."
    );
    let other = not_set_up_reply("openai");
    assert_eq!(other.status, 401);
    assert!(other.body.into_text().contains("openai is not set up."));
}

#[test]
fn a_provider_that_cannot_be_built_is_named() {
    assert_eq!(
        build_error("xai_oauth", "no key"),
        "building goose's xai_oauth provider; run `goose configure` and choose xai_oauth first: no key"
    );
}

#[test]
fn health_has_a_credential_where_all_is_well() {
    assert_eq!(
        health("xai_oauth", true, true).into_text(),
        r#"{"credential":true,"ok":true,"provider":"xai_oauth"}"#
    );
    for (set_up, built) in [(false, true), (true, false), (false, false)] {
        let reply = health("p", set_up, built);
        assert_eq!(reply.status, 200);
        assert_eq!(reply.body.get("credential"), Some(&Json::Bool(false)));
    }
}

#[test]
fn models_are_those_that_goose_knows() {
    let known = |all: &[&str]| all.iter().map(|s| s.to_string()).collect::<Vec<_>>();
    assert_eq!(
        models("xai_oauth", &known(&["grok-4.7", "grok-3"])).body.into_text(),
        [
            r#"{"data":[{"id":"grok-4.7","object":"model","owned_by":"xai"},"#,
            r#"{"id":"grok-3","object":"model","owned_by":"xai"}],"object":"list"}"#,
        ]
        .concat()
    );
    let other = models("openai", &known(&["gpt"]));
    assert_eq!(other.status, 200);
    assert_eq!(
        other.body.into_text(),
        r#"{"data":[{"id":"gpt","object":"model","owned_by":"openai"}],"object":"list"}"#
    );
    for provider in ["xai_oauth", "openai"] {
        let none = models(provider, &vec![]).body;
        assert_eq!(none.into_text(), r#"{"data":[],"object":"list"}"#);
    }
}

#[test]
fn a_plan_reads_the_request() {
    let plan = plan_chat(request(true), Some("openai"));
    assert_eq!(plan.provider, "openai");
    assert_eq!(plan.model, "grok-4.7");
    assert!(plan.stream && plan.include_usage);
    assert_eq!(plan.system, "");
    assert_eq!(plan.messages.len(), 1);
    let bare = ChatRequest { stream_options: None, ..request(false) };
    let plan = plan_chat(bare, None);
    assert!(!plan.stream && !plan.include_usage);
}

#[test]
fn a_chat_goes_from_check_to_answer() {
    let plan = plan_chat(request(false), None);
    let (stage, action) = chat(ChatStage::Checking, &plan, ChatEvent::SetUp(true), 0);
    assert!(matches!(action, ChatAction::Build));
    let (stage, action) = chat(stage, &plan, ChatEvent::Ready, 0);
    assert!(matches!(action, ChatAction::Complete));
    let reply = Message { role: Role::Assistant, content: vec![Block::Text("yes".to_owned())] };
    let (stage, action) = chat(stage, &plan, ChatEvent::Replied(reply, NO_COUNTS), 7);
    assert_eq!(stage, ChatStage::Done);
    match action {
        ChatAction::Answer { reply, forget } => {
            assert!(!forget);
            assert_eq!(reply.status, 200);
            assert_eq!(reply.body.get("id"), Some(&Json::text("chatcmpl-7")));
            assert!(reply.into_text().starts_with(r#"{"id":"chatcmpl-7","object":"#));
        }
        _ => panic!("expected an answer"),
    }
    let (stage, action) = chat(stage, &plan, ChatEvent::Failed("401".to_owned()), 7);
    assert_eq!(stage, ChatStage::Done);
    assert!(matches!(action, ChatAction::Ignore));
}

#[test]
fn a_chat_can_fail_at_every_step() {
    let plan = plan_chat(request(false), None);
    let (stage, action) = chat(ChatStage::Checking, &plan, ChatEvent::SetUp(false), 0);
    assert_eq!((stage, status(&action)), (ChatStage::Done, 401));
    let unready = ChatEvent::Unready("no provider".to_owned());
    let (stage, action) = chat(ChatStage::Building, &plan, unready, 0);
    assert_eq!((stage, status(&action)), (ChatStage::Done, 401));
    let failed = ChatEvent::Failed("overloaded".to_owned());
    let (stage, action) = chat(ChatStage::Completing, &plan, failed, 0);
    assert_eq!((stage, status(&action)), (ChatStage::Done, 502));
    let expired = ChatEvent::Failed("token expired".to_owned());
    let (_, action) = chat(ChatStage::Completing, &plan, expired, 0);
    assert!(matches!(action, ChatAction::Answer { forget: true, .. }));
    let streaming = plan_chat(request(true), None);
    let (stage, action) = chat(ChatStage::Building, &streaming, ChatEvent::Ready, 0);
    assert_eq!(stage, ChatStage::Streaming);
    assert!(matches!(action, ChatAction::Stream));
}
