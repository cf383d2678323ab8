use goose_gateway::completion::{
    completion, from_goose, out_tool_call, out_usage, ProviderUsage, Usage,
};
use goose_gateway::conversation::{
    json_object, to_goose, Block, InFunction, InMessage, InToolCall, Message, Role, ToolCall,
    ToolRequest,
};
use goose_gateway::json::{Json, JsonObject};

fn request(id: &str, name: &str, arguments: Option<JsonObject>) -> ToolRequest {
    ToolRequest {
        id: id.to_owned(),
        tool_call: Some(ToolCall { name: name.to_owned(), arguments }),
    }
}

fn reply(content: Vec<Block>) -> Message {
    Message { role: Role::Assistant, content }
}

fn text(s: &str) -> Block {
    Block::Text(s.to_owned())
}

const NO_COUNTS: ProviderUsage =
    ProviderUsage { input_tokens: None, output_tokens: None, total_tokens: None };

#[test]
fn reply_text_and_tool_calls_are_extracted() {
    let args = JsonObject::new().with("amount_sats", Json::signed(50000));
    let reply = reply(vec![
        text("doing it"),
        Block::ToolRequest(request("call-1", "create_invoice", Some(args))),
    ]);
    let (text, calls) = from_goose(reply);
    assert_eq!(text.as_deref(), Some("doing it"));
    assert_eq!(calls.len(), 1);
    assert_eq!(calls[0].id, "call-1");
    assert_eq!(calls[0].function.name, "create_invoice");
    // Arguments go out as a JSON string, which is what OpenAI clients parse.
    assert_eq!(calls[0].function.arguments, r#"{"amount_sats":50000}"#);
}

#[test]
fn texts_are_joined_and_empty_ones_dropped() {
    let (said, calls) = from_goose(reply(vec![text("a"), text(""), Block::Other, text("b")]));
    assert_eq!(said.as_deref(), Some("a\nb"));
    assert!(calls.is_empty());
    assert_eq!(from_goose(reply(vec![text("")])).0, None);
}

#[test]
fn calls_that_make_no_sense_are_left_out() {
    let bad = ToolRequest { id: "x".to_owned(), tool_call: None };
    assert!(out_tool_call(bad).is_none());
    let bare = out_tool_call(request("x", "n", None)).unwrap();
    assert_eq!(bare.function.arguments, "{}");
}

#[test]
fn a_call_that_is_sent_back_is_what_the_model_asked_for() {
    let args = json_object(r#"{"to":["é\n\"",{"n":-7}],"big":18446744073709551615,"on":null}"#);
    let sent = out_tool_call(request("c1", "pay", Some(args))).unwrap();
    let (_, back) = to_goose(vec![InMessage {
        role: "assistant".to_owned(),
        content: None,
        tool_calls: vec![InToolCall {
            id: sent.id,
            function: InFunction {
                name: sent.function.name,
                arguments: sent.function.arguments,
            },
        }],
        tool_call_id: None,
    }]);
    match &back[0].content[0] {
        Block::ToolRequest(q) => {
            assert_eq!(q.id, "c1");
            let call = q.tool_call.as_ref().unwrap();
            assert_eq!(call.name, "pay");
            let arguments = call.arguments.as_ref().unwrap();
            assert_eq!(arguments.get("to"), Json::parse(r#"["é\n\"",{"n":-7}]"#).as_ref());
            assert_eq!(arguments.get("big"), Some(&Json::unsigned(u64::MAX)));
            assert_eq!(arguments.get("on"), Some(&Json::Null));
        }
        _ => panic!("expected a request"),
    }
}

#[test]
fn one_key_does_not_come_back() {
    let key = "$serde_json::private::RawValue";
    let args = JsonObject::new().with(key, Json::text("1"));
    let sent = out_tool_call(request("c1", "pay", Some(args))).unwrap();
    assert_eq!(sent.function.arguments, r#"{"$serde_json::private::RawValue":"1"}"#);
    assert!(json_object(&sent.function.arguments).is_empty());

    // Neither does it further in, but behind another key it does.
    let inner = || JsonObject::new().with(key, Json::text("[2]"));
    let args = JsonObject::new().with("a", Json::Object(inner()));
    let sent = out_tool_call(request("c1", "pay", Some(args))).unwrap();
    let back = json_object(&sent.function.arguments);
    assert_eq!(back.get("a"), Json::parse("[2]").as_ref());
    let args = inner().with("!", Json::Null);
    let sent = out_tool_call(request("c1", "pay", Some(args))).unwrap();
    let back = json_object(&sent.function.arguments);
    assert_eq!(back.get(key), Some(&Json::text("[2]")));
}

#[test]
fn counts_that_are_missing_are_zero() {
    let u = out_usage(&ProviderUsage {
        input_tokens: Some(7),
        output_tokens: None,
        total_tokens: Some(i32::MAX),
    });
    assert_eq!(u, Usage { prompt_tokens: 7, completion_tokens: 0, total_tokens: 2147483647 });
    assert_eq!(out_usage(&NO_COUNTS), Usage::default());
}

#[test]
fn a_completion_is_written_in_full() {
    let body = completion(
        1700000000,
        "grok-4.7",
        reply(vec![text("hi"), Block::ToolRequest(request("c", "f", None))]),
        &ProviderUsage { input_tokens: Some(1), output_tokens: Some(2), total_tokens: Some(3) },
    );
    let expected = [
        r#"{"id":"chatcmpl-1700000000","object":"chat.completion","created":1700000000,"#,
        r#""model":"grok-4.7","choices":[{"index":0,"message":{"role":"assistant","#,
        r#""content":"hi","tool_calls":[{"id":"c","type":"function","#,
        r#""function":{"name":"f","arguments":"{}"}}]},"finish_reason":"tool_calls"}],"#,
        r#""usage":{"prompt_tokens":1,"completion_tokens":2,"total_tokens":3}}"#,
    ];
    assert_eq!(body.into_written(), expected.concat());
}

#[test]
fn a_completion_without_calls_stops() {
    let body = completion(-5, "m", reply(vec![]), &NO_COUNTS);
    assert_eq!(body.get("id"), Some(&Json::text("chatcmpl--5")));
    let choice = match body.get("choices") {
        Some(Json::Array(all)) => &all[0],
        _ => panic!("expected choices"),
    };
    assert_eq!(choice.get("finish_reason"), Some(&Json::text("stop")));
    let message = choice.get("message").unwrap();
    assert_eq!(message.get("content"), Some(&Json::Null));
    assert_eq!(message.get("tool_calls"), None);
}
