use goose_gateway::conversation::{
    json_object, text_of, to_goose, to_tools, Block, InFunction, InMessage, InTool, InToolCall,
    InToolDef, Role,
};
use goose_gateway::json::Json;

fn json(text: &str) -> Json {
    Json::parse(text).expect("test fixture is JSON")
}

fn message(role: &str, content: Option<Json>) -> InMessage {
    InMessage { role: role.to_owned(), content, tool_calls: vec![], tool_call_id: None }
}

fn says(role: &str, text: &str) -> InMessage {
    message(role, Some(Json::Text(text.to_owned())))
}

fn result(id: &str, text: &str) -> InMessage {
    InMessage { tool_call_id: Some(id.to_owned()), ..says("tool", text) }
}

fn call(id: &str, name: &str, arguments: &str) -> InToolCall {
    InToolCall {
        id: id.to_owned(),
        function: InFunction { name: name.to_owned(), arguments: arguments.to_owned() },
    }
}

#[test]
fn text_accepts_string_and_parts() {
    assert_eq!(text_of(&Some(Json::Text("hi".into()))), "hi");
    let parts = json(r#"[{ "type": "text", "text": "a" }, { "type": "text", "text": "b" }]"#);
    assert_eq!(text_of(&Some(parts)), "a\nb");
    assert_eq!(text_of(&None), "");
}

#[test]
fn malformed_arguments_become_empty_object() {
    assert!(json_object("").is_empty());
    assert!(json_object("{oops").is_empty());
    assert!(json_object("\"a string\"").is_empty());
    assert_eq!(json_object(r#"{"a":1}"#).get("a"), Some(&Json::signed(1)));
}

#[test]
fn system_is_split_out_and_roles_map() {
    let (system, out) = to_goose(vec![
        says("system", "sys"),
        says("user", "hi"),
        says("assistant", "hello"),
    ]);
    assert_eq!(system, "sys");
    assert_eq!(out.len(), 2);
    assert_eq!(out[0].role, Role::User);
    assert_eq!(out[1].role, Role::Assistant);
}

#[test]
fn assistant_tool_calls_and_tool_results_round_trip() {
    let (_, out) = to_goose(vec![
        says("user", "do it"),
        InMessage {
            tool_calls: vec![call("c1", "a", r#"{"x":1}"#), call("c2", "b", "")],
            ..message("assistant", Some(Json::Null))
        },
        result("c1", "ok"),
        result("c2", "Error: no route"),
    ]);
    // user, assistant(with 2 requests), ONE user message holding both responses.
    assert_eq!(out.len(), 3, "consecutive tool results fold into one message");
    let requests = out[1].content.iter().filter(|c| matches!(c, Block::ToolRequest(_))).count();
    assert_eq!(requests, 2);
    let responses: Vec<_> = out[2]
        .content
        .iter()
        .filter_map(|c| match c {
            Block::ToolResponse(r) => Some(r),
            _ => None,
        })
        .collect();
    assert_eq!(responses.len(), 2);
    assert!(responses[0].tool_result.is_ok(), "plain text is a success");
    assert!(responses[1].tool_result.is_err(), "an Error: prefix is a failure");
}

#[test]
fn tool_schemas_default_to_an_object() {
    let tools = to_tools(vec![InTool {
        function: InToolDef { name: "t".into(), description: "d".into(), parameters: None },
    }]);
    assert_eq!(tools.len(), 1);
    assert_eq!(tools[0].name, "t");
    assert_eq!(tools[0].schema.get("type"), Some(&Json::text("object")));
}

#[test]
fn given_schemas_are_kept_and_odd_ones_are_not() {
    let tools = to_tools(vec![
        InTool {
            function: InToolDef {
                name: "t".into(),
                description: String::new(),
                parameters: Some(json(r#"{"a":2}"#)),
            },
        },
        InTool {
            function: InToolDef {
                name: "u".into(),
                description: String::new(),
                parameters: Some(json("[1]")),
            },
        },
    ]);
    assert_eq!(tools[0].schema.get("a"), Some(&Json::signed(2)));
    assert_eq!(tools[0].schema.get("type"), None);
    assert_eq!(tools[1].schema.get("type"), Some(&Json::text("object")));
}

#[test]
fn parts_without_text_say_nothing() {
    let parts = json(r#"[{"type":"image"},{"text":1},"x",{"text":"only"},{"text":""}]"#);
    assert_eq!(text_of(&Some(parts)), "only\n");
    assert_eq!(text_of(&Some(json("[]"))), "");
    assert_eq!(text_of(&Some(json("{\"text\":\"no\"}"))), "");
    assert_eq!(text_of(&Some(Json::Null)), "");
}

#[test]
fn system_messages_become_lines_of_one_prompt() {
    let (system, out) = to_goose(vec![
        says("system", ""),
        says("system", "a"),
        says("developer", "dropped"),
        says("user", "u"),
        says("system", "b"),
    ]);
    assert_eq!(system, "a\nb");
    assert_eq!(out.len(), 1);
}

#[test]
fn results_that_are_apart_stay_apart() {
    let (_, out) = to_goose(vec![
        result("c1", "one"),
        says("assistant", "and"),
        result("c2", "two"),
        result("c3", "three"),
        says("user", "thanks"),
        result("c4", "four"),
    ]);
    assert_eq!(out.len(), 5);
    let lens: Vec<usize> = out.iter().map(|m| m.content.len()).collect();
    assert_eq!(lens, vec![1, 1, 2, 1, 1]);
    match &out[2].content[1] {
        Block::ToolResponse(r) => {
            assert_eq!(r.id, "c3");
            assert_eq!(r.tool_result, Ok("three".to_owned()));
        }
        _ => panic!("expected a result"),
    }
}

#[test]
fn an_assistant_without_text_has_only_its_calls() {
    let (_, out) = to_goose(vec![InMessage {
        tool_calls: vec![call("c1", "a", r#"{"x":[true,null]}"#)],
        ..message("assistant", None)
    }]);
    assert_eq!(out[0].content.len(), 1);
    match &out[0].content[0] {
        Block::ToolRequest(q) => {
            assert_eq!(q.id, "c1");
            let call = q.tool_call.as_ref().unwrap();
            assert_eq!(call.name, "a");
            let arguments = call.arguments.as_ref().unwrap();
            assert_eq!(arguments.get("x"), Some(&json("[true,null]")));
        }
        _ => panic!("expected a request"),
    }
    let (_, silent) = to_goose(vec![says("assistant", "")]);
    assert!(silent[0].content.is_empty());
}

#[test]
fn a_result_without_an_id_has_an_empty_one() {
    let (_, out) = to_goose(vec![says("tool", "x")]);
    match &out[0].content[0] {
        Block::ToolResponse(r) => assert_eq!(r.id, ""),
        _ => panic!("expected a result"),
    }
}
