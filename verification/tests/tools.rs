use goose_gateway::json::{Json, JsonObject};
use goose_gateway::reply::Reply;
use goose_gateway::tools::{
    call, list, start_call, start_list, CallOutcome, CallOutput, Content, ListAction, ListEvent,
    ListStage, McpTools, ServedTool, Session, ToolHints, ToolInfo, ToolResult,
};

fn message_of(reply: &Reply) -> &str {
    reply.body.get("error").and_then(|e| e.get("message")).and_then(|m| m.as_str()).unwrap()
}

fn text(s: &str) -> Content {
    Content::Text(s.to_owned())
}

fn served(name: &str) -> ServedTool {
    ServedTool {
        name: name.to_owned(),
        description: None,
        input_schema: JsonObject::new(),
        annotations: None,
    }
}

fn result(content: Vec<Content>) -> ToolResult {
    ToolResult { content, structured_content: None, is_error: None }
}

#[test]
fn command_splits_program_and_arguments() {
    let t = McpTools::from_command("  /usr/local/bin/ldk-server-mcp --verbose ").unwrap();
    assert_eq!(t.program, "/usr/local/bin/ldk-server-mcp");
    assert_eq!(t.args, vec!["--verbose"]);
    assert!(McpTools::from_command("   ").is_none());
}

#[test]
fn tool_info_carries_schema_and_hints() {
    let schema = || {
        let amount = JsonObject::new().with("type", Json::text("integer"));
        let properties = JsonObject::new().with("amount_msat", Json::Object(amount));
        JsonObject::new()
            .with("type", Json::text("object"))
            .with("properties", Json::Object(properties))
    };
    let tool = ServedTool {
        name: "bolt11_send".to_owned(),
        description: Some("Pay an invoice".to_owned()),
        input_schema: schema(),
        annotations: Some(ToolHints { read_only: Some(false), destructive: Some(true) }),
    };
    let info = ToolInfo::from(tool);
    assert_eq!(info.name, "bolt11_send");
    assert_eq!(info.parameters, Json::Object(schema()));
    assert_eq!(info.read_only, Some(false));
    assert_eq!(info.destructive, Some(true));

    let bare = ToolInfo::from(ServedTool {
        description: Some("Balances".to_owned()),
        ..served("get_balances")
    });
    let json = bare.into_json();
    assert!(json.get("read_only").is_none(), "absent hints stay absent");
}

#[test]
fn call_output_prefers_text_then_structured() {
    assert_eq!(
        CallOutput::from(result(vec![text("a"), text("b")])),
        CallOutput { output: "a\nb".into(), is_error: false }
    );

    let failed =
        ToolResult { is_error: Some(true), ..result(vec![text("insufficient funds")]) };
    assert!(CallOutput::from(failed).is_error);

    // A structured result carries its value as text too.
    let value = || Json::Object(JsonObject::new().with("ok", Json::Bool(true)));
    let structured = ToolResult {
        content: vec![text(&value().into_text())],
        structured_content: Some(value()),
        is_error: Some(false),
    };
    let out = CallOutput::from(structured);
    assert!(out.output.contains("\"ok\""), "{}", out.output);

    let bare = ToolResult { structured_content: Some(value()), ..result(vec![]) };
    assert_eq!(CallOutput::from(bare).output, r#"{"ok":true}"#);
}

#[test]
fn outputs_at_the_edge() {
    let both = ToolResult {
        structured_content: Some(Json::signed(1)),
        is_error: Some(false),
        ..result(vec![Content::Other, text("")])
    };
    assert_eq!(CallOutput::from(both), CallOutput { output: String::new(), is_error: false });
    let image = CallOutput::from(result(vec![Content::Other]));
    assert_eq!(image.into_json().into_written(), r#"{"output":"","is_error":false}"#);
    let null = ToolResult { structured_content: Some(Json::Null), ..result(vec![]) };
    assert_eq!(CallOutput::from(null).output, "null");
}

#[test]
fn tools_are_listed_as_json() {
    let tool = ServedTool {
        annotations: Some(ToolHints { read_only: Some(true), destructive: None }),
        ..served("t")
    };
    let json = ToolInfo::from(tool).into_json();
    assert_eq!(
        json.into_text(),
        r#"{"description":"","name":"t","parameters":{},"read_only":true}"#
    );
}

#[test]
fn without_a_command_there_are_no_tools() {
    let (stage, action) = start_list(None);
    assert_eq!(stage, ListStage::Done);
    match action {
        ListAction::Answer(reply) => {
            assert_eq!(reply.status, 404);
            assert_eq!(
                message_of(&reply),
                "no tools: set GOOSE_GATEWAY_MCP_COMMAND to serve an MCP server's tools"
            );
        }
        _ => panic!("expected an answer"),
    }
    assert_eq!(start_call(None).unwrap().status, 404);
    let tools = McpTools::from_command("mcp").unwrap();
    assert!(start_call(Some(&tools)).is_none());
    assert!(matches!(start_list(Some(&tools)).1, ListAction::Connect));
}

#[test]
fn a_server_is_started_unless_it_runs() {
    let tools = McpTools::from_command("mcp -v").unwrap();
    assert_eq!(tools.program(), "mcp");
    assert!(tools.must_start(Session::Absent));
    assert!(tools.must_start(Session::Closed));
    assert!(!tools.must_start(Session::Open));
    assert_eq!(tools.start_error("no such file"), "could not start mcp: no such file");
    assert_eq!(tools.serve_error("eof"), "mcp did not start as an MCP server: eof");
}

#[test]
fn a_listing_is_tried_twice() {
    let stage = ListStage::Connecting { again: false };
    let (stage, action) = list(stage, ListEvent::Connected);
    assert!(matches!(action, ListAction::Ask));
    let (stage, action) = list(stage, ListEvent::Failed("closed".to_owned()));
    assert!(matches!(action, ListAction::Reset));
    let (stage, action) = list(stage, ListEvent::Reset);
    assert!(matches!(action, ListAction::Connect));
    let (stage, _) = list(stage, ListEvent::Connected);
    let (stage, action) = list(stage, ListEvent::Failed("closed".to_owned()));
    assert_eq!(stage, ListStage::Done);
    match action {
        ListAction::Answer(reply) => {
            assert_eq!(reply.status, 502);
            assert_eq!(message_of(&reply), "listing tools failed: closed");
        }
        _ => panic!("expected an answer"),
    }
    let (stage, action) = list(stage, ListEvent::Connected);
    assert_eq!(stage, ListStage::Done);
    assert!(matches!(action, ListAction::Ignore));
}

#[test]
fn a_listing_survives_one_restart() {
    let mut stage = ListStage::Connecting { again: false };
    let events = vec![
        ListEvent::Connected,
        ListEvent::Failed("gone".to_owned()),
        ListEvent::Reset,
        ListEvent::Connected,
        ListEvent::Listed(vec![served("a"), served("b")]),
    ];
    let mut last = ListAction::Ignore;
    for event in events {
        let (next, action) = list(stage, event);
        stage = next;
        last = action;
    }
    match last {
        ListAction::Answer(reply) => {
            assert_eq!(reply.status, 200);
            match reply.body.get("tools") {
                Some(Json::Array(all)) => assert_eq!(all.len(), 2),
                _ => panic!("expected tools"),
            }
        }
        _ => panic!("expected an answer"),
    }
}

#[test]
fn a_server_that_is_not_there_is_not_tried_again() {
    let stage = ListStage::Connecting { again: false };
    let (stage, action) = list(stage, ListEvent::Unavailable("could not start x: e".to_owned()));
    assert_eq!(stage, ListStage::Done);
    match action {
        ListAction::Answer(reply) => {
            assert_eq!((reply.status, message_of(&reply)), (502, "could not start x: e"));
        }
        _ => panic!("expected an answer"),
    }
}

#[test]
fn calls_are_answered_whatever_comes_of_them() {
    let ok = call("pay", CallOutcome::Complete(result(vec![text("done")])));
    assert_eq!((ok.reply.status, ok.reset), (200, false));
    assert_eq!(ok.reply.into_text(), r#"{"output":"done","is_error":false}"#);
    let late = call("pay", CallOutcome::TimedOut);
    assert_eq!((late.reply.status, late.reset), (504, false));
    assert_eq!(message_of(&late.reply), "pay did not answer within 120s; it may still complete");
    let broke = call("pay", CallOutcome::Failed("eof".to_owned()));
    assert_eq!((broke.reply.status, broke.reset), (502, true));
    assert_eq!(message_of(&broke.reply), "pay failed and may or may not have run: eof");
    let odd = call("pay", CallOutcome::Unfinished);
    assert_eq!((odd.reply.status, odd.reset), (502, false));
    assert_eq!(
        message_of(&odd.reply),
        "pay asked for input or a task; the gateway only takes direct results"
    );
    let none = call("pay", CallOutcome::Unavailable("no server".to_owned()));
    assert_eq!((none.reply.status, none.reset), (502, false));
    assert_eq!(message_of(&none.reply), "no server");
}
