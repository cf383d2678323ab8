use goose_gateway::completion::ProviderUsage;
use goose_gateway::conversation::{Block, Message, Role, ToolCall, ToolRequest};
use goose_gateway::json::{Json, JsonObject};
use goose_gateway::stream::ChunkWriter;

fn says(text: &str) -> Message {
    Message { role: Role::Assistant, content: vec![Block::Text(text.to_owned())] }
}

fn call(id: &str, name: &str) -> Message {
    Message {
        role: Role::Assistant,
        content: vec![Block::ToolRequest(ToolRequest {
            id: id.to_owned(),
            tool_call: Some(ToolCall { name: name.to_owned(), arguments: None }),
        })],
    }
}

fn at<'a>(value: &'a Json, i: usize) -> &'a Json {
    match value {
        Json::Array(items) => &items[i],
        _ => panic!("expected an array"),
    }
}

fn choice(chunk: &Json) -> &Json {
    at(chunk.get("choices").unwrap(), 0)
}

fn deltas(chunks: &[Json]) -> Vec<&Json> {
    chunks.iter().map(|c| choice(c).get("delta").unwrap()).collect()
}

#[test]
fn stream_text_goes_out_as_content_deltas_then_stop() {
    let mut w = ChunkWriter::new("grok-4.7".into(), false);
    let mut out = w.item(Some(says("Hel")), None);
    out.extend(w.item(Some(says("lo")), None));
    out.extend(w.item(None, None)); // usage-only items produce nothing
    let d = deltas(&out);
    assert_eq!(d.len(), 2);
    assert_eq!(d[0].get("role"), Some(&Json::text("assistant")), "the first delta names the role");
    assert_eq!(d[0].get("content"), Some(&Json::text("Hel")));
    assert!(d[1].get("role").is_none());
    assert_eq!(d[1].get("content"), Some(&Json::text("lo")));
    assert_eq!(out[0].get("object"), Some(&Json::text("chat.completion.chunk")));

    let end = w.finish();
    assert_eq!(end.len(), 1, "no usage chunk unless asked for");
    assert_eq!(choice(&end[0]).get("finish_reason"), Some(&Json::text("stop")));
}

#[test]
fn stream_tool_calls_are_whole_and_indexed() {
    let mut w = ChunkWriter::new("grok-4.7".into(), false);
    let mut out = w.item(Some(call("c1", "get_balances")), None);
    out.extend(w.item(Some(call("c2", "list_channels")), None));
    let d = deltas(&out);
    let first = at(d[0].get("tool_calls").unwrap(), 0);
    assert_eq!(first.get("index"), Some(&Json::signed(0)));
    assert_eq!(first.get("id"), Some(&Json::text("c1")));
    let function = first.get("function").unwrap();
    assert_eq!(function.get("name"), Some(&Json::text("get_balances")));
    assert_eq!(function.get("arguments"), Some(&Json::text("{}")));
    let second = at(d[1].get("tool_calls").unwrap(), 0);
    assert_eq!(second.get("index"), Some(&Json::signed(1)));
    assert_eq!(choice(&w.finish()[0]).get("finish_reason"), Some(&Json::text("tool_calls")));
}

#[test]
fn stream_usage_chunk_only_when_requested() {
    let w = ChunkWriter::new("grok-4.7".into(), true);
    let end = w.finish();
    assert_eq!(end.len(), 2);
    assert_eq!(end[1].get("choices"), Some(&Json::Array(vec![])));
    let usage = end[1].get("usage").unwrap();
    assert_eq!(usage.get("total_tokens"), Some(&Json::signed(0)));
}

#[test]
fn the_last_counts_that_were_reported_go_out() {
    let mut w = ChunkWriter::at(5, "m".to_owned(), true);
    let counts = |n: i32| ProviderUsage {
        input_tokens: Some(n),
        output_tokens: None,
        total_tokens: Some(n + 1),
    };
    w.item(None, Some(counts(1)));
    w.item(Some(says("x")), Some(counts(4)));
    w.item(Some(says("y")), None);
    let end = w.finish();
    let usage = end[1].get("usage").unwrap();
    assert_eq!(usage.get("prompt_tokens"), Some(&Json::signed(4)));
    assert_eq!(usage.get("completion_tokens"), Some(&Json::signed(0)));
    assert_eq!(usage.get("total_tokens"), Some(&Json::signed(5)));
}

#[test]
fn cuts_between_items_do_not_show() {
    let parts = || {
        vec![
            Block::Text("a".to_owned()),
            Block::Text(String::new()),
            Block::Other,
            Block::ToolRequest(ToolRequest { id: "bad".to_owned(), tool_call: None }),
            Block::Text("b".to_owned()),
        ]
    };
    let mut whole = ChunkWriter::at(9, "m".to_owned(), false);
    let together = whole.item(Some(Message { role: Role::Assistant, content: parts() }), None);
    let mut cut = ChunkWriter::at(9, "m".to_owned(), false);
    let mut apart = vec![];
    for part in parts() {
        apart.extend(cut.item(Some(Message { role: Role::Assistant, content: vec![part] }), None));
    }
    assert_eq!(together.len(), 2);
    assert_eq!(together, apart);
}

#[test]
fn a_chunk_is_written_in_full() {
    let mut w = ChunkWriter::at(1700000000, "grok-4.7".to_owned(), false);
    let chunk = w.delta(JsonObject::new().with("content", Json::text("hi")));
    let expected = [
        r#"{"choices":[{"delta":{"content":"hi","role":"assistant"},"finish_reason":null,"#,
        r#""index":0}],"created":1700000000,"id":"chatcmpl-1700000000","#,
        r#""model":"grok-4.7","object":"chat.completion.chunk"}"#,
    ];
    assert_eq!(chunk.into_text(), expected.concat());
}
