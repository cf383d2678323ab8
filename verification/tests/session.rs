use goose_gateway::conversation::{Block, Message, Role};
use goose_gateway::json::Json;
use goose_gateway::session::{Stage, StreamEvent, StreamSession, StreamStep};

fn says(text: &str) -> StreamEvent {
    let content = vec![Block::Text(text.to_owned())];
    StreamEvent::Item(Some(Message { role: Role::Assistant, content }), None)
}

fn run(include_usage: bool, events: Vec<StreamEvent>) -> (StreamSession, Vec<StreamStep>) {
    let mut session = StreamSession::new("grok-4.7".to_owned(), include_usage);
    let mut steps = vec![];
    for event in events {
        assert!(session.has_room(&event));
        let (next, step) = session.step(event, 1700000000);
        session = next;
        steps.push(step);
    }
    (session, steps)
}

fn lines(steps: &[StreamStep]) -> Vec<&str> {
    steps.iter().flat_map(|s| s.lines.iter().map(|l| l.as_str())).collect()
}

fn field(line: &str, key: &str) -> Option<Json> {
    let value = Json::parse(line).unwrap();
    match value {
        Json::Object(o) => o.members.into_iter().find(|m| m.0 == key).map(|m| m.1),
        _ => None,
    }
}

#[test]
fn a_complete_stream_ends_with_done() {
    let events = vec![StreamEvent::Opened, says("Hel"), says("lo"), StreamEvent::Ended];
    let (session, steps) = run(true, events);
    assert!(matches!(session.stage, Stage::Over));
    let polls: Vec<bool> = steps.iter().map(|s| s.poll).collect();
    assert_eq!(polls, vec![true, true, true, false]);
    let sent = lines(&steps);
    assert_eq!(sent.len(), 5);
    assert!(sent[0].contains("Hel") && sent[1].contains("lo"));
    assert!(sent[2].contains(r#""finish_reason":"stop""#));
    assert!(field(sent[3], "usage").is_some());
    assert_eq!(sent[4], "[DONE]");
    assert!(steps.iter().all(|s| s.reply.is_none() && !s.forget));
}

#[test]
fn an_empty_stream_is_complete_too() {
    let (_, steps) = run(false, vec![StreamEvent::Opened, StreamEvent::Ended]);
    let sent = lines(&steps);
    assert_eq!(sent.len(), 2);
    assert_eq!(sent[1], "[DONE]");
}

#[test]
fn failures_before_the_first_item_keep_their_status() {
    let failed = || StreamEvent::Failed("401 Unauthorized".to_owned());
    for events in [vec![failed()], vec![StreamEvent::Opened, failed()]] {
        let (session, steps) = run(false, events);
        assert!(matches!(session.stage, Stage::Over));
        let last = steps.last().unwrap();
        assert_eq!(last.reply.as_ref().unwrap().status, 401);
        assert!(last.forget && !last.poll);
        assert!(lines(&steps).is_empty());
    }
    let (_, steps) = run(false, vec![StreamEvent::Failed("boom".to_owned())]);
    assert_eq!(steps[0].reply.as_ref().unwrap().status, 502);
    assert!(!steps[0].forget);
}

#[test]
fn later_failures_travel_in_the_stream() {
    let events =
        vec![StreamEvent::Opened, says("x"), StreamEvent::Failed("token expired".to_owned())];
    let (_, steps) = run(true, events);
    let last = steps.last().unwrap();
    assert!(last.reply.is_none() && last.forget && !last.poll);
    assert_eq!(
        last.lines,
        vec![r#"{"error":{"message":"token expired","type":"authentication_error"}}"#]
    );
    assert!(!lines(&steps).contains(&"[DONE]"));
}

#[test]
fn a_client_that_leaves_ends_it_all() {
    let events = vec![
        StreamEvent::Opened,
        says("x"),
        StreamEvent::ClientLeft,
        says("y"),
        StreamEvent::Failed("401".to_owned()),
        StreamEvent::Ended,
    ];
    let (session, steps) = run(true, events);
    assert!(matches!(session.stage, Stage::Over));
    for step in &steps[2..] {
        assert!(!step.poll && !step.forget && step.lines.is_empty() && step.reply.is_none());
    }
}

#[test]
fn events_out_of_turn_change_nothing() {
    let (session, steps) = run(false, vec![says("early"), StreamEvent::Ended]);
    assert!(matches!(session.stage, Stage::Opening));
    assert!(lines(&steps).is_empty());
}
