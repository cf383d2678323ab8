use goose_gateway::json::Json;
use goose_gateway::setup::{ConfigKey, ProviderView};
use goose_gateway::reply::Reply;
use goose_gateway::sign_in::{
    parse_sign_in_line, sign_in, sse, MessageText, SignInAction, SignInEvent, SignInInput,
    SignInLogTap, SignInStage, SignInStream, SignIns,
};

fn signs_in() -> Vec<ConfigKey> {
    vec![ConfigKey { name: "T".to_owned(), secret: true, oauth_flow: true }]
}

fn provider() -> ProviderView {
    ProviderView {
        id: "xai_oauth".to_owned(),
        name: "xAI".to_owned(),
        description: String::new(),
        method: "oauth_browser".to_owned(),
        featured: true,
        docs_url: None,
        sign_in: true,
        fields: vec![],
        configured: true,
        default_model: "grok-4.7".to_owned(),
        models: vec![],
    }
}

#[test]
fn sign_in_log_lines_are_recognised() {
    match parse_sign_in_line(
        "Please open this URL in your browser to authorize goose with xAI:\nhttps://auth.x.ai/oauth2/authorize?x=1",
    ) {
        Some(SignInEvent::OpenUrl { url }) => {
            assert_eq!(url, "https://auth.x.ai/oauth2/authorize?x=1")
        }
        _ => panic!("expected an address"),
    }
    match parse_sign_in_line(
        "xAI device authorization: open https://accounts.x.ai/oauth2/device and enter code ABCD-1234",
    ) {
        Some(SignInEvent::DeviceCode { user_code, verification_uri, .. }) => {
            assert_eq!(user_code, "ABCD-1234");
            assert_eq!(verification_uri, "https://accounts.x.ai/oauth2/device");
        }
        _ => panic!("expected a device code"),
    }
    assert!(parse_sign_in_line("Token refreshed successfully").is_none());
    assert!(parse_sign_in_line("Please open this URL in your browser:\nhttp://evil").is_none());
}

#[test]
fn log_lines_at_the_edge() {
    let page = "open this URL in your browser\r\n  https://a \r\n";
    assert!(matches!(parse_sign_in_line(page), Some(SignInEvent::OpenUrl { url }) if url == "https://a"));
    assert!(parse_sign_in_line("open this URL in your browser\nhttps://a\n\n").is_none());
    assert!(parse_sign_in_line("x open https://a and enter code A B").is_none());
    assert!(parse_sign_in_line("x open https://a and enter code  ").is_none());
    assert!(parse_sign_in_line("x open http://a and enter code A").is_none());
    assert!(parse_sign_in_line("open https://a and enter code A").is_none());
    assert!(parse_sign_in_line("").is_none());
    // A message that asks for a page but gives none may still carry a code.
    match parse_sign_in_line(
        "Please open this URL in your browser, or open https://b and enter code Q",
    ) {
        Some(SignInEvent::DeviceCode { .. }) => panic!("the first ` open ` decides"),
        None => {}
        _ => panic!("expected nothing"),
    }
    match parse_sign_in_line("now open https://b and enter code Q; open this URL in your browser") {
        None => {}
        _ => panic!("a code has no spaces"),
    }
    match parse_sign_in_line("open this URL in your browser: then open https://b and enter code Q") {
        Some(SignInEvent::DeviceCode { user_code, verification_uri, expires_in }) => {
            assert_eq!((user_code.as_str(), verification_uri.as_str()), ("Q", "https://b"));
            assert_eq!(expires_in, 0);
        }
        _ => panic!("expected a device code"),
    }
}

#[test]
fn only_goose_is_listened_to() {
    let line = "x open https://a and enter code A";
    assert!(SignInLogTap.on_event("goose::oauth", line).is_some());
    assert!(SignInLogTap.on_event("goose", line).is_some());
    assert!(SignInLogTap.on_event("hyper::goose", line).is_none());
    assert!(SignInLogTap.on_event("goose", "nothing").is_none());
}

#[test]
fn the_message_field_is_the_text() {
    let mut text = MessageText::default();
    assert_eq!(text.0, "");
    text.record("level", "info");
    assert_eq!(text.0, "");
    text.record("message", "hello");
    text.record("other", "x");
    assert_eq!(text.0, "hello");
}

fn checked(all: &mut SignIns, id: &str, declared: Option<Vec<ConfigKey>>) -> Option<Reply> {
    let input = SignInInput::Declared(declared);
    match sign_in(all, id, SignInStage::Checking, input) {
        (SignInStage::Over, SignInAction::Answer(reply)) => Some(reply),
        (SignInStage::Preparing, SignInAction::Prepare) => None,
        _ => panic!("expected a decision"),
    }
}

#[test]
fn one_sign_in_runs_at_a_time() {
    let mut all = SignIns::new();
    assert!(checked(&mut all, "a", Some(signs_in())).is_none());
    let first = all.start("a").unwrap();
    assert_eq!(first, 1);
    assert!(all.waiting_for("a") && !all.waiting_for("b"));
    let busy = checked(&mut all, "b", Some(signs_in())).unwrap();
    assert_eq!(busy.status, 409);
    assert_eq!(all.start("b").unwrap_err(), busy);
    let message = busy.body.get("error").unwrap().get("message").unwrap();
    let expected = "A sign-in to a is already in progress; finish or cancel it first";
    assert_eq!(message, &Json::text(expected));
    assert!(all.end(first));
    assert!(!all.end(first), "it is over already");
    let second = all.start("b").unwrap();
    assert_eq!(second, 2);
    assert!(!all.end(first), "an earlier one ends no later one");
    assert!(all.waiting_for("b"));
}

#[test]
fn sign_ins_are_refused_in_order() {
    let mut all = SignIns::new();
    all.start("x").unwrap();
    assert_eq!(checked(&mut all, "a", None).unwrap().status, 404);
    let plain = vec![ConfigKey { name: "K".to_owned(), secret: true, oauth_flow: false }];
    let refused = checked(&mut all, "a", Some(plain)).unwrap();
    assert_eq!(refused.status, 400);
    assert!(refused
        .body
        .into_text()
        .contains("a does not sign in with an account; save its settings instead"));
    assert_eq!(checked(&mut all, "a", Some(signs_in())).unwrap().status, 409);
    let input = SignInInput::Unprepared("no network".to_owned());
    match sign_in(&mut all, "a", SignInStage::Preparing, input) {
        (SignInStage::Over, SignInAction::Answer(reply)) => {
            assert_eq!(reply.status, 502);
            assert!(reply.body.into_text().contains("goose could not prepare a: no network"));
        }
        _ => panic!("expected a refusal"),
    }
}

#[test]
fn a_sign_in_goes_from_check_to_conclusion() {
    let mut all = SignIns::new();
    let declared = SignInInput::Declared(Some(signs_in()));
    let (stage, action) = sign_in(&mut all, "x", SignInStage::Checking, declared);
    assert!(matches!(action, SignInAction::Prepare));
    let (stage, action) = sign_in(&mut all, "x", stage, SignInInput::Prepared);
    match action {
        SignInAction::Run { serial, event: SignInEvent::Started { provider } } => {
            assert_eq!((serial, provider.as_str()), (1, "x"));
        }
        _ => panic!("expected a start"),
    }
    assert!(all.waiting_for("x"));
    let (stage, action) = sign_in(&mut all, "x", stage, SignInInput::Finished(Ok(())));
    assert!(matches!(action, SignInAction::Settle(None)));
    let viewed = SignInInput::Viewed(Some(provider()));
    let (stage, action) = sign_in(&mut all, "x", stage, viewed);
    assert!(matches!(action, SignInAction::Show(SignInEvent::Done { .. })));
    assert_eq!(stage, SignInStage::Over);
    let (stage, action) = sign_in(&mut all, "x", stage, SignInInput::Prepared);
    assert_eq!(stage, SignInStage::Over);
    assert!(matches!(action, SignInAction::Ignore));
}

#[test]
fn a_sign_in_can_end_with_an_error() {
    let mut all = SignIns::new();
    let failed = SignInInput::Finished(Err("denied".to_owned()));
    match sign_in(&mut all, "x", SignInStage::Running, failed) {
        (SignInStage::Over, SignInAction::Settle(Some(SignInEvent::Error { message }))) => {
            assert_eq!(message, "denied");
        }
        _ => panic!("expected an error"),
    }
    match sign_in(&mut all, "x", SignInStage::Looking, SignInInput::Viewed(None)) {
        (SignInStage::Over, SignInAction::Show(SignInEvent::Error { message })) => {
            assert_eq!(message, "x disappeared from goose's catalog");
        }
        _ => panic!("expected an error"),
    }
}

#[test]
fn a_sign_in_that_comes_second_is_turned_away() {
    let mut all = SignIns::new();
    assert!(checked(&mut all, "b", Some(signs_in())).is_none());
    all.start("a").unwrap();
    match sign_in(&mut all, "b", SignInStage::Preparing, SignInInput::Prepared) {
        (SignInStage::Over, SignInAction::Answer(reply)) => assert_eq!(reply.status, 409),
        _ => panic!("expected a refusal"),
    }
    assert!(all.waiting_for("a"));
}

#[test]
fn events_are_written_as_json() {
    let started = SignInEvent::Started { provider: "github_copilot".to_owned() };
    assert_eq!(sse(&started), r#"{"type":"started","provider":"github_copilot"}"#);
    let code = SignInEvent::DeviceCode {
        user_code: "ABCD-1234".to_owned(),
        verification_uri: "https://github.com/login/device".to_owned(),
        expires_in: 899,
    };
    assert_eq!(
        sse(&code),
        r#"{"type":"device_code","user_code":"ABCD-1234","verification_uri":"https://github.com/login/device","expires_in":899}"#
    );
    let page = SignInEvent::OpenUrl { url: "https://a".to_owned() };
    assert_eq!(sse(&page), r#"{"type":"open_url","url":"https://a"}"#);
    let failed = SignInEvent::Error { message: "no".to_owned() };
    assert_eq!(sse(&failed), r#"{"type":"error","message":"no"}"#);
    let done = SignInEvent::Done { provider: Box::new(provider()) };
    assert_eq!(
        sse(&done),
        [
            r#"{"type":"done","provider":{"id":"xai_oauth","name":"xAI","description":"","#,
            r#""method":"oauth_browser","featured":true,"docs_url":null,"sign_in":true,"#,
            r#""fields":[],"configured":true,"default_model":"grok-4.7","models":[]}}"#,
        ]
        .concat()
    );
    let done = done.to_json();
    assert_eq!(done.get("type"), Some(&Json::text("done")));
    assert_eq!(done.get("provider"), Some(&provider().to_json()));
}

#[test]
fn nothing_follows_the_outcome() {
    let mut stream = SignInStream::new();
    let started = SignInEvent::Started { provider: "x".to_owned() };
    assert!(stream.step(Some(started)).is_some());
    assert!(!stream.is_finished());
    let failed = SignInEvent::Error { message: "no".to_owned() };
    assert_eq!(stream.step(Some(failed)).as_deref(), Some(r#"{"type":"error","message":"no"}"#));
    assert!(stream.is_finished());
    let late = SignInEvent::OpenUrl { url: "https://a".to_owned() };
    assert_eq!(stream.step(Some(late)), None);

    let mut cut = SignInStream::new();
    assert_eq!(cut.step(None), None);
    assert!(cut.is_finished());
}
