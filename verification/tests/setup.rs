use goose_gateway::json::Json;
use goose_gateway::setup::{
    field_value, field_view, find_entry, has_sign_in, is_model_provider, list, model_provider_ids,
    remove, respond_with_view, save, storage_error, unknown, view, ConfigKey, Metadata, ProviderView,
    SaveRequest, SetupCategory, SetupEntry, SetupField, SetupGroup, StoreOp, StoreRun, StoreStep,
    Stored,
};

fn key(name: &str, secret: bool) -> ConfigKey {
    ConfigKey { name: name.to_owned(), secret, oauth_flow: false }
}

fn field(key: &str, secret: bool) -> SetupField {
    SetupField {
        key: key.to_owned(),
        label: "L".to_owned(),
        secret,
        required: true,
        placeholder: None,
        default_value: Some("d".to_owned()),
    }
}

fn entry(id: &str, category: SetupCategory) -> SetupEntry {
    SetupEntry {
        provider_id: id.to_owned(),
        display_name: id.to_uppercase(),
        description: "about".to_owned(),
        setup_method: "single_api_key".to_owned(),
        category,
        group: SetupGroup::Default,
        docs_url: None,
        fields: vec![field("KEY", true), field("HOST", false)],
    }
}

fn provider(id: &str, name: &str) -> ProviderView {
    ProviderView {
        id: id.to_owned(),
        name: name.to_owned(),
        description: String::new(),
        method: "local".to_owned(),
        featured: false,
        docs_url: Some("https://docs".to_owned()),
        sign_in: false,
        fields: vec![],
        configured: false,
        default_model: "m".to_owned(),
        models: vec!["m".to_owned()],
    }
}

fn fields(all: &[(&str, &str)]) -> SaveRequest {
    let fields = all.iter().map(|(k, v)| (k.to_string(), v.to_string())).collect();
    SaveRequest { fields }
}

fn text_at<'a>(body: &'a Json, path: &[&str]) -> &'a str {
    let mut value = body;
    for key in path {
        value = value.get(key).unwrap();
    }
    value.as_str().unwrap()
}

#[test]
fn stored_values_are_shown_as_text() {
    assert_eq!(field_value(None), None);
    assert_eq!(field_value(Some(Json::Null)), None);
    assert_eq!(field_value(Some(Json::text("x"))).as_deref(), Some("x"));
    assert_eq!(field_value(Some(Json::text(""))), None, "nothing is stored");
    assert_eq!(field_value(Some(Json::signed(-3))).as_deref(), Some("-3"));
    let list = Json::parse("[true, 2.5]");
    assert_eq!(field_value(list).as_deref(), Some("[true,2.5]"));
}

#[test]
fn secret_values_never_show() {
    let shown = field_view(
        field("KEY", true),
        Stored { secret: true, value: Some(Json::text("sk-1234")) },
    );
    assert!(shown.set);
    assert_eq!(shown.value, None);
    let unset = field_view(field("KEY", true), Stored { secret: false, value: None });
    assert!(!unset.set);
    let host = field_view(
        field("HOST", false),
        Stored { secret: true, value: Some(Json::text("http://h")) },
    );
    assert!(host.set);
    assert_eq!(host.value.as_deref(), Some("http://h"));
    let bare = field_view(field("HOST", false), Stored { secret: true, value: None });
    assert!(!bare.set);
    let blank = Stored { secret: false, value: Some(Json::text("")) };
    assert!(!field_view(field("HOST", false), blank).set);
}

#[test]
fn a_view_brings_entry_metadata_and_store_together() {
    let metadata = Metadata {
        config_keys: vec![key("KEY", true)],
        default_model: "m1".to_owned(),
        known_models: vec!["m1".to_owned(), "m2".to_owned()],
    };
    let stored = vec![
        Stored { secret: true, value: None },
        Stored { secret: false, value: Some(Json::text("h")) },
    ];
    let v = view(entry("openai", SetupCategory::Model), metadata, stored, true);
    let expected = [
        r#"{"id":"openai","name":"OPENAI","description":"about","method":"single_api_key","#,
        r#""featured":true,"docs_url":null,"sign_in":false,"fields":[{"key":"KEY","label":"L","#,
        r#""secret":true,"required":true,"placeholder":null,"default":"d","set":true,"#,
        r#""value":null},{"key":"HOST","label":"L","secret":false,"required":true,"#,
        r#""placeholder":null,"default":"d","set":true,"value":"h"}],"configured":true,"#,
        r#""default_model":"m1","models":["m1","m2"]}"#,
    ];
    assert_eq!(respond_with_view("openai", Some(v)).into_text(), expected.concat());
}

#[test]
fn providers_that_sign_in_declare_it() {
    assert!(!has_sign_in(&vec![key("A", true)]));
    let token = ConfigKey { name: "T".to_owned(), secret: true, oauth_flow: true };
    assert!(has_sign_in(&vec![key("A", true), token]));
}

#[test]
fn agents_are_left_out() {
    let entries = vec![
        entry("b", SetupCategory::Model),
        entry("codex", SetupCategory::Agent),
        entry("a", SetupCategory::Model),
    ];
    assert_eq!(model_provider_ids(&entries), vec!["b", "a"]);
    assert!(is_model_provider(&entries, "a"));
    assert!(!is_model_provider(&entries, "codex"));
    assert!(!is_model_provider(&entries, "none"));
    assert_eq!(find_entry(&entries, "codex"), Some(1));
    assert_eq!(find_entry(&entries, "none"), None);
}

#[test]
fn providers_are_sorted_by_name_in_any_case() {
    let reply = list(vec![
        provider("1", "zeta"),
        provider("2", "Beta"),
        provider("3", "alpha"),
        provider("4", "beta"),
        provider("5", "ÄRGER"),
        provider("6", "ärger"),
        provider("7", "be"),
    ]);
    assert_eq!(reply.status, 200);
    match reply.body.get("providers") {
        Some(Json::Array(all)) => {
            let ids: Vec<&str> = all.iter().map(|p| text_at(p, &["id"])).collect();
            assert_eq!(ids, vec!["3", "7", "2", "4", "1", "5", "6"]);
        }
        _ => panic!("expected providers"),
    }
    let one = list(vec![provider("1", "One")]).into_text();
    assert!(one.starts_with(r#"{"providers":[{"configured":false,"default_model":"m","#));
}

#[test]
fn settings_go_to_params_and_secrets() {
    let keys = vec![key("KEY", true), key("HOST", false), key("HOST", true)];
    let req = fields(&[("HOST", " http://h \n"), ("KEY", "\tsk "), ("HOST", "h2")]);
    let ops = save("p", Some(&keys), req).unwrap();
    assert_eq!(ops.len(), 5);
    match &ops[0] {
        StoreOp::SetParam(k, v) => assert_eq!((k.as_str(), v.as_str()), ("HOST", "http://h")),
        _ => panic!("expected a setting"),
    }
    match &ops[1] {
        StoreOp::SetParam(k, v) => assert_eq!((k.as_str(), v.as_str()), ("HOST", "h2")),
        _ => panic!("expected a setting"),
    }
    match &ops[2] {
        StoreOp::SetSecrets(all) => assert_eq!(all, &vec![("KEY".to_owned(), "sk".to_owned())]),
        _ => panic!("expected secrets"),
    }
    assert!(matches!(ops[3], StoreOp::RefreshSecrets));
    assert!(matches!(ops[4], StoreOp::Forget));
}

#[test]
fn settings_named_once_are_written_once() {
    let keys = vec![key("A", true), key("B", false), key("C", false)];
    let ops = save("p", Some(&keys), fields(&[("C", "3"), ("A", "1"), ("B", "2")])).unwrap();
    let mut written = vec![];
    for op in ops {
        match op {
            StoreOp::SetParam(k, _) => written.push(k),
            StoreOp::SetSecrets(all) => written.extend(all.into_iter().map(|(k, _)| k)),
            _ => {}
        }
    }
    written.sort();
    assert_eq!(written, vec!["A", "B", "C"]);
}

#[test]
fn one_bad_setting_refuses_them_all() {
    let keys = vec![key("KEY", true)];
    let reply = save("p", Some(&keys), fields(&[("KEY", "x"), ("NO", "y")])).unwrap_err();
    assert_eq!(reply.status, 400);
    assert_eq!(text_at(&reply.body, &["error", "message"]), "p has no setting called NO");
    let reply = save("p", Some(&keys), fields(&[("KEY", "  ")])).unwrap_err();
    assert_eq!(reply.status, 400);
    assert_eq!(
        text_at(&reply.body, &["error", "message"]),
        "KEY cannot be empty; remove the provider's settings instead"
    );
    let reply = save("p", None, fields(&[])).unwrap_err();
    assert_eq!(reply.status, 404);
    assert_eq!(text_at(&reply.body, &["error", "message"]), "goose has no provider called p");
}

#[test]
fn removing_deletes_every_declared_setting() {
    let keys = vec![key("A", true), key("B", false), key("C", true), key("D", false)];
    let ops = remove("p", Some(&keys)).unwrap();
    assert_eq!(ops.len(), 6);
    assert!(matches!(&ops[0], StoreOp::DeleteParam(k) if k == "B"));
    assert!(matches!(&ops[1], StoreOp::DeleteParam(k) if k == "D"));
    match &ops[2] {
        StoreOp::DeleteSecrets(all) => assert_eq!(all, &vec!["A".to_owned(), "C".to_owned()]),
        _ => panic!("expected secrets"),
    }
    assert!(matches!(ops[3], StoreOp::CleanUp));
    assert!(matches!(ops[4], StoreOp::RefreshSecrets));
    assert!(matches!(ops[5], StoreOp::Forget));
    assert_eq!(remove("p", None).unwrap_err().status, 404);
}

#[test]
fn a_failed_change_stops_the_run() {
    let ops = vec![StoreOp::CleanUp, StoreOp::RefreshSecrets, StoreOp::Forget];
    let mut store = StoreRun::new(ops);
    assert!(matches!(store.step(None), StoreStep::Make(StoreOp::CleanUp)));
    match store.step(Some("disk full".to_owned())) {
        StoreStep::Refuse(reply) => {
            assert_eq!(reply.status, 500);
            assert_eq!(
                text_at(&reply.body, &["error", "message"]),
                "could not update goose's configuration: disk full"
            );
        }
        _ => panic!("expected a refusal"),
    }
    assert!(matches!(store.step(None), StoreStep::Complete));

    let mut store = StoreRun::new(vec![StoreOp::RefreshSecrets, StoreOp::Forget]);
    assert!(matches!(store.step(None), StoreStep::Make(StoreOp::RefreshSecrets)));
    assert!(matches!(store.step(None), StoreStep::Make(StoreOp::Forget)));
    assert!(matches!(store.step(None), StoreStep::Complete));
}

#[test]
fn answers_show_the_provider_or_that_there_is_none() {
    let shown = respond_with_view("p", Some(provider("p", "P")));
    assert_eq!(shown.status, 200);
    assert_eq!(text_at(&shown.body, &["docs_url"]), "https://docs");
    assert_eq!(respond_with_view("p", None), unknown("p"));
    assert_eq!(text_at(&storage_error("x").body, &["error", "type"]), "server_error");
}
