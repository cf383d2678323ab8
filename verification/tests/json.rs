use goose_gateway::json::{Json, JsonObject};
use goose_gateway::reply::{answer, answer_in_order, error};

#[test]
fn json_is_read_and_written() {
    let text = r#" { "b" : [ null , true , -7 , 1.5 , "xA\n" ] , "a" : { } } "#;
    let value = Json::parse(text).unwrap();
    match value.get("b") {
        Some(Json::Array(items)) => {
            assert_eq!(items[0], Json::Null);
            assert_eq!(items[1], Json::Bool(true));
            assert_eq!(items[2], Json::signed(-7));
            assert_eq!(items[4].as_str(), Some("xA\n"));
        }
        _ => panic!("expected an array"),
    }
    assert_eq!(value.into_text(), r#"{"a":{},"b":[null,true,-7,1.5,"xA\n"]}"#);
    for bad in ["", "{", "{\"a\":1,}", "nul", "1 2"] {
        assert!(Json::parse(bad).is_none(), "{bad}");
    }
}

#[test]
fn what_is_written_is_read_back() {
    let nested = |depth: usize| {
        let mut value = Json::unsigned(u64::MAX);
        for _ in 0..depth {
            value = Json::array_of(value);
        }
        value
    };
    assert_eq!(Json::parse(&nested(127).into_text()), Some(nested(127)));
    assert_eq!(Json::parse(&nested(128).into_text()), None);
    let least = Json::signed(i64::MIN);
    assert_eq!(Json::parse(&least.into_text()), Some(Json::signed(i64::MIN)));
    let text = Json::text("\u{0}\"\\/\u{7f}\u{1f600}");
    let written = text.into_text();
    assert_eq!(Json::parse(&written), Some(Json::text("\u{0}\"\\/\u{7f}\u{1f600}")));
}

#[test]
fn members_can_keep_their_order() {
    let inner = JsonObject::new().with("y\"", Json::text("\n")).with("x", Json::Array(vec![]));
    let value = Json::Object(
        JsonObject::new()
            .with("z", Json::array(vec![Json::Bool(false), Json::signed(-1), Json::Object(inner)]))
            .with("a", Json::Object(JsonObject::new())),
    );
    let text = value.into_written();
    assert_eq!(text, r#"{"z":[false,-1,{"y\"":"\n","x":[]}],"a":{}}"#);
    let read = Json::parse(&text).unwrap();
    assert_eq!(read.into_text(), r#"{"a":{},"z":[false,-1,{"x":[],"y\"":"\n"}]}"#);
}

#[test]
fn the_last_member_with_a_key_counts() {
    let object = JsonObject::new().with("a", Json::signed(1)).with("a", Json::signed(2));
    assert_eq!(object.get("a"), Some(&Json::signed(2)));
    assert_eq!(object.get("b"), None);
    assert!(!object.is_empty() && JsonObject::new().is_empty());
    assert_eq!(Json::Object(object).into_text(), r#"{"a":2}"#);
    let read = Json::parse(r#"{"a":1,"a":3}"#).unwrap();
    assert_eq!(read.get("a"), Some(&Json::signed(3)));
}

#[test]
fn values_pass_through_the_outside_type() {
    let value = serde_json::Value::from(vec!["a", "b"]);
    let json = Json::from_value(value.clone());
    assert_eq!(json, Json::array(vec![Json::text("a"), Json::text("b")]));
    assert_eq!(json.into_value(), value);
    assert_eq!(Json::Null.get("a"), None);
    assert_eq!(Json::Bool(true).as_str(), None);
}

#[test]
fn answers_have_a_status_and_a_body() {
    let failed = error(409, "no", "conflict_error");
    assert_eq!(failed.status, 409);
    assert_eq!(failed.into_text(), r#"{"error":{"message":"no","type":"conflict_error"}}"#);
    assert_eq!(answer(Json::Null).status, 200);
    let body = || Json::Object(JsonObject::new().with("b", Json::Null).with("a", Json::Null));
    assert_eq!(answer(body()).into_text(), r#"{"a":null,"b":null}"#);
    assert_eq!(answer_in_order(body()).into_text(), r#"{"b":null,"a":null}"#);
}
