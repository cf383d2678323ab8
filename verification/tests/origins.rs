use goose_gateway::origins::{check_origin, is_local_origin, OriginHeader, Origins};

#[test]
fn local_origins_are_allowed_by_default() {
    let o = Origins::parse("");
    for ok in [
        "http://localhost:5173",
        "http://127.0.0.1:4321",
        "http://localhost",
        "https://localhost:8443",
        "http://[::1]:3000",
        "HTTP://LOCALHOST:5173",
    ] {
        assert!(o.allows(ok), "{ok}");
    }
    for bad in [
        "https://evil.example",
        "http://localhost.evil.example",
        "http://127.0.0.1.evil.example",
        "http://localhost:80evil",
        "http://localhost:",
        "null",
        "file://",
    ] {
        assert!(!o.allows(bad), "{bad}");
    }
}

#[test]
fn listed_origins_and_wildcard() {
    let o = Origins::parse(" https://ldk-server-manager.pages.dev/ , https://b.example ");
    assert!(o.allows("https://ldk-server-manager.pages.dev"));
    assert!(o.allows("https://b.example"));
    assert!(
        !o.allows("https://ldk-server-manager.pages.dev.evil.example"),
        "exact match only"
    );
    assert!(Origins::parse("*").allows("https://anything.example"));
}

fn message_of(reply: &goose_gateway::reply::Reply) -> &str {
    reply.body.get("error").and_then(|e| e.get("message")).and_then(|m| m.as_str()).unwrap()
}

#[test]
fn letter_case_and_closing_slashes_do_not_matter() {
    let o = Origins::parse("HTTPS://Dash.Example//");
    assert_eq!(o.extra, vec!["https://dash.example"]);
    assert!(o.allows("https://DASH.example"));
    assert!(!o.allows("https://dash.example/"));
    assert!(!o.any);
}

#[test]
fn blank_entries_are_skipped() {
    let o = Origins::parse(" , ,\t,");
    assert!(!o.any && o.extra.is_empty());
    assert!(Origins::parse("https://a.example,*").any);
}

#[test]
fn local_origins_stay_allowed_beside_a_list() {
    let o = Origins::parse("https://a.example");
    assert!(o.allows("http://[::1]"));
    assert!(!is_local_origin("http://[::1]x"));
    assert!(!is_local_origin("http://[::1"));
    assert!(!is_local_origin("ftp://localhost"));
    assert!(is_local_origin("https://127.0.0.1:1"));
}

#[test]
fn requests_pass_or_are_refused() {
    let o = Origins::parse("https://a.example");
    assert!(check_origin(&o, &OriginHeader::Absent).is_none());
    assert!(check_origin(&o, &OriginHeader::Text("https://A.example".to_owned())).is_none());
    let refused = check_origin(&o, &OriginHeader::Text("https://b.example".to_owned())).unwrap();
    assert_eq!(refused.status, 403);
    assert_eq!(
        message_of(&refused),
        "Origin https://b.example may not use this gateway. Add it to GOOSE_GATEWAY_ALLOWED_ORIGINS."
    );
    let unreadable = check_origin(&o, &OriginHeader::Unreadable).unwrap();
    assert_eq!(
        message_of(&unreadable),
        "Origin ? may not use this gateway. Add it to GOOSE_GATEWAY_ALLOWED_ORIGINS."
    );
    assert!(check_origin(&Origins::parse("*"), &OriginHeader::Text("null".to_owned())).is_none());
}
