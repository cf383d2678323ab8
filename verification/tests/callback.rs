use goose_gateway::callback::{
    check_redirect, delivered, loopback_callback, sign_in_callback, CallbackRequest, Delivery,
    UrlHost, UrlParts,
};
use goose_gateway::json::Json;
use goose_gateway::reply::Reply;
use goose_gateway::sign_in::SignIns;

fn message_of(reply: &Reply) -> &str {
    reply.body.get("error").and_then(|e| e.get("message")).and_then(|m| m.as_str()).unwrap()
}

fn parts() -> UrlParts {
    UrlParts {
        scheme: "http".to_owned(),
        host: UrlHost::Ipv4(0x7f00_0001),
        port: Some(1455),
        query: Some("code=1".to_owned()),
        before_host: "http://".to_owned(),
        host_text: "127.0.0.1".to_owned(),
        after_host: ":1455/cb?code=1".to_owned(),
    }
}

#[test]
fn callback_accepts_loopback_redirects_only() {
    assert_eq!(
        loopback_callback("http://localhost:1455/auth/callback?code=abc&state=x").unwrap(),
        "http://127.0.0.1:1455/auth/callback?code=abc&state=x"
    );
    assert_eq!(
        loopback_callback(" http://127.0.0.1:56121/callback?code=1 ").unwrap(),
        "http://127.0.0.1:56121/callback?code=1"
    );
    for bad in [
        "https://localhost:1455/cb?code=1",
        "http://evil.example:1455/cb?code=1",
        "http://localhost.evil.example:1455/cb?code=1",
        "http://10.0.0.1:1455/cb?code=1",
        "http://localhost/cb?code=1",
        "http://localhost:1455/cb",
        "not a url",
    ] {
        assert!(loopback_callback(bad).is_err(), "{bad}");
    }
}

#[test]
fn every_form_of_this_machine_is_rewritten() {
    for (given, target) in [
        ("HTTP://LocalHost:1455/cb?c=1#top", "http://127.0.0.1:1455/cb?c=1#top"),
        ("http://127.9.8.7:1/?c", "http://127.0.0.1:1/?c"),
        ("http://[::1]:56121/a/../b?x=%20y", "http://127.0.0.1:56121/b?x=%20y"),
        ("http://[0:0:0:0:0:0:0:1]:65535?q", "http://127.0.0.1:65535/?q"),
        ("http://0x7f.1:8080/cb?c=1", "http://127.0.0.1:8080/cb?c=1"),
        ("http://user:pw@localhost:8080/cb?c=é", "http://user:pw@127.0.0.1:8080/cb?c=%C3%A9"),
    ] {
        assert_eq!(loopback_callback(given).as_deref(), Ok(target));
        assert_eq!(loopback_callback(target).as_deref(), Ok(target), "it stays as it is");
    }
}

#[test]
fn refusals_say_why() {
    for (given, why) in [
        ("no", "That is not a web address. Copy it from the browser's address bar."),
        ("https://localhost:1/?a", "A sign-in redirect address starts with http://"),
        (
            "http://128.0.0.1:1/?a",
            "That is not the sign-in redirect: it should start with http://localhost or http://127.0.0.1",
        ),
        (
            "http://[::2]:1/?a",
            "That is not the sign-in redirect: it should start with http://localhost or http://127.0.0.1",
        ),
        (
            "http://localhost:80/?a",
            "The address is missing its port, e.g. http://127.0.0.1:56121/…",
        ),
        (
            "http://localhost:1/?",
            "The address is missing the part after '?'; copy the whole address",
        ),
        (
            "http://localhost:1/#?a",
            "The address is missing the part after '?'; copy the whole address",
        ),
    ] {
        assert_eq!(loopback_callback(given).unwrap_err(), why, "{given}");
    }
}

#[test]
fn the_parts_of_an_address_decide() {
    assert_eq!(check_redirect(Some(&parts())), Ok(1455));
    assert!(check_redirect(None).is_err());
    let absent = UrlParts { host: UrlHost::Absent, ..parts() };
    assert!(check_redirect(Some(&absent)).is_err());
    let domain = UrlParts { host: UrlHost::Domain("LOCALHOST".to_owned()), ..parts() };
    assert_eq!(check_redirect(Some(&domain)), Ok(1455));
    let ipv6 = UrlParts { host: UrlHost::Ipv6(1), ..parts() };
    assert_eq!(check_redirect(Some(&ipv6)), Ok(1455));
    for n in [0x7eff_ffff, 0x8000_0000] {
        let other = UrlParts { host: UrlHost::Ipv4(n), ..parts() };
        assert!(check_redirect(Some(&other)).is_err());
    }
}

#[test]
fn addresses_are_accepted_again_without_white_ends() {
    for given in [
        "\u{a0}http://localhost:1/cb?c=1 \t\n",
        "http://[::1]:2/a b?x= y #z z ",
        "http://localhost:3/?q=\u{2003}",
    ] {
        let target = loopback_callback(given).unwrap();
        assert_eq!(target.trim(), target);
        assert_eq!(loopback_callback(&target), Ok(target));
    }
}

#[test]
fn deliveries_are_for_the_sign_in_under_way() {
    let mut all = SignIns::new();
    let req = CallbackRequest { url: "http://localhost:1455/cb?code=1".to_owned() };
    let refused = sign_in_callback(&all, "xai_oauth", &req).unwrap_err();
    assert_eq!(refused.status, 409);
    assert_eq!(message_of(&refused), "No sign-in to xai_oauth is waiting; start it again");
    all.start("xai_oauth").unwrap();
    assert_eq!(sign_in_callback(&all, "openai", &req).unwrap_err().status, 409);
    assert_eq!(
        sign_in_callback(&all, "xai_oauth", &req).unwrap(),
        "http://127.0.0.1:1455/cb?code=1"
    );
    let bad = CallbackRequest { url: "http://evil.example:1/?a".to_owned() };
    let refused = sign_in_callback(&all, "xai_oauth", &bad).unwrap_err();
    assert_eq!(refused.status, 400);
    assert!(message_of(&refused).starts_with("That is not the sign-in redirect"));
}

#[test]
fn deliveries_are_answered() {
    for status in [200, 204, 299] {
        let reply = delivered(Delivery::Answered(status));
        assert_eq!(reply.status, 200);
        assert_eq!(reply.body.get("ok"), Some(&Json::Bool(true)));
    }
    for status in [199, 300, 404] {
        let reply = delivered(Delivery::Answered(status));
        assert_eq!(reply.status, 400);
        assert_eq!(
            message_of(&reply),
            format!("goose did not accept that address (HTTP {status}). Copy the whole address from the page you landed on.")
        );
    }
    let gone = delivered(Delivery::Unreachable("refused".to_owned()));
    assert_eq!(gone.status, 502);
    assert_eq!(
        message_of(&gone),
        "goose is not waiting at that address any more (refused); start the sign-in again"
    );
    let broken = delivered(Delivery::NoClient("tls".to_owned()));
    assert_eq!((broken.status, message_of(&broken)), (500, "tls"));
}
