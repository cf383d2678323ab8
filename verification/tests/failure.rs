use goose_gateway::failure::{
    failure_reply, looks_like_auth_failure, upstream_failure, ProviderCache,
};

#[test]
fn not_configured_is_an_auth_failure() {
    assert!(looks_like_auth_failure("Provider is not configured"));
}

#[test]
fn auth_failures_are_recognised_in_both_shapes_xai_uses() {
    assert!(looks_like_auth_failure("403 Forbidden: unauthenticated:bad-credentials"));
    assert!(looks_like_auth_failure("Bad request (400): Incorrect API key provided"));
    assert!(!looks_like_auth_failure("rate limit exceeded"));
}

#[test]
fn every_mark_of_a_sign_in_failure_counts_in_any_case() {
    for mark in [
        "HTTP 401",
        "(403)",
        "UNAUTHENTICATED",
        "Authentication",
        "Credential",
        "INCORRECT api KEY",
        "Expired",
        "Not Configured",
    ] {
        assert!(looks_like_auth_failure(mark), "{mark}");
        assert_eq!(failure_reply(mark).status, 401, "{mark}");
    }
    assert!(!looks_like_auth_failure(""));
    assert_eq!(failure_reply("500").status, 502);
    assert_eq!(
        failure_reply("down").body.into_text(),
        r#"{"error":{"message":"down","type":"upstream_error"}}"#
    );
}

#[test]
fn providers_are_kept_until_forgotten() {
    let mut cache: ProviderCache<u32> = ProviderCache::new();
    assert_eq!(cache.get("a"), None);
    cache.put("a", 1);
    cache.put("b", 2);
    cache.put("a", 3);
    assert_eq!(cache.get("a"), Some(&3));
    cache.forget("c");
    cache.forget("a");
    assert_eq!(cache.get("a"), None);
    assert_eq!(cache.get("b"), Some(&2));
}

#[test]
fn only_a_sign_in_failure_drops_its_provider() {
    let mut cache: ProviderCache<u32> = ProviderCache::new();
    cache.put("a", 1);
    cache.put("b", 2);
    assert_eq!(upstream_failure(&mut cache, "a", "timeout").status, 502);
    assert_eq!(cache.get("a"), Some(&1));
    assert_eq!(upstream_failure(&mut cache, "a", "401").status, 401);
    assert_eq!(cache.get("a"), None);
    assert_eq!(cache.get("b"), Some(&2));
}
