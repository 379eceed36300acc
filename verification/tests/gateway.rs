use gateway_core::bucket::{Decision, TokenBucket};
use gateway_core::classify::{classify, classify_transport, UpstreamKind};
use gateway_core::credential::{
    lifecycle_step, AuthError, Credential, CredentialStore, LifecycleEvent, LifecycleState,
};
use gateway_core::limiter::RateLimiter;
use gateway_core::request::{
    conversation_url, conversations_url, gen_title_url, method_carries_payload, models_url,
    ConfigError,
};
use gateway_core::route::{bearer_of, forward_header, route_of, should_enrich, Method, Route, Upstream};
use gateway_core::stream::{decode_collect, render_json_array};

#[test]
fn bucket_five_then_reject_then_refill() {
    // capacity 5, 1 token/s, cost 1: five immediate grants, then a
    // rejection with a one-second wait, then a grant after two seconds.
    let mut b = TokenBucket::new(5, 1, 0);
    for n in 1..=5u64 {
        assert_eq!(b.check(0, 1), Decision::Granted);
        assert_eq!(b.current_millitokens(), 5000 - n * 1000);
    }
    assert_eq!(b.check(0, 1), Decision::Rejected { retry_after_ms: 1000 });
    assert_eq!(b.current_millitokens(), 0);
    assert_eq!(b.check(2000, 1), Decision::Granted);
    assert_eq!(b.current_millitokens(), 1000);
}

#[test]
fn bucket_rejection_leaves_tokens() {
    let mut b = TokenBucket::new(2, 1, 0);
    assert_eq!(b.check(0, 2), Decision::Granted);
    let d = b.check(0, 2);
    assert_eq!(d, Decision::Rejected { retry_after_ms: 2000 });
    assert_eq!(b.current_millitokens(), 0);
}

#[test]
fn bucket_refill_caps_at_capacity() {
    let mut b = TokenBucket::new(3, 1, 0);
    assert_eq!(b.check(0, 1), Decision::Granted);
    // idle far longer than needed: refills to capacity, not beyond
    assert_eq!(b.check(1_000_000, 1), Decision::Granted);
    assert_eq!(b.current_millitokens(), 2000);
}

#[test]
fn limiter_keys_are_independent() {
    let mut t = RateLimiter::new(1, 1, 10_000);
    assert_eq!(t.check_key(b"alice", 0, 1), Decision::Granted);
    assert_eq!(t.check_key(b"alice", 0, 1), Decision::Rejected { retry_after_ms: 1000 });
    // a different key gets its own fresh bucket
    assert_eq!(t.check_key(b"bob", 0, 1), Decision::Granted);
}

#[test]
fn limiter_creates_buckets_lazily_at_full_capacity() {
    let mut t = RateLimiter::new(5, 1, 10_000);
    for _ in 0..5 {
        assert_eq!(t.check_key(b"key", 7, 1), Decision::Granted);
    }
    assert_eq!(t.check_key(b"key", 7, 1), Decision::Rejected { retry_after_ms: 1000 });
}

#[test]
fn classifier_taxonomy() {
    let e = classify(401, "denied");
    assert_eq!(e.kind, UpstreamKind::BadAuthentication);
    assert_eq!(e.message, "denied");
    assert_eq!(e.status, Some(401));

    let e = classify(429, "slow down");
    assert_eq!(e.kind, UpstreamKind::TooManyRequests);
    assert_eq!(e.message, "slow down");

    // 5xx bodies are discarded
    let e = classify(500, "secret internal detail");
    assert_eq!(e.kind, UpstreamKind::ServerError);
    assert_eq!(e.message, "");
    assert_eq!(e.status, Some(500));

    // other 4xx bodies are preserved verbatim
    let e = classify(404, "{\"error\":\"no such model\"}");
    assert_eq!(e.kind, UpstreamKind::BadRequest);
    assert_eq!(e.message, "{\"error\":\"no such model\"}");

    let e = classify(302, "moved");
    assert_eq!(e.kind, UpstreamKind::FailedRequest);

    let e = classify_transport("connect timeout".to_string());
    assert_eq!(e.kind, UpstreamKind::FailedRequest);
    assert_eq!(e.message, "connect timeout");
    assert_eq!(e.status, None);
}

#[test]
fn classifier_is_deterministic() {
    let a = classify(418, "teapot");
    let b = classify(418, "teapot");
    assert_eq!(a, b);
}

#[test]
fn decode_two_records_then_sentinel() {
    let chunks = vec![
        b"data: {\"id\":\"a\"}\n".to_vec(),
        b"data: {\"id\":\"b\"}\n".to_vec(),
        b"data: [DONE]\n".to_vec(),
    ];
    let records = decode_collect(chunks).unwrap();
    assert_eq!(records, vec![b"{\"id\":\"a\"}".to_vec(), b"{\"id\":\"b\"}".to_vec()]);
}

#[test]
fn decode_stops_at_sentinel_despite_later_garbage() {
    let chunks = vec![
        b"data: {\"n\":1}\n".to_vec(),
        b"data: [DONE]\n".to_vec(),
        b"data: this is not json\n".to_vec(),
    ];
    let records = decode_collect(chunks).unwrap();
    assert_eq!(records, vec![b"{\"n\":1}".to_vec()]);
}

#[test]
fn decode_bad_record_fails_whole_call() {
    let chunks = vec![
        b"data: {\"ok\":true}\n".to_vec(),
        b"data: {\"broken\"\n".to_vec(),
        b"data: [DONE]\n".to_vec(),
    ];
    let err = decode_collect(chunks).unwrap_err();
    assert_eq!(err.payload, b"{\"broken\"".to_vec());
}

#[test]
fn decode_skips_blank_and_unknown_lines() {
    let chunks = vec![b"event: ping\n\ndata: {}\nretry: 100\n".to_vec()];
    let records = decode_collect(chunks).unwrap();
    assert_eq!(records, vec![b"{}".to_vec()]);
}

#[test]
fn decode_empty_stream_yields_nothing() {
    let records = decode_collect(Vec::new()).unwrap();
    assert!(records.is_empty());
}

#[test]
fn render_records_as_json_array() {
    let records = vec![b"{\"id\":\"a\"}".to_vec(), b"{\"id\":\"b\"}".to_vec()];
    assert_eq!(render_json_array(&records), b"[{\"id\":\"a\"},{\"id\":\"b\"}]".to_vec());
    assert_eq!(render_json_array(&Vec::new()), b"[]".to_vec());
}

fn cred(token: &str, refresh: Option<&str>) -> Credential {
    Credential {
        access_token: token.to_string(),
        refresh_token: refresh.map(|r| r.to_string()),
        expires_at_ms: Some(123_456),
    }
}

#[test]
fn refresh_failure_leaves_store_unchanged() {
    let mut store = CredentialStore::new();
    store.apply_authenticate(Ok(cred("tok-1", Some("ref-1")))).unwrap();
    let out = store.apply_refresh(Err(AuthError::ProviderRejected {
        message: "invalid refresh token".to_string(),
    }));
    assert!(out.is_err());
    let read = store.read().unwrap();
    assert_eq!(read.access_token, "tok-1");
    assert_eq!(read.refresh_token, Some("ref-1".to_string()));
}

#[test]
fn refresh_success_replaces_whole_credential() {
    let mut store = CredentialStore::new();
    store.apply_authenticate(Ok(cred("tok-1", Some("ref-1")))).unwrap();
    store.apply_refresh(Ok(cred("tok-2", Some("ref-2")))).unwrap();
    let read = store.read().unwrap();
    assert_eq!(read.access_token, "tok-2");
    assert_eq!(read.refresh_token, Some("ref-2".to_string()));
}

#[test]
fn revoke_clears_store_even_on_provider_error() {
    let mut store = CredentialStore::new();
    store.apply_authenticate(Ok(cred("tok-1", None))).unwrap();
    let out = store.apply_revoke(Err(AuthError::Network { message: "offline".to_string() }));
    assert!(out.is_err());
    assert!(store.read().is_err());
}

#[test]
fn empty_store_read_fails() {
    let store = CredentialStore::new();
    assert!(matches!(store.read(), Err(AuthError::BadCredentials { .. })));
}

#[test]
fn lifecycle_transitions() {
    let auth = LifecycleState::Authenticated;
    let unauth = LifecycleState::Unauthenticated;
    let revoked = LifecycleState::Revoked;
    assert_eq!(lifecycle_step(unauth, LifecycleEvent::AuthenticateOk), auth);
    assert_eq!(lifecycle_step(unauth, LifecycleEvent::AuthenticateFailed), unauth);
    assert_eq!(lifecycle_step(auth, LifecycleEvent::RefreshOk), auth);
    assert_eq!(lifecycle_step(auth, LifecycleEvent::RefreshFailed), auth);
    assert_eq!(lifecycle_step(auth, LifecycleEvent::RevokeDone), revoked);
    // revoked is terminal except for a fresh authenticate
    assert_eq!(lifecycle_step(revoked, LifecycleEvent::RefreshOk), revoked);
    assert_eq!(lifecycle_step(revoked, LifecycleEvent::RevokeDone), revoked);
    assert_eq!(lifecycle_step(revoked, LifecycleEvent::AuthenticateOk), auth);
}

#[test]
fn route_table() {
    assert_eq!(route_of(Method::Post, b"/auth/token"), Route::AccessToken);
    assert_eq!(route_of(Method::Post, b"/auth/refresh_token"), Route::RefreshToken);
    assert_eq!(route_of(Method::Post, b"/auth/revoke_token"), Route::RevokeToken);
    // auth routes answer POST only
    assert_eq!(route_of(Method::Get, b"/auth/token"), Route::NotFound);
    assert_eq!(route_of(Method::Get, b"/arkose/token"), Route::ChallengeToken);
    assert_eq!(route_of(Method::Get, b"/site/index.html"), Route::StaticAsset);
    assert_eq!(
        route_of(Method::Get, b"/public-api/conversation_limit"),
        Route::Proxy { upstream: Upstream::Unofficial, requires_auth: false }
    );
    assert_eq!(
        route_of(Method::Post, b"/dashboard/user/api_keys"),
        Route::Proxy { upstream: Upstream::Official, requires_auth: true }
    );
    assert_eq!(
        route_of(Method::Post, b"/backend-api/conversation"),
        Route::Proxy { upstream: Upstream::Unofficial, requires_auth: true }
    );
    assert_eq!(
        route_of(Method::Get, b"/api/auth/session"),
        Route::Proxy { upstream: Upstream::Unofficial, requires_auth: true }
    );
    assert_eq!(
        route_of(Method::Get, b"/v1/models"),
        Route::Proxy { upstream: Upstream::Official, requires_auth: true }
    );
    assert_eq!(route_of(Method::Get, b"/unknown"), Route::NotFound);
}

#[test]
fn header_allow_list() {
    assert!(forward_header(b"authorization"));
    assert!(!forward_header(b"user-agent"));
    assert!(!forward_header(b"connection"));
    assert!(!forward_header(b"cookie"));
}

#[test]
fn enrichment_policy() {
    assert!(should_enrich(Method::Post, b"/backend-api/conversation", true));
    assert!(!should_enrich(Method::Get, b"/backend-api/conversation", true));
    assert!(!should_enrich(Method::Post, b"/backend-api/conversation", false));
    assert!(!should_enrich(Method::Post, b"/backend-api/models", true));
}

#[test]
fn bearer_extraction() {
    assert_eq!(bearer_of(b"Bearer abc123"), Some(b"abc123".to_vec()));
    assert_eq!(bearer_of(b"abc123"), None);
    assert_eq!(bearer_of(b""), None);
}

#[test]
fn typed_request_urls() {
    assert_eq!(models_url(b"https://h/backend-api"), b"https://h/backend-api/models".to_vec());
    assert_eq!(
        conversation_url(b"https://h/backend-api", Some(&b"c-1".to_vec())).unwrap(),
        b"https://h/backend-api/conversation/c-1".to_vec()
    );
    let err = conversation_url(b"https://h/backend-api", None).unwrap_err();
    assert!(matches!(err, ConfigError::RequiredParameter { name } if name == "conversation_id"));
    assert_eq!(
        conversations_url(b"https://h/backend-api", 0, 3),
        b"https://h/backend-api/conversations?offset=0&limit=3&order=updated".to_vec()
    );
    assert_eq!(
        conversations_url(b"", 1234567890, 42),
        b"/conversations?offset=1234567890&limit=42&order=updated".to_vec()
    );
    assert_eq!(
        gen_title_url(b"https://h/backend-api", b"c-9"),
        b"https://h/backend-api/conversation/gen_title/c-9".to_vec()
    );
}

#[test]
fn payload_method_rule() {
    assert!(!method_carries_payload(Method::Get));
    assert!(method_carries_payload(Method::Post));
    assert!(method_carries_payload(Method::Patch));
    assert!(method_carries_payload(Method::Put));
    assert!(method_carries_payload(Method::Delete));
}
