use my_api::auth::error_response;
use my_api::auth::upstream_auth;
use my_api::auth::user_info;
use my_api::auth::ApiError;
use my_api::auth::UpstreamResponse;
use my_api::handlers::root;
use my_api::http::ContentType;

fn token_body_shuffled() -> String {
    let mut s = String::new();
    s.push_str("{\"active\":true,\"exp\":1700000000,\"iat\":1699990000,\"jti\":\"j1\",");
    s.push_str("\"iss\":\"https://issuer/\",\"aud\":[\"acc\",\"web\"],\"sub\":\"s1\",");
    s.push_str("\"typ\":\"Bearer\",\"azp\":\"cli\",\"session_state\":\"ss\",");
    s.push_str("\"given_name\":\"Ada\",\"family_name\":\"Lovelace\",");
    s.push_str("\"preferred_username\":\"ada\",\"email\":\"ada@example.com\",");
    s.push_str("\"email_verified\":true,\"scope\":\"openid\",\"sid\":\"sid1\",");
    s.push_str("\"created_at\":-5,\"client_id\":\"cid\",\"username\":\"ada\"}");
    s
}

fn token_body_canonical() -> String {
    let mut s = String::new();
    s.push_str("{\"exp\":1700000000,\"iat\":1699990000,\"jti\":\"j1\",");
    s.push_str("\"iss\":\"https://issuer/\",\"aud\":[\"acc\",\"web\"],\"sub\":\"s1\",");
    s.push_str("\"typ\":\"Bearer\",\"azp\":\"cli\",\"session_state\":\"ss\",");
    s.push_str("\"given_name\":\"Ada\",\"family_name\":\"Lovelace\",");
    s.push_str("\"preferred_username\":\"ada\",\"email\":\"ada@example.com\",");
    s.push_str("\"email_verified\":true,\"scope\":\"openid\",\"sid\":\"sid1\",");
    s.push_str("\"created_at\":-5,\"client_id\":\"cid\",\"username\":\"ada\"");
    s.push_str(",\"active\":true}");
    s
}

#[test]
fn user_info_passes_a_token_reply_on() {
    let up = UpstreamResponse::Reply { status: 200, body: token_body_shuffled() };
    let r = user_info(&up);
    assert_eq!(r.status, 200);
    assert_eq!(r.content_type, Some(ContentType::ApplicationJson));
    assert_eq!(r.body, token_body_canonical());
}

#[test]
fn user_info_unreachable_upstream_is_bad_gateway() {
    let r = user_info(&UpstreamResponse::Unreachable);
    assert_eq!(r.status, 502);
    assert!(r.body.is_empty());
}

#[test]
fn user_info_failure_does_not_poison_later_requests() {
    // a failing upstream call affects only that request
    let r = user_info(&UpstreamResponse::Unreachable);
    assert_eq!(r.status, 502);
    let after = root();
    assert_eq!(after.status, 200);
    assert_eq!(after.body.as_str(), "Hello, World!");
}

#[test]
fn user_info_non_success_status_is_bad_gateway() {
    let up = UpstreamResponse::Reply { status: 404, body: token_body_shuffled() };
    assert_eq!(user_info(&up).status, 502);
    let up = UpstreamResponse::Reply { status: 500, body: token_body_shuffled() };
    assert_eq!(user_info(&up).status, 502);
    let up = UpstreamResponse::Reply { status: 302, body: token_body_shuffled() };
    assert_eq!(user_info(&up).status, 502);
}

#[test]
fn user_info_malformed_body_is_bad_gateway() {
    let up = UpstreamResponse::Reply { status: 200, body: String::from("not json") };
    assert_eq!(user_info(&up).status, 502);
    let up = UpstreamResponse::Reply { status: 200, body: String::new() };
    assert_eq!(user_info(&up).status, 502);
}

#[test]
fn user_info_wrong_shape_is_bad_gateway() {
    let up = UpstreamResponse::Reply { status: 200, body: String::from("{}") };
    assert_eq!(user_info(&up).status, 502);
    // one field missing
    let body = token_body_shuffled().replace("\"sid\":\"sid1\",", "");
    let up = UpstreamResponse::Reply { status: 200, body };
    assert_eq!(user_info(&up).status, 502);
    // one field with the wrong type
    let body = token_body_shuffled().replace("\"exp\":1700000000", "\"exp\":\"soon\"");
    let up = UpstreamResponse::Reply { status: 200, body };
    assert_eq!(user_info(&up).status, 502);
    // a fractional timestamp is not an integer
    let body = token_body_shuffled().replace("\"exp\":1700000000", "\"exp\":1.7e9");
    let up = UpstreamResponse::Reply { status: 200, body };
    assert_eq!(user_info(&up).status, 502);
}

#[test]
fn user_info_empty_audience_is_kept() {
    let body = token_body_shuffled().replace("[\"acc\",\"web\"]", "[]");
    let up = UpstreamResponse::Reply { status: 200, body };
    let r = user_info(&up);
    assert_eq!(r.status, 200);
    assert!(r.body.contains("\"aud\":[]"));
}

#[test]
fn every_upstream_failure_is_one_error_kind() {
    let bad = UpstreamResponse::Reply { status: 500, body: String::new() };
    match upstream_auth(&bad) {
        Err(ApiError::UpstreamUnavailable) => {}
        _ => panic!("expected the upstream-unavailable error"),
    }
    let r = error_response(&ApiError::UpstreamUnavailable);
    assert_eq!(r.status, 502);
    let ok = UpstreamResponse::Reply { status: 204, body: String::from("{}") };
    assert!(upstream_auth(&ok).is_err());
}
