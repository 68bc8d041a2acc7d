use my_api::http::ContentType;
use my_api::users::create_user;

#[test]
fn create_user_echoes_alice() {
    let r = create_user("{\"username\": \"alice\"}");
    assert_eq!(r.status, 201);
    assert_eq!(r.content_type, Some(ContentType::ApplicationJson));
    assert_eq!(r.body.as_str(), "{\"id\":1337,\"username\":\"alice\"}");
}

#[test]
fn create_user_missing_username_is_rejected() {
    let r = create_user("{}");
    assert_eq!(r.status, 400);
    assert!(r.body.is_empty());
}

#[test]
fn create_user_non_json_is_rejected() {
    let r = create_user("not json");
    assert_eq!(r.status, 400);
}

#[test]
fn create_user_empty_body_is_rejected() {
    assert_eq!(create_user("").status, 400);
}

#[test]
fn create_user_username_must_be_a_string() {
    assert_eq!(create_user("{\"username\": 5}").status, 400);
    assert_eq!(create_user("{\"username\": null}").status, 400);
    assert_eq!(create_user("{\"username\": true}").status, 400);
    assert_eq!(create_user("{\"username\": [\"a\"]}").status, 400);
}

#[test]
fn create_user_trailing_garbage_is_rejected() {
    assert_eq!(create_user("{\"username\":\"x\"} x").status, 400);
    assert_eq!(create_user("{\"username\":\"x\"}{}").status, 400);
}

#[test]
fn create_user_empty_username_echoes() {
    let r = create_user("{\"username\":\"\"}");
    assert_eq!(r.status, 201);
    assert_eq!(r.body.as_str(), "{\"id\":1337,\"username\":\"\"}");
}

#[test]
fn create_user_id_is_always_1337() {
    let a = create_user("{\"username\":\"first\"}");
    let b = create_user("{\"username\":\"second\"}");
    assert!(a.body.contains("\"id\":1337"));
    assert!(b.body.contains("\"id\":1337"));
}

#[test]
fn create_user_unicode_username_is_unchanged() {
    let r = create_user("{\"username\":\"h\u{e9}llo \u{1F600}\"}");
    assert_eq!(r.status, 201);
    assert_eq!(r.body.as_str(), "{\"id\":1337,\"username\":\"h\u{e9}llo \u{1F600}\"}");
}

#[test]
fn create_user_decodes_escapes_and_reencodes_minimally() {
    // \" \\ \/ decode to " \ /; only " and \ are re-escaped
    let r = create_user("{\"username\":\"a\\\"b\\\\c\\/d\"}");
    assert_eq!(r.status, 201);
    assert_eq!(r.body.as_str(), "{\"id\":1337,\"username\":\"a\\\"b\\\\c/d\"}");
}

#[test]
fn create_user_decodes_hex_escapes() {
    let r = create_user("{\"username\":\"\\u0041\\u00e9\"}");
    assert_eq!(r.status, 201);
    assert_eq!(r.body.as_str(), "{\"id\":1337,\"username\":\"A\u{e9}\"}");
}

#[test]
fn create_user_decodes_surrogate_pairs() {
    let r = create_user("{\"username\":\"\\ud83d\\ude00\"}");
    assert_eq!(r.status, 201);
    assert_eq!(r.body.as_str(), "{\"id\":1337,\"username\":\"\u{1F600}\"}");
}

#[test]
fn create_user_lone_surrogate_is_rejected() {
    assert_eq!(create_user("{\"username\":\"\\ud83d\"}").status, 400);
    assert_eq!(create_user("{\"username\":\"\\ude00\"}").status, 400);
}

#[test]
fn create_user_control_characters_round_trip() {
    let r = create_user("{\"username\":\"a\\tb\\nc\\u0001\"}");
    assert_eq!(r.status, 201);
    assert_eq!(r.body.as_str(), "{\"id\":1337,\"username\":\"a\\tb\\nc\\u0001\"}");
}

#[test]
fn create_user_raw_control_character_is_rejected() {
    let r = create_user("{\"username\":\"a\u{1}b\"}");
    assert_eq!(r.status, 400);
}

#[test]
fn create_user_tolerates_whitespace() {
    let r = create_user("  {  \"username\"  :  \"x\"  }  ");
    assert_eq!(r.status, 201);
    assert_eq!(r.body.as_str(), "{\"id\":1337,\"username\":\"x\"}");
}

#[test]
fn create_user_ignores_extra_members() {
    let r = create_user("{\"username\":\"x\",\"age\":31,\"ok\":true,\"note\":null}");
    assert_eq!(r.status, 201);
    assert_eq!(r.body.as_str(), "{\"id\":1337,\"username\":\"x\"}");
}

#[test]
fn create_user_accepts_non_integer_numbers_elsewhere() {
    let r = create_user("{\"score\":1.5e3,\"username\":\"x\",\"big\":99999999999999999999}");
    assert_eq!(r.status, 201);
    assert_eq!(r.body.as_str(), "{\"id\":1337,\"username\":\"x\"}");
}

#[test]
fn create_user_accepts_string_array_members() {
    let r = create_user("{\"tags\":[\"a\",\"b\"],\"username\":\"x\"}");
    assert_eq!(r.status, 201);
}

#[test]
fn create_user_rejects_malformed_numbers() {
    assert_eq!(create_user("{\"n\":01,\"username\":\"x\"}").status, 400);
    assert_eq!(create_user("{\"n\":-,\"username\":\"x\"}").status, 400);
    assert_eq!(create_user("{\"n\":1.,\"username\":\"x\"}").status, 400);
}
