use my_api::json::parse_json_obj;
use my_api::json::lookup_field;
use my_api::json::JsonField;
use my_api::text::chars_to_string;
use my_api::text::str_to_chars;

fn parse(s: &str) -> Option<my_api::json::JsonObj> {
    let chars: Vec<char> = str_to_chars(s);
    parse_json_obj(&chars)
}

#[test]
fn chars_round_trip_through_text_helpers() {
    let v = str_to_chars("h\u{e9}llo \u{1F600}");
    assert_eq!(v.len(), 7);
    let s = chars_to_string(&v);
    assert_eq!(s.as_str(), "h\u{e9}llo \u{1F600}");
}

#[test]
fn empty_object_parses() {
    let o = parse(" { } ").unwrap();
    assert_eq!(o.fields.len(), 0);
}

#[test]
fn members_keep_their_order() {
    let o = parse("{\"a\":1,\"b\":2}").unwrap();
    assert_eq!(chars_to_string(&o.fields[0].0).as_str(), "a");
    assert_eq!(chars_to_string(&o.fields[1].0).as_str(), "b");
}

#[test]
fn integer_bounds_are_kept_exactly() {
    let o = parse("{\"lo\":-9223372036854775808,\"hi\":9223372036854775807}").unwrap();
    match o.fields[0].1 {
        JsonField::Int(n) => assert_eq!(n, i64::MIN),
        _ => panic!("expected an integer"),
    }
    match o.fields[1].1 {
        JsonField::Int(n) => assert_eq!(n, i64::MAX),
        _ => panic!("expected an integer"),
    }
}

#[test]
fn integers_beyond_the_range_keep_their_raw_text() {
    let o = parse("{\"n\":9223372036854775808}").unwrap();
    match &o.fields[0].1 {
        JsonField::NumRaw(raw) => {
            assert_eq!(chars_to_string(raw).as_str(), "9223372036854775808")
        },
        _ => panic!("expected raw number text"),
    }
}

#[test]
fn fractional_numbers_keep_their_raw_text() {
    let o = parse("{\"n\":-1.5e+3}").unwrap();
    match &o.fields[0].1 {
        JsonField::NumRaw(raw) => assert_eq!(chars_to_string(raw).as_str(), "-1.5e+3"),
        _ => panic!("expected raw number text"),
    }
}

#[test]
fn lookup_takes_the_first_member_with_the_key() {
    let o = parse("{\"a\":1,\"b\":true}").unwrap();
    let key = str_to_chars("b");
    match lookup_field(&o, &key) {
        Some(JsonField::Bool(b)) => assert!(*b),
        _ => panic!("expected the boolean member"),
    }
    let missing = str_to_chars("c");
    assert!(lookup_field(&o, &missing).is_none());
}

#[test]
fn nested_structures_are_outside_the_wire_format() {
    // the body format is one flat object: nested objects and mixed
    // arrays are not accepted
    assert!(parse("{\"a\":{}}").is_none());
    assert!(parse("{\"a\":[1,2]}").is_none());
    assert!(parse("[]").is_none());
    assert!(parse("\"s\"").is_none());
    assert!(parse("{\"a\":1,}").is_none());
    assert!(parse("{\"a\" 1}").is_none());
}
