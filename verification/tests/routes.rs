use my_api::handlers::bad_gateway_response;
use my_api::handlers::bad_request_response;
use my_api::handlers::index;
use my_api::handlers::not_found_response;
use my_api::handlers::root;
use my_api::http::ContentType;
use my_api::router::dispatch;
use my_api::router::route_of;
use my_api::router::Dispatch;
use my_api::router::Route;

#[test]
fn root_is_hello_world() {
    let r = root();
    assert_eq!(r.status, 200);
    assert_eq!(r.content_type, Some(ContentType::TextPlain));
    assert_eq!(r.body.as_str(), "Hello, World!");
}

#[test]
fn root_is_stable_across_calls() {
    let a = root();
    let b = root();
    assert_eq!(a.body, b.body);
    assert_eq!(a.status, b.status);
}

#[test]
fn index_is_html_with_welcome() {
    let r = index();
    assert_eq!(r.status, 200);
    assert_eq!(r.content_type, Some(ContentType::TextHtml));
    assert!(r.body.contains("Welcome to My Api"));
    assert!(r.body.contains("<title>My API</title>"));
}

#[test]
fn route_table_matches_exactly() {
    assert_eq!(route_of("GET", "/"), Route::Root);
    assert_eq!(route_of("GET", "/html"), Route::Index);
    assert_eq!(route_of("GET", "/user_info"), Route::UserInfo);
    assert_eq!(route_of("POST", "/users"), Route::CreateUser);
}

#[test]
fn route_misses_fall_through() {
    assert_eq!(route_of("POST", "/"), Route::NotFound);
    assert_eq!(route_of("GET", "/users"), Route::NotFound);
    assert_eq!(route_of("PUT", "/users"), Route::NotFound);
    assert_eq!(route_of("GET", "/nope"), Route::NotFound);
    assert_eq!(route_of("GET", ""), Route::NotFound);
    assert_eq!(route_of("get", "/"), Route::NotFound);
    assert_eq!(route_of("GET", "/html/"), Route::NotFound);
}

#[test]
fn error_responses_have_the_declared_statuses() {
    assert_eq!(not_found_response().status, 404);
    assert_eq!(bad_request_response().status, 400);
    assert_eq!(bad_gateway_response().status, 502);
    assert!(not_found_response().body.is_empty());
}

#[test]
fn dispatch_serves_every_local_route() {
    match dispatch("GET", "/", "") {
        Dispatch::Done(h) => {
            assert_eq!(h.status, 200);
            assert_eq!(h.body.as_str(), "Hello, World!");
        }
        _ => panic!("expected a finished response"),
    }
    match dispatch("POST", "/users", "{\"username\":\"bob\"}") {
        Dispatch::Done(h) => {
            assert_eq!(h.status, 201);
            assert_eq!(h.body.as_str(), "{\"id\":1337,\"username\":\"bob\"}");
        }
        _ => panic!("expected a finished response"),
    }
    match dispatch("GET", "/user_info", "") {
        Dispatch::NeedsUpstream => {}
        _ => panic!("the user-info route needs the upstream outcome"),
    }
    match dispatch("DELETE", "/users", "") {
        Dispatch::Done(h) => assert_eq!(h.status, 404),
        _ => panic!("expected a finished response"),
    }
}
