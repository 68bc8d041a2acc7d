//! The route table: an exact method + path match onto one of the four
//! handlers, with everything else falling through to not-found.

use vstd::prelude::*;
use crate::handlers::index;
use crate::handlers::not_found_response;
use crate::handlers::root;
use crate::handlers::spec_index_html;
use crate::handlers::INDEX_WELCOME;
use crate::handlers::ROOT_BODY;
use crate::http::contains_seq;
use crate::http::ContentType;
use crate::http::HttpResponse;
use crate::http::STATUS_BAD_REQUEST;
use crate::http::STATUS_CREATED;
use crate::http::STATUS_NOT_FOUND;
use crate::http::STATUS_OK;
use crate::text::str_eq;
use crate::users::create_user;
use crate::users::spec_user_json;
use crate::users::spec_username_of;
use crate::users::USER_ID;

verus! {

/// The handler a request is dispatched to.
#[derive(PartialEq, Eq, Structural, Clone, Copy, Debug)]
pub enum Route {
    Root,
    Index,
    CreateUser,
    UserInfo,
    NotFound,
}

/// The route table: which handler serves a given method and path.
pub open spec fn spec_route(method: Seq<char>, path: Seq<char>) -> Route {
    if method == "GET"@ && path == "/"@ {
        Route::Root
    } else if method == "GET"@ && path == "/html"@ {
        Route::Index
    } else if method == "GET"@ && path == "/user_info"@ {
        Route::UserInfo
    } else if method == "POST"@ && path == "/users"@ {
        Route::CreateUser
    } else {
        Route::NotFound
    }
}

/// Matches a method and path against the route table.
pub fn route_of(method: &str, path: &str) -> (r: Route)
    ensures
        r == spec_route(method@, path@),
{
    proof {
        broadcast use vstd::string::group_string_axioms;

        reveal_strlit("GET");
        reveal_strlit("POST");
        reveal_strlit("/");
        reveal_strlit("/html");
        reveal_strlit("/user_info");
        reveal_strlit("/users");
    }
    if str_eq(method, "GET") {
        if str_eq(path, "/") {
            Route::Root
        } else if str_eq(path, "/html") {
            Route::Index
        } else if str_eq(path, "/user_info") {
            Route::UserInfo
        } else {
            proof {
                assert("GET"@.len() == 3);
                assert("POST"@.len() == 4);
            }
            Route::NotFound
        }
    } else if str_eq(method, "POST") && str_eq(path, "/users") {
        Route::CreateUser
    } else {
        Route::NotFound
    }
}

/// What serving a request comes to, before any outbound work: either a
/// finished response, or the one route that needs the upstream outcome
/// first.
pub enum Dispatch {
    Done(HttpResponse),
    NeedsUpstream,
}

/// Serves one request from its method, path and body. Every route is
/// answered here except the user-info route, which asks the caller to
/// perform the outbound call and hand its outcome to `user_info`.
pub fn dispatch(method: &str, path: &str, body: &str) -> (r: Dispatch)
    ensures
        match spec_route(method@, path@) {
            Route::Root => r matches Dispatch::Done(h) && h.status == STATUS_OK
                && h.content_type == Some(ContentType::TextPlain) && h.body@ == ROOT_BODY@,
            Route::Index => r matches Dispatch::Done(h) && h.status == STATUS_OK
                && h.content_type == Some(ContentType::TextHtml) && h.body@ == spec_index_html()
                && contains_seq(h.body@, INDEX_WELCOME@),
            Route::CreateUser => r matches Dispatch::Done(h) && (match spec_username_of(body@) {
                Some(u) => h.status == STATUS_CREATED && h.content_type == Some(
                    ContentType::ApplicationJson,
                ) && h.body@ == spec_user_json(USER_ID as int, u),
                None => h.status == STATUS_BAD_REQUEST && h.content_type is None && h.body@
                    == Seq::<char>::empty(),
            }),
            Route::UserInfo => r is NeedsUpstream,
            Route::NotFound => r matches Dispatch::Done(h) && h.status == STATUS_NOT_FOUND
                && h.content_type is None && h.body@ == Seq::<char>::empty(),
        },
{
    match route_of(method, path) {
        Route::Root => Dispatch::Done(root()),
        Route::Index => Dispatch::Done(index()),
        Route::CreateUser => Dispatch::Done(create_user(body)),
        Route::UserInfo => Dispatch::NeedsUpstream,
        Route::NotFound => Dispatch::Done(not_found_response()),
    }
}

} // verus!
