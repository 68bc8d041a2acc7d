//! The user-creation route: the request body must carry a `username`
//! string member; the response echoes it with the fixed identifier.

use vstd::prelude::*;
use vstd::string::StringExecFns;
use crate::encode::push_quoted;
use crate::encode::push_u64_dec;
use crate::encode::spec_quoted;
use crate::encode::spec_u64_dec;
use crate::handlers::bad_request_response;
use crate::http::ContentType;
use crate::http::HttpResponse;
use crate::http::STATUS_BAD_REQUEST;
use crate::http::STATUS_CREATED;
use crate::json::parse_json_obj;
use crate::json::lookup_field;
use crate::json::spec_lookup;
use crate::json::spec_parse_obj;
use crate::json::JsonField;
use crate::json::JsonFieldS;
use crate::text::chars_to_string;
use crate::text::str_to_chars;

verus! {

/// Input shape of the user-creation route.
pub struct CreateUser {
    pub username: String,
}

/// Output shape of the user-creation route.
pub struct User {
    pub id: u64,
    pub username: String,
}

/// The fixed identifier every created user gets: there is no identity
/// generation.
pub const USER_ID: u64 = 1337;

/// The `username` member of a request body, when the body is a
/// well-formed object carrying one as a string.
pub open spec fn spec_username_of(body: Seq<char>) -> Option<Seq<char>> {
    match spec_parse_obj(body) {
        Some(fs) => match spec_lookup(fs, "username"@) {
            Some(JsonFieldS::Str(u)) => Some(u),
            _ => None,
        },
        None => None,
    }
}

/// The response body announcing a created user.
pub open spec fn spec_user_json(id: int, username: Seq<char>) -> Seq<char> {
    "{\"id\":"@ + spec_u64_dec(id) + ",\"username\":"@ + spec_quoted(username) + "}"@
}

/// Builds the JSON document for a user.
pub fn user_json(user: &User) -> (r: String)
    ensures
        r@ == spec_user_json(user.id as int, user.username@),
{
    let mut out = String::from_str("{\"id\":");
    push_u64_dec(&mut out, user.id);
    out.append(",\"username\":");
    push_quoted(&mut out, user.username.as_str());
    out.append("}");
    proof {
        assert(out@ =~= spec_user_json(user.id as int, user.username@));
    }
    out
}

/// Serves the user-creation route. A body carrying a `username` string
/// is answered with the created user, echoed unchanged under the fixed
/// identifier; any other body is rejected.
pub fn create_user(body: &str) -> (r: HttpResponse)
    ensures
        match spec_username_of(body@) {
            Some(u) => r.status == STATUS_CREATED && r.content_type == Some(
                ContentType::ApplicationJson,
            ) && r.body@ == spec_user_json(USER_ID as int, u),
            None => r.status == STATUS_BAD_REQUEST && r.content_type is None && r.body@
                == Seq::<char>::empty(),
        },
{
    let chars = str_to_chars(body);
    match parse_json_obj(&chars) {
        Some(obj) => {
            let key = str_to_chars("username");
            match lookup_field(&obj, &key) {
                Some(f) => match f {
                    JsonField::Str(u) => {
                        let req = CreateUser { username: chars_to_string(u) };
                        let user = User { id: USER_ID, username: req.username };
                        let body_out = user_json(&user);
                        HttpResponse {
                            status: STATUS_CREATED,
                            content_type: Some(ContentType::ApplicationJson),
                            body: body_out,
                        }
                    },
                    _ => bad_request_response(),
                },
                None => bad_request_response(),
            }
        },
        None => bad_request_response(),
    }
}

} // verus!
