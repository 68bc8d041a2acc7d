//! The user-info route. The upstream identity service is expected to
//! answer with a token-shaped JSON object; this module checks that
//! shape, re-serializes the token, and surfaces every upstream failure
//! as one bad-gateway error instead of aborting the request task.

use vstd::prelude::*;
use vstd::string::StringExecFns;
use crate::encode::push_bool;
use crate::encode::push_i64_dec;
use crate::encode::push_quoted;
use crate::encode::push_strarr;
use crate::encode::spec_bool_dec;
use crate::encode::spec_i64_dec;
use crate::encode::spec_quoted;
use crate::encode::spec_strarr_json;
use crate::handlers::bad_gateway_response;
use crate::http::ContentType;
use crate::http::HttpResponse;
use crate::http::STATUS_BAD_GATEWAY;
use crate::http::STATUS_OK;
use crate::json::lookup_field;
use crate::json::parse_json_obj;
use crate::json::spec_lookup;
use crate::json::spec_parse_obj;
use crate::json::JsonField;
use crate::json::JsonFieldS;
use crate::json::JsonObj;
use crate::text::chars_to_string;
use crate::text::str_to_chars;

verus! {

/// The token shape the upstream identity service answers with. The
/// fields are only a data shape: nothing here validates expiry, issuer
/// trust or a signature.
pub struct Auth {
    pub exp: i64,
    pub iat: i64,
    pub jti: String,
    pub iss: String,
    pub aud: Vec<String>,
    pub sub: String,
    pub typ: String,
    pub azp: String,
    pub session_state: String,
    pub given_name: String,
    pub family_name: String,
    pub preferred_username: String,
    pub email: String,
    pub email_verified: bool,
    pub scope: String,
    pub sid: String,
    pub created_at: i64,
    pub client_id: String,
    pub username: String,
    pub active: bool,
}

/// Spec-level token value.
pub struct AuthS {
    pub exp: int,
    pub iat: int,
    pub jti: Seq<char>,
    pub iss: Seq<char>,
    pub aud: Seq<Seq<char>>,
    pub sub: Seq<char>,
    pub typ: Seq<char>,
    pub azp: Seq<char>,
    pub session_state: Seq<char>,
    pub given_name: Seq<char>,
    pub family_name: Seq<char>,
    pub preferred_username: Seq<char>,
    pub email: Seq<char>,
    pub email_verified: bool,
    pub scope: Seq<char>,
    pub sid: Seq<char>,
    pub created_at: int,
    pub client_id: Seq<char>,
    pub username: Seq<char>,
    pub active: bool,
}

impl View for Auth {
    type V = AuthS;

    open spec fn view(&self) -> AuthS {
        AuthS {
            exp: self.exp as int,
            iat: self.iat as int,
            jti: self.jti@,
            iss: self.iss@,
            aud: self.aud.deep_view(),
            sub: self.sub@,
            typ: self.typ@,
            azp: self.azp@,
            session_state: self.session_state@,
            given_name: self.given_name@,
            family_name: self.family_name@,
            preferred_username: self.preferred_username@,
            email: self.email@,
            email_verified: self.email_verified,
            scope: self.scope@,
            sid: self.sid@,
            created_at: self.created_at as int,
            client_id: self.client_id@,
            username: self.username@,
            active: self.active,
        }
    }
}

/// A member that holds an integer.
pub open spec fn spec_int_field(fs: Seq<(Seq<char>, JsonFieldS)>, key: Seq<char>) -> Option<int> {
    match spec_lookup(fs, key) {
        Some(JsonFieldS::IntVal(v)) => Some(v),
        _ => None,
    }
}

/// A member that holds a string.
pub open spec fn spec_str_field(fs: Seq<(Seq<char>, JsonFieldS)>, key: Seq<char>) -> Option<
    Seq<char>,
> {
    match spec_lookup(fs, key) {
        Some(JsonFieldS::Str(v)) => Some(v),
        _ => None,
    }
}

/// A member that holds a boolean.
pub open spec fn spec_bool_field(fs: Seq<(Seq<char>, JsonFieldS)>, key: Seq<char>) -> Option<bool> {
    match spec_lookup(fs, key) {
        Some(JsonFieldS::Bool(v)) => Some(v),
        _ => None,
    }
}

/// A member that holds an array of strings.
pub open spec fn spec_strarr_field(fs: Seq<(Seq<char>, JsonFieldS)>, key: Seq<char>) -> Option<
    Seq<Seq<char>>,
> {
    match spec_lookup(fs, key) {
        Some(JsonFieldS::StrArr(v)) => Some(v),
        _ => None,
    }
}

/// The token a well-shaped object denotes: every field present with its
/// declared type.
pub open spec fn spec_auth_of(fs: Seq<(Seq<char>, JsonFieldS)>) -> Option<AuthS> {
    if spec_int_field(fs, "exp"@) is Some && spec_int_field(fs, "iat"@) is Some && spec_str_field(
        fs,
        "jti"@,
    ) is Some && spec_str_field(fs, "iss"@) is Some && spec_strarr_field(fs, "aud"@) is Some
        && spec_str_field(fs, "sub"@) is Some && spec_str_field(fs, "typ"@) is Some
        && spec_str_field(fs, "azp"@) is Some && spec_str_field(fs, "session_state"@) is Some
        && spec_str_field(fs, "given_name"@) is Some && spec_str_field(fs, "family_name"@) is Some
        && spec_str_field(fs, "preferred_username"@) is Some && spec_str_field(fs, "email"@) is Some
        && spec_bool_field(fs, "email_verified"@) is Some && spec_str_field(fs, "scope"@) is Some
        && spec_str_field(fs, "sid"@) is Some && spec_int_field(fs, "created_at"@) is Some
        && spec_str_field(fs, "client_id"@) is Some && spec_str_field(fs, "username"@) is Some
        && spec_bool_field(fs, "active"@) is Some {
        Some(
            AuthS {
                exp: spec_int_field(fs, "exp"@).unwrap(),
                iat: spec_int_field(fs, "iat"@).unwrap(),
                jti: spec_str_field(fs, "jti"@).unwrap(),
                iss: spec_str_field(fs, "iss"@).unwrap(),
                aud: spec_strarr_field(fs, "aud"@).unwrap(),
                sub: spec_str_field(fs, "sub"@).unwrap(),
                typ: spec_str_field(fs, "typ"@).unwrap(),
                azp: spec_str_field(fs, "azp"@).unwrap(),
                session_state: spec_str_field(fs, "session_state"@).unwrap(),
                given_name: spec_str_field(fs, "given_name"@).unwrap(),
                family_name: spec_str_field(fs, "family_name"@).unwrap(),
                preferred_username: spec_str_field(fs, "preferred_username"@).unwrap(),
                email: spec_str_field(fs, "email"@).unwrap(),
                email_verified: spec_bool_field(fs, "email_verified"@).unwrap(),
                scope: spec_str_field(fs, "scope"@).unwrap(),
                sid: spec_str_field(fs, "sid"@).unwrap(),
                created_at: spec_int_field(fs, "created_at"@).unwrap(),
                client_id: spec_str_field(fs, "client_id"@).unwrap(),
                username: spec_str_field(fs, "username"@).unwrap(),
                active: spec_bool_field(fs, "active"@).unwrap(),
            },
        )
    } else {
        None
    }
}

/// The token denoted by a whole body, if any.
pub open spec fn spec_auth_of_body(s: Seq<char>) -> Option<AuthS> {
    match spec_parse_obj(s) {
        Some(fs) => spec_auth_of(fs),
        None => None,
    }
}

fn int_member(o: &JsonObj, key: &str) -> (r: Option<i64>)
    ensures
        match r {
            Some(v) => spec_int_field(o@, key@) == Some(v as int),
            None => spec_int_field(o@, key@) is None,
        },
{
    let k = str_to_chars(key);
    match lookup_field(o, &k) {
        Some(JsonField::Int(n)) => Some(*n),
        _ => None,
    }
}

fn str_member(o: &JsonObj, key: &str) -> (r: Option<String>)
    ensures
        match r {
            Some(v) => spec_str_field(o@, key@) == Some(v@),
            None => spec_str_field(o@, key@) is None,
        },
{
    let k = str_to_chars(key);
    match lookup_field(o, &k) {
        Some(JsonField::Str(v)) => Some(chars_to_string(v)),
        _ => None,
    }
}

fn bool_member(o: &JsonObj, key: &str) -> (r: Option<bool>)
    ensures
        match r {
            Some(v) => spec_bool_field(o@, key@) == Some(v),
            None => spec_bool_field(o@, key@) is None,
        },
{
    let k = str_to_chars(key);
    match lookup_field(o, &k) {
        Some(JsonField::Bool(b)) => Some(*b),
        _ => None,
    }
}

fn strarr_member(o: &JsonObj, key: &str) -> (r: Option<Vec<String>>)
    ensures
        match r {
            Some(v) => spec_strarr_field(o@, key@) == Some(v.deep_view()),
            None => spec_strarr_field(o@, key@) is None,
        },
{
    let k = str_to_chars(key);
    match lookup_field(o, &k) {
        Some(JsonField::StrArr(items)) => {
            let mut out: Vec<String> = Vec::new();
            let mut i: usize = 0;
            while i < items.len()
                invariant
                    i <= items@.len(),
                    out.deep_view() == items.deep_view().take(i as int),
                    items.deep_view().len() == items@.len(),
                decreases items@.len() - i,
            {
                let sv = chars_to_string(&items[i]);
                let ghost gsv = sv@;
                let ghost oldout = out@;
                let ghost olddv = out.deep_view();
                out.push(sv);
                proof {
                    let dv = items.deep_view();
                    assert(olddv.len() == oldout.len());
                    assert(out.deep_view().len() == out@.len());
                    assert(oldout.len() == i);
                    assert forall|t: int| 0 <= t < i + 1 implies out.deep_view()[t] == dv.take(
                        i + 1 as int,
                    )[t] by {
                        assert(out.deep_view()[t] == out@[t].deep_view());
                        assert(dv[t] == items@[t].deep_view());
                        if t < i {
                            assert(out@[t] == oldout[t]);
                        } else {
                            assert(out@[t]@ == gsv);
                            assert(out@[t].deep_view() =~= out@[t]@);
                            assert(items@[t].deep_view() =~= items@[t]@);
                        }
                    }
                    assert(out.deep_view() =~= dv.take(i + 1 as int));
                }
                i = i + 1;
            }
            proof {
                assert(items.deep_view().take(items@.len() as int) =~~= items.deep_view());
            }
            Some(out)
        },
        _ => None,
    }
}

/// Reads a token out of a parsed object, when every field is present
/// with its declared type.
pub fn auth_from_obj(o: &JsonObj) -> (r: Option<Auth>)
    ensures
        match r {
            Some(a) => spec_auth_of(o@) == Some(a@),
            None => spec_auth_of(o@) is None,
        },
{
    let exp = match int_member(o, "exp") {
        Some(v) => v,
        None => {
            return None;
        },
    };
    let iat = match int_member(o, "iat") {
        Some(v) => v,
        None => {
            return None;
        },
    };
    let jti = match str_member(o, "jti") {
        Some(v) => v,
        None => {
            return None;
        },
    };
    let iss = match str_member(o, "iss") {
        Some(v) => v,
        None => {
            return None;
        },
    };
    let aud = match strarr_member(o, "aud") {
        Some(v) => v,
        None => {
            return None;
        },
    };
    let sub = match str_member(o, "sub") {
        Some(v) => v,
        None => {
            return None;
        },
    };
    let typ = match str_member(o, "typ") {
        Some(v) => v,
        None => {
            return None;
        },
    };
    let azp = match str_member(o, "azp") {
        Some(v) => v,
        None => {
            return None;
        },
    };
    let session_state = match str_member(o, "session_state") {
        Some(v) => v,
        None => {
            return None;
        },
    };
    let given_name = match str_member(o, "given_name") {
        Some(v) => v,
        None => {
            return None;
        },
    };
    let family_name = match str_member(o, "family_name") {
        Some(v) => v,
        None => {
            return None;
        },
    };
    let preferred_username = match str_member(o, "preferred_username") {
        Some(v) => v,
        None => {
            return None;
        },
    };
    let email = match str_member(o, "email") {
        Some(v) => v,
        None => {
            return None;
        },
    };
    let email_verified = match bool_member(o, "email_verified") {
        Some(v) => v,
        None => {
            return None;
        },
    };
    let scope = match str_member(o, "scope") {
        Some(v) => v,
        None => {
            return None;
        },
    };
    let sid = match str_member(o, "sid") {
        Some(v) => v,
        None => {
            return None;
        },
    };
    let created_at = match int_member(o, "created_at") {
        Some(v) => v,
        None => {
            return None;
        },
    };
    let client_id = match str_member(o, "client_id") {
        Some(v) => v,
        None => {
            return None;
        },
    };
    let username = match str_member(o, "username") {
        Some(v) => v,
        None => {
            return None;
        },
    };
    let active = match bool_member(o, "active") {
        Some(v) => v,
        None => {
            return None;
        },
    };
    Some(
        Auth {
            exp,
            iat,
            jti,
            iss,
            aud,
            sub,
            typ,
            azp,
            session_state,
            given_name,
            family_name,
            preferred_username,
            email,
            email_verified,
            scope,
            sid,
            created_at,
            client_id,
            username,
            active,
        },
    )
}

/// The JSON document for a token, fields in declaration order.
pub open spec fn spec_auth_json(a: AuthS) -> Seq<char> {
    "{\"exp\":"@ + spec_i64_dec(a.exp) + ",\"iat\":"@ + spec_i64_dec(a.iat) + ",\"jti\":"@
        + spec_quoted(a.jti) + ",\"iss\":"@ + spec_quoted(a.iss) + ",\"aud\":"@ + spec_strarr_json(
        a.aud,
    ) + ",\"sub\":"@ + spec_quoted(a.sub) + ",\"typ\":"@ + spec_quoted(a.typ) + ",\"azp\":"@
        + spec_quoted(a.azp) + ",\"session_state\":"@ + spec_quoted(a.session_state)
        + ",\"given_name\":"@ + spec_quoted(a.given_name) + ",\"family_name\":"@ + spec_quoted(
        a.family_name,
    ) + ",\"preferred_username\":"@ + spec_quoted(a.preferred_username) + ",\"email\":"@
        + spec_quoted(a.email) + ",\"email_verified\":"@ + spec_bool_dec(a.email_verified)
        + ",\"scope\":"@ + spec_quoted(a.scope) + ",\"sid\":"@ + spec_quoted(a.sid)
        + ",\"created_at\":"@ + spec_i64_dec(a.created_at) + ",\"client_id\":"@ + spec_quoted(
        a.client_id,
    ) + ",\"username\":"@ + spec_quoted(a.username) + ",\"active\":"@ + spec_bool_dec(a.active)
        + "}"@
}

/// Builds the JSON document for a token.
pub fn auth_json(a: &Auth) -> (r: String)
    ensures
        r@ == spec_auth_json(a@),
{
    let mut out = String::from_str("{\"exp\":");
    push_i64_dec(&mut out, a.exp);
    out.append(",\"iat\":");
    push_i64_dec(&mut out, a.iat);
    out.append(",\"jti\":");
    push_quoted(&mut out, a.jti.as_str());
    out.append(",\"iss\":");
    push_quoted(&mut out, a.iss.as_str());
    out.append(",\"aud\":");
    push_strarr(&mut out, &a.aud);
    out.append(",\"sub\":");
    push_quoted(&mut out, a.sub.as_str());
    out.append(",\"typ\":");
    push_quoted(&mut out, a.typ.as_str());
    out.append(",\"azp\":");
    push_quoted(&mut out, a.azp.as_str());
    out.append(",\"session_state\":");
    push_quoted(&mut out, a.session_state.as_str());
    out.append(",\"given_name\":");
    push_quoted(&mut out, a.given_name.as_str());
    out.append(",\"family_name\":");
    push_quoted(&mut out, a.family_name.as_str());
    out.append(",\"preferred_username\":");
    push_quoted(&mut out, a.preferred_username.as_str());
    out.append(",\"email\":");
    push_quoted(&mut out, a.email.as_str());
    out.append(",\"email_verified\":");
    push_bool(&mut out, a.email_verified);
    out.append(",\"scope\":");
    push_quoted(&mut out, a.scope.as_str());
    out.append(",\"sid\":");
    push_quoted(&mut out, a.sid.as_str());
    out.append(",\"created_at\":");
    push_i64_dec(&mut out, a.created_at);
    out.append(",\"client_id\":");
    push_quoted(&mut out, a.client_id.as_str());
    out.append(",\"username\":");
    push_quoted(&mut out, a.username.as_str());
    out.append(",\"active\":");
    push_bool(&mut out, a.active);
    out.append("}");
    proof {
        assert(out@ =~= spec_auth_json(a@));
    }
    out
}

/// Outcome of the outbound identity call, as the runtime saw it.
pub enum UpstreamResponse {
    Reply { status: u16, body: String },
    Unreachable,
}

/// The error taxonomy of this API. An unreachable upstream, a
/// non-success upstream status, and an upstream body outside the token
/// shape are all converted into the one `UpstreamUnavailable` kind:
/// no upstream failure is ever fatal to the process.
pub enum ApiError {
    UpstreamUnavailable,
}

/// Reads the token out of the upstream outcome, or says which error
/// kind the failure is surfaced as.
pub fn upstream_auth(upstream: &UpstreamResponse) -> (r: Result<Auth, ApiError>)
    ensures
        upstream matches UpstreamResponse::Reply { status, body } ==> {
            if 200 <= *status < 300 {
                match spec_auth_of_body(body@) {
                    Some(a) => r matches Ok(t) && t@ == a,
                    None => r matches Err(e) && e is UpstreamUnavailable,
                }
            } else {
                r matches Err(e) && e is UpstreamUnavailable
            }
        },
        upstream is Unreachable ==> (r matches Err(e) && e is UpstreamUnavailable),
{
    match upstream {
        UpstreamResponse::Reply { status, body } => {
            if 200 <= *status && *status < 300 {
                let chars = str_to_chars(body.as_str());
                match parse_json_obj(&chars) {
                    Some(obj) => match auth_from_obj(&obj) {
                        Some(auth) => Ok(auth),
                        None => Err(ApiError::UpstreamUnavailable),
                    },
                    None => Err(ApiError::UpstreamUnavailable),
                }
            } else {
                Err(ApiError::UpstreamUnavailable)
            }
        },
        UpstreamResponse::Unreachable => Err(ApiError::UpstreamUnavailable),
    }
}

/// The response an error kind is reported as.
pub fn error_response(e: &ApiError) -> (r: HttpResponse)
    ensures
        e is UpstreamUnavailable ==> is_bad_gateway(r),
{
    match e {
        ApiError::UpstreamUnavailable => bad_gateway_response(),
    }
}

/// A bad-gateway response: the one error every upstream failure is
/// surfaced as.
pub open spec fn is_bad_gateway(r: HttpResponse) -> bool {
    r.status == STATUS_BAD_GATEWAY && r.content_type is None && r.body@ == Seq::<char>::empty()
}

/// Serves the user-info route from the upstream outcome. A success
/// status with a token-shaped body is passed on, re-serialized; an
/// unreachable upstream, a non-success status, and a body outside the
/// token shape are each surfaced as the same bad-gateway error.
pub fn user_info(upstream: &UpstreamResponse) -> (r: HttpResponse)
    ensures
        upstream matches UpstreamResponse::Reply { status, body } ==> {
            if 200 <= *status < 300 {
                match spec_auth_of_body(body@) {
                    Some(a) => r.status == STATUS_OK && r.content_type == Some(
                        ContentType::ApplicationJson,
                    ) && r.body@ == spec_auth_json(a),
                    None => is_bad_gateway(r),
                }
            } else {
                is_bad_gateway(r)
            }
        },
        upstream is Unreachable ==> is_bad_gateway(r),
{
    match upstream_auth(upstream) {
        Ok(auth) => HttpResponse {
            status: STATUS_OK,
            content_type: Some(ContentType::ApplicationJson),
            body: auth_json(&auth),
        },
        Err(e) => error_response(&e),
    }
}

} // verus!
