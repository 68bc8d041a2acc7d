//! The static handlers: greeting, HTML index, and the error responses
//! that need no request data.

use vstd::prelude::*;
use vstd::string::StringExecFns;
use crate::http::ContentType;
use crate::http::HttpResponse;
use crate::http::contains_seq;
use crate::http::STATUS_OK;
use crate::http::STATUS_NOT_FOUND;
use crate::http::STATUS_BAD_REQUEST;
use crate::http::STATUS_BAD_GATEWAY;

verus! {

/// Greeting returned by the root route.
pub const ROOT_BODY: &'static str = "Hello, World!";

/// Opening of the index document, up to the welcome heading.
pub const INDEX_PRE: &'static str = "\n        <!DOCTYPE html>\n        <html>\n            <head>\n                <title>My API</title>\n            </head>\n            <body>\n                <h1>";

/// The welcome heading of the index document.
pub const INDEX_WELCOME: &'static str = "Welcome to My Api";

/// Close of the index document, after the welcome heading.
pub const INDEX_POST: &'static str = "</h1>\n            </body>\n        </html>\n    ";

/// The full index document.
pub open spec fn spec_index_html() -> Seq<char> {
    INDEX_PRE@ + INDEX_WELCOME@ + INDEX_POST@
}

/// Serves the root route: a fixed plain-text greeting.
pub fn root() -> (r: HttpResponse)
    ensures
        r.status == STATUS_OK,
        r.content_type == Some(ContentType::TextPlain),
        r.body@ == ROOT_BODY@,
{
    HttpResponse {
        status: STATUS_OK,
        content_type: Some(ContentType::TextPlain),
        body: String::from_str(ROOT_BODY),
    }
}

/// Serves the HTML index route: a fixed document that always carries the
/// welcome heading.
pub fn index() -> (r: HttpResponse)
    ensures
        r.status == STATUS_OK,
        r.content_type == Some(ContentType::TextHtml),
        r.body@ == spec_index_html(),
        contains_seq(r.body@, INDEX_WELCOME@),
{
    let body = String::from_str(INDEX_PRE).concat(INDEX_WELCOME).concat(INDEX_POST);
    proof {
        let hay = spec_index_html();
        let i = INDEX_PRE@.len() as int;
        assert(hay.subrange(i, i + INDEX_WELCOME@.len()) =~= INDEX_WELCOME@);
    }
    HttpResponse { status: STATUS_OK, content_type: Some(ContentType::TextHtml), body }
}

/// Response for a request body the server cannot accept.
pub fn bad_request_response() -> (r: HttpResponse)
    ensures
        r.status == STATUS_BAD_REQUEST,
        r.content_type is None,
        r.body@ == Seq::<char>::empty(),
{
    HttpResponse { status: STATUS_BAD_REQUEST, content_type: None, body: String::new() }
}

/// Response for any method/path pair outside the route table.
pub fn not_found_response() -> (r: HttpResponse)
    ensures
        r.status == STATUS_NOT_FOUND,
        r.content_type is None,
        r.body@ == Seq::<char>::empty(),
{
    HttpResponse { status: STATUS_NOT_FOUND, content_type: None, body: String::new() }
}

/// Response surfaced whenever the upstream identity call fails.
pub fn bad_gateway_response() -> (r: HttpResponse)
    ensures
        r.status == STATUS_BAD_GATEWAY,
        r.content_type is None,
        r.body@ == Seq::<char>::empty(),
{
    HttpResponse { status: STATUS_BAD_GATEWAY, content_type: None, body: String::new() }
}

} // verus!
