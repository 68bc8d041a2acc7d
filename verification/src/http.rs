//! Response shape shared by every handler.

use vstd::prelude::*;

verus! {

/// Status code of a successful plain response.
pub const STATUS_OK: u16 = 200;

/// Status code returned after creating a user.
pub const STATUS_CREATED: u16 = 201;

/// Status code for a request body the server cannot accept.
pub const STATUS_BAD_REQUEST: u16 = 400;

/// Status code for a method/path pair outside the route table.
pub const STATUS_NOT_FOUND: u16 = 404;

/// Status code surfaced when the upstream identity service fails.
pub const STATUS_BAD_GATEWAY: u16 = 502;

/// Media type of a response body.
#[derive(PartialEq, Eq, Structural, Clone, Copy, Debug)]
pub enum ContentType {
    TextPlain,
    TextHtml,
    ApplicationJson,
}

/// One HTTP response: a status code, an optional media type, and the body.
pub struct HttpResponse {
    pub status: u16,
    pub content_type: Option<ContentType>,
    pub body: String,
}

/// Header value corresponding to each media type.
pub fn content_type_value(c: &ContentType) -> (r: &'static str)
    ensures
        c is TextPlain ==> r@ == "text/plain"@,
        c is TextHtml ==> r@ == "text/html"@,
        c is ApplicationJson ==> r@ == "application/json"@,
{
    match c {
        ContentType::TextPlain => "text/plain",
        ContentType::TextHtml => "text/html",
        ContentType::ApplicationJson => "application/json",
    }
}

/// `needle` occurs contiguously somewhere inside `hay`.
pub open spec fn contains_seq(hay: Seq<char>, needle: Seq<char>) -> bool {
    exists|i: int|
        0 <= i && i + needle.len() <= hay.len() && #[trigger] hay.subrange(i, i + needle.len())
            == needle
}

} // verus!
