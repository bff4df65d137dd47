//! The JSON body that answers a failed HTTP request.
use vstd::prelude::*;
use actix_web::http::StatusCode;
use crate::text::decimal;

verus! {

/// The body of an error response.
#[derive(Clone, Debug)]
pub struct ErrorResponse {
    pub code: u16,
    pub message: String,
    pub error: String,
}

/// Name for the text that `Display` of `http::StatusCode` writes for a code:
/// the code, a space and its reason phrase.
pub uninterp spec fn status_display(code: u16) -> Seq<char>;

/// The status line text of a code, `StatusCode::to_string()`. By the source
/// of `http`, it is the code in decimal, a space, and a reason phrase; which
/// phrase belongs to which code is left to the name.
#[verifier::external_body]
pub(crate) fn status_text(code: u16) -> (r: String)
    requires
        100 <= code <= 999,
    ensures
        r@ == status_display(code),
        exists|reason: Seq<char>| r@ == decimal(code as nat) + seq![' '] + reason,
{
    match StatusCode::from_u16(code) {
        Ok(status) => status.to_string(),
        Err(_) => String::new(),
    }
}

/// The error text of a response: fixed texts for 404, 429 and the server
/// errors, the error's own text otherwise.
pub open spec fn error_text_spec(code: u16, error: Seq<char>) -> Seq<char> {
    if code == 404 {
        "URL Not Found"@
    } else if code == 429 {
        "Too Many Requests"@
    } else if 500 <= code <= 599 {
        "Internal"@
    } else {
        error
    }
}

/// A server error (500 to 599, both included) never shows its own text:
/// it reads "Internal". 404 and 429 have fixed texts too; any other status
/// shows the error as it reads.
pub proof fn law_error_text(code: u16, error: Seq<char>)
    ensures
        500 <= code <= 599 ==> error_text_spec(code, error) == "Internal"@,
        code == 404 ==> error_text_spec(code, error) == "URL Not Found"@,
        code == 429 ==> error_text_spec(code, error) == "Too Many Requests"@,
        !(code == 404 || code == 429 || 500 <= code <= 599) ==> error_text_spec(code, error) == error,
{
}

/// The error text of a response with status `code` whose error reads `error`.
pub fn error_text(code: u16, error: String) -> (r: String)
    ensures
        r@ == error_text_spec(code, error@),
        500 <= code <= 599 ==> r@ == "Internal"@,
        code == 404 ==> r@ == "URL Not Found"@,
        code == 429 ==> r@ == "Too Many Requests"@,
        !(code == 404 || code == 429 || 500 <= code <= 599) ==> r@ == error@,
{
    if code == 404 {
        "URL Not Found".to_owned()
    } else if code == 429 {
        "Too Many Requests".to_owned()
    } else if 500 <= code && code <= 599 {
        "Internal".to_owned()
    } else {
        error
    }
}

/// The JSON body that replaces the body of a failed response with status
/// `code` whose error reads `error`.
pub fn error_response(code: u16, error: String) -> (r: ErrorResponse)
    requires
        100 <= code <= 999,
    ensures
        r.code == code,
        r.message@ == status_display(code),
        r.error@ == error_text_spec(code, error@),
        500 <= code <= 599 ==> r.error@ == "Internal"@,
        code == 404 ==> r.error@ == "URL Not Found"@,
        code == 429 ==> r.error@ == "Too Many Requests"@,
        !(code == 404 || code == 429 || 500 <= code <= 599) ==> r.error@ == error@,
{
    ErrorResponse { code, message: status_text(code), error: error_text(code, error) }
}

} // verus!
