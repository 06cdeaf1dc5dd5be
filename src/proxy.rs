use vstd::prelude::*;

use crate::text::{decimal_text, push_decimal};

verus! {

/// The page served to the client: a markup document whose zero-delay timer
/// sends the client on to its first game step.
pub fn redirect_body() -> (r: &'static str)
    ensures
        r@ == redirect_body_text(),
{
    "<pml><head><meta http-equiv=\"Content-Type\" content=\"text/x-playonline-pml;charset=UTF-8\"><title>Fast</title></head><body><timer name=\"fast\" href=\"gameto:1\" enable=\"1\" delay=\"0\"></body></pml>"
}

pub open spec fn redirect_body_text() -> Seq<char> {
    "<pml><head><meta http-equiv=\"Content-Type\" content=\"text/x-playonline-pml;charset=UTF-8\"><title>Fast</title></head><body><timer name=\"fast\" href=\"gameto:1\" enable=\"1\" delay=\"0\"></body></pml>"@
}

/// The full reply to the one request: status line, the markup content type,
/// the body's length, a closing connection, then the body.
pub open spec fn redirect_response_text() -> Seq<char> {
    "HTTP/1.1 200 OK\r\nContent-Type: text/x-playonline-pml;charset=UTF-8\r\nContent-Length: "@
        + decimal_text(redirect_body_text().len()) + "\r\nConnection: close\r\n\r\n"@
        + redirect_body_text()
}

/// The reply the redirect listener writes to the client, whatever it asked.
pub fn redirect_response() -> (r: String)
    ensures
        r@ == redirect_response_text(),
{
    let body = redirect_body();
    let mut s = String::from_str(
        "HTTP/1.1 200 OK\r\nContent-Type: text/x-playonline-pml;charset=UTF-8\r\nContent-Length: ",
    );
    push_decimal(&mut s, body.unicode_len() as u64);
    s.append("\r\nConnection: close\r\n\r\n");
    s.append(body);
    s
}

} // verus!
