//! HTTP status codes as plain integers, rendered the way
//! `reqwest::StatusCode`'s `Display` renders them.

use vstd::prelude::*;

use crate::text::{decimal, push_decimal};

verus! {

/// The reason phrase that the `http` crate (re-exported by `reqwest`)
/// registers for a status code, `None` for a code it does not know.
pub uninterp spec fn canonical_reason_phrase(code: u16) -> Option<Seq<char>>;

/// Calls `reqwest::StatusCode::from_u16` and then
/// `StatusCode::canonical_reason`. Claims that the phrase handed back is the
/// one named `canonical_reason_phrase(code)`; a code that `from_u16` refuses
/// (outside 100..=999) has no entry in the table and gives `None`.
#[verifier::external_body]
fn reason_phrase(code: u16) -> (r: Option<&'static str>)
    ensures
        match r {
            Some(p) => canonical_reason_phrase(code) == Some(p@),
            None => canonical_reason_phrase(code) is None,
        },
{
    match reqwest::StatusCode::from_u16(code) {
        Ok(status) => status.canonical_reason(),
        Err(_) => None,
    }
}

/// A status is a success when it lies in 200..=299.
pub open spec fn is_success_status(code: u16) -> bool {
    200 <= code < 300
}

/// Whether the status reports success, as `StatusCode::is_success` decides.
pub fn is_success(code: u16) -> (r: bool)
    ensures
        r == is_success_status(code),
{
    200 <= code && code < 300
}

/// The text that `StatusCode`'s `Display` writes: the number, a space and the
/// reason phrase, or `<unknown status code>` where there is none.
pub open spec fn status_text(code: u16) -> Seq<char> {
    decimal(code as nat) + " "@ + match canonical_reason_phrase(code) {
        Some(p) => p,
        None => "<unknown status code>"@,
    }
}

/// Renders a status code as `StatusCode`'s `Display` does, e.g. `403 Forbidden`.
pub fn status_display(code: u16) -> (s: String)
    ensures
        s@ == status_text(code),
{
    let mut s = String::new();
    push_decimal(&mut s, code);
    s.append(" ");
    match reason_phrase(code) {
        Some(p) => s.append(p),
        None => s.append("<unknown status code>"),
    }
    assert(s@ =~= status_text(code));
    s
}

} // verus!
