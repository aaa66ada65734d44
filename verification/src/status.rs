//! HTTP status codes of the `http` crate, as text.
use vstd::prelude::*;

verus! {

/// The status line of `code`, as `http::StatusCode` displays it: the number,
/// a space, and the reason phrase that the `http` crate knows for it.
pub uninterp spec fn status_display(code: u16) -> Seq<char>;

/// `http::StatusCode::from_u16`, then the code's `Display`. The `http` crate
/// takes the numbers from 100 to 999 for status codes, and no others. The
/// contract is not proved; it gives the text its name.
#[verifier::external_body]
pub(crate) fn status_line(code: u16) -> (r: Option<String>)
    ensures
        r is Some <==> 100 <= code <= 999,
        r is Some ==> r->0@ == status_display(code),
{
    http::StatusCode::from_u16(code).ok().map(|status| status.to_string())
}

} // verus!
