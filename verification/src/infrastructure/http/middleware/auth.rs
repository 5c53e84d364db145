//! Reading the token out of an `Authorization` header.

use vstd::prelude::*;
use vstd::string::*;

verus! {

/// The token that `header` carries: what follows `Bearer ` at its start.
pub open spec fn bearer_token(header: Seq<char>) -> Option<Seq<char>> {
    if header.len() >= 7 && header.subrange(0, 7) == "Bearer "@ {
        Some(header.skip(7))
    } else {
        None
    }
}

/// The token of an `Authorization` header, or nothing where the header does
/// not begin with `Bearer `.
pub fn strip_bearer(header: &str) -> (token: Option<&str>)
    ensures
        token is Some <==> bearer_token(header@) is Some,
        token matches Some(text) ==> bearer_token(header@) == Some(text@),
{
    let n = header.unicode_len();
    if n < 7 {
        return None;
    }
    let scheme = header.substring_char(0, 7).to_owned();
    if scheme == "Bearer ".to_owned() {
        let token = header.substring_char(7, n);
        assert(token@ =~= header@.skip(7));
        Some(token)
    } else {
        None
    }
}

} // verus!
