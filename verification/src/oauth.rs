//! Parsing of the OAuth redirect callback: the authorization code is
//! the text between the first `code=` and the next `&`, and a
//! callback not addressed to the registered redirect URI is rejected.

use vstd::prelude::*;
use vstd::string::StrSliceExecFns;

use crate::strings::{find_char_from, find_from, find_sub, find_char, starts_with, starts_with_spec};

verus! {

/// Failures of callback parsing.
#[derive(Clone, Copy, PartialEq, Eq, Structural, Debug)]
pub enum CallbackError {
    /// The callback URL does not start with the registered redirect
    /// URI.
    InvalidRedirect,
    /// No authorization code stands in the callback URL.
    MissingCode,
}

/// The authorization code carried by a callback URL: the text after
/// the first `code=`, up to the next `&` or the end.
pub open spec fn spec_extract_code(url: Seq<char>) -> Option<Seq<char>> {
    match find_from(url, "code="@, 0) {
        None => None,
        Some(i) => {
            let start = i + "code="@.len();
            let end = match find_char_from(url, '&', start) {
                Some(j) => j,
                None => url.len() as int,
            };
            Some(url.subrange(start, end))
        },
    }
}

/// Extracts the authorization code from a provider callback URL,
/// rejecting a URL that is not addressed to `redirect_uri`.
pub fn parse_oauth_callback(url: &str, redirect_uri: &str) -> (r: Result<String, CallbackError>)
    ensures
        !starts_with_spec(url@, redirect_uri@) ==> r == Result::<String, CallbackError>::Err(
            CallbackError::InvalidRedirect,
        ),
        starts_with_spec(url@, redirect_uri@) && spec_extract_code(url@) is None ==> r
            == Result::<String, CallbackError>::Err(CallbackError::MissingCode),
        starts_with_spec(url@, redirect_uri@) && spec_extract_code(url@) is Some ==> (r matches Ok(
            c,
        ) && c@ == spec_extract_code(url@)->0),
{
    if !starts_with(url, redirect_uri) {
        return Err(CallbackError::InvalidRedirect);
    }
    let marker = "code=";
    proof {
        reveal_strlit("code=");
    }
    match find_sub(url, marker) {
        None => Err(CallbackError::MissingCode),
        Some(i) => {
            let mlen: usize = marker.unicode_len();
            let ulen: usize = url.unicode_len();
            proof {
                lemma_found_in_range(url@, marker@, i as int);
            }
            let start = i + mlen;
            let end = match find_char(url, '&', start) {
                Some(j) => j,
                None => ulen,
            };
            let code = url.substring_char(start, end);
            Ok(code.to_owned())
        },
    }
}

proof fn lemma_found_in_range(s: Seq<char>, p: Seq<char>, i: int)
    requires
        p.len() > 0,
        find_from(s, p, 0) == Some(i),
    ensures
        0 <= i && i + p.len() <= s.len(),
{
    lemma_find_from_in_range(s, p, 0, i);
}

proof fn lemma_find_from_in_range(s: Seq<char>, p: Seq<char>, from: int, i: int)
    requires
        0 <= from,
        p.len() > 0,
        find_from(s, p, from) == Some(i),
    ensures
        from <= i && i + p.len() <= s.len(),
    decreases s.len() - from,
{
    if from + p.len() > s.len() {
    } else if match_at_here(s, p, from) {
    } else {
        lemma_find_from_in_range(s, p, from + 1, i);
    }
}

spec fn match_at_here(s: Seq<char>, p: Seq<char>, i: int) -> bool {
    crate::strings::match_at(s, p, i)
}

} // verus!
