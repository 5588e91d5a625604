//! Reading a number out of a post's address with a regular expression.

use vstd::prelude::*;

use crate::error::ScrapeError;
use crate::text::{chars_of, parse_u32_chars, parse_u32_spec};

verus! {

/// What the regular expression `pattern` captures with group `group` at its first match in
/// `text`; none when `pattern` is not a valid expression, does not match, or the group
/// takes no part in the match.
pub uninterp spec fn regex_capture(pattern: Seq<char>, text: Seq<char>, group: usize) -> Option<Seq<char>>;

/// Compiles `pattern` with `regex::Regex::new`, and takes group `group` of the first match
/// of `Regex::captures` in `text` (`Captures::get`, `Match::as_str`). Its contract only
/// names the result: what a regular expression matches is the regex crate's to decide.
#[verifier::external_body]
pub(crate) fn first_capture(pattern: &str, text: &str, group: usize) -> (r: Option<String>)
    ensures
        match r {
            Some(s) => regex_capture(pattern@, text@, group) == Some(s@),
            None => regex_capture(pattern@, text@, group) is None,
        },
{
    match regex::Regex::new(pattern) {
        Ok(re) => match re.captures(text) {
            Some(caps) => match caps.get(group) {
                Some(m) => Some(m.as_str().to_string()),
                None => None,
            },
            None => None,
        },
        Err(_) => None,
    }
}

/// The post number that a capture gives: an error when nothing was captured or the capture
/// is not a number.
pub open spec fn id_of_capture(capture: Option<Seq<char>>) -> Result<u32, ScrapeError> {
    match capture {
        None => Err(ScrapeError::NoPostId),
        Some(t) => match parse_u32_spec(t) {
            Some(n) => Ok(n),
            None => Err(ScrapeError::NotANumber),
        },
    }
}

/// The post number that `capture` gives.
pub fn id_from_capture(capture: Option<&str>) -> (r: Result<u32, ScrapeError>)
    ensures
        r == id_of_capture(
            match capture {
                Some(t) => Some(t@),
                None => None,
            },
        ),
{
    match capture {
        None => Err(ScrapeError::NoPostId),
        Some(t) => {
            let c = chars_of(t);
            match parse_u32_chars(c.as_slice()) {
                Some(n) => Ok(n),
                None => Err(ScrapeError::NotANumber),
            }
        },
    }
}

/// The post number in `url` that group 1 of `pattern` captures.
pub fn post_id(pattern: &str, url: &str) -> (r: Result<u32, ScrapeError>)
    ensures
        r == id_of_capture(regex_capture(pattern@, url@, 1)),
{
    match first_capture(pattern, url, 1) {
        Some(t) => id_from_capture(Some(t.as_str())),
        None => id_from_capture(None),
    }
}

} // verus!
