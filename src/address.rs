use vstd::prelude::*;

use crate::error::CliError;

verus! {

/// Whether the url crate's parser accepts `s` as an absolute URL.
pub uninterp spec fn url_accepts(s: Seq<char>) -> bool;

/// Relies on `reqwest::Url`'s `FromStr` (the url crate's `Url::parse` without a
/// base): whether `s` parses depends on the text alone, and a text without `:`
/// never parses, since parsing without a base must first find a scheme that
/// ends in `:`.
#[verifier::external_body]
fn url_parses(s: &str) -> (r: bool)
    ensures
        r == url_accepts(s@),
        !s@.contains(':') ==> !r,
{
    s.parse::<reqwest::Url>().is_ok()
}

/// Turns the parser's verdict on `s` into the validated URL (`s` itself,
/// unchanged) or the error that names `s`.
pub fn url_verdict(s: &str, accepted: bool) -> (r: Result<String, CliError>)
    ensures
        r is Ok <==> accepted,
        r matches Ok(u) ==> u@ == s@,
        r matches Err(e) ==> e.is_invalid_url(s@),
{
    if accepted {
        Ok(s.to_owned())
    } else {
        Err(CliError::InvalidUrl(s.to_owned()))
    }
}

/// Validates the URL of a POST: succeeds exactly when `s` is an absolute URL,
/// and then hands `s` back unchanged.
pub fn parse_url(s: &str) -> (r: Result<String, CliError>)
    ensures
        r is Ok <==> url_accepts(s@),
        r matches Ok(u) ==> u@ == s@,
        r matches Err(e) ==> e.is_invalid_url(s@),
        !s@.contains(':') ==> r is Err,
{
    let accepted = url_parses(s);
    url_verdict(s, accepted)
}

} // verus!
