//! The trusted boundary: declarations of the outside types that flow
//! through the client, names for what the outside calls return, and
//! the wrappers that make those calls. Everything verified in this
//! crate rests on the contracts stated here.

use vstd::prelude::*;

verus! {

/// The url crate's parse error, carried opaquely inside `ClientError`.
#[verifier::external_type_specification]
#[verifier::external_body]
pub struct ExUrlParseError(url::ParseError);

/// serde_json's error, carried opaquely inside `ClientError`.
#[verifier::external_type_specification]
#[verifier::external_body]
pub struct ExJsonError(serde_json::Error);

/// serde_json's tree value, carried opaquely as an append payload.
#[verifier::external_type_specification]
#[verifier::external_body]
pub struct ExJsonValue(serde_json::Value);

/// The text of the URL that `s` parses and normalizes to, or `None`
/// where `s` is not a valid absolute URL. URL parsing depends on the
/// input text alone.
pub uninterp spec fn url_normalized(s: Seq<char>) -> Option<Seq<char>>;

/// The text of the URL `u` with its host replaced by `h` and its port
/// by `p`, or `None` where `u` does not parse or does not accept a
/// host or port. Depends on the three arguments alone.
pub uninterp spec fn host_port_swapped(u: Seq<char>, h: Seq<char>, p: u16) -> Option<Seq<char>>;

/// The list of strings that `s` parses to as a JSON array of strings,
/// or `None` where it is not one. Depends on the input text alone.
pub uninterp spec fn supervisor_list(s: Seq<char>) -> Option<Seq<Seq<char>>>;

/// Relies on `url::Url::parse`: parses `s` as an absolute URL and
/// hands back its normalized text, or the parse error.
#[verifier::external_body]
pub fn normalize_url(s: &str) -> (r: Result<String, url::ParseError>)
    ensures
        r is Ok <==> url_normalized(s@) is Some,
        r matches Ok(t) ==> Some(t@) == url_normalized(s@),
{
    match url::Url::parse(s) {
        Ok(u) => Ok(u.as_str().to_string()),
        Err(e) => Err(e),
    }
}

/// Relies on `url::Url::parse`, `url::Url::set_host`,
/// `url::Url::set_port` and `url::Url::as_str`: rewrites the host and
/// port of `u`, leaving scheme, path and query untouched, and hands
/// back the rewritten text; `None` where any of the three steps fails.
#[verifier::external_body]
pub fn with_host_port(u: &str, h: &str, p: u16) -> (r: Option<String>)
    ensures
        r is Some <==> host_port_swapped(u@, h@, p) is Some,
        r matches Some(t) ==> Some(t@) == host_port_swapped(u@, h@, p),
{
    let mut parsed = match url::Url::parse(u) {
        Ok(parsed) => parsed,
        Err(_) => return None,
    };
    if parsed.set_host(Some(h)).is_err() {
        return None;
    }
    if parsed.set_port(Some(p)).is_err() {
        return None;
    }
    Some(parsed.as_str().to_string())
}

/// Relies on `serde_json::from_str::<Vec<String>>`: parses a JSON
/// array of strings, or hands back the parse error.
#[verifier::external_body]
pub fn parse_supervisors(s: &str) -> (r: Result<Vec<String>, serde_json::Error>)
    ensures
        r is Ok <==> supervisor_list(s@) is Some,
        r matches Ok(v) ==> Some(v.deep_view()) == supervisor_list(s@),
{
    serde_json::from_str::<Vec<String>>(s)
}

/// Relies on `rand::thread_rng` and `rand::Rng::gen_range`: draws an
/// index below `n`, uniformly at random. Nothing is promised of which
/// index comes back, only that it is in range.
#[verifier::external_body]
pub fn random_below(n: usize) -> (r: usize)
    requires
        n >= 1,
    ensures
        r < n,
{
    rand::Rng::gen_range(&mut rand::thread_rng(), 0..n)
}

/// Relies on `std::string::String::push`: appends exactly the one
/// character `c` to `s`.
#[verifier::external_body]
pub fn push_char(s: &mut String, c: char)
    ensures
        final(s)@ == old(s)@ + seq![c],
{
    s.push(c);
}

} // verus!
