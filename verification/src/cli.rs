//! What the command line says.

use reqwest::header::{HeaderMap, HeaderValue};
use vstd::prelude::*;

verus! {

/// `reqwest::header::HeaderMap`.
#[verifier::external_type_specification]
#[verifier::external_body]
#[verifier::reject_recursive_types(T)]
pub struct ExHeaderMap<T>(reqwest::header::HeaderMap<T>);

/// `reqwest::header::HeaderValue`.
#[verifier::external_type_specification]
#[verifier::external_body]
pub struct ExHeaderValue(reqwest::header::HeaderValue);

/// The headers that a `HeaderMap` holds: by their names, their values in their order.
pub uninterp spec fn header_values(headers: HeaderMap<HeaderValue>) -> Map<
    Seq<char>,
    Seq<Seq<u8>>,
>;

/// What a text says of headers: there are none, these, or the text is wrong.
pub enum HeadersView {
    Nothing,
    Headers(Map<Seq<char>, Seq<Seq<u8>>>),
    Error(Seq<char>),
}

/// What `http_serde` reads from a JSON text.
pub uninterp spec fn headers_read(text: Seq<char>) -> HeadersView;

/// `http_serde::option::header_map::deserialize` from a JSON text: the headers, nothing where
/// there are none, or the text of the error. What stands behind the JSON value is not looked at.
#[verifier::external_body]
fn read_headers(text: &str) -> (r: Result<Option<HeaderMap<HeaderValue>>, String>)
    ensures
        match r {
            Ok(Some(headers)) => headers_read(text@) == HeadersView::Headers(header_values(headers)),
            Ok(None) => headers_read(text@) is Nothing,
            Err(error) => headers_read(text@) == HeadersView::Error(error@),
        },
{
    let mut de = serde_json::Deserializer::from_str(text);
    http_serde::option::header_map::deserialize(&mut de).map_err(|e| e.to_string())
}

/// The headers to send to the server, from a JSON object of header names and header values.
pub fn parse_header_map(s: &str) -> (r: Result<Option<HeaderMap<HeaderValue>>, String>)
    ensures
        match r {
            Ok(Some(headers)) => headers_read(s@) == HeadersView::Headers(header_values(headers)),
            Ok(None) => headers_read(s@) is Nothing,
            Err(error) => headers_read(s@) == HeadersView::Error(error@),
        },
{
    read_headers(s)
}

/// The URL of the server: the argument, or else what the environment says. Without either it is
/// an error.
pub fn resolve_sse_url(argument: Option<String>, variable: Option<String>) -> (r: Result<
    String,
    String,
>)
    ensures
        match (argument, variable) {
            (Some(url), _) => r == Ok::<String, String>(url),
            (None, Some(url)) => r == Ok::<String, String>(url),
            (None, None) => r matches Err(error) && error@
                == "Either the URL must be passed as the first argument or the SSE_URL environment variable must be set"@,
        },
{
    match (argument, variable) {
        (Some(url), _) => Ok(url),
        (None, Some(url)) => Ok(url),
        (None, None) => Err(
            "Either the URL must be passed as the first argument or the SSE_URL environment variable must be set".to_owned(),
        ),
    }
}

} // verus!
