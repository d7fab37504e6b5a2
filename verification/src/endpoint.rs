//! Where the messages for the server go.

use crate::models::optional_text;
use crate::text;
use vstd::prelude::*;

verus! {

/// What `Url::parse` of the base and then `Url::join` of the reference give, as text.
pub uninterp spec fn url_joined(base: Seq<char>, reference: Seq<char>) -> Option<Seq<char>>;

/// `Url::join` of the URL that `Url::parse` reads from the base: the text of the joined URL, or
/// nothing where the base is no URL or the two cannot be joined.
#[verifier::external_body]
fn join_url(base: &str, reference: &str) -> (r: Option<String>)
    ensures
        optional_text(r) == url_joined(base@, reference@),
{
    url::Url::parse(base).and_then(|base| base.join(reference)).ok().map(|url| url.to_string())
}

/// The endpoint that a server at `url` announced: an absolute URL as it is, anything else joined
/// with the URL of the server, or put behind it where they cannot be joined.
pub open spec fn full_endpoint(url: Seq<char>, endpoint: Seq<char>) -> Seq<char> {
    if "http://"@.is_prefix_of(endpoint) || "https://"@.is_prefix_of(endpoint) {
        endpoint
    } else {
        resolved_endpoint(url, endpoint, url_joined(url, endpoint))
    }
}

/// The endpoint for a reference, given what joining it with the URL of the server gave.
pub open spec fn resolved_endpoint(
    url: Seq<char>,
    endpoint: Seq<char>,
    joined: Option<Seq<char>>,
) -> Seq<char> {
    match joined {
        Some(joined) => joined,
        None => url + endpoint,
    }
}

/// The endpoint for a reference, given what joining it with the URL of the server gave.
pub fn resolve_endpoint(url: &str, endpoint: &str, joined: Option<String>) -> (r: String)
    ensures
        r@ == resolved_endpoint(url@, endpoint@, optional_text(joined)),
{
    match joined {
        Some(joined) => joined,
        None => url.to_owned().concat(endpoint),
    }
}

/// The endpoint that a server at `url` announced.
pub fn endpoint_url(url: &str, endpoint: &str) -> (r: String)
    ensures
        r@ == full_endpoint(url@, endpoint@),
{
    let http = text::strip_prefix(endpoint, "http://").is_some();
    let https = text::strip_prefix(endpoint, "https://").is_some();
    if http || https {
        endpoint.to_owned()
    } else {
        resolve_endpoint(url, endpoint, join_url(url, endpoint))
    }
}

/// An endpoint that is announced as an absolute URL is used as it was announced, whatever the URL
/// of the server.
pub proof fn absolute_endpoint_is_used_as_it_is(url: Seq<char>, rest: Seq<char>)
    ensures
        full_endpoint(url, "http://"@ + rest) == "http://"@ + rest,
        full_endpoint(url, "https://"@ + rest) == "https://"@ + rest,
{
    assert("http://"@.is_prefix_of("http://"@ + rest));
    assert("https://"@.is_prefix_of("https://"@ + rest));
}

/// Any other endpoint is joined with the URL of the server, or put behind it where they cannot be
/// joined.
pub proof fn relative_endpoint_is_joined(url: Seq<char>, endpoint: Seq<char>)
    requires
        endpoint.len() < 7 || endpoint.take(7) != "http://"@,
        endpoint.len() < 8 || endpoint.take(8) != "https://"@,
    ensures
        url_joined(url, endpoint) is Some ==> full_endpoint(url, endpoint) == url_joined(
            url,
            endpoint,
        )->0,
        url_joined(url, endpoint) is None ==> full_endpoint(url, endpoint) == url + endpoint,
{
    reveal_strlit("http://");
    reveal_strlit("https://");
    if "http://"@.is_prefix_of(endpoint) {
        assert(endpoint.take(7) =~= "http://"@);
    }
    if "https://"@.is_prefix_of(endpoint) {
        assert(endpoint.take(8) =~= "https://"@);
    }
}

/// What joining gave is the endpoint; where it gave nothing, the endpoint is the URL of the server
/// with the reference behind it.
pub proof fn joined_endpoint_comes_first(
    url: Seq<char>,
    endpoint: Seq<char>,
    joined: Option<Seq<char>>,
)
    ensures
        joined is Some ==> resolved_endpoint(url, endpoint, joined) == joined->0,
        joined is None ==> resolved_endpoint(url, endpoint, joined) == url + endpoint,
{
}

} // verus!
