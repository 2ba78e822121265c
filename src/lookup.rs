use vstd::prelude::*;
use vstd::string::StringExecFns;

verus! {

/// What the lookup service is asked for when a query is `s`: its percent-encoding.
pub uninterp spec fn url_encoded(s: Seq<char>) -> Seq<char>;

/// A character that percent-encoding leaves as it is.
pub open spec fn is_unreserved(c: char) -> bool {
    ('0' <= c && c <= '9') || ('A' <= c && c <= 'Z') || ('a' <= c && c <= 'z') || c == '-'
        || c == '.' || c == '_' || c == '~'
}

/// Relies on urlencoding::encode: percent-encodes every byte of the UTF-8
/// text but ASCII alphanumerics and `-`, `.`, `_`, `~`, which stay as they are.
#[verifier::external_body]
fn percent_encode(s: &str) -> (r: String)
    ensures
        r@ == url_encoded(s@),
        (forall|i: int| 0 <= i < s@.len() ==> is_unreserved(#[trigger] s@[i])) ==> r@ == s@,
{
    urlencoding::encode(s).into_owned()
}

/// The address that all lookups share; the encoded query follows it.
pub open spec fn endpoint() -> Seq<char> {
    "https://api.dictionaryapi.dev/api/v2/entries/en/"@
}

/// The address of the lookup of `query`: the endpoint, then the query
/// percent-encoded as one path segment.
pub fn lookup_url(query: &str) -> (r: String)
    ensures
        r@ == endpoint() + url_encoded(query@),
{
    let mut url = String::from_str("https://api.dictionaryapi.dev/api/v2/entries/en/");
    let encoded = percent_encode(query);
    url.append(encoded.as_str());
    url
}

/// A lookup that failed, in transport or while decoding the reply.
#[derive(Debug, PartialEq, Eq)]
pub struct LookupError {
    pub cause: String,
}

impl LookupError {
    pub fn new(cause: String) -> (r: LookupError)
        ensures
            r.cause@ == cause@,
    {
        LookupError { cause }
    }
}

} // verus!
