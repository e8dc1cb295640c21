//! The pieces of an absolute URL that the pipeline reads, and the calls into
//! the `url` crate that compute them.

use vstd::prelude::*;

verus! {

/// What parsing an absolute URL string yields, reduced to the three pieces the
/// pipeline reads: the full canonical serialization, the serialization with
/// the query component removed, and the raw query string, if one is present.
pub struct UrlParts {
    pub full: String,
    pub without_query: String,
    pub query: Option<String>,
}

impl UrlParts {
    /// The mathematical content of the three pieces.
    pub open spec fn model(self) -> (Seq<char>, Seq<char>, Option<Seq<char>>) {
        (
            self.full@,
            self.without_query@,
            match self.query {
                Some(q) => Some(q@),
                None => None,
            },
        )
    }
}

/// What `url::Url::parse` makes of a string: `None` when the string does not
/// parse as an absolute URL, and otherwise the full serialization, the
/// serialization without the query component, and the query string, if any.
pub uninterp spec fn url_parse_of(s: Seq<char>) -> Option<(Seq<char>, Seq<char>, Option<Seq<char>>)>;

/// What resolving a (possibly relative) reference against a base URL string
/// yields: the serialization of the joined URL, or `None` when the base does
/// not parse or the reference cannot be resolved against it.
pub uninterp spec fn url_resolve_of(base: Seq<char>, reference: Seq<char>) -> Option<Seq<char>>;

/// The ordered, percent-decoded key/value pairs that the
/// `application/x-www-form-urlencoded` reading of a query string yields.
pub uninterp spec fn query_pairs_of(query: Seq<char>) -> Seq<(Seq<char>, Seq<char>)>;

/// Relies on `url::Url::parse`, `Url::query` and `Url::set_query`: the parsed
/// form of a URL string, and each of its components, depend on that string
/// alone, and the display form of a `Url` is its serialization.
#[verifier::external_body]
pub(crate) fn parse_url_parts(s: &str) -> (r: Option<UrlParts>)
    ensures
        match r {
            Some(p) => url_parse_of(s@) == Some(p.model()),
            None => url_parse_of(s@) is None,
        },
{
    match url::Url::parse(s) {
        Ok(mut u) => {
            let full = u.to_string();
            let query = u.query().map(|q| q.to_string());
            u.set_query(None);
            Some(UrlParts { full, without_query: u.to_string(), query })
        },
        Err(_) => None,
    }
}

/// Relies on `url::Url::parse` and `url::Url::join`: the resolution of a
/// reference against a base URL depends on the two strings alone.
#[verifier::external_body]
pub(crate) fn resolve_url(base: &str, reference: &str) -> (r: Option<String>)
    ensures
        match r {
            Some(u) => url_resolve_of(base@, reference@) == Some(u@),
            None => url_resolve_of(base@, reference@) is None,
        },
{
    match url::Url::parse(base) {
        Ok(b) => match b.join(reference) {
            Ok(u) => Some(u.to_string()),
            Err(_) => None,
        },
        Err(_) => None,
    }
}

/// Relies on `url::form_urlencoded::parse`: the decoded key/value pairs
/// depend on the query string alone.
#[verifier::external_body]
pub(crate) fn parse_query_pairs(query: &str) -> (r: Vec<(String, String)>)
    ensures
        r@.len() == query_pairs_of(query@).len(),
        forall|i: int|
            0 <= i < r@.len() ==> (#[trigger] r@[i]).0@ == query_pairs_of(query@)[i].0 && r@[i].1@
                == query_pairs_of(query@)[i].1,
{
    url::form_urlencoded::parse(query.as_bytes()).into_owned().collect()
}

} // verus!
