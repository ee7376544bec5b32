//! URLs as the client reads them: the parts that the `url` crate's parser
//! yields, the request scheme, and the path with its query.
use vstd::prelude::*;
use vstd::string::{StrSliceExecFns, StringExecFns};

verus! {

/// A parsed URL, held as the texts of its parts.
#[derive(Debug, Clone)]
pub struct UrlParts {
    /// The whole URL, serialized.
    pub serialization: String,
    pub scheme: String,
    /// User information, host and port, as written after `//`.
    pub authority: String,
    pub host: Option<String>,
    pub path: String,
    pub query: Option<String>,
    /// The URL from the start of the path on: path, query and fragment.
    pub from_path: String,
}

/// The texts of a URL's parts, in the order of the fields of [`UrlParts`].
pub type UrlView = (Seq<char>, Seq<char>, Seq<char>, Option<Seq<char>>, Seq<char>, Option<Seq<char>>, Seq<char>);

pub open spec fn opt_text(s: Option<String>) -> Option<Seq<char>> {
    match s {
        Some(t) => Some(t@),
        None => None,
    }
}

impl UrlParts {
    pub open spec fn view_parts(&self) -> UrlView {
        (
            self.serialization@,
            self.scheme@,
            self.authority@,
            opt_text(self.host),
            self.path@,
            opt_text(self.query),
            self.from_path@,
        )
    }
}

pub open spec fn url_result_view(r: Result<UrlParts, String>) -> Result<UrlView, Seq<char>> {
    match r {
        Ok(u) => Ok(u.view_parts()),
        Err(e) => Err(e@),
    }
}

/// What `url::Url::parse` gives for a text: the parts of the URL, or the
/// text of the parse error.
pub uninterp spec fn parsed_url(input: Seq<char>) -> Result<UrlView, Seq<char>>;

/// `url::Url::parse`, with the parsed URL read out through its accessors
/// (`as_str`, `scheme`, `authority`, `host_str`, `path`, `query` and the text
/// from `Position::BeforePath` on) and the error turned into its message.
#[verifier::external_body]
pub fn parse_url(input: &str) -> (r: Result<UrlParts, String>)
    ensures
        url_result_view(r) == parsed_url(input@),
{
    match url::Url::parse(input) {
        Ok(u) => Ok(UrlParts {
            serialization: u.as_str().to_owned(),
            scheme: u.scheme().to_owned(),
            authority: u.authority().to_owned(),
            host: u.host_str().map(|h| h.to_owned()),
            path: u.path().to_owned(),
            query: u.query().map(|q| q.to_owned()),
            from_path: u[url::Position::BeforePath..].to_owned(),
        }),
        Err(e) => Err(e.to_string()),
    }
}

/// The scheme of an outgoing request.
#[derive(Debug, Clone)]
pub enum Scheme {
    Http,
    Https,
    Other(String),
}

pub open spec fn http_text() -> Seq<char> {
    seq!['h', 't', 't', 'p']
}

pub open spec fn https_text() -> Seq<char> {
    seq!['h', 't', 't', 'p', 's']
}

/// The request scheme agrees with the URL scheme `s`.
pub open spec fn scheme_matches(r: Scheme, s: Seq<char>) -> bool {
    match r {
        Scheme::Http => s == http_text(),
        Scheme::Https => s == https_text(),
        Scheme::Other(t) => t@ == s && s != http_text() && s != https_text(),
    }
}

/// Whether the text `a` is exactly the characters `b`.
fn text_equals(a: &str, b: &str) -> (r: bool)
    ensures
        r == (a@ == b@),
{
    let n: usize = a.unicode_len();
    let m: usize = b.unicode_len();
    if n != m {
        return false;
    }
    for i in 0..n
        invariant
            n == a@.len(),
            m == b@.len(),
            n == m,
            forall|j: int| 0 <= j < i ==> a@[j] == b@[j],
    {
        if a.get_char(i) != b.get_char(i) {
            return false;
        }
    }
    assert(a@ =~= b@);
    true
}

/// `http` and `https` map to their own schemes; any other scheme is carried
/// by its name.
pub fn scheme_of(scheme: &str) -> (r: Scheme)
    ensures
        scheme_matches(r, scheme@),
{
    let http = "http";
    let https = "https";
    proof {
        reveal_strlit("http");
        reveal_strlit("https");
        assert(http@ =~= http_text());
        assert(https@ =~= https_text());
    }
    if text_equals(scheme, http) {
        Scheme::Http
    } else if text_equals(scheme, https) {
        Scheme::Https
    } else {
        Scheme::Other(scheme.to_owned())
    }
}

/// The path followed, where there is a query, by `?` and the query.
pub open spec fn path_with_query_spec(path: Seq<char>, query: Option<Seq<char>>) -> Seq<char> {
    match query {
        Some(q) => path + seq!['?'] + q,
        None => path,
    }
}

/// With a query, the path and query is the whole path, then `?`, then the
/// whole query, for every path; without one it is the path alone.
pub proof fn lemma_path_with_query_parts(path: Seq<char>, query: Option<Seq<char>>)
    ensures
        query is None ==> path_with_query_spec(path, query) == path,
        query matches Some(q) ==> {
            let r = path_with_query_spec(path, query);
            &&& r.len() == path.len() + 1 + q.len()
            &&& r.take(path.len() as int) == path
            &&& r[path.len() as int] == '?'
            &&& r.skip(path.len() as int + 1) == q
        },
{
    if let Some(q) = query {
        let r = path_with_query_spec(path, query);
        assert(r.take(path.len() as int) =~= path);
        assert(r.skip(path.len() as int + 1) =~= q);
    }
}

/// The path and query of a request as sent on the wire.
pub fn path_with_query(path: &str, query: Option<&str>) -> (r: String)
    ensures
        r@ == path_with_query_spec(path@, match query {
            Some(q) => Some(q@),
            None => None,
        }),
{
    let mut r = path.to_owned();
    match query {
        Some(q) => {
            let mark = "?";
            proof {
                reveal_strlit("?");
            }
            r.append(mark);
            r.append(q);
        },
        None => {},
    }
    r
}

} // verus!
