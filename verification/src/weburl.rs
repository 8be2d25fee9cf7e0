//! URLs as the browser handles them: parsed by the `url` crate and kept as
//! their serialization and scheme.
use vstd::prelude::*;

verus! {

/// What `url::Url::parse` makes of `input`: the serialization and the
/// scheme of the URL, or `None` where it fails.
pub uninterp spec fn url_parse(input: Seq<char>) -> Option<(Seq<char>, Seq<char>)>;

/// What `url::Url::parse_with_params(input, &[(key, value)])` makes: the
/// serialization and scheme of `input` parsed, with the pair appended to
/// its query in `application/x-www-form-urlencoded` form; `None` where
/// `input` does not parse.
pub uninterp spec fn url_parse_with_param(input: Seq<char>, key: Seq<char>, value: Seq<char>) -> Option<
    (Seq<char>, Seq<char>),
>;

/// Parses with `url::Url::parse` and hands back `as_str()` and `scheme()`.
/// The contract names the result and says nothing of it.
#[verifier::external_body]
fn parse_parts(input: &str) -> (r: Option<(String, String)>)
    ensures
        match r {
            Some((href, scheme)) => url_parse(input@) == Some((href@, scheme@)),
            None => url_parse(input@) is None,
        },
{
    match url::Url::parse(input) {
        Ok(u) => Some((u.as_str().to_string(), u.scheme().to_string())),
        Err(_) => None,
    }
}

/// Parses with `url::Url::parse_with_params` and one query pair, and hands
/// back `as_str()` and `scheme()`. The contract names the result and says
/// nothing of it.
#[verifier::external_body]
fn parse_parts_with_param(input: &str, key: &str, value: &str) -> (r: Option<(String, String)>)
    ensures
        match r {
            Some((href, scheme)) => url_parse_with_param(input@, key@, value@) == Some(
                (href@, scheme@),
            ),
            None => url_parse_with_param(input@, key@, value@) is None,
        },
{
    match url::Url::parse_with_params(input, &[(key, value)]) {
        Ok(u) => Some((u.as_str().to_string(), u.scheme().to_string())),
        Err(_) => None,
    }
}

/// An absolute URL: its serialization and its scheme.
#[derive(Debug)]
pub struct WebUrl {
    href: String,
    scheme: String,
}

impl WebUrl {
    /// The serialization.
    pub closed spec fn spec_href(&self) -> Seq<char> {
        self.href@
    }

    /// The scheme, lowercase, without its `:`.
    pub closed spec fn spec_scheme(&self) -> Seq<char> {
        self.scheme@
    }

    /// The URL as a pair of serialization and scheme.
    pub open spec fn parts(&self) -> (Seq<char>, Seq<char>) {
        (self.spec_href(), self.spec_scheme())
    }

    /// Parses an absolute URL.
    pub fn parse(input: &str) -> (r: Option<WebUrl>)
        ensures
            match r {
                Some(u) => url_parse(input@) == Some(u.parts()),
                None => url_parse(input@) is None,
            },
    {
        match parse_parts(input) {
            Some((href, scheme)) => Some(WebUrl { href, scheme }),
            None => None,
        }
    }

    /// Parses an absolute URL and appends `key=value` to its query.
    pub fn parse_with_param(input: &str, key: &str, value: &str) -> (r: Option<WebUrl>)
        ensures
            match r {
                Some(u) => url_parse_with_param(input@, key@, value@) == Some(u.parts()),
                None => url_parse_with_param(input@, key@, value@) is None,
            },
    {
        match parse_parts_with_param(input, key, value) {
            Some((href, scheme)) => Some(WebUrl { href, scheme }),
            None => None,
        }
    }

    /// The serialization.
    pub fn as_str(&self) -> (s: &str)
        ensures
            s@ == self.spec_href(),
    {
        self.href.as_str()
    }

    /// The scheme.
    pub fn scheme(&self) -> (s: &str)
        ensures
            s@ == self.spec_scheme(),
    {
        self.scheme.as_str()
    }

    /// A copy of this URL.
    pub fn duplicate(&self) -> (u: WebUrl)
        ensures
            u.parts() == self.parts(),
    {
        WebUrl { href: self.href.clone(), scheme: self.scheme.clone() }
    }
}

} // verus!
