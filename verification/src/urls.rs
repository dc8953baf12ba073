//! URLs as the `url` crate parses them (WHATWG URL Standard). The parsed
//! value is handed out as its plain components.
use vstd::prelude::*;

verus! {

#[verifier::external_type_specification]
#[verifier::external_body]
pub struct ExUrlParseError(url::ParseError);

#[verifier::external_type_specification]
#[verifier::external_body]
pub struct ExUrl(url::Url);

/// The components of a parsed URL.
#[derive(Debug, Clone)]
pub struct UrlParts {
    pub scheme: String,
    pub username: String,
    pub password: Option<String>,
    /// `Url::host_str`.
    pub host: Option<String>,
    /// `Url::port_or_known_default`.
    pub port: Option<u16>,
    pub path: String,
    pub query: Option<String>,
    pub fragment: Option<String>,
    /// `Url::path_segments`, `None` for cannot-be-a-base URLs.
    pub segments: Option<Vec<String>>,
    /// The serialisation, `Url::as_str`.
    pub serialized: String,
}

pub struct UrlView {
    pub scheme: Seq<char>,
    pub username: Seq<char>,
    pub password: Option<Seq<char>>,
    pub host: Option<Seq<char>>,
    pub port: Option<u16>,
    pub path: Seq<char>,
    pub query: Option<Seq<char>>,
    pub fragment: Option<Seq<char>>,
    pub segments: Option<Seq<Seq<char>>>,
    pub serialized: Seq<char>,
}

pub open spec fn ov(o: Option<String>) -> Option<Seq<char>> {
    match o {
        Some(s) => Some(s@),
        None => None,
    }
}

impl View for UrlParts {
    type V = UrlView;

    open spec fn view(&self) -> UrlView {
        UrlView {
            scheme: self.scheme@,
            username: self.username@,
            password: ov(self.password),
            host: ov(self.host),
            port: self.port,
            path: self.path@,
            query: ov(self.query),
            fragment: ov(self.fragment),
            segments: match self.segments {
                Some(v) => Some(v@.map_values(|s: String| s@)),
                None => None,
            },
            serialized: self.serialized@,
        }
    }
}

/// What `Url::parse` makes of a text: `None` where it reports an error.
pub uninterp spec fn url_parse_spec(input: Seq<char>) -> Option<UrlView>;

/// What `Url::join` makes of a relative reference against a base URL (given
/// by its serialisation): `None` where it reports an error.
pub uninterp spec fn url_join_spec(base: Seq<char>, input: Seq<char>) -> Option<UrlView>;

/// Converts a parsed `url::Url` into its components, one accessor per field;
/// the callers' contracts say what the components are.
#[verifier::external_body]
fn parts_of(url: url::Url) -> UrlParts {
    UrlParts {
        scheme: url.scheme().to_string(),
        username: url.username().to_string(),
        password: url.password().map(|p| p.to_string()),
        host: url.host_str().map(|h| h.to_string()),
        port: url.port_or_known_default(),
        path: url.path().to_string(),
        query: url.query().map(|q| q.to_string()),
        fragment: url.fragment().map(|f| f.to_string()),
        segments: url.path_segments().map(|s| s.map(|p| p.to_string()).collect()),
        serialized: url.as_str().to_string(),
    }
}

/// Calls `Url::parse` and hands out the parsed URL's components. Claimed:
/// the outcome depends on the input text only.
#[verifier::external_body]
pub(crate) fn parse(input: &str) -> (res: Result<UrlParts, url::ParseError>)
    ensures
        res.is_ok() == url_parse_spec(input@).is_some(),
        res matches Ok(u) ==> u@ == url_parse_spec(input@).unwrap(),
{
    url::Url::parse(input).map(parts_of)
}

/// Calls `Url::join` on the URL whose serialisation is `base` (re-read with
/// `Url::parse`, which gives back the same URL) and hands out the
/// components. Claimed: the outcome depends on the two texts only.
#[verifier::external_body]
pub(crate) fn join(base: &UrlParts, input: &str) -> (res: Result<UrlParts, url::ParseError>)
    ensures
        res.is_ok() == url_join_spec(base.serialized@, input@).is_some(),
        res matches Ok(u) ==> u@ == url_join_spec(base.serialized@, input@).unwrap(),
{
    url::Url::parse(&base.serialized).and_then(|url| url.join(input)).map(parts_of)
}

} // verus!
