//! The four ways a stub can name the URLs it answers, and what the URL
//! library makes of a reference.

use vstd::prelude::*;
use vstd::string::{StrSliceExecFns, StringExecFns};

use crate::fields::Pairs;
use crate::pattern::{is_match, is_well_formed, matches_within, well_formed};
use crate::text::{contains, copy_pairs, same, text_contains};

verus! {

/// The error of the URL library. It is carried from the call to where the
/// library's own error takes its place, and nothing is read off it.
#[verifier::external_type_specification]
#[verifier::external_body]
pub struct ExParseError(http_types::url::ParseError);

/// The parts of a URL that matching looks at.
pub struct Located {
    /// The path, percent-encoded.
    pub path: String,
    /// The query as it stands behind `?`, where there is one.
    pub query: Option<String>,
    /// The query's parameters, decoded, in order.
    pub pairs: Vec<(String, String)>,
}

/// The parts of a URL as contracts see it.
pub struct LocatedView {
    pub path: Seq<char>,
    pub query: Option<Seq<char>>,
    pub pairs: Pairs,
}

impl View for Located {
    type V = LocatedView;

    open spec fn view(&self) -> LocatedView {
        LocatedView {
            path: self.path@,
            query: self.query.deep_view(),
            pairs: self.pairs.deep_view(),
        }
    }
}

/// What joining `reference` onto the URL `base` gives: `None` where `base`
/// is no URL or the join fails, else the parts of the joined URL.
pub uninterp spec fn url_joined(base: Seq<char>, reference: Seq<char>) -> Option<LocatedView>;

/// Calls `Url::parse` on `base` and `Url::join` with `reference`, then reads
/// `Url::path`, `Url::query` and `Url::query_pairs` off the result. The
/// contract names the outcome `url_joined`; how the URL library resolves,
/// normalises and decodes is not proved here.
#[verifier::external_body]
fn join(base: &str, reference: &str) -> (located: Result<Located, http_types::url::ParseError>)
    ensures
        located matches Ok(parts) ==> url_joined(base@, reference@) == Some(parts@),
        located is Err ==> url_joined(base@, reference@) is None,
{
    let url = http_types::Url::parse(base)?.join(reference)?;
    Ok(Located {
        path: url.path().to_owned(),
        query: url.query().map(|raw| raw.to_owned()),
        pairs: url.query_pairs().map(|(key, value)| (key.into_owned(), value.into_owned())).collect(),
    })
}

/// What the URL library makes of `text` read as a URL by itself: `None`
/// where it is none, else the host it names, if it names one.
pub uninterp spec fn url_host(text: Seq<char>) -> Option<Option<Seq<char>>>;

/// Calls `Url::parse` on `text` and reads `Url::host_str` off the result.
/// The contract names the outcome `url_host`.
#[verifier::external_body]
fn host_of(text: &str) -> (found: Option<Option<String>>)
    ensures
        found.deep_view() == url_host(text@),
{
    http_types::Url::parse(text).ok().map(|url| url.host_str().map(|host| host.to_owned()))
}

/// The URL that references are joined onto.
pub open spec fn base_url() -> Seq<char> {
    "http://localhost/"@
}

/// The parts of `reference` once joined onto the base URL.
pub open spec fn located(reference: Seq<char>) -> Option<LocatedView> {
    url_joined(base_url(), reference)
}

/// Why a reference gave no URL.
#[derive(Debug, Clone, Copy, PartialEq, Eq, Structural)]
pub enum UrlError {
    /// The URL library refused the reference.
    Malformed,
}

/// Keeps the parts that were found and replaces the URL library's error by
/// the library's own.
pub fn parts_or_error(outcome: Result<Located, http_types::url::ParseError>) -> (parts: Result<
    Located,
    UrlError,
>)
    ensures
        outcome matches Ok(found) ==> parts == Ok::<Located, UrlError>(found),
        outcome is Err ==> parts == Err::<Located, UrlError>(UrlError::Malformed),
{
    match outcome {
        Ok(found) => Ok(found),
        Err(_) => Err(UrlError::Malformed),
    }
}

/// Joins `reference` onto the base URL and takes the result apart.
pub fn locate(reference: &str) -> (parts: Result<Located, UrlError>)
    ensures
        match located(reference@) {
            Some(found) => parts matches Ok(made) && made@ == found,
            None => parts == Err::<Located, UrlError>(UrlError::Malformed),
        },
{
    parts_or_error(join("http://localhost/", reference))
}

/// The URL rules of a stub. Any of the four may be set.
#[derive(Debug, Default)]
pub struct HttpUrl {
    /// Exact match on the path only.
    pub url_path: Option<String>,
    /// Regular expression on the path only.
    pub url_path_pattern: Option<String>,
    /// Exact match on path and query.
    pub url: Option<String>,
    /// Regular expression on path and query.
    pub url_pattern: Option<String>,
}

/// The URL rules of a stub as contracts see them.
pub struct HttpUrlView {
    pub url_path: Option<Seq<char>>,
    pub url_path_pattern: Option<Seq<char>>,
    pub url: Option<Seq<char>>,
    pub url_pattern: Option<Seq<char>>,
}

impl View for HttpUrl {
    type V = HttpUrlView;

    open spec fn view(&self) -> HttpUrlView {
        HttpUrlView {
            url_path: self.url_path.deep_view(),
            url_path_pattern: self.url_path_pattern.deep_view(),
            url: self.url.deep_view(),
            url_pattern: self.url_pattern.deep_view(),
        }
    }
}

impl HttpUrlView {
    /// The one rule that stands for the URL when a concrete URL is asked
    /// for, with whether it is a pattern. The order is fixed: `url`, then
    /// `url_path`, then `url_pattern`, then `url_path_pattern`.
    pub open spec fn selected(self) -> Option<(Seq<char>, bool)> {
        if let Some(text) = self.url {
            Some((text, false))
        } else if let Some(text) = self.url_path {
            Some((text, false))
        } else if let Some(pattern) = self.url_pattern {
            Some((pattern, true))
        } else if let Some(pattern) = self.url_path_pattern {
            Some((pattern, true))
        } else {
            None
        }
    }

    /// No URL rule is set.
    pub open spec fn is_unset(self) -> bool {
        self.url is None && self.url_path is None && self.url_pattern is None
            && self.url_path_pattern is None
    }

    /// Some URL rule can be used: an exact URL, a `url_path` that is a
    /// path, or a pattern that is a regular expression.
    pub open spec fn has_usable_rule(self) -> bool {
        ||| self.url is Some
        ||| self.url_path matches Some(path) && usable_path(path) is Some
        ||| usable_pattern(self.url_pattern) is Some
        ||| usable_pattern(self.url_path_pattern) is Some
    }
}

/// The rule that stands for the URL is the first one set in the order
/// `url`, `url_path`, `url_pattern`, `url_path_pattern`: each one is chosen
/// exactly when those before it are not set, whatever those after it hold,
/// and none is chosen only where none is set.
pub proof fn lemma_url_precedence(rules: HttpUrlView)
    ensures
        rules.url matches Some(text) ==> rules.selected() == Some((text, false)),
        rules.url is None ==> (rules.url_path matches Some(text) ==> rules.selected() == Some(
            (text, false),
        )),
        rules.url is None && rules.url_path is None ==> (rules.url_pattern matches Some(pattern)
            ==> rules.selected() == Some((pattern, true))),
        rules.url is None && rules.url_path is None && rules.url_pattern is None ==> (
        rules.url_path_pattern matches Some(pattern) ==> rules.selected() == Some(
            (pattern, true),
        )),
        rules.selected() is None <==> rules.is_unset(),
{
}

/// A path with the leading `/` it has to have.
pub open spec fn rooted(path: Seq<char>) -> Seq<char> {
    if path.len() > 0 && path[0] == '/' {
        path
    } else {
        seq!['/'] + path
    }
}

/// Puts `/` before a path that does not start with it.
pub fn root(path: &str) -> (full: String)
    ensures
        full@ == rooted(path@),
{
    if !path.is_empty() && path.get_char(0) == '/' {
        path.to_owned()
    } else {
        proof {
            reveal_strlit("/");
        }
        String::from_str("/").concat(path)
    }
}

/// The equality of the request's path with a path.
pub struct PathExactMatcher(pub String);

/// A regular expression that some part of the request's path has to match.
pub struct PathRegexMatcher(pub String);

/// Why a URL rule gave no matcher.
#[derive(Debug, Clone, Copy, PartialEq, Eq, Structural)]
pub enum UrlMatcherError {
    /// The stub sets no `url_path`.
    NoUrlPath,
    /// The stub sets no `url_path_pattern`.
    NoUrlPathPattern,
    /// The `url_path` holds a `?` or names a host: it is no path.
    NotAPath,
    /// The `url_path_pattern` is no regular expression.
    MalformedPattern,
}

/// `path` starts with `/`.
pub open spec fn starts_at_root(path: Seq<char>) -> bool {
    path.len() > 0 && path[0] == '/'
}

/// `text`, read as a URL by itself, names a host.
pub open spec fn names_host(text: Seq<char>) -> bool {
    url_host(text) matches Some(Some(_))
}

/// The path that a declared `url_path` stands for, `None` where it is no
/// path. A text with a `?` is none: what stands behind `?` is the query. A
/// text that starts with `/` is a path as it stands. Any other text is a
/// path once `/` is put before it, unless it is a URL that names a host.
pub open spec fn usable_path(path: Seq<char>) -> Option<Seq<char>> {
    if text_contains(path, "?"@) {
        None
    } else if starts_at_root(path) {
        Some(path)
    } else if names_host(path) {
        None
    } else {
        Some(rooted(path))
    }
}

/// A declared pattern can be used where it is a regular expression.
pub open spec fn usable_pattern(pattern: Option<Seq<char>>) -> Option<Seq<char>> {
    match pattern {
        Some(text) => if well_formed(text) {
            Some(text)
        } else {
            None
        },
        None => None,
    }
}

impl PathExactMatcher {
    /// The matcher for a `url_path` that holds no `?` and does not start
    /// with `/`, given what the URL library found in it.
    pub fn from_relative(path: &str, found: &Option<Option<String>>) -> (made: Result<
        PathExactMatcher,
        UrlMatcherError,
    >)
        ensures
            match found {
                Some(Some(_)) => made matches Err(reason) && reason == UrlMatcherError::NotAPath,
                _ => made matches Ok(matcher) && matcher.0@ == rooted(path@),
            },
    {
        match found {
            Some(Some(_)) => Err(UrlMatcherError::NotAPath),
            _ => Ok(PathExactMatcher(root(path))),
        }
    }

    /// The matcher for a declared `url_path`.
    pub fn for_path(path: &str) -> (made: Result<PathExactMatcher, UrlMatcherError>)
        ensures
            match usable_path(path@) {
                Some(full) => made matches Ok(matcher) && matcher.0@ == full,
                None => made matches Err(reason) && reason == UrlMatcherError::NotAPath,
            },
    {
        if contains(path, "?") {
            Err(UrlMatcherError::NotAPath)
        } else if !path.is_empty() && path.get_char(0) == '/' {
            Ok(PathExactMatcher(path.to_owned()))
        } else {
            PathExactMatcher::from_relative(path, &host_of(path))
        }
    }

    /// The matcher for the stub's `url_path`. A `url_path` that is no path
    /// gives no matcher.
    pub fn try_from(http_url: &HttpUrl) -> (made: Result<PathExactMatcher, UrlMatcherError>)
        ensures
            match http_url@.url_path {
                Some(path) => match usable_path(path) {
                    Some(full) => made matches Ok(matcher) && matcher.0@ == full,
                    None => made matches Err(reason) && reason == UrlMatcherError::NotAPath,
                },
                None => made matches Err(reason) && reason == UrlMatcherError::NoUrlPath,
            },
    {
        match &http_url.url_path {
            Some(path) => PathExactMatcher::for_path(path.as_str()),
            None => Err(UrlMatcherError::NoUrlPath),
        }
    }

    /// Tells whether `path` is the matcher's path.
    pub fn matches(&self, path: &str) -> (verdict: bool)
        ensures
            verdict == (path@ == self.0@),
    {
        same(path, self.0.as_str())
    }
}

impl PathRegexMatcher {
    /// The matcher for the stub's `url_path_pattern`. A pattern that is no
    /// regular expression gives no matcher.
    pub fn try_from(http_url: &HttpUrl) -> (made: Result<PathRegexMatcher, UrlMatcherError>)
        ensures
            match http_url@.url_path_pattern {
                Some(pattern) => if well_formed(pattern) {
                    made matches Ok(matcher) && matcher.0@ == pattern
                } else {
                    made matches Err(reason) && reason == UrlMatcherError::MalformedPattern
                },
                None => made matches Err(reason) && reason == UrlMatcherError::NoUrlPathPattern,
            },
    {
        match &http_url.url_path_pattern {
            Some(pattern) => {
                if is_well_formed(pattern.as_str()) {
                    Ok(PathRegexMatcher(pattern.clone()))
                } else {
                    Err(UrlMatcherError::MalformedPattern)
                }
            },
            None => Err(UrlMatcherError::NoUrlPathPattern),
        }
    }

    /// Tells whether some part of `path` matches the pattern.
    pub fn matches(&self, path: &str) -> (verdict: bool)
        ensures
            verdict == matches_within(self.0@, path@),
    {
        is_match(self.0.as_str(), path)
    }
}

/// A concrete URL: a path and the query parameters that go with it.
pub struct ResolvedUrl {
    pub path: String,
    pub queries: Vec<(String, String)>,
}

/// A concrete URL as contracts see it.
pub struct ResolvedUrlView {
    pub path: Seq<char>,
    pub queries: Pairs,
}

impl View for ResolvedUrl {
    type V = ResolvedUrlView;

    open spec fn view(&self) -> ResolvedUrlView {
        ResolvedUrlView { path: self.path@, queries: self.queries.deep_view() }
    }
}

/// The URL that `reference` resolves to with the parameters `extra` added
/// behind those it carries itself.
pub open spec fn resolved(reference: Seq<char>, extra: Pairs) -> Option<ResolvedUrlView> {
    match located(reference) {
        Some(found) => Some(ResolvedUrlView { path: found.path, queries: found.pairs + extra }),
        None => None,
    }
}

impl ResolvedUrl {
    /// The URL made of the parts that were found, with `extra` added behind
    /// the parameters found.
    pub fn from_parts(parts: Result<Located, UrlError>, extra: &Vec<(String, String)>) -> (made:
        Result<ResolvedUrl, UrlError>)
        ensures
            match parts {
                Ok(found) => made matches Ok(url) && url@ == (ResolvedUrlView {
                    path: found@.path,
                    queries: found@.pairs + extra.deep_view(),
                }),
                Err(reason) => made == Err::<ResolvedUrl, UrlError>(reason),
            },
    {
        match parts {
            Ok(found) => {
                let mut queries = found.pairs;
                let ghost carried = queries.deep_view();
                let mut added = copy_pairs(extra);
                queries.append(&mut added);
                assert(queries.deep_view() =~= carried + extra.deep_view());
                Ok(ResolvedUrl { path: found.path, queries })
            },
            Err(reason) => Err(reason),
        }
    }

    /// Resolves `reference` against the base URL and adds `extra` to its
    /// query parameters.
    pub fn resolve(reference: &str, extra: &Vec<(String, String)>) -> (made: Result<
        ResolvedUrl,
        UrlError,
    >)
        ensures
            match resolved(reference@, extra.deep_view()) {
                Some(url) => made matches Ok(found) && found@ == url,
                None => made == Err::<ResolvedUrl, UrlError>(UrlError::Malformed),
            },
    {
        ResolvedUrl::from_parts(locate(reference), extra)
    }

    /// The path of the URL.
    pub fn path(&self) -> (path: &str)
        ensures
            path@ == self@.path,
    {
        self.path.as_str()
    }

    /// The query parameters of the URL, in order.
    pub fn query_pairs(&self) -> (pairs: &Vec<(String, String)>)
        ensures
            pairs.deep_view() == self@.queries,
    {
        &self.queries
    }
}

} // verus!
