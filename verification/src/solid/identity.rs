//! WebID profiles and the URLs they point to.
use crate::text::owned;
use vstd::prelude::*;

verus! {

/// A URL as the library reads it: its serialization and its domain.
#[derive(Debug, Clone)]
pub struct ParsedUrl {
    /// The serialization, as `Url::as_str` gives it.
    pub text: String,
    /// The domain, when the host is one.
    pub domain: Option<String>,
}

impl View for ParsedUrl {
    type V = (Seq<char>, Option<Seq<char>>);

    open spec fn view(&self) -> (Seq<char>, Option<Seq<char>>) {
        (
            self.text@,
            match self.domain {
                Some(d) => Some(d@),
                None => None,
            },
        )
    }
}

/// What `url::Url::parse` makes of `s`: `None` when it does not parse,
/// otherwise the serialization and the domain of the parsed URL.
pub uninterp spec fn url_parse(s: Seq<char>) -> Option<(Seq<char>, Option<Seq<char>>)>;

/// Parses `s` with `url::Url::parse` and reads `as_str()` and `domain()` of the
/// result. Both are a function of `s` alone.
#[verifier::external_body]
pub(crate) fn parse_url(s: &str) -> (r: Option<ParsedUrl>)
    ensures
        match r {
            Some(u) => url_parse(s@) == Some(u@),
            None => url_parse(s@) is None,
        },
{
    match url::Url::parse(s) {
        Ok(u) => Some(ParsedUrl { text: u.as_str().to_string(), domain: u.domain().map(|d| d.to_string()) }),
        Err(_) => None,
    }
}

/// Why a profile cannot give the URL asked of it.
#[derive(Debug, Clone, Copy, PartialEq, Eq, Structural)]
pub enum ProfileError {
    /// The profile names no OIDC issuer.
    MissingOidcIssuer,
    /// The OIDC issuer is not a valid URL.
    InvalidOidcIssuer,
    /// The profile names no storage location.
    MissingStorage,
    /// The storage location is not a valid URL.
    InvalidStorage,
}

impl ProfileError {
    /// The message of the error.
    pub fn message(&self) -> (s: String)
        ensures
            s@ == self.message_text(),
    {
        match self {
            ProfileError::MissingOidcIssuer => owned("WebID profile does not specify an OIDC issuer"),
            ProfileError::InvalidOidcIssuer => owned("Invalid OIDC issuer URL"),
            ProfileError::MissingStorage => owned("WebID profile does not specify a storage location"),
            ProfileError::InvalidStorage => owned("Invalid storage URL"),
        }
    }

    /// The text `message` returns.
    pub open spec fn message_text(&self) -> Seq<char> {
        match self {
            ProfileError::MissingOidcIssuer => "WebID profile does not specify an OIDC issuer"@,
            ProfileError::InvalidOidcIssuer => "Invalid OIDC issuer URL"@,
            ProfileError::MissingStorage => "WebID profile does not specify a storage location"@,
            ProfileError::InvalidStorage => "Invalid storage URL"@,
        }
    }
}

/// WebID profile information.
#[derive(Debug, Clone)]
pub struct WebIdProfile {
    /// The WebID IRI.
    pub webid: String,
    /// The user's name.
    pub name: Option<String>,
    /// OIDC issuer IRI.
    pub oidc_issuer: Option<String>,
    /// Storage location (Pod IRI).
    pub storage: Option<String>,
    /// Inbox location.
    pub inbox: Option<String>,
}

/// The text of an optional string.
pub open spec fn opt_text(o: Option<String>) -> Option<Seq<char>> {
    match o {
        Some(s) => Some(s@),
        None => None,
    }
}

/// The URL named by an optional profile entry: `missing` when there is none,
/// `invalid` when it does not parse.
pub open spec fn required_url(
    entry: Option<Seq<char>>,
    missing: ProfileError,
    invalid: ProfileError,
) -> Result<(Seq<char>, Option<Seq<char>>), ProfileError> {
    match entry {
        None => Err(missing),
        Some(s) => match url_parse(s) {
            Some(u) => Ok(u),
            None => Err(invalid),
        },
    }
}

/// The view of a parse outcome.
pub open spec fn url_result(r: Result<ParsedUrl, ProfileError>) -> Result<
    (Seq<char>, Option<Seq<char>>),
    ProfileError,
> {
    match r {
        Ok(u) => Ok(u@),
        Err(e) => Err(e),
    }
}

fn require_url(entry: &Option<String>, missing: ProfileError, invalid: ProfileError) -> (r: Result<
    ParsedUrl,
    ProfileError,
>)
    ensures
        url_result(r) == required_url(opt_text(*entry), missing, invalid),
{
    match entry {
        None => Err(missing),
        Some(s) => match parse_url(s.as_str()) {
            Some(u) => Ok(u),
            None => Err(invalid),
        },
    }
}

impl WebIdProfile {
    /// The OIDC issuer as a URL; an error when the profile names none or it does
    /// not parse.
    pub fn require_oidc_issuer(&self) -> (r: Result<ParsedUrl, ProfileError>)
        ensures
            url_result(r) == required_url(
                opt_text(self.oidc_issuer),
                ProfileError::MissingOidcIssuer,
                ProfileError::InvalidOidcIssuer,
            ),
    {
        require_url(&self.oidc_issuer, ProfileError::MissingOidcIssuer, ProfileError::InvalidOidcIssuer)
    }

    /// The storage location (Pod IRI) as a URL; an error when the profile names
    /// none or it does not parse.
    pub fn require_storage(&self) -> (r: Result<ParsedUrl, ProfileError>)
        ensures
            url_result(r) == required_url(
                opt_text(self.storage),
                ProfileError::MissingStorage,
                ProfileError::InvalidStorage,
            ),
    {
        require_url(&self.storage, ProfileError::MissingStorage, ProfileError::InvalidStorage)
    }
}

} // verus!
