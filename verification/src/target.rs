//! The parts of a URL that a GET request is made from.

use crate::error::Error;
use crate::error::ErrorView;
use crate::text::copy_text;
use crate::text::same_text;
use vstd::prelude::*;
use vstd::string::StringExecFns;

verus! {

/// An absolute URL, taken apart. The fragment is not kept: it never goes
/// over the wire.
#[derive(Debug, PartialEq, Eq)]
pub struct Target {
    /// The scheme, without its colon.
    pub scheme: String,
    /// The user name, empty when the URL has none.
    pub username: String,
    /// The password, if the URL has one.
    pub password: Option<String>,
    /// The host as written in the URL, if it has one.
    pub host: Option<String>,
    /// The port, if the URL names one.
    pub port: Option<u16>,
    /// The path.
    pub path: String,
    /// The query, without its question mark, if the URL has one.
    pub query: Option<String>,
}

/// A [`Target`] with its strings as sequences of characters.
pub ghost struct TargetView {
    pub scheme: Seq<char>,
    pub username: Seq<char>,
    pub password: Option<Seq<char>>,
    pub host: Option<Seq<char>>,
    pub port: Option<u16>,
    pub path: Seq<char>,
    pub query: Option<Seq<char>>,
}

impl View for Target {
    type V = TargetView;

    open spec fn view(&self) -> TargetView {
        TargetView {
            scheme: self.scheme@,
            username: self.username@,
            password: self.password.deep_view(),
            host: self.host.deep_view(),
            port: self.port,
            path: self.path@,
            query: self.query.deep_view(),
        }
    }
}

/// Where to connect, and as whom.
#[derive(Debug, PartialEq, Eq)]
pub struct Endpoint {
    /// The host to connect to.
    pub host: String,
    /// The port to connect to.
    pub port: u16,
    /// The user name to present, if any.
    pub username: Option<String>,
    /// The password to present, if any.
    pub password: Option<String>,
}

/// An [`Endpoint`] with its strings as sequences of characters.
pub ghost struct EndpointView {
    pub host: Seq<char>,
    pub port: u16,
    pub username: Option<Seq<char>>,
    pub password: Option<Seq<char>>,
}

impl View for Endpoint {
    type V = EndpointView;

    open spec fn view(&self) -> EndpointView {
        EndpointView {
            host: self.host@,
            port: self.port,
            username: self.username.deep_view(),
            password: self.password.deep_view(),
        }
    }
}

/// What `url::Url::parse` makes of `input`: the parts of the URL, or the
/// parser's error.
pub uninterp spec fn url_parts(input: Seq<char>) -> Result<TargetView, url::ParseError>;

/// Calls `url::Url::parse` and reads the result's `scheme`, `username`,
/// `password`, `host_str`, `port`, `path` and `query`. Trusted: the parts
/// and the error are those that the parser gives for this input, which
/// depend on nothing else.
#[verifier::external_body]
fn parse_url(input: &str) -> (r: Result<Target, url::ParseError>)
    ensures
        match r {
            Ok(target) => url_parts(input@) == Ok::<TargetView, url::ParseError>(target@),
            Err(e) => url_parts(input@) == Err::<TargetView, url::ParseError>(e),
        },
{
    let url = url::Url::parse(input)?;
    Ok(Target {
        scheme: url.scheme().to_owned(),
        username: url.username().to_owned(),
        password: url.password().map(str::to_owned),
        host: url.host_str().map(str::to_owned),
        port: url.port(),
        path: url.path().to_owned(),
        query: url.query().map(str::to_owned),
    })
}

impl TargetView {
    /// Whether the scheme is one of the two hypertext schemes.
    pub open spec fn is_hypertext(self) -> bool {
        self.scheme == "http"@ || self.scheme == "https"@
    }

    /// Whether the scheme asks for an encrypted transport.
    pub open spec fn is_secure(self) -> bool {
        self.scheme == "https"@
    }

    /// The port that the scheme stands for when the URL names none.
    pub open spec fn default_port(self) -> u16 {
        if self.is_secure() {
            443
        } else {
            80
        }
    }

    /// Where a request for this URL connects: `None` unless the scheme is
    /// hypertext and the URL has a host.
    pub open spec fn endpoint(self) -> Option<EndpointView> {
        if self.is_hypertext() && self.host is Some {
            Some(
                EndpointView {
                    host: self.host->0,
                    port: match self.port {
                        Some(port) => port,
                        None => self.default_port(),
                    },
                    username: if self.username.len() == 0 {
                        None
                    } else {
                        Some(self.username)
                    },
                    password: self.password,
                },
            )
        } else {
            None
        }
    }

    /// What the request line asks for: the path, then `?` and the query if
    /// there is one.
    pub open spec fn object_name(self) -> Seq<char> {
        match self.query {
            Some(query) => self.path + seq!['?'] + query,
            None => self.path,
        }
    }
}

impl Target {
    /// Takes `url` apart.
    ///
    /// Fails with [`Error::Url`] exactly when the URL parser does.
    pub fn parse(url: &str) -> (r: Result<Target, Error>)
        ensures
            match r {
                Ok(target) => url_parts(url@) == Ok::<TargetView, url::ParseError>(target@),
                Err(e) => url_parts(url@) is Err && e@ == ErrorView::Url(url_parts(url@)->Err_0),
            },
    {
        match parse_url(url) {
            Ok(target) => Ok(target),
            Err(e) => Err(Error::Url(e)),
        }
    }

    /// Whether the scheme asks for an encrypted transport.
    pub fn is_secure(&self) -> (r: bool)
        ensures
            r == self@.is_secure(),
    {
        same_text(self.scheme.as_str(), "https")
    }

    /// Where a request for this URL connects.
    ///
    /// The port is the URL's own, or 80 for `http` and 443 for `https`; an
    /// empty user name counts as none. Fails with [`Error::Scheme`], holding
    /// the scheme, unless the scheme is `http` or `https` and there is a host.
    pub fn endpoint(&self) -> (r: Result<Endpoint, Error>)
        ensures
            match r {
                Ok(endpoint) => self@.endpoint() == Some(endpoint@),
                Err(e) => self@.endpoint() is None && e@ == ErrorView::Scheme(self@.scheme),
            },
    {
        let secure: bool = self.is_secure();
        let hypertext: bool = secure || same_text(self.scheme.as_str(), "http");
        match &self.host {
            Some(host) if hypertext => {
                let port: u16 = match self.port {
                    Some(port) => port,
                    None => if secure {
                        443
                    } else {
                        80
                    },
                };
                let username: Option<String> = if self.username.as_str().is_empty() {
                    None
                } else {
                    Some(self.username.clone())
                };
                Ok(Endpoint { host: host.clone(), port, username, password: copy_text(&self.password) })
            },
            _ => Err(Error::Scheme(self.scheme.clone())),
        }
    }

    /// What the request line asks for: the path, then `?` and the query if
    /// there is one.
    pub fn object_name(&self) -> (r: String)
        ensures
            r@ == self@.object_name(),
    {
        let mut name: String = self.path.clone();
        match &self.query {
            Some(query) => {
                proof {
                    reveal_strlit("?");
                }
                name.append("?");
                name.append(query.as_str());
                assert(name@ =~= self@.path + seq!['?'] + query@);
            },
            None => {},
        }
        name
    }
}

} // verus!
