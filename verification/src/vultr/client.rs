//! Requests as values that can be inspected before they are sent, and the
//! client that holds the API key, the base URL and the HTTP client.

use vstd::prelude::*;
use crate::error::UpdaterError;
use crate::text::{push_str, string_from, trim_end_char};
use super::models::{FirewallRuleReq, FirewallRuleReqView};

verus! {

/// The HTTP methods the firewall API is called with.
#[derive(Clone, Copy, Debug, PartialEq, Eq, Structural)]
pub enum Method {
    Get,
    Post,
    Delete,
}

/// The method's name as it goes on the wire.
pub open spec fn method_text(m: Method) -> Seq<char> {
    match m {
        Method::Get => "GET"@,
        Method::Post => "POST"@,
        Method::Delete => "DELETE"@,
    }
}

impl Method {
    /// The method's name as it goes on the wire (`GET`, `POST`, `DELETE`).
    pub fn as_str(&self) -> (s: &'static str)
        ensures
            s@ == method_text(*self),
    {
        match self {
            Method::Get => "GET",
            Method::Post => "POST",
            Method::Delete => "DELETE",
        }
    }
}

/// A fully-described Vultr API call: method, path, and (optionally) the
/// rule to send as its JSON body. Building one of these never touches the
/// network — it exists so a caller can inspect or print exactly what would
/// be sent before sending it.
#[derive(Debug)]
pub struct ApiRequest {
    pub method: Method,
    pub path: String,
    pub body: Option<FirewallRuleReq>,
}

/// The contents of an [`ApiRequest`].
pub struct ApiRequestView {
    pub method: Method,
    pub path: Seq<char>,
    pub body: Option<FirewallRuleReqView>,
}

impl View for ApiRequest {
    type V = ApiRequestView;

    open spec fn view(&self) -> ApiRequestView {
        ApiRequestView {
            method: self.method,
            path: self.path@,
            body: match self.body {
                Some(b) => Some(b@),
                None => None,
            },
        }
    }
}

impl DeepView for ApiRequest {
    type V = ApiRequestView;

    open spec fn deep_view(&self) -> ApiRequestView {
        self@
    }
}

impl Clone for ApiRequest {
    fn clone(&self) -> (r: Self)
        ensures
            r@ == self@,
    {
        let body = match &self.body {
            Some(b) => Some(b.clone()),
            None => None,
        };
        ApiRequest { method: self.method, path: self.path.clone(), body }
    }
}

/// The `curl` command that performs a request to `url`, in the style of
/// Vultr's API documentation; `data` is the rendered JSON body, if any.
pub open spec fn curl_text(url: Seq<char>, method: Seq<char>, data: Option<Seq<char>>) -> Seq<char> {
    let head = "curl \""@ + url + "\" \\\n  -X "@ + method
        + " \\\n  -H \"Authorization: Bearer $VULTR_API_KEY\""@;
    match data {
        Some(d) => head + " \\\n  -H \"Content-Type: application/json\""@ + " \\\n  --data '"@ + d
            + "'"@,
        None => head,
    }
}

impl ApiRequest {
    pub(crate) fn get(path: String) -> (r: Self)
        ensures
            r@ == (ApiRequestView { method: Method::Get, path: path@, body: None }),
    {
        ApiRequest { method: Method::Get, path, body: None }
    }

    pub(crate) fn post(path: String, body: FirewallRuleReq) -> (r: Self)
        ensures
            r@ == (ApiRequestView { method: Method::Post, path: path@, body: Some(body@) }),
    {
        ApiRequest { method: Method::Post, path, body: Some(body) }
    }

    pub(crate) fn delete(path: String) -> (r: Self)
        ensures
            r@ == (ApiRequestView { method: Method::Delete, path: path@, body: None }),
    {
        ApiRequest { method: Method::Delete, path, body: None }
    }

    /// The full URL this request would be sent to, given an API base URL.
    pub fn url(&self, base_url: &str) -> (u: String)
        ensures
            u@ == base_url@ + self.path@,
    {
        let mut u = string_from(base_url);
        push_str(&mut u, self.path.as_str());
        u
    }

    /// Renders this request as an equivalent `curl` command, matching the
    /// style of Vultr's own API documentation. The API key is never
    /// embedded — it's referenced via `$VULTR_API_KEY` so the rendered
    /// command is safe to print or log. `rendered_body` is the body as
    /// pretty-printed JSON; it is used only when the request has a body.
    pub fn to_curl(&self, base_url: &str, rendered_body: &str) -> (c: String)
        ensures
            c@ == curl_text(
                base_url@ + self.path@,
                method_text(self.method),
                if self.body is Some {
                    Some(rendered_body@)
                } else {
                    None
                },
            ),
    {
        let mut c = string_from("curl \"");
        let url = self.url(base_url);
        push_str(&mut c, url.as_str());
        push_str(&mut c, "\" \\\n  -X ");
        push_str(&mut c, self.method.as_str());
        push_str(&mut c, " \\\n  -H \"Authorization: Bearer $VULTR_API_KEY\"");
        if self.body.is_some() {
            push_str(&mut c, " \\\n  -H \"Content-Type: application/json\"");
            push_str(&mut c, " \\\n  --data '");
            push_str(&mut c, rendered_body);
            push_str(&mut c, "'");
        }
        assert(c@ =~= curl_text(
            base_url@ + self.path@,
            method_text(self.method),
            if self.body is Some {
                Some(rendered_body@)
            } else {
                None
            },
        ));
        c
    }
}

/// Whether an HTTP status is a success (`2xx`), the only replies that the
/// client accepts; any other status becomes an `Api` error.
pub fn is_success_status(status: u16) -> (b: bool)
    ensures
        b == (200 <= status < 300),
{
    200 <= status && status < 300
}

/// `reqwest::blocking::Client::builder()`: a builder with reqwest's
/// defaults.
#[verifier::external_body]
fn client_builder() -> reqwest::blocking::ClientBuilder {
    reqwest::blocking::Client::builder()
}

/// `ClientBuilder::timeout`: sets the timeout, in whole seconds, for
/// connecting, reading and writing.
#[verifier::external_body]
fn builder_timeout(
    builder: reqwest::blocking::ClientBuilder,
    seconds: u64,
) -> reqwest::blocking::ClientBuilder {
    builder.timeout(std::time::Duration::from_secs(seconds))
}

/// `ClientBuilder::build`. Whether it succeeds depends on the machine (the
/// TLS backend and the resolver configuration), so nothing is claimed of
/// the outcome. reqwest documents a panic when this is called from within
/// an async runtime; the library never runs one.
#[verifier::external_body]
fn build_client(builder: reqwest::blocking::ClientBuilder) -> Result<
    reqwest::blocking::Client,
    reqwest::Error,
> {
    builder.build()
}

/// A thin client for the Vultr firewall API: the API key, the base URL
/// (without trailing slashes) and the HTTP client that sends requests.
pub struct VultrClient {
    api_key: String,
    base_url: String,
    http: reqwest::blocking::Client,
}

/// The credentials and address that a [`VultrClient`] holds.
pub struct VultrClientView {
    pub api_key: Seq<char>,
    pub base_url: Seq<char>,
}

impl View for VultrClient {
    type V = VultrClientView;

    closed spec fn view(&self) -> VultrClientView {
        VultrClientView { api_key: self.api_key@, base_url: self.base_url@ }
    }
}

/// The base URL of Vultr's public API.
pub open spec fn default_base_url() -> Seq<char> {
    "https://api.vultr.com"@
}

impl VultrClient {
    pub const DEFAULT_BASE_URL: &'static str = "https://api.vultr.com";

    /// A client for the public Vultr API. It fails only where building the
    /// HTTP client fails, with an `Http` error.
    pub fn new(api_key: String) -> (r: Result<Self, UpdaterError>)
        ensures
            r matches Ok(c) ==> c@ == (VultrClientView {
                api_key: api_key@,
                base_url: default_base_url(),
            }),
            r matches Err(e) ==> e is Http,
    {
        proof {
            reveal_strlit("https://api.vultr.com");
        }
        let r = Self::with_base_url(api_key, string_from(Self::DEFAULT_BASE_URL));
        proof {
            assert(trim_end_char(default_base_url(), '/') == default_base_url());
        }
        r
    }

    /// A client for the API at `base_url`, with any trailing `/` removed so
    /// that request paths can be appended. It fails only where building the
    /// HTTP client (15 s timeout) fails, with an `Http` error.
    pub fn with_base_url(api_key: String, base_url: String) -> (r: Result<Self, UpdaterError>)
        ensures
            r matches Ok(c) ==> c@ == (VultrClientView {
                api_key: api_key@,
                base_url: trim_end_char(base_url@, '/'),
            }),
            r matches Err(e) ==> e is Http,
    {
        let builder = builder_timeout(client_builder(), 15);
        Self::from_built_client(api_key, base_url, build_client(builder))
    }

    /// The client that `with_base_url` makes from the outcome of building
    /// the HTTP client: a failed build becomes an `Http` error; otherwise
    /// the client holds the key and the base URL without trailing `/`.
    pub fn from_built_client(
        api_key: String,
        base_url: String,
        built: Result<reqwest::blocking::Client, reqwest::Error>,
    ) -> (r: Result<Self, UpdaterError>)
        ensures
            built is Ok <==> r is Ok,
            r matches Ok(c) ==> c@ == (VultrClientView {
                api_key: api_key@,
                base_url: trim_end_char(base_url@, '/'),
            }),
            built matches Ok(h) ==> r matches Ok(c) && c.http_client() == h,
            built matches Err(e) ==> r matches Err(UpdaterError::Http(e2)) && e2 == e,
    {
        match built {
            Ok(http) => {
                let trimmed = crate::text::trim_end_matches(base_url.as_str(), '/');
                Ok(VultrClient { api_key, base_url: trimmed, http })
            },
            Err(e) => Err(UpdaterError::Http(e)),
        }
    }

    /// The base URL requests are sent to.
    pub fn base_url(&self) -> (s: &str)
        ensures
            s@ == self@.base_url,
    {
        self.base_url.as_str()
    }

    /// The API key, sent as a bearer token.
    pub fn api_key(&self) -> (s: &str)
        ensures
            s@ == self@.api_key,
    {
        self.api_key.as_str()
    }

    /// The HTTP client that the client was made with.
    pub closed spec fn http_client(&self) -> reqwest::blocking::Client {
        self.http
    }

    /// The HTTP client requests are sent with: the one the client was made
    /// with.
    pub fn http(&self) -> (h: &reqwest::blocking::Client)
        ensures
            *h == self.http_client(),
    {
        &self.http
    }
}

} // verus!
