//! Uniform request construction, shared by every resource service: resolve a
//! relative path against the fixed base URL, attach the JSON body when one is
//! given, and hand back a request ready to send.

use vstd::prelude::*;
use crate::client::{Transport, BASE_URL};
use crate::error::Error;

verus! {

broadcast use vstd::string::group_string_axioms;

pub const CONTENT_TYPE_JSON: &'static str = "application/json";

#[verifier::external_type_specification]
#[verifier::external_body]
pub struct ExRequestBuilder(reqwest::RequestBuilder);

#[verifier::external_type_specification]
#[verifier::external_body]
pub struct ExUrl(url::Url);

/// Whether url's `Url::parse` accepts the string: a function of the string
/// alone.
pub uninterp spec fn url_parse_ok(s: Seq<char>) -> bool;

/// Relies on url's `Url::parse`: the same string parses, or not, on every
/// call.
#[verifier::external_body]
fn check_url(s: &str) -> (r: bool)
    ensures
        r == url_parse_ok(s@),
{
    url::Url::parse(s).is_ok()
}

/// An HTTP method, named as it stands in the request line.
#[derive(Debug, Clone, Copy, PartialEq, Eq, Structural)]
pub enum Method {
    Get,
    Post,
    Put,
    Patch,
    Delete,
}

impl Method {
    pub open spec fn name_spec(self) -> Seq<char> {
        match self {
            Method::Get => "GET"@,
            Method::Post => "POST"@,
            Method::Put => "PUT"@,
            Method::Patch => "PATCH"@,
            Method::Delete => "DELETE"@,
        }
    }

    pub fn name(&self) -> (r: &'static str)
        ensures
            r@ == self.name_spec(),
    {
        match self {
            Method::Get => "GET",
            Method::Post => "POST",
            Method::Put => "PUT",
            Method::Patch => "PATCH",
            Method::Delete => "DELETE",
        }
    }
}

pub open spec fn opt_str_view(o: Option<String>) -> Option<Seq<char>> {
    match o {
        Some(s) => Some(s@),
        None => None,
    }
}

/// A fully assembled request: the method, the absolute URL, and the JSON
/// body when one was attached.  Pure data; sending it is the caller's step.
pub struct ApiRequest {
    pub method: Method,
    pub url: String,
    pub body: Option<String>,
}

/// Resolves `rel_url` against the fixed base URL and attaches the JSON body
/// when present.  This logic exists once; every resource service calls it.
/// Fails exactly when the resolved string is not a URL.
pub fn build_request(method: Method, rel_url: &str, maybe_body: Option<String>) -> (r: Result<
    ApiRequest,
    Error,
>)
    ensures
        r matches Ok(req) ==> {
            &&& req.method == method
            &&& req.url@ == BASE_URL@ + rel_url@
            &&& opt_str_view(req.body) == opt_str_view(maybe_body)
            &&& url_parse_ok(req.url@)
        },
        r is Ok <==> url_parse_ok(BASE_URL@ + rel_url@),
        r matches Err(e) ==> e == Error::InvalidUrl,
{
    let mut url = String::new();
    url.append(BASE_URL);
    url.append(rel_url);
    if !check_url(url.as_str()) {
        return Err(Error::InvalidUrl);
    }
    Ok(ApiRequest { method, url, body: maybe_body })
}

/// The capability every resource service has: it holds a shared transport
/// handle, and builds its requests through the one shared builder.
pub trait Service: Sized {
    /// The transport this service sends through, as the model sees it.
    spec fn transport_spec(&self) -> Transport;

    /// The shared transport handle.
    fn client(&self) -> (r: &Transport)
        ensures
            *r == self.transport_spec(),
    ;

    /// The shared request builder, resolving against the base URL.
    fn request_builder(&self, method: Method, rel_url: &str, maybe_body: Option<String>) -> (r:
        Result<ApiRequest, Error>)
        ensures
            r matches Ok(req) ==> {
                &&& req.method == method
                &&& req.url@ == BASE_URL@ + rel_url@
                &&& opt_str_view(req.body) == opt_str_view(maybe_body)
                &&& url_parse_ok(req.url@)
            },
            r is Ok <==> url_parse_ok(BASE_URL@ + rel_url@),
            r matches Err(e) ==> e == Error::InvalidUrl,
    {
        build_request(method, rel_url, maybe_body)
    }
}

/// Relies on reqwest's `Method::from_bytes`, which accepts the standard
/// method tokens, and `Client::request`, which starts a builder for this
/// method and URL carrying the client's default headers.  The URL is known
/// to parse, so the builder holds no early error.
#[verifier::external_body]
fn reqwest_request(c: &reqwest::Client, method: &str, url: &str) -> (r: Result<
    reqwest::RequestBuilder,
    Error,
>)
    requires
        url_parse_ok(url@),
        method@ == "GET"@ || method@ == "POST"@ || method@ == "PUT"@ || method@ == "PATCH"@
            || method@ == "DELETE"@,
    ensures
        r is Ok,
{
    match reqwest::Method::from_bytes(method.as_bytes()) {
        Ok(m) => Ok(c.request(m, url)),
        Err(_) => Err(Error::Http),
    }
}

/// Relies on reqwest's `RequestBuilder::header` and `RequestBuilder::body`:
/// sets the content type header and the request body.
#[verifier::external_body]
fn attach_body(rb: reqwest::RequestBuilder, content_type: &str, body: String) -> (r:
    reqwest::RequestBuilder)
{
    rb.header(reqwest::header::CONTENT_TYPE, content_type).body(body)
}

impl Transport {
    /// The reqwest builder for an assembled request: this transport's default
    /// headers, the request's method and URL, and its body when present.
    pub fn reqwest_builder(&self, req: &ApiRequest) -> (r: Result<reqwest::RequestBuilder, Error>)
        requires
            url_parse_ok(req.url@),
        ensures
            r is Ok,
    {
        let rb = match reqwest_request(self.http_client(), req.method.name(), req.url.as_str()) {
            Ok(rb) => rb,
            Err(e) => {
                return Err(e);
            },
        };
        match &req.body {
            None => Ok(rb),
            Some(b) => Ok(attach_body(rb, CONTENT_TYPE_JSON, b.clone())),
        }
    }
}

} // verus!
