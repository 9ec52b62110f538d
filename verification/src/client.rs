//! The shared transport: one HTTP client configured once with the bearer
//! authorization, accept, and user-agent headers, shared read-only by every
//! resource service.

use vstd::prelude::*;
use crate::error::Error;

verus! {

broadcast use vstd::string::group_string_axioms;

pub const BASE_URL: &'static str = "https://api.vimeo.com/";

pub const USER_AGENT: &'static str = "vimeo-rs/0.1";

pub const MEDIA_TYPE_VERSION: &'static str = "application/vnd.vimeo.*+json;version=3.4";

#[verifier::external_type_specification]
#[verifier::external_body]
pub struct ExReqwestClient(reqwest::Client);

/// A character http's `HeaderValue` accepts.  Its check is per byte:
/// 32..=255 save 127, or tab.  An ASCII character is its own byte; a
/// character above ASCII becomes bytes of 128 and more, which always pass.
pub open spec fn is_header_char(c: char) -> bool {
    (c as u32 >= 32 && c as u32 != 127) || c == '\t'
}

pub open spec fn valid_header_value(s: Seq<char>) -> bool {
    forall|i: int| 0 <= i < s.len() ==> is_header_char(#[trigger] s[i])
}

/// Whether `s` can stand in a header, checked character by character.
pub fn header_value_ok(s: &str) -> (r: bool)
    ensures
        r == valid_header_value(s@),
{
    let n = s.unicode_len();
    let mut i: usize = 0;
    while i < n
        invariant
            i <= n,
            n == s@.len(),
            forall|k: int| 0 <= k < i ==> is_header_char(#[trigger] s@[k]),
        decreases n - i,
    {
        let c = s.get_char(i);
        if !((c as u32 >= 32 && c as u32 != 127) || c == '\t') {
            return false;
        }
        i = i + 1;
    }
    true
}

/// The header values the transport was built with: the model of the one
/// shared HTTP client's configuration.
pub struct TransportConfig {
    pub authorization: Seq<char>,
    pub accept: Seq<char>,
    pub user_agent: Seq<char>,
}

/// Relies on reqwest's `ClientBuilder`: `default_headers` installs the given
/// map on every request the built client sends, `user_agent` sets the
/// user-agent header the same way, and `build` fails only when the HTTP
/// backend cannot be brought up.  Relies on http's `HeaderValue::from_str`,
/// which accepts exactly the strings whose bytes are 32..=255 save 127, or
/// tab; the `requires` keeps both calls on that side, so neither `unwrap`
/// can panic.
#[verifier::external_body]
fn build_http_client(authorization: &str, accept: &str, user_agent: &str) -> (r: Result<
    reqwest::Client,
    Error,
>)
    requires
        valid_header_value(authorization@),
        valid_header_value(accept@),
    ensures
        r matches Err(e) ==> e == Error::ClientBuild,
{
    let mut headers = reqwest::header::HeaderMap::new();
    let auth = reqwest::header::HeaderValue::from_str(authorization).unwrap();
    headers.insert(reqwest::header::AUTHORIZATION, auth);
    let acc = reqwest::header::HeaderValue::from_str(accept).unwrap();
    headers.insert(reqwest::header::ACCEPT, acc);
    match reqwest::ClientBuilder::new().default_headers(headers).user_agent(user_agent).build() {
        Ok(c) => Ok(c),
        Err(_) => Err(Error::ClientBuild),
    }
}

/// Relies on reqwest's `Client::clone`: the client is a reference-counted
/// handle, so the clone is the same underlying client and configuration,
/// and costs one count.
#[verifier::external_body]
fn clone_http_client(c: &reqwest::Client) -> (r: reqwest::Client)
    ensures
        r == *c,
{
    c.clone()
}

/// The shared transport: a configured HTTP client and the fixed base URL.
/// Immutable once built; `share` hands the same client out again.
pub struct Transport {
    http_client: reqwest::Client,
    base_url: &'static str,
    config: Ghost<TransportConfig>,
}

impl Transport {
    /// The transport's model: what was installed on the underlying client.
    pub closed spec fn config_spec(&self) -> TransportConfig {
        self.config@
    }

    pub closed spec fn base_url_spec(&self) -> Seq<char> {
        self.base_url@
    }

    /// The underlying handle, for equality talk between shared copies.
    pub closed spec fn handle_spec(&self) -> reqwest::Client {
        self.http_client
    }

    /// The configuration this library always installs: the bearer header for
    /// the given token, the versioned accept media type, the fixed user
    /// agent, and the fixed base URL.
    pub open spec fn configured_for(&self, access_token: Seq<char>) -> bool {
        &&& self.config_spec().authorization == "Bearer "@ + access_token
        &&& self.config_spec().accept == MEDIA_TYPE_VERSION@
        &&& self.config_spec().user_agent == USER_AGENT@
        &&& self.base_url_spec() == BASE_URL@
    }

    /// Builds the one HTTP client, with `Bearer <token>` as authorization.
    /// The token is refused, before anything is built, exactly when one of
    /// its characters cannot stand in a header.
    pub fn new(access_token: &str) -> (r: Result<Transport, Error>)
        ensures
            !valid_header_value(access_token@) <==> r == Err::<Transport, Error>(
                Error::InvalidAccessToken,
            ),
            r matches Err(e) ==> e == Error::InvalidAccessToken || e == Error::ClientBuild,
            r matches Ok(c) ==> c.configured_for(access_token@),
    {
        if !header_value_ok(access_token) {
            return Err(Error::InvalidAccessToken);
        }
        let mut auth = String::new();
        auth.append("Bearer ");
        auth.append(access_token);
        proof {
            reveal_strlit("Bearer ");
            assert forall|i: int| 0 <= i < auth@.len() implies is_header_char(#[trigger] auth@[i])
            by {
                if i < 7 {
                    assert(auth@[i] == "Bearer "@[i]);
                } else {
                    assert(auth@[i] == access_token@[i - 7]);
                }
            }
        }
        if !header_value_ok(MEDIA_TYPE_VERSION) {
            return Err(Error::ClientBuild);
        }
        match build_http_client(auth.as_str(), MEDIA_TYPE_VERSION, USER_AGENT) {
            Err(e) => Err(e),
            Ok(http_client) => Ok(
                Transport {
                    http_client,
                    base_url: BASE_URL,
                    config: Ghost(
                        TransportConfig {
                            authorization: auth@,
                            accept: MEDIA_TYPE_VERSION@,
                            user_agent: USER_AGENT@,
                        },
                    ),
                },
            ),
        }
    }

    /// Another handle to the same transport: the same client, configuration
    /// and base URL; no header is built again.
    pub fn share(&self) -> (r: Transport)
        ensures
            r == *self,
    {
        Transport {
            http_client: clone_http_client(&self.http_client),
            base_url: self.base_url,
            config: Ghost(self.config@),
        }
    }

    /// The underlying HTTP client.
    pub fn http_client(&self) -> (r: &reqwest::Client)
        ensures
            *r == self.handle_spec(),
    {
        &self.http_client
    }

    /// The fixed base URL every request path is resolved against.
    pub fn base_url(&self) -> (r: &'static str)
        ensures
            r@ == self.base_url_spec(),
    {
        self.base_url
    }
}

} // verus!
