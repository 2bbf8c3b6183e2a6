//! Addresses and replies of the HTTP API.
//!
//! Where a request goes, what it is authorized with and what its reply comes to. Sending it is the
//! surrounding program's work.

use crate::text;
use crate::tools;
use vstd::prelude::*;

verus! {

/// HTTP access to the Attacca API: a bearer key and a configurable base URL.
pub struct Transport {
    pub key: String,
    pub base: String,
}

/// A reply's body, or its status code and body. A request that got no reply has the status 0.
pub type HttpResult = Result<String, (u16, String)>;

/// The base URL where none is configured.
pub const DEFAULT_BASE: &'static str = "https://attacca.cc/api/v1";

/// The full URL of a path below a base, with the `v1` of the path dropped where the base ends in
/// one.
pub open spec fn full_url(base: Seq<char>, path: Seq<char>) -> Seq<char> {
    let b = tools::without_slashes(base);
    let p = tools::after_slashes(path);
    if text::finishes_with(b, "/v1"@) && text::begins_with(p, "v1/"@) {
        b + "/"@ + p.skip(3)
    } else {
        b + "/"@ + p
    }
}

/// What an environment variable configures: its value, or the default.
pub open spec fn set_or(value: Option<Seq<char>>, default: Seq<char>) -> Seq<char> {
    match value {
        Some(v) => v,
        None => default,
    }
}

/// What a reply comes to: its body on success (2xx).
pub open spec fn settled(reply: Result<(u16, Seq<char>), Seq<char>>) -> Result<
    Seq<char>,
    (u16, Seq<char>),
> {
    match reply {
        Ok((status, body)) => if 200 <= status < 300 {
            Ok(body)
        } else {
            Err((status, body))
        },
        Err(e) => Err((0, e)),
    }
}

/// A reply in the abstract.
pub open spec fn reply_view(reply: Result<(u16, String), String>) -> Result<
    (u16, Seq<char>),
    Seq<char>,
> {
    match reply {
        Ok((status, body)) => Ok((status, body@)),
        Err(e) => Err(e@),
    }
}

/// A result in the abstract.
pub open spec fn result_view(r: HttpResult) -> Result<Seq<char>, (u16, Seq<char>)> {
    match r {
        Ok(body) => Ok(body@),
        Err((status, body)) => Err((status, body@)),
    }
}

/// The full URL of a path below a base.
pub fn url_of(base: &str, path: &str) -> (r: String)
    ensures
        r@ == full_url(base@, path@),
{
    let b = tools::trim_end_slashes(base);
    let p = tools::trim_start_slashes(path);
    if text::ends_with(b.as_str(), "/v1") && text::starts_with(p.as_str(), "v1/") {
        proof {
            reveal_strlit("v1/");
        }
        let n: usize = p.as_str().unicode_len();
        let rest = p.as_str().substring_char(3, n);
        assert(rest@ =~= p@.skip(3));
        text::cat3(b.as_str(), "/", rest)
    } else {
        text::cat3(b.as_str(), "/", p.as_str())
    }
}

/// What a reply comes to: its body on success (2xx), its status and body on error, and status 0
/// where there was none.
pub fn into_result(reply: Result<(u16, String), String>) -> (r: HttpResult)
    ensures
        result_view(r) == settled(reply_view(reply)),
{
    match reply {
        Ok((status, body)) => {
            if 200 <= status && status < 300 {
                Ok(body)
            } else {
                Err((status, body))
            }
        },
        Err(e) => Err((0, e)),
    }
}

impl Transport {
    /// Access as two environment variables configure it, each given where it is set: the key, which
    /// defaults to an empty one that every request fails on, and the base URL.
    pub fn from_env(key: Option<String>, url: Option<String>) -> (t: Transport)
        ensures
            t.key@ == set_or(text::opt_view(key), Seq::empty()),
            t.base@ == set_or(text::opt_view(url), DEFAULT_BASE@),
    {
        let key = match key {
            Some(k) => k,
            None => String::new(),
        };
        let base = match url {
            Some(u) => u,
            None => DEFAULT_BASE.to_owned(),
        };
        Transport { key, base }
    }

    /// Build a full URL from a path, handling `/v1` prefix deduplication.
    pub fn url(&self, path: &str) -> (r: String)
        ensures
            r@ == full_url(self.base@, path@),
    {
        url_of(self.base.as_str(), path)
    }

    /// What the reply to a GET comes to.
    pub fn get(reply: Result<(u16, String), String>) -> (r: HttpResult)
        ensures
            result_view(r) == settled(reply_view(reply)),
    {
        into_result(reply)
    }

    /// What the reply to a POST comes to.
    pub fn post(reply: Result<(u16, String), String>) -> (r: HttpResult)
        ensures
            result_view(r) == settled(reply_view(reply)),
    {
        into_result(reply)
    }

    /// The value of the authorization header.
    pub fn authorization(&self) -> (r: String)
        ensures
            r@ == "Bearer "@ + self.key@,
    {
        text::cat("Bearer ", self.key.as_str())
    }
}

/// However many slashes stand between them, a base that ends in `v1` and a path that starts with
/// it give a URL with one `v1`.
pub proof fn law_one_version_in_a_url(base: Seq<char>, rest: Seq<char>)
    requires
        text::finishes_with(tools::without_slashes(base), "/v1"@),
    ensures
        full_url(base, "/v1/"@ + rest) == tools::without_slashes(base) + "/"@ + rest,
        full_url(base, "v1/"@ + rest) == full_url(base, "/v1/"@ + rest),
{
    reveal_strlit("/v1/");
    reveal_strlit("v1/");
    let p = "v1/"@ + rest;
    let q = "/v1/"@ + rest;
    assert(p[0] == 'v');
    assert(q.skip(1) =~= p);
    assert(tools::after_slashes(p) == p);
    assert(tools::after_slashes(q) == tools::after_slashes(q.skip(1)));
    assert(p.take(3) =~= "v1/"@);
    assert(p.skip(3) =~= rest);
}

} // verus!
