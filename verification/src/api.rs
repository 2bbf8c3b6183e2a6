//! The HTTP API's client side: the same addresses and replies, and a greeting.

use crate::json;
use crate::json::{Json, Tree};
use crate::text;
use crate::transport;
use vstd::prelude::*;

verus! {

/// HTTP access to the Attacca API.
pub struct Api {
    pub key: String,
    pub base: String,
}

/// A reply's body, or its status code and body.
pub type ApiResult = Result<String, (u16, String)>;

/// What a reply comes to: its body below status 300, its status and body from there on, and status
/// 0 where there was none.
pub open spec fn settled(reply: Result<(u16, Seq<char>), Seq<char>>) -> Result<
    Seq<char>,
    (u16, Seq<char>),
> {
    match reply {
        Ok((status, body)) => if status < 300 {
            Ok(body)
        } else {
            Err((status, body))
        },
        Err(e) => Err((0, e)),
    }
}

/// The greeting for an account: its name, or that it is there.
pub open spec fn greeted(account: Option<Tree>) -> Seq<char> {
    match account {
        Some(t) => match t.text_at("display_name"@) {
            Some(name) => "✓ "@ + name,
            None => "✓ "@ + "?"@,
        },
        None => "✓ ok"@,
    }
}

/// The greeting for a reply to a request for the account.
pub open spec fn greeting(reply: Result<Seq<char>, (u16, Seq<char>)>) -> Seq<char> {
    match reply {
        Ok(body) => greeted(json::read_json(body)),
        Err((status, body)) => "✖ HTTP "@ + text::decimal(status as nat) + ": "@ + text::prefix(
            body,
            60,
        ),
    }
}

fn settle(reply: Result<(u16, String), String>) -> (r: ApiResult)
    ensures
        transport::result_view(r) == settled(transport::reply_view(reply)),
{
    match reply {
        Ok((status, body)) => {
            if status < 300 {
                Ok(body)
            } else {
                Err((status, body))
            }
        },
        Err(e) => Err((0, e)),
    }
}

/// The greeting for an account.
pub fn greet(account: &Option<Json>) -> (s: String)
    ensures
        s@ == greeted(
            match account {
                Some(j) => Some(j@),
                None => None,
            },
        ),
{
    match account {
        Some(j) => match j.get_text("display_name") {
            Some(name) => text::cat("✓ ", name.as_str()),
            None => text::cat("✓ ", "?"),
        },
        None => "✓ ok".to_owned(),
    }
}

impl Api {
    /// Access as two environment variables configure it, each given where it is set.
    pub fn from_env(key: Option<String>, url: Option<String>) -> (a: Api)
        ensures
            a.key@ == transport::set_or(text::opt_view(key), Seq::empty()),
            a.base@ == transport::set_or(text::opt_view(url), transport::DEFAULT_BASE@),
    {
        let t = transport::Transport::from_env(key, url);
        Api { key: t.key, base: t.base }
    }

    /// Build a full URL from a path, handling `/v1` prefix deduplication.
    pub fn url(&self, path: &str) -> (r: String)
        ensures
            r@ == transport::full_url(self.base@, path@),
    {
        transport::url_of(self.base.as_str(), path)
    }

    /// The value of the authorization header.
    pub fn authorization(&self) -> (r: String)
        ensures
            r@ == "Bearer "@ + self.key@,
    {
        text::cat("Bearer ", self.key.as_str())
    }

    /// What the reply to a GET comes to.
    pub fn get(reply: Result<(u16, String), String>) -> (r: ApiResult)
        ensures
            transport::result_view(r) == settled(transport::reply_view(reply)),
    {
        settle(reply)
    }

    /// What the reply to a POST comes to.
    pub fn post(reply: Result<(u16, String), String>) -> (r: ApiResult)
        ensures
            transport::result_view(r) == settled(transport::reply_view(reply)),
    {
        settle(reply)
    }

    /// Who the key belongs to, from the reply to a request for the account.
    pub fn whoami(reply: &ApiResult) -> (s: String)
        ensures
            s@ == greeting(transport::result_view(*reply)),
    {
        match reply {
            Ok(body) => {
                let account = Json::parse(body.as_str());
                greet(&account)
            },
            Err((status, body)) => {
                let code = text::show_u64(*status as u64);
                let head = text::first_chars(body.as_str(), 60);
                text::cat4("✖ HTTP ", code.as_str(), ": ", head.as_str())
            },
        }
    }
}

} // verus!
