//! URLs, replies and greetings of the HTTP API.

use attacca::api::Api;
use attacca::transport::{into_result, Transport, DEFAULT_BASE};

fn api(base: &str) -> Api {
    Api { key: String::new(), base: base.into() }
}

fn transport(base: &str) -> Transport {
    Transport { key: String::new(), base: base.into() }
}

#[test]
fn api_test_url_api_v1_base() {
    let api = api("https://attacca.cc/api/v1");
    assert_eq!(api.url("me"), "https://attacca.cc/api/v1/me");
    assert_eq!(api.url("sessions"), "https://attacca.cc/api/v1/sessions");
}

#[test]
fn api_test_url_plain_base() {
    let api = api("https://attacca.cc");
    assert_eq!(api.url("v1/me"), "https://attacca.cc/v1/me");
    assert_eq!(api.url("v1/sessions"), "https://attacca.cc/v1/sessions");
}

#[test]
fn api_test_url_strips_double_v1() {
    let api = api("https://attacca.cc/api/v1");
    assert_eq!(api.url("/v1/me"), "https://attacca.cc/api/v1/me");
    assert_eq!(api.url("/v1/sessions"), "https://attacca.cc/api/v1/sessions");
}

#[test]
fn api_test_url_strips_v1_short() {
    let api = api("https://attacca.cc/v1");
    assert_eq!(api.url("/v1/me"), "https://attacca.cc/v1/me");
    assert_eq!(api.url("/v1/sessions"), "https://attacca.cc/v1/sessions");
}

#[test]
fn transport_test_url_api_v1_base() {
    let t = transport("https://attacca.cc/api/v1");
    assert_eq!(t.url("me"), "https://attacca.cc/api/v1/me");
    assert_eq!(t.url("sessions"), "https://attacca.cc/api/v1/sessions");
}

#[test]
fn transport_test_url_plain_base() {
    let t = transport("https://attacca.cc");
    assert_eq!(t.url("v1/me"), "https://attacca.cc/v1/me");
    assert_eq!(t.url("v1/sessions"), "https://attacca.cc/v1/sessions");
}

#[test]
fn transport_test_url_strips_double_v1() {
    let t = transport("https://attacca.cc/api/v1");
    assert_eq!(t.url("/v1/me"), "https://attacca.cc/api/v1/me");
    assert_eq!(t.url("/v1/sessions"), "https://attacca.cc/api/v1/sessions");
}

#[test]
fn transport_test_url_strips_v1_short() {
    let t = transport("https://attacca.cc/v1");
    assert_eq!(t.url("/v1/me"), "https://attacca.cc/v1/me");
    assert_eq!(t.url("/v1/sessions"), "https://attacca.cc/v1/sessions");
}

#[test]
fn slashes_between_base_and_path_do_not_pile_up() {
    assert_eq!(transport("https://attacca.cc/api/v1///").url("//v1/me"), "https://attacca.cc/api/v1/me");
    assert_eq!(transport("https://attacca.cc/").url("me"), "https://attacca.cc/me");
}

#[test]
fn the_environment_configures_the_key_and_the_base() {
    let t = Transport::from_env(None, None);
    assert_eq!(t.key, "");
    assert_eq!(t.base, DEFAULT_BASE);
    assert_eq!(t.base, "https://attacca.cc/api/v1");
    let a = Api::from_env(Some("k".into()), Some("http://x".into()));
    assert_eq!(a.authorization(), "Bearer k");
    assert_eq!(a.url("me"), "http://x/me");
    let t = Transport::from_env(Some("k2".into()), Some("http://y".into()));
    assert_eq!(t.authorization(), "Bearer k2");
    assert_eq!(t.url("me"), "http://y/me");
}

#[test]
fn a_reply_is_a_body_on_success_only() {
    assert_eq!(into_result(Ok((200, "b".into()))), Ok("b".to_string()));
    assert_eq!(Transport::post(Ok((202, "b".into()))), Ok("b".to_string()));
    assert_eq!(Transport::get(Ok((299, "b".into()))), Ok("b".to_string()));
    assert_eq!(into_result(Ok((300, "b".into()))), Err((300, "b".to_string())));
    assert_eq!(into_result(Ok((101, "b".into()))), Err((101, "b".to_string())));
    assert_eq!(into_result(Ok((500, "".into()))), Err((500, "".to_string())));
    assert_eq!(into_result(Err("refused".into())), Err((0, "refused".to_string())));
    assert_eq!(Api::get(Ok((299, "b".into()))), Ok("b".to_string()));
    assert_eq!(Api::post(Ok((404, "b".into()))), Err((404, "b".to_string())));
    assert_eq!(Api::post(Err("refused".into())), Err((0, "refused".to_string())));
}

#[test]
fn whoami_greets_the_account_or_says_what_went_wrong() {
    assert_eq!(Api::whoami(&Ok(r#"{"display_name":"Ada"}"#.to_string())), "✓ Ada");
    assert_eq!(Api::whoami(&Ok(r#"{"display_name":7}"#.to_string())), "✓ ?");
    assert_eq!(Api::whoami(&Ok("[]".to_string())), "✓ ?");
    assert_eq!(Api::whoami(&Ok("not json".to_string())), "✓ ok");
    assert_eq!(Api::whoami(&Err((401, "no key".to_string()))), "✖ HTTP 401: no key");
    let long = "x".repeat(100);
    assert_eq!(Api::whoami(&Err((0, long))), format!("✖ HTTP 0: {}", "x".repeat(60)));
}
