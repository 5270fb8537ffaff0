//! Access tokens: how long a cached token may be used, and how a new one is
//! asked for and read out of the provider's answer.

use crate::config::{AppConfig, AppConfigView};
use crate::request::{join3, pair, pair_views, Method, Request, RequestView};
use crate::text::optional_text;
use vstd::prelude::*;

verus! {

/// The value of the claim `claim` of the signed token `token`, where the
/// token can be decoded and states that claim as an integer from 0 to
/// `u64::MAX`; `None` for every other text. The signature is not looked at.
pub uninterp spec fn jwt_unsigned_claim(token: Seq<char>, claim: Seq<char>) -> Option<u64>;

/// Calls `jsonwebtoken::dangerous_insecure_decode` with `serde_json::Value`
/// as the type of the claims, and reads the member `claim` of the decoded
/// claims with `serde_json::Value::get` and `serde_json::Value::as_u64`.
///
/// Trusted: the result is a function of the two texts alone. Decoding splits
/// the token at its dots, decodes header and claims from base64 and parses
/// them as JSON; it verifies no signature and validates no claim, so
/// neither a key nor the time enters.
#[verifier::external_body]
fn decode_unsigned_claim(token: &str, claim: &str) -> (value: Option<u64>)
    ensures
        value == jwt_unsigned_claim(token@, claim@),
{
    match jsonwebtoken::dangerous_insecure_decode::<serde_json::Value>(token) {
        Ok(data) => data.claims.get(claim).and_then(serde_json::Value::as_u64),
        Err(_) => None,
    }
}

/// The text of the member `member` of the JSON object `document`, where
/// `document` is JSON, is an object and has that member as a string; `None`
/// for every other text.
pub uninterp spec fn json_text_member(document: Seq<char>, member: Seq<char>) -> Option<Seq<char>>;

/// Parses `document` with `serde_json::from_str` as a `serde_json::Value`
/// and reads the member `member` with `serde_json::Value::get`.
///
/// Trusted: the result is a function of the two texts alone, and it is
/// `Some` only with the string that stands under `member`.
#[verifier::external_body]
fn parse_text_member(document: &str, member: &str) -> (text: Option<String>)
    ensures
        optional_text(text) == json_text_member(document@, member@),
{
    match serde_json::from_str::<serde_json::Value>(document) {
        Ok(json) => match json.get(member) {
            Some(serde_json::Value::String(text)) => Some(text.clone()),
            _ => None,
        },
        Err(_) => None,
    }
}

/// The time, in seconds since the Unix epoch, at which `token` expires: its
/// claim `exp`. A text that cannot be decoded, or that states no such claim
/// as an unsigned integer, has no expiry.
pub open spec fn token_expiry(token: Seq<char>) -> Option<u64> {
    jwt_unsigned_claim(token, "exp"@)
}

/// A token may be used at the time `now` when it has an expiry and `now`
/// is strictly before it. A token without expiry may never be used.
pub open spec fn valid_at(expiry: Option<u64>, now: u64) -> bool {
    match expiry {
        Some(expires) => now < expires,
        None => false,
    }
}

/// Validity goes by the clock alone: a token that states an expiry is valid
/// exactly while the time is before it, and a token that states none is
/// valid at no time.
pub proof fn lemma_validity_by_expiry(expiry: Option<u64>, now: u64)
    ensures
        valid_at(expiry, now) <==> expiry is Some && now < expiry->0,
        !valid_at(None, now),
{
}

/// Whether a token with the expiry `expiry` may still be used at `now`.
pub fn expiry_still_ahead(expiry: Option<u64>, now: u64) -> (valid: bool)
    ensures
        valid == valid_at(expiry, now),
{
    match expiry {
        Some(expires) => now < expires,
        None => false,
    }
}

/// The expiry that `access_token` states.
pub fn expiry_of(access_token: &str) -> (expiry: Option<u64>)
    ensures
        expiry == token_expiry(access_token@),
{
    decode_unsigned_claim(access_token, "exp")
}

/// Whether the cached token `access_token` may still be used at the time
/// `now`, in seconds since the Unix epoch. The token's signature is not
/// verified: only its expiry is read.
pub fn access_token_still_valid(access_token: &str, now: u64) -> (valid: bool)
    ensures
        valid == valid_at(token_expiry(access_token@), now),
{
    expiry_still_ahead(expiry_of(access_token), now)
}

/// The address of the token endpoint of `domain`.
pub open spec fn token_url(domain: Seq<char>) -> Seq<char> {
    "https://"@ + domain + "/oauth/token"@
}

/// The audience that a token for the management interface of `domain` is
/// asked for.
pub open spec fn audience(domain: Seq<char>) -> Seq<char> {
    "https://"@ + domain + "/api/v2/"@
}

/// The request of the client-credentials grant for the profile `app`.
pub open spec fn token_request(app: AppConfigView) -> RequestView {
    RequestView {
        method: Method::Post,
        url: token_url(app.domain),
        headers: seq![("content-type"@, "application/json"@)],
        json: Some(
            seq![
                ("grant_type"@, "client_credentials"@),
                ("client_id"@, app.client_id),
                ("client_secret"@, app.client_secret),
                ("audience"@, audience(app.domain)),
            ],
        ),
    }
}

/// The request that asks the provider for a new access token for
/// `app_config`.
pub fn fetch_access_token(app_config: &AppConfig) -> (request: Request)
    ensures
        request@ == token_request(app_config@),
{
    let domain = app_config.domain.as_str();
    let mut headers: Vec<(String, String)> = Vec::new();
    headers.push(pair("content-type", "application/json"));
    let mut members: Vec<(String, String)> = Vec::new();
    members.push(pair("grant_type", "client_credentials"));
    members.push(pair("client_id", app_config.client_id.as_str()));
    members.push(pair("client_secret", app_config.client_secret.as_str()));
    let aud = join3("https://", domain, "/api/v2/");
    members.push(pair("audience", aud.as_str()));
    assert(pair_views(headers@) =~= token_request(app_config@).headers);
    assert(pair_views(members@) =~= token_request(app_config@).json->0);
    Request {
        method: Method::Post,
        url: join3("https://", domain, "/oauth/token"),
        headers,
        json: Some(members),
    }
}

/// The access token in the provider's answer `body` to a token request:
/// the member `access_token`, where the answer is a JSON object that has it
/// as a string.
pub fn access_token_from_response(body: &str) -> (token: Option<String>)
    ensures
        optional_text(token) == json_text_member(body@, "access_token"@),
{
    parse_text_member(body, "access_token")
}

} // verus!
