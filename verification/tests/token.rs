use auth0_cli::config::AppConfig;
use auth0_cli::request::Method;
use auth0_cli::token::{
    access_token_from_response, access_token_still_valid, expiry_of, expiry_still_ahead,
    fetch_access_token,
};

// {"alg":"HS256","typ":"JWT"} . {"exp":2000000000,"sub":"client@clients"}
const EXPIRES_2000000000: &str = "eyJhbGciOiJIUzI1NiIsInR5cCI6IkpXVCJ9.eyJleHAiOjIwMDAwMDAwMDAsInN1YiI6ImNsaWVudEBjbGllbnRzIn0.c2ln";
// {"alg":"HS256","typ":"JWT"} . {"exp":1}
const EXPIRES_1: &str = "eyJhbGciOiJIUzI1NiIsInR5cCI6IkpXVCJ9.eyJleHAiOjF9.c2ln";
// {"alg":"HS256","typ":"JWT"} . {"sub":"client@clients","iat":1500000000}
const NO_EXPIRY: &str = "eyJhbGciOiJIUzI1NiIsInR5cCI6IkpXVCJ9.eyJzdWIiOiJjbGllbnRAY2xpZW50cyIsImlhdCI6MTUwMDAwMDAwMH0.c2ln";
// {"alg":"HS256","typ":"JWT"} . {"exp":"2000000000"}
const EXPIRY_AS_TEXT: &str =
    "eyJhbGciOiJIUzI1NiIsInR5cCI6IkpXVCJ9.eyJleHAiOiIyMDAwMDAwMDAwIn0.c2ln";
// {"alg":"HS256","typ":"JWT"} . {"exp":-5}
const EXPIRY_NEGATIVE: &str = "eyJhbGciOiJIUzI1NiIsInR5cCI6IkpXVCJ9.eyJleHAiOi01fQ.c2ln";
// {"alg":"HS256","typ":"JWT"} . {"exp":2000000000.5}
const EXPIRY_FRACTION: &str =
    "eyJhbGciOiJIUzI1NiIsInR5cCI6IkpXVCJ9.eyJleHAiOjIwMDAwMDAwMDAuNX0.c2ln";
// {"alg":"HS256","typ":"JWT"} . {"exp":18446744073709551615}
const EXPIRY_LARGEST: &str =
    "eyJhbGciOiJIUzI1NiIsInR5cCI6IkpXVCJ9.eyJleHAiOjE4NDQ2NzQ0MDczNzA5NTUxNjE1fQ.c2ln";
// {"alg":"HS256","typ":"JWT"} . [1,2]
const CLAIMS_NOT_AN_OBJECT: &str = "eyJhbGciOiJIUzI1NiIsInR5cCI6IkpXVCJ9.WzEsMl0.c2ln";
// {"alg":"XX","typ":"JWT"} . {"exp":2000000000}
const UNKNOWN_ALGORITHM: &str =
    "eyJhbGciOiJYWCIsInR5cCI6IkpXVCJ9.eyJleHAiOjIwMDAwMDAwMDB9.c2ln";
// {"alg":"RS256","typ":"JWT","kid":"abc"} . {"iss":"https://d/","exp":1700000000,"gty":"client-credentials"}
const RS256_EXPIRES_1700000000: &str = "eyJhbGciOiJSUzI1NiIsInR5cCI6IkpXVCIsImtpZCI6ImFiYyJ9.eyJpc3MiOiJodHRwczovL2QvIiwiZXhwIjoxNzAwMDAwMDAwLCJndHkiOiJjbGllbnQtY3JlZGVudGlhbHMifQ.c2ln";

fn signed_token(expiry: Option<u64>) -> String {
    let mut claims = serde_json::Map::new();
    claims.insert("sub".to_string(), serde_json::Value::from("client@clients"));
    if let Some(at) = expiry {
        claims.insert("exp".to_string(), serde_json::Value::from(at));
    }
    jsonwebtoken::encode(
        &jsonwebtoken::Header::default(),
        &serde_json::Value::Object(claims),
        &jsonwebtoken::EncodingKey::from_secret(b"a secret"),
    )
    .unwrap()
}

#[test]
fn token_is_valid_an_hour_before_its_expiry() {
    let now = 1_999_996_400;
    assert_eq!(now + 3600, 2_000_000_000);
    assert_eq!(access_token_still_valid(EXPIRES_2000000000, now), true);
}

#[test]
fn token_is_invalid_ten_seconds_after_its_expiry() {
    let now = 2_000_000_010;
    assert_eq!(now - 10, 2_000_000_000);
    assert_eq!(access_token_still_valid(EXPIRES_2000000000, now), false);
}

#[test]
fn token_is_invalid_at_the_second_of_its_expiry() {
    assert_eq!(access_token_still_valid(EXPIRES_2000000000, 2_000_000_000), false);
    assert_eq!(access_token_still_valid(EXPIRES_2000000000, 1_999_999_999), true);
}

#[test]
fn token_without_expiry_claim_is_invalid() {
    assert_eq!(expiry_of(NO_EXPIRY), None);
    assert_eq!(access_token_still_valid(NO_EXPIRY, 0), false);
    assert_eq!(access_token_still_valid(NO_EXPIRY, 1_600_000_000), false);
}

#[test]
fn undecodable_token_is_invalid() {
    for text in ["", "garbage", "a.b", "a.b.c", "a.b.c.d", "..", "not a token at all"].iter() {
        assert_eq!(expiry_of(text), None, "{:?}", text);
        assert_eq!(access_token_still_valid(text, 0), false, "{:?}", text);
    }
}

#[test]
fn token_with_an_unknown_algorithm_in_its_header_is_invalid() {
    assert_eq!(expiry_of(UNKNOWN_ALGORITHM), None);
    assert_eq!(access_token_still_valid(UNKNOWN_ALGORITHM, 0), false);
}

#[test]
fn token_whose_claims_are_no_object_is_invalid() {
    assert_eq!(expiry_of(CLAIMS_NOT_AN_OBJECT), None);
    assert_eq!(access_token_still_valid(CLAIMS_NOT_AN_OBJECT, 0), false);
}

#[test]
fn token_whose_expiry_is_no_unsigned_integer_is_invalid() {
    assert_eq!(expiry_of(EXPIRY_AS_TEXT), None);
    assert_eq!(expiry_of(EXPIRY_NEGATIVE), None);
    assert_eq!(expiry_of(EXPIRY_FRACTION), None);
    assert_eq!(access_token_still_valid(EXPIRY_AS_TEXT, 0), false);
    assert_eq!(access_token_still_valid(EXPIRY_NEGATIVE, 0), false);
    assert_eq!(access_token_still_valid(EXPIRY_FRACTION, 0), false);
}

#[test]
fn expiry_of_reads_the_claim() {
    assert_eq!(expiry_of(EXPIRES_2000000000), Some(2_000_000_000));
    assert_eq!(expiry_of(EXPIRES_1), Some(1));
    assert_eq!(expiry_of(EXPIRY_LARGEST), Some(u64::MAX));
    assert_eq!(expiry_of(RS256_EXPIRES_1700000000), Some(1_700_000_000));
}

#[test]
fn expiry_of_does_not_look_at_the_signature() {
    let forged = EXPIRES_2000000000.replace(".c2ln", ".AAAA");
    assert_eq!(expiry_of(&forged), Some(2_000_000_000));
    assert_eq!(expiry_of(RS256_EXPIRES_1700000000), Some(1_700_000_000));
}

#[test]
fn largest_expiry_is_valid_until_the_last_second() {
    assert_eq!(access_token_still_valid(EXPIRY_LARGEST, u64::MAX - 1), true);
    assert_eq!(access_token_still_valid(EXPIRY_LARGEST, u64::MAX), false);
}

#[test]
fn token_made_by_the_encoder_is_read_back() {
    let token = signed_token(Some(1_893_456_000));
    assert_eq!(expiry_of(&token), Some(1_893_456_000));
    assert_eq!(access_token_still_valid(&token, 1_893_455_999), true);
    assert_eq!(access_token_still_valid(&token, 1_893_456_000), false);
    let unbounded = signed_token(None);
    assert_eq!(expiry_of(&unbounded), None);
    assert_eq!(access_token_still_valid(&unbounded, 0), false);
}

#[test]
fn expiry_still_ahead_compares_strictly() {
    assert_eq!(expiry_still_ahead(Some(100), 99), true);
    assert_eq!(expiry_still_ahead(Some(100), 100), false);
    assert_eq!(expiry_still_ahead(Some(100), 101), false);
    assert_eq!(expiry_still_ahead(Some(0), 0), false);
    assert_eq!(expiry_still_ahead(Some(u64::MAX), 0), true);
    assert_eq!(expiry_still_ahead(None, 0), false);
    assert_eq!(expiry_still_ahead(None, u64::MAX), false);
}

#[test]
fn token_request_is_the_client_credentials_grant() {
    let app = AppConfig::new(
        "staging".to_string(),
        "abc123".to_string(),
        "s3cret".to_string(),
        "tenant.eu.example.com".to_string(),
    )
    .unwrap();
    let request = fetch_access_token(&app);
    assert_eq!(request.method, Method::Post);
    assert_eq!(request.url, "https://tenant.eu.example.com/oauth/token");
    assert_eq!(
        request.headers,
        vec![("content-type".to_string(), "application/json".to_string())]
    );
    assert_eq!(
        request.json,
        Some(vec![
            ("grant_type".to_string(), "client_credentials".to_string()),
            ("client_id".to_string(), "abc123".to_string()),
            ("client_secret".to_string(), "s3cret".to_string()),
            ("audience".to_string(), "https://tenant.eu.example.com/api/v2/".to_string()),
        ])
    );
}

#[test]
fn token_request_does_not_depend_on_the_profile_name() {
    let one = AppConfig::new("a".into(), "id".into(), "secret".into(), "d.example".into()).unwrap();
    let two = AppConfig::new("b".into(), "id".into(), "secret".into(), "d.example".into()).unwrap();
    assert_eq!(fetch_access_token(&one).url, fetch_access_token(&two).url);
    assert_eq!(fetch_access_token(&one).json, fetch_access_token(&two).json);
}

#[test]
fn access_token_is_read_out_of_the_answer() {
    let body = "{\"access_token\":\"eyJ.abc.def\",\"scope\":\"read:users\",\"expires_in\":86400,\"token_type\":\"Bearer\"}";
    assert_eq!(access_token_from_response(body), Some("eyJ.abc.def".to_string()));
}

#[test]
fn access_token_is_unescaped() {
    let body = "  { \"access_token\" : \"a\\\"b\\u0041\\n\" }  ";
    assert_eq!(access_token_from_response(body), Some("a\"bA\n".to_string()));
}

#[test]
fn answer_without_access_token_gives_none() {
    assert_eq!(access_token_from_response("{}"), None);
    assert_eq!(
        access_token_from_response("{\"error\":\"access_denied\",\"error_description\":\"Unauthorized\"}"),
        None
    );
    assert_eq!(access_token_from_response("{\"Access_Token\":\"abc\"}"), None);
}

#[test]
fn access_token_that_is_no_string_gives_none() {
    assert_eq!(access_token_from_response("{\"access_token\":123}"), None);
    assert_eq!(access_token_from_response("{\"access_token\":null}"), None);
    assert_eq!(access_token_from_response("{\"access_token\":[\"abc\"]}"), None);
    assert_eq!(access_token_from_response("{\"access_token\":{\"value\":\"abc\"}}"), None);
}

#[test]
fn answer_that_is_no_json_object_gives_none() {
    assert_eq!(access_token_from_response(""), None);
    assert_eq!(access_token_from_response("<html>Bad Gateway</html>"), None);
    assert_eq!(access_token_from_response("\"access_token\""), None);
    assert_eq!(access_token_from_response("[\"access_token\"]"), None);
    assert_eq!(access_token_from_response("{\"access_token\":\"abc\"} trailing"), None);
    assert_eq!(access_token_from_response("{\"access_token\":\"abc\""), None);
}

#[test]
fn empty_access_token_is_still_a_token() {
    assert_eq!(access_token_from_response("{\"access_token\":\"\"}"), Some(String::new()));
}
