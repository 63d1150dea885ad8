use lightbridge_authz::api_key::RateLimit;
use lightbridge_authz::bearer::{
    bearer_auth, bearer_token_of, let_in, BearerTokenService, JwtHeader, KeyOutcome, KeyRequest,
    TokenInfo,
};
use lightbridge_authz::config::{
    socket_address, Config, Database, Grpc, Logging, Oauth2, PoolSettings, Rest, Server,
};
use lightbridge_authz::decimal::{decimal_string, signed_decimal_string};
use lightbridge_authz::error::Error;
use lightbridge_authz::ident::{format_key, generate_key, new_id};
use lightbridge_authz::time::{now, Timestamp};
use lightbridge_authz::types::{AclRule, AclRuleRequests, AclRuleWindowSeconds};

const HEADER_WITH_KID: &str = "eyJhbGciOiJSUzI1NiIsInR5cCI6IkpXVCIsImtpZCI6ImtleS0xIn0";
const HEADER_WITHOUT_KID: &str = "eyJhbGciOiJIUzI1NiIsInR5cCI6IkpXVCJ9";
const PAYLOAD: &str = "eyJzdWIiOiJhbGljZSIsImV4cCI6NDEwMjQ0NDgwMH0";

fn service() -> BearerTokenService {
    BearerTokenService::new(Oauth2 { jwks_url: "https://idp.example/jwks.json".to_string() })
}

#[test]
fn decimal_forms() {
    assert_eq!(decimal_string(0), "0");
    assert_eq!(decimal_string(7), "7");
    assert_eq!(decimal_string(10), "10");
    assert_eq!(decimal_string(1907), "1907");
    assert_eq!(decimal_string(1_000_000), "1000000");
    assert_eq!(decimal_string(u64::MAX), "18446744073709551615");
    assert_eq!(signed_decimal_string(0), "0");
    assert_eq!(signed_decimal_string(-1), "-1");
    assert_eq!(signed_decimal_string(-120), "-120");
    assert_eq!(signed_decimal_string(i64::MAX), "9223372036854775807");
    assert_eq!(signed_decimal_string(i64::MIN), "-9223372036854775808");
    for n in [0u64, 9, 10, 99, 100, 12345, 9_007_199_254_740_993] {
        assert_eq!(decimal_string(n), format!("{}", n));
    }
}

#[test]
fn socket_addresses() {
    assert_eq!(socket_address("0.0.0.0", 50051), "0.0.0.0:50051");
    assert_eq!(Rest { address: "127.0.0.1".to_string(), port: 3000 }.socket_address(), "127.0.0.1:3000");
    assert_eq!(Grpc { address: "::1".to_string(), port: 0 }.socket_address(), "::1:0");
    assert_eq!(Grpc { address: "h".to_string(), port: u16::MAX }.socket_address(), "h:65535");
}

#[test]
fn pool_settings_have_their_defaults() {
    let db = |pool_size| Database { url: "postgres://db".to_string(), pool_size };
    assert_eq!(
        db(None).pool_settings(),
        PoolSettings { max_size: 10, min_idle: 5, connection_timeout_secs: 30 }
    );
    assert_eq!(
        db(Some(20)).pool_settings(),
        PoolSettings { max_size: 20, min_idle: 5, connection_timeout_secs: 30 }
    );
    assert_eq!(db(Some(0)).pool_settings().max_size, 0);
}

#[test]
fn the_configuration_is_plain_data() {
    let config = Config {
        server: Server {
            rest: Some(Rest { address: "0.0.0.0".to_string(), port: 3000 }),
            grpc: None,
        },
        logging: Logging { level: "info".to_string() },
        database: Database { url: "postgres://db".to_string(), pool_size: None },
        oauth2: Oauth2 { jwks_url: "https://idp.example/jwks.json".to_string() },
    };
    let copy = config.clone();
    assert_eq!(copy.server.rest.unwrap().socket_address(), "0.0.0.0:3000");
    assert!(copy.server.grpc.is_none());
    assert_eq!(copy.logging.level, "info");
    assert_eq!(BearerTokenService::new(copy.oauth2).config.jwks_url, config.oauth2.jwks_url);
}

#[test]
fn rules_have_a_text_form() {
    assert_eq!(AclRule::from("gpt-4".to_string()).to_string(), "model::gpt-4");
    assert_eq!(AclRule::from(("gpt-4".to_string(), 100_000u64)).to_string(), "token::gpt-4::100000");
    assert_eq!(AclRule::from((60u32, 3600u32)).to_string(), "rate::60::3600");
    assert_eq!(AclRule::from(RateLimit::default()).to_string(), "rate::1000::3600");
    assert_eq!(AclRule::model(String::new()).to_string(), "model::");
    assert_eq!(AclRule::token_limit("m".to_string(), 0).to_string(), "token::m::0");
    assert_eq!(
        AclRule::RateLimit(AclRuleRequests(u32::MAX), AclRuleWindowSeconds(0)).to_string(),
        "rate::4294967295::0"
    );
}

#[test]
fn generated_keys_and_ids() {
    assert_eq!(format_key("abc", "def"), "sk-abc-def");
    assert_eq!(format_key("", ""), "sk--");
    let key = generate_key();
    let parts: Vec<&str> = key.split('-').collect();
    assert_eq!(parts.len(), 3);
    assert_eq!(parts[0], "sk");
    for (part, max) in [(parts[1], 10), (parts[2], 24)] {
        assert!(part.len() >= 2 && part.len() <= max);
        assert!(part.chars().next().unwrap().is_ascii_lowercase());
        assert!(part.chars().all(|c| c.is_ascii_lowercase() || c.is_ascii_digit()));
    }
    assert_ne!(generate_key(), key);
    assert_ne!(new_id(), new_id());
}

#[test]
fn the_clock_is_past_the_epoch() {
    let a = now();
    assert!(a.micros >= 0);
    // Later than 2023-11-14.
    assert!(Timestamp::from_micros(1_700_000_000_000_000).is_before(&a));
    assert!(!a.is_before(&a));
    assert!(!Timestamp::from_micros(2).is_before(&Timestamp::from_micros(1)));
}

#[test]
fn bearer_tokens_in_authorization_headers() {
    assert_eq!(bearer_token_of("Bearer abc"), Some("abc".to_string()));
    assert_eq!(bearer_token_of("bearer abc"), Some("abc".to_string()));
    assert_eq!(bearer_token_of("BEARER abc"), Some("abc".to_string()));
    assert_eq!(bearer_token_of("BeArEr abc"), Some("abc".to_string()));
    assert_eq!(bearer_token_of("  Bearer   abc  "), Some("abc".to_string()));
    assert_eq!(bearer_token_of("Bearer a b"), Some("a b".to_string()));
    assert_eq!(bearer_token_of("Bearer"), None);
    assert_eq!(bearer_token_of("Bearer "), None);
    assert_eq!(bearer_token_of("Bearerabc"), None);
    assert_eq!(bearer_token_of("Basic abc"), None);
    assert_eq!(bearer_token_of(""), None);
    assert_eq!(bearer_token_of("   "), None);
    assert_eq!(bearer_token_of("ßearer abc"), None);
    assert_eq!(bearer_token_of("Bearer é"), Some("é".to_string()));
    assert_eq!(bearer_auth(Some("Bearer abc")), Ok("abc".to_string()));
    assert_eq!(bearer_auth(Some("abc")), Err(Error::Unauthorized));
    assert_eq!(bearer_auth(None), Err(Error::Unauthorized));
    assert_eq!(Error::Unauthorized.status_code(), 401);
}

#[test]
fn validation_begins_with_the_header_of_the_token() {
    let s = service();
    let token = format!("{}.{}.sig", HEADER_WITH_KID, PAYLOAD);
    assert_eq!(
        s.begin_validation(&token),
        Ok(KeyRequest {
            jwks_url: "https://idp.example/jwks.json".to_string(),
            kid: "key-1".to_string(),
            alg: "RS256".to_string(),
            token: token.clone(),
        })
    );
    // The token is trimmed first.
    assert_eq!(s.begin_validation(&format!("  {}\n", token)).map(|r| r.token), Ok(token.clone()));
    // Without a key id, without a header, without three parts, or blank.
    let no_kid = format!("{}.{}.sig", HEADER_WITHOUT_KID, PAYLOAD);
    assert_eq!(s.begin_validation(&no_kid), Err(Error::Unauthorized));
    assert_eq!(s.begin_validation("bm90IGpzb24.e30.sig"), Err(Error::Unauthorized));
    assert_eq!(s.begin_validation("a.jwt.token"), Err(Error::Unauthorized));
    assert_eq!(s.begin_validation(HEADER_WITH_KID), Err(Error::Unauthorized));
    assert_eq!(s.begin_validation(&format!("{}.x", HEADER_WITH_KID)), Err(Error::Unauthorized));
    assert_eq!(s.begin_validation(&format!("{}.a.b.c", HEADER_WITH_KID)), Err(Error::Unauthorized));
    assert_eq!(s.begin_validation(""), Err(Error::Unauthorized));
    assert_eq!(s.begin_validation(" \t\n"), Err(Error::Unauthorized));
}

#[test]
fn a_key_request_needs_a_token_a_header_and_a_key_id() {
    let s = service();
    let header = |kid: Option<&str>| {
        Some(JwtHeader { alg: "ES256".to_string(), kid: kid.map(|k| k.to_string()) })
    };
    assert_eq!(
        s.key_request_for(" t ", header(Some("k"))),
        Ok(KeyRequest {
            jwks_url: "https://idp.example/jwks.json".to_string(),
            kid: "k".to_string(),
            alg: "ES256".to_string(),
            token: "t".to_string(),
        })
    );
    assert_eq!(s.key_request_for("t", header(None)), Err(Error::Unauthorized));
    assert_eq!(s.key_request_for("t", None), Err(Error::Unauthorized));
    assert_eq!(s.key_request_for("  ", header(Some("k"))), Err(Error::Unauthorized));
    assert_eq!(s.key_request_for("", header(Some("k"))), Err(Error::Unauthorized));
}

#[test]
fn validation_ends_with_the_claims() {
    let f = BearerTokenService::finish_validation;
    assert_eq!(
        f(KeyOutcome::Claims { sub: Some("alice".to_string()), exp: Some(4_102_444_800) }),
        Ok(TokenInfo { active: true, sub: "alice".to_string(), exp: 4_102_444_800 })
    );
    assert_eq!(f(KeyOutcome::Claims { sub: None, exp: Some(1) }), Err(Error::Unauthorized));
    assert_eq!(
        f(KeyOutcome::Claims { sub: Some("alice".to_string()), exp: None }),
        Err(Error::Unauthorized)
    );
    assert_eq!(f(KeyOutcome::FetchFailed), Err(Error::Unauthorized));
    assert_eq!(f(KeyOutcome::KeyMissing), Err(Error::Unauthorized));
    assert_eq!(f(KeyOutcome::Rejected), Err(Error::Unauthorized));
}

#[test]
fn only_an_active_token_is_let_in() {
    let info = |active| TokenInfo { active, sub: "alice".to_string(), exp: 1 };
    assert_eq!(let_in(Ok(info(true))), Ok(info(true)));
    assert_eq!(let_in(Ok(info(false))), Err(Error::Unauthorized));
    assert_eq!(let_in(Err(Error::Infra)), Err(Error::Unauthorized));
    assert_eq!(let_in(Err(Error::Unauthorized)), Err(Error::Unauthorized));
}
