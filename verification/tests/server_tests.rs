use lightbridge_authz::api_key::{
    Acl, ApiKey, ApiKeyStatus, CreateApiKey, ModelLimit, PatchApiKey, RateLimit,
};
use lightbridge_authz::error::Error;
use lightbridge_authz::json::{JsonField, JsonValue};
use lightbridge_authz::metadata::{Field, Number, Value};
use lightbridge_authz::server::{
    decide, extract_api_key_from_header, get_api_key, resolve, AuthServer, CheckRequest,
    CheckResponse, Code, Header, HeaderValue, HeaderValueOption, HttpRequest,
};
use lightbridge_authz::store::ApiKeyRepo;
use lightbridge_authz::time::Timestamp;

const T0: i64 = 1_700_000_000_000_000;
const HOUR: i64 = 3_600_000_000;

fn at(micros: i64) -> Timestamp {
    Timestamp::from_micros(micros)
}

fn flat(entries: &[(&str, &str)]) -> CheckRequest {
    CheckRequest {
        http: Some(HttpRequest {
            headers: entries
                .iter()
                .map(|(k, v)| Header { key: k.to_string(), value: v.to_string() })
                .collect(),
            header_map: None,
        }),
    }
}

fn raw(entries: &[(&str, &[u8])]) -> CheckRequest {
    CheckRequest {
        http: Some(HttpRequest {
            headers: Vec::new(),
            header_map: Some(
                entries
                    .iter()
                    .map(|(k, v)| HeaderValue { key: k.to_string(), raw_value: v.to_vec() })
                    .collect(),
            ),
        }),
    }
}

fn gpt4_acl() -> Acl {
    Acl {
        allowed_models: vec!["gpt-4".to_string()],
        tokens_per_model: vec![ModelLimit { model: "gpt-4".to_string(), tokens: 100_000 }],
        rate_limit: RateLimit { requests: 60, window_seconds: 60 },
    }
}

fn server_with_alice(expires_at: Option<Timestamp>) -> (AuthServer, ApiKey) {
    let mut store = ApiKeyRepo::new();
    let key = store
        .create_with(
            "alice",
            CreateApiKey { expires_at, metadata: None, acl: Some(gpt4_acl()) },
            "T".to_string(),
            "key-1".to_string(),
            "acl-1".to_string(),
            at(T0),
        )
        .unwrap();
    (AuthServer::new(store), key)
}

fn assert_allowed_alice(r: &CheckResponse) {
    assert_eq!(r.code, Code::Okay);
    assert_eq!(
        r.headers,
        vec![HeaderValueOption {
            key: "x-custom-lightbridge-authz-user-id".to_string(),
            value: "alice".to_string(),
            append: false,
        }]
    );
    let m = r.dynamic_metadata.as_ref().unwrap();
    assert_eq!(m.get("user_id"), Some(&Value::String("alice".to_string())));
    assert_eq!(m.get("api_key_id"), Some(&Value::String("key-1".to_string())));
    assert_eq!(m.get("api_key_name"), Some(&Value::String("key-1".to_string())));
    assert_eq!(m.get("allowed_models"), Some(&Value::List(vec![Value::String("gpt-4".to_string())])));
    assert_eq!(
        m.get("tokens_per_model"),
        Some(&Value::Struct(vec![Field {
            name: "gpt-4".to_string(),
            value: Value::Number(Number::Int(100_000)),
        }]))
    );
    assert_eq!(m.get("rate_limit_requests"), Some(&Value::Number(Number::Int(60))));
    assert_eq!(m.get("rate_limit_window_seconds"), Some(&Value::Number(Number::Int(60))));
}

fn assert_denied(r: &CheckResponse, message: &str) {
    assert_eq!(r.code, Code::PermissionDenied);
    assert_eq!(r.message, message);
    assert!(r.headers.is_empty());
    assert!(r.dynamic_metadata.is_none());
}

#[test]
fn test_build_dynamic_metadata_success() {
    let mut store = ApiKeyRepo::new();
    let api_key = store
        .create_with(
            "test_user_id",
            CreateApiKey {
                expires_at: None,
                metadata: Some(JsonValue::Object(vec![JsonField {
                    name: "custom_data".to_string(),
                    value: JsonValue::String("value".to_string()),
                }])),
                acl: Some(Acl {
                    allowed_models: vec!["model1".to_string(), "model2".to_string()],
                    tokens_per_model: Vec::new(),
                    rate_limit: RateLimit::default(),
                }),
            },
            "test_token".to_string(),
            "test_api_key_id".to_string(),
            "test_acl_id".to_string(),
            at(T0),
        )
        .unwrap();
    let auth_server = AuthServer::new(store);

    // Only the stored credential resolves.
    assert_eq!(auth_server.build_dynamic_metadata("hashed_token"), Err(Error::NotFound));

    let token = "test_token";
    let result = auth_server.build_dynamic_metadata(token);

    assert!(result.is_ok());
    let dynamic_metadata = result.unwrap();

    assert_eq!(dynamic_metadata.get("user_id"), Some(&Value::String(api_key.user_id.clone())));
    assert_eq!(dynamic_metadata.get("api_key_id"), Some(&Value::String(api_key.id.clone())));
    assert_eq!(dynamic_metadata.get("api_key_name"), Some(&Value::String(api_key.id.clone())));
    // The fields of the list stand at the top level, not under `permissions`.
    assert_eq!(dynamic_metadata.get("permissions"), None);
    let allowed_models = match dynamic_metadata.get("allowed_models") {
        Some(Value::List(l)) => Some(l),
        _ => None,
    };
    assert!(allowed_models.is_some());
    assert_eq!(allowed_models.unwrap().len(), 2);
    assert_eq!(dynamic_metadata.get("custom_data"), Some(&Value::String("value".to_string())));
    assert_eq!(dynamic_metadata.get("rate_limit_requests"), Some(&Value::Number(Number::Int(1000))));
    assert_eq!(
        dynamic_metadata.get("rate_limit_window_seconds"),
        Some(&Value::Number(Number::Int(3600)))
    );
}

#[test]
fn create_then_check_allows() {
    let (server, key) = server_with_alice(None);
    assert_eq!(key.user_id, "alice");
    assert_eq!(key.status, ApiKeyStatus::Active);
    assert_eq!(key.key_hash, "T");
    let r = server.check_at(flat(&[("authorization", "Bearer T")]), at(T0 + HOUR));
    assert_allowed_alice(&r);
    let r = server.check(flat(&[("authorization", "Bearer T")]));
    assert_allowed_alice(&r);
}

#[test]
fn check_without_headers_denies_as_missing() {
    let (server, _) = server_with_alice(None);
    assert_denied(&server.check_at(flat(&[]), at(T0)), "API key missing");
    assert_denied(&server.check_at(CheckRequest { http: None }, at(T0)), "API key missing");
    assert_denied(&server.check(raw(&[])), "API key missing");
    assert_denied(&server.check_at(flat(&[("accept", "*/*")]), at(T0)), "API key missing");
}

#[test]
fn check_after_revocation_denies_as_invalid() {
    let (mut server, key) = server_with_alice(None);
    let patch =
        PatchApiKey { expires_at: None, metadata: None, status: Some(ApiKeyStatus::Revoked), acl: None };
    let changed = server.store.update_at("alice", &key.id, patch, at(T0 + 1)).unwrap();
    assert_eq!(changed.status, ApiKeyStatus::Revoked);
    assert_denied(
        &server.check_at(flat(&[("authorization", "Bearer T")]), at(T0 + 2)),
        "Invalid API key",
    );
    // Revocation can be undone by a patch.
    let patch =
        PatchApiKey { expires_at: None, metadata: None, status: Some(ApiKeyStatus::Active), acl: None };
    server.store.update_at("alice", &key.id, patch, at(T0 + 3)).unwrap();
    assert_allowed_alice(&server.check_at(flat(&[("authorization", "Bearer T")]), at(T0 + 4)));
}

#[test]
fn check_of_an_expired_key_denies_as_invalid() {
    let now = T0;
    let (server, key) = server_with_alice(Some(at(now - HOUR)));
    assert_denied(
        &server.check_at(flat(&[("authorization", "Bearer T")]), at(now)),
        "Invalid API key",
    );
    // The key stays active in the store.
    let stored = server.store.find_by_id("alice", &key.id).unwrap().unwrap();
    assert_eq!(stored.status, ApiKeyStatus::Active);
    assert_eq!(stored.expires_at, Some(at(now - HOUR)));
    // At the very instant of expiry, and before it, the key still passes.
    assert_allowed_alice(&server.check_at(flat(&[("authorization", "Bearer T")]), at(now - HOUR)));
    assert_allowed_alice(
        &server.check_at(flat(&[("authorization", "Bearer T")]), at(now - HOUR - 1)),
    );
    assert_denied(
        &server.check_at(flat(&[("authorization", "Bearer T")]), at(now - HOUR + 1)),
        "Invalid API key",
    );
}

#[test]
fn check_with_the_raw_header_shape_allows() {
    let (server, _) = server_with_alice(None);
    let r = server.check_at(raw(&[("X-Api-Key", "T".as_bytes())]), at(T0));
    assert_allowed_alice(&r);
}

#[test]
fn check_with_an_unknown_credential_denies_as_invalid() {
    let (server, _) = server_with_alice(None);
    assert_denied(
        &server.check_at(flat(&[("authorization", "Bearer nope")]), at(T0)),
        "Invalid API key",
    );
}

#[test]
fn the_flat_map_wins_over_the_raw_list() {
    let req = CheckRequest {
        http: Some(HttpRequest {
            headers: vec![Header { key: "accept".to_string(), value: "*/*".to_string() }],
            header_map: Some(vec![HeaderValue {
                key: "x-api-key".to_string(),
                raw_value: b"T".to_vec(),
            }]),
        }),
    };
    assert_eq!(get_api_key(req), None);
    let req = CheckRequest {
        http: Some(HttpRequest {
            headers: vec![Header { key: "x-api-key".to_string(), value: "flat".to_string() }],
            header_map: Some(vec![HeaderValue {
                key: "x-api-key".to_string(),
                raw_value: b"raw".to_vec(),
            }]),
        }),
    };
    assert_eq!(get_api_key(req), Some("flat".to_string()));
}

#[test]
fn authorization_comes_before_the_key_headers() {
    assert_eq!(
        get_api_key(flat(&[("x-api-key", "k"), ("authorization", "Bearer b")])),
        Some("b".to_string())
    );
    assert_eq!(
        get_api_key(flat(&[("x-api_token", "4"), ("x-api-token", "3"), ("x-api_key", "2")])),
        Some("2".to_string())
    );
    assert_eq!(
        get_api_key(flat(&[("x-api_token", "4"), ("x-api-token", "3")])),
        Some("3".to_string())
    );
    assert_eq!(get_api_key(flat(&[("x-api_token", "4")])), Some("4".to_string()));
    assert_eq!(
        get_api_key(flat(&[("x-api-key", "1"), ("x-api_key", "2")])),
        Some("1".to_string())
    );
    // An authorization header without a usable bearer token falls through.
    assert_eq!(
        get_api_key(flat(&[("authorization", "Basic abc"), ("x-api-key", "k")])),
        Some("k".to_string())
    );
    assert_eq!(
        get_api_key(flat(&[("authorization", "Bearer    "), ("x-api-token", "k")])),
        Some("k".to_string())
    );
    // The first non-empty key header counts.
    assert_eq!(
        get_api_key(flat(&[("x-api-key", ""), ("x-api_key", "second")])),
        Some("second".to_string())
    );
    // The flat map has lower-case keys: another spelling is another header.
    assert_eq!(get_api_key(flat(&[("Authorization", "Bearer b")])), None);
}

#[test]
fn raw_headers_are_decoded_and_lowered() {
    assert_eq!(
        get_api_key(raw(&[("AUTHORIZATION", b"bearer  tok  ")])),
        Some("tok".to_string())
    );
    // A value that is not UTF-8 is ignored, not an error.
    assert_eq!(
        get_api_key(raw(&[("x-api-key", &[0xff, 0xfe]), ("x-api-token", b"good")])),
        Some("good".to_string())
    );
    assert_eq!(
        get_api_key(raw(&[("x-trace", &[0xc3, 0x28]), ("X-API_KEY", "clé".as_bytes())])),
        Some("clé".to_string())
    );
    assert_eq!(get_api_key(raw(&[("x-api-key", &[0x80])])), None);
    // Of two raw headers of one name the first that decodes counts.
    assert_eq!(
        get_api_key(raw(&[("x-api-key", &[0xff]), ("x-api-key", b"second")])),
        Some("second".to_string())
    );
}

#[test]
fn one_header_gives_its_credential() {
    let x = extract_api_key_from_header;
    assert_eq!(x("authorization", "Bearer abc"), Some("abc".to_string()));
    assert_eq!(x("authorization", "bearer abc"), Some("abc".to_string()));
    assert_eq!(x("Authorization", "Bearer abc"), Some("abc".to_string()));
    assert_eq!(x("authorization", "Bearer  abc \t"), Some("abc".to_string()));
    assert_eq!(x("authorization", "BEARER abc"), None);
    assert_eq!(x("authorization", "Bearer"), None);
    assert_eq!(x("authorization", "Bearer "), None);
    assert_eq!(x("authorization", "Bearer \u{2003}"), None);
    assert_eq!(x("authorization", "abc"), None);
    assert_eq!(x("authorization", ""), None);
    assert_eq!(x("x-api-key", "k"), Some("k".to_string()));
    assert_eq!(x("X-API-KEY", " k "), Some(" k ".to_string()));
    assert_eq!(x("x-api_key", "k"), Some("k".to_string()));
    assert_eq!(x("x-api-token", "k"), Some("k".to_string()));
    assert_eq!(x("x-api_token", "k"), Some("k".to_string()));
    assert_eq!(x("x-api-key", ""), None);
    assert_eq!(x("x-apikey", "k"), None);
    assert_eq!(x("cookie", "Bearer abc"), None);
}

#[test]
fn resolve_gates_on_expiry_and_status() {
    let (_, key) = server_with_alice(Some(at(T0)));
    assert_eq!(resolve(None, at(T0)), Err(Error::NotFound));
    assert!(resolve(Some(key.clone()), at(T0)).is_ok());
    assert_eq!(resolve(Some(key.clone()), at(T0 + 1)), Err(Error::NotFound));
    let mut revoked = key.clone();
    revoked.status = ApiKeyStatus::Revoked;
    revoked.expires_at = None;
    assert_eq!(resolve(Some(revoked), at(T0)), Err(Error::NotFound));
}

#[test]
fn decide_answers_for_each_case() {
    let (_, key) = server_with_alice(None);
    assert_denied(&decide(None, None, at(T0)), "API key missing");
    assert_denied(&decide(None, Some(key.clone()), at(T0)), "API key missing");
    assert_denied(&decide(Some("T".to_string()), None, at(T0)), "Invalid API key");
    assert_allowed_alice(&decide(Some("T".to_string()), Some(key), at(T0)));
}

#[test]
fn resolve_api_key_reads_the_clock() {
    let (server, _) = server_with_alice(Some(at(1)));
    // The key expired in 1970.
    assert_eq!(server.resolve_api_key("T"), Err(Error::NotFound));
    assert_eq!(server.resolve_api_key_at("T", at(1)).map(|k| k.id), Ok("key-1".to_string()));
    let (server, _) = server_with_alice(Some(at(i64::MAX)));
    assert_eq!(server.resolve_api_key("T").map(|k| k.id), Ok("key-1".to_string()));
}
