use lightbridge_authz::api_key::{
    Acl, ApiKey, ApiKeyStatus, CreateApiKey, ModelLimit, PatchApiKey, RateLimit,
};
use lightbridge_authz::entities::{AclModelRow, AclRow, ApiKeyRow, NewAclModelRow};
use lightbridge_authz::error::Error;
use lightbridge_authz::json::{JsonField, JsonNumber, JsonValue};
use lightbridge_authz::mappers::{
    acl_to_rows, find_limit, rows_to_acl, to_api_key, to_signed32, to_signed64, to_unsigned32,
    to_unsigned64, DEFAULT_TOKEN_LIMIT,
};
use lightbridge_authz::service;
use lightbridge_authz::store::{models_distinct, ApiKeyRepo};
use lightbridge_authz::time::{now, Timestamp};

const T0: i64 = 1_700_000_000_000_000;

fn at(micros: i64) -> Timestamp {
    Timestamp::from_micros(micros)
}

fn limit(model: &str, tokens: u64) -> ModelLimit {
    ModelLimit { model: model.to_string(), tokens }
}

fn acl(models: &[&str], budgets: &[(&str, u64)], requests: u32, window_seconds: u32) -> Acl {
    Acl {
        allowed_models: models.iter().map(|m| m.to_string()).collect(),
        tokens_per_model: budgets.iter().map(|(m, t)| limit(m, *t)).collect(),
        rate_limit: RateLimit { requests, window_seconds },
    }
}

fn input(acl: Option<Acl>) -> CreateApiKey {
    CreateApiKey { expires_at: None, metadata: None, acl }
}

fn create(store: &mut ApiKeyRepo, user: &str, n: u32, acl: Option<Acl>, t: i64) -> ApiKey {
    store
        .create_with(
            user,
            input(acl),
            format!("hash-{}", n),
            format!("key-{}", n),
            format!("acl-{}", n),
            at(t),
        )
        .unwrap()
}

fn no_patch() -> PatchApiKey {
    PatchApiKey { expires_at: None, metadata: None, status: None, acl: None }
}

fn sorted(mut v: Vec<String>) -> Vec<String> {
    v.sort();
    v
}

fn budgets(a: &Acl) -> Vec<(String, u64)> {
    let mut v: Vec<(String, u64)> =
        a.tokens_per_model.iter().map(|l| (l.model.clone(), l.tokens)).collect();
    v.sort();
    v
}

#[test]
fn a_new_store_is_empty() {
    let store = ApiKeyRepo::new();
    assert_eq!(store.list(100, 0), Ok(Vec::new()));
    assert_eq!(store.find_by_id("alice", "key-1"), Ok(None));
    assert_eq!(store.find_by_token("hash-1"), Ok(None));
    assert_eq!(store.find_api_key_for_authz("hash-1"), Ok(None));
}

#[test]
fn create_returns_the_key_as_it_reads_back() {
    let mut store = ApiKeyRepo::new();
    let metadata = JsonValue::Object(vec![JsonField {
        name: "n".to_string(),
        value: JsonValue::Number(JsonNumber::NegInt(-3)),
    }]);
    let key = store
        .create_with(
            "alice",
            CreateApiKey {
                expires_at: Some(at(T0 + 5)),
                metadata: Some(metadata.clone()),
                acl: Some(acl(&["gpt-4"], &[("gpt-4", 100_000)], 60, 60)),
            },
            "T".to_string(),
            "K".to_string(),
            "A".to_string(),
            at(T0),
        )
        .unwrap();
    assert_eq!(
        key,
        ApiKey {
            id: "K".to_string(),
            user_id: "alice".to_string(),
            key_hash: "T".to_string(),
            created_at: at(T0),
            expires_at: Some(at(T0 + 5)),
            metadata: Some(metadata),
            status: ApiKeyStatus::Active,
            acl: acl(&["gpt-4"], &[("gpt-4", 100_000)], 60, 60),
        }
    );
    assert_eq!(store.find_by_id("alice", "K"), Ok(Some(key.clone())));
    assert_eq!(store.find_by_token("T"), Ok(Some(key.clone())));
    assert_eq!(store.find_api_key_for_authz("T"), Ok(Some(key)));
}

#[test]
fn create_without_a_list_gets_the_default_list() {
    let mut store = ApiKeyRepo::new();
    let key = create(&mut store, "alice", 1, None, T0);
    assert_eq!(key.acl, acl(&[], &[], 1000, 3600));
    assert_eq!(key.acl, Acl::default());
    assert_eq!(RateLimit::default(), RateLimit { requests: 1000, window_seconds: 3600 });
}

#[test]
fn round_trip_keeps_the_list() {
    // Set equality on the models, map equality on the budgets, field
    // equality on the rate limit.
    let asked = acl(&["b", "a", "c"], &[("c", 3), ("a", 1), ("b", u64::MAX)], u32::MAX, 0);
    let mut store = ApiKeyRepo::new();
    let created = create(&mut store, "u", 1, Some(asked.clone()), T0);
    let found = store.find_by_id("u", &created.id).unwrap().unwrap();
    assert_eq!(found, created);
    assert_eq!(sorted(found.acl.allowed_models.clone()), sorted(asked.allowed_models.clone()));
    assert_eq!(budgets(&found.acl), budgets(&asked));
    assert_eq!(found.acl.rate_limit, asked.rate_limit);
}

#[test]
fn a_model_without_a_budget_reads_back_with_the_default() {
    // Here the list does not come back as it went in: the model that was
    // allowed without a budget has the default budget afterwards.
    let mut store = ApiKeyRepo::new();
    let key = create(&mut store, "u", 1, Some(acl(&["gpt-4"], &[], 1, 1)), T0);
    assert_eq!(key.acl.allowed_models, vec!["gpt-4".to_string()]);
    assert_eq!(key.acl.tokens_per_model, vec![limit("gpt-4", 10_000)]);
    assert_eq!(DEFAULT_TOKEN_LIMIT, 10_000);
    // And a budget for a model that is not allowed is dropped.
    let key = create(&mut store, "u", 2, Some(acl(&["a"], &[("a", 1), ("b", 2)], 1, 1)), T0);
    assert_eq!(key.acl.tokens_per_model, vec![limit("a", 1)]);
    // Where no model is allowed, the models with a budget are.
    let key = create(&mut store, "u", 3, Some(acl(&[], &[("x", 7), ("y", 8)], 1, 1)), T0);
    assert_eq!(key.acl.allowed_models, vec!["x".to_string(), "y".to_string()]);
    assert_eq!(key.acl.tokens_per_model, vec![limit("x", 7), limit("y", 8)]);
}

#[test]
fn create_refuses_a_taken_credential_as_a_conflict() {
    let mut store = ApiKeyRepo::new();
    create(&mut store, "alice", 1, None, T0);
    let r = store.create_with(
        "bob",
        input(None),
        "hash-1".to_string(),
        "key-2".to_string(),
        "acl-2".to_string(),
        at(T0),
    );
    assert_eq!(r, Err(Error::Conflict));
    assert_eq!(Error::Conflict.status_code(), 409);
    // All or nothing: the list of the refused key is not there either.
    assert_eq!(store.list(100, 0).unwrap().len(), 1);
    let again = create(&mut store, "bob", 2, None, T0);
    assert_eq!(again.id, "key-2");
}

#[test]
fn create_refuses_taken_ids_and_doubled_models_as_database_errors() {
    let mut store = ApiKeyRepo::new();
    create(&mut store, "alice", 1, None, T0);
    let mut attempt = |hash: &str, key: &str, acl_id: &str, a: Option<Acl>| {
        store.create_with(
            "bob",
            input(a),
            hash.to_string(),
            key.to_string(),
            acl_id.to_string(),
            at(T0),
        )
    };
    assert_eq!(attempt("h", "key-1", "acl-2", None), Err(Error::Database));
    assert_eq!(attempt("h", "key-2", "acl-1", None), Err(Error::Database));
    assert_eq!(
        attempt("h", "key-2", "acl-2", Some(acl(&["m", "n", "m"], &[], 1, 1))),
        Err(Error::Database)
    );
    // A taken id outweighs a taken credential.
    assert_eq!(attempt("hash-1", "key-1", "acl-2", None), Err(Error::Database));
    assert!(attempt("h", "key-2", "acl-2", Some(acl(&["m", "n"], &[], 1, 1))).is_ok());
    assert_eq!(store.list(100, 0).unwrap().len(), 2);
}

#[test]
fn create_draws_fresh_ids_and_reads_the_clock() {
    let mut store = ApiKeyRepo::new();
    let before = now();
    let a = store.create("alice", input(None), "hash-a".to_string()).unwrap();
    let b = store.create("alice", input(None), "hash-b".to_string()).unwrap();
    assert_ne!(a.id, b.id);
    for id in [&a.id, &b.id] {
        assert!(id.len() >= 2 && id.len() <= 24);
        assert!(id.chars().next().unwrap().is_ascii_lowercase());
        assert!(id.chars().all(|c| c.is_ascii_lowercase() || c.is_ascii_digit()));
    }
    assert!(a.created_at.micros >= before.micros);
    assert!(before.micros > T0);
    assert_eq!(store.create("bob", input(None), "hash-a".to_string()), Err(Error::Conflict));
}

#[test]
fn ownership_isolation() {
    let mut store = ApiKeyRepo::new();
    let key = create(&mut store, "alice", 1, Some(acl(&["m"], &[("m", 5)], 2, 3)), T0);
    assert_eq!(store.find_by_id("bob", &key.id), Ok(None));
    let mut patch = no_patch();
    patch.status = Some(ApiKeyStatus::Revoked);
    patch.acl = Some(acl(&[], &[], 9, 9));
    assert_eq!(store.update_at("bob", &key.id, patch, at(T0 + 1)), Err(Error::NotFound));
    assert_eq!(store.delete("bob", &key.id), Ok(()));
    assert_eq!(store.find_by_id("alice", &key.id), Ok(Some(key.clone())));
    assert_eq!(store.find_api_key_for_authz(&key.key_hash), Ok(Some(key)));
    assert_eq!(store.find_all("bob", 100, 0), Ok(Vec::new()));
}

#[test]
fn patch_changes_only_what_it_holds() {
    let mut store = ApiKeyRepo::new();
    let key = store
        .create_with(
            "alice",
            CreateApiKey {
                expires_at: Some(at(T0 + 10)),
                metadata: Some(JsonValue::Bool(true)),
                acl: Some(acl(&["m"], &[("m", 5)], 2, 3)),
            },
            "T".to_string(),
            "K".to_string(),
            "A".to_string(),
            at(T0),
        )
        .unwrap();
    // The empty patch changes nothing.
    assert_eq!(store.update_at("alice", "K", no_patch(), at(T0 + 1)), Ok(key.clone()));
    // Each field alone.
    let mut p = no_patch();
    p.status = Some(ApiKeyStatus::Revoked);
    let k = store.update_at("alice", "K", p, at(T0 + 2)).unwrap();
    assert_eq!(k, ApiKey { status: ApiKeyStatus::Revoked, ..key.clone() });
    let mut p = no_patch();
    p.status = Some(ApiKeyStatus::Active);
    p.expires_at = Some(Some(at(T0 + 20)));
    let k = store.update_at("alice", "K", p, at(T0 + 3)).unwrap();
    assert_eq!(k, ApiKey { expires_at: Some(at(T0 + 20)), ..key.clone() });
    let mut p = no_patch();
    p.metadata = Some(Some(JsonValue::Null));
    let k = store.update_at("alice", "K", p, at(T0 + 4)).unwrap();
    assert_eq!(k.metadata, Some(JsonValue::Null));
    assert_eq!(k.expires_at, Some(at(T0 + 20)));
    // An explicit null clears.
    let mut p = no_patch();
    p.metadata = Some(None);
    p.expires_at = Some(None);
    let k = store.update_at("alice", "K", p, at(T0 + 5)).unwrap();
    assert_eq!(k, ApiKey { expires_at: None, metadata: None, ..key.clone() });
    assert_eq!(store.find_by_id("alice", "K"), Ok(Some(k)));
}

#[test]
fn patch_is_idempotent() {
    let mut store = ApiKeyRepo::new();
    create(&mut store, "alice", 1, Some(acl(&["old"], &[("old", 1)], 2, 3)), T0);
    let patch = || PatchApiKey {
        expires_at: Some(Some(at(T0 + 99))),
        metadata: Some(Some(JsonValue::String("m".to_string()))),
        status: Some(ApiKeyStatus::Revoked),
        acl: Some(acl(&["x", "y"], &[("x", 10), ("y", 20)], 7, 8)),
    };
    let once = store.update_at("alice", "key-1", patch(), at(T0 + 1)).unwrap();
    let twice = store.update_at("alice", "key-1", patch(), at(T0 + 2)).unwrap();
    assert_eq!(once, twice);
    assert_eq!(store.find_by_id("alice", "key-1"), Ok(Some(twice)));
    let by_clock = store.update("alice", "key-1", patch()).unwrap();
    assert_eq!(by_clock, once);
}

#[test]
fn revocation_is_final_for_authorization() {
    let mut store = ApiKeyRepo::new();
    let key = create(&mut store, "alice", 1, None, T0);
    assert!(store.find_api_key_for_authz(&key.key_hash).unwrap().is_some());
    let mut p = no_patch();
    p.status = Some(ApiKeyStatus::Revoked);
    // Whatever the expiry: push it far into the future in the same patch.
    p.expires_at = Some(Some(at(i64::MAX)));
    store.update_at("alice", &key.id, p, at(T0 + 1)).unwrap();
    assert_eq!(store.find_api_key_for_authz(&key.key_hash), Ok(None));
    // The key is still found by its credential and by its owner.
    assert_eq!(
        store.find_by_token(&key.key_hash).unwrap().map(|k| k.status),
        Some(ApiKeyStatus::Revoked)
    );
    assert_eq!(
        store.find_by_id("alice", &key.id).unwrap().map(|k| k.status),
        Some(ApiKeyStatus::Revoked)
    );
}

#[test]
fn replacing_a_list_leaves_exactly_the_new_models() {
    let mut store = ApiKeyRepo::new();
    create(&mut store, "alice", 1, Some(acl(&["a", "b", "c"], &[("a", 1), ("b", 2), ("c", 3)], 1, 1)), T0);
    let other = create(&mut store, "bob", 2, Some(acl(&["a", "z"], &[("a", 9), ("z", 8)], 4, 4)), T0);
    let mut p = no_patch();
    p.acl = Some(acl(&["b", "d"], &[("b", 20), ("d", 40)], 5, 6));
    let k = store.update_at("alice", "key-1", p, at(T0 + 1)).unwrap();
    assert_eq!(k.acl, acl(&["b", "d"], &[("b", 20), ("d", 40)], 5, 6));
    // No remnants, and the list of the other key is as it was.
    assert_eq!(store.find_by_id("bob", "key-2"), Ok(Some(other.clone())));
    // A list that names a model twice is refused, and nothing changes.
    let mut p = no_patch();
    p.status = Some(ApiKeyStatus::Revoked);
    p.acl = Some(acl(&["q", "q"], &[], 0, 0));
    assert_eq!(store.update_at("alice", "key-1", p, at(T0 + 2)), Err(Error::Database));
    assert_eq!(store.find_by_id("alice", "key-1"), Ok(Some(k)));
    // The empty list removes all models.
    let mut p = no_patch();
    p.acl = Some(acl(&[], &[], 0, 0));
    let k = store.update_at("alice", "key-1", p, at(T0 + 3)).unwrap();
    assert_eq!(k.acl, acl(&[], &[], 0, 0));
    assert_eq!(store.find_by_id("bob", "key-2"), Ok(Some(other)));
}

#[test]
fn delete_is_idempotent_and_keeps_the_row() {
    let mut store = ApiKeyRepo::new();
    let key = create(&mut store, "alice", 1, None, T0);
    assert_eq!(store.delete("alice", "nothing"), Ok(()));
    assert_eq!(store.delete("alice", &key.id), Ok(()));
    assert_eq!(store.delete("alice", &key.id), Ok(()));
    let kept = store.find_by_id("alice", &key.id).unwrap().unwrap();
    assert_eq!(kept, ApiKey { status: ApiKeyStatus::Revoked, ..key });
    assert_eq!(store.list(10, 0).unwrap().len(), 1);
}

#[test]
fn listings_are_newest_first_and_paged() {
    let mut store = ApiKeyRepo::new();
    create(&mut store, "alice", 1, None, T0 + 10);
    create(&mut store, "bob", 2, None, T0 + 40);
    create(&mut store, "alice", 3, None, T0 + 30);
    create(&mut store, "alice", 4, None, T0 + 20);
    create(&mut store, "alice", 5, None, T0 + 30);
    let ids = |v: Vec<ApiKey>| v.into_iter().map(|k| k.id).collect::<Vec<_>>();
    assert_eq!(
        ids(store.find_all("alice", 100, 0).unwrap()),
        vec!["key-3", "key-5", "key-4", "key-1"]
    );
    assert_eq!(
        ids(store.list(100, 0).unwrap()),
        vec!["key-2", "key-3", "key-5", "key-4", "key-1"]
    );
    assert_eq!(ids(store.find_all("alice", 2, 0).unwrap()), vec!["key-3", "key-5"]);
    assert_eq!(ids(store.find_all("alice", 2, 1).unwrap()), vec!["key-5", "key-4"]);
    assert_eq!(ids(store.find_all("alice", 2, 3).unwrap()), vec!["key-1"]);
    assert_eq!(ids(store.find_all("alice", 2, 4).unwrap()), Vec::<String>::new());
    assert_eq!(ids(store.find_all("alice", 0, 0).unwrap()), Vec::<String>::new());
    assert_eq!(ids(store.find_all("alice", i64::MAX, i64::MAX).unwrap()), Vec::<String>::new());
    assert_eq!(ids(store.list(i64::MAX, 4).unwrap()), vec!["key-1"]);
    assert_eq!(store.find_all("alice", -1, 0), Err(Error::Database));
    assert_eq!(store.find_all("alice", 1, -1), Err(Error::Database));
    assert_eq!(store.list(-1, -1), Err(Error::Database));
    assert_eq!(ids(service::list_api_keys(&store, "bob").unwrap()), vec!["key-2"]);
}

#[test]
fn the_service_lists_a_hundred_keys_at_most() {
    let mut store = ApiKeyRepo::new();
    for n in 0..103 {
        create(&mut store, "alice", n, None, T0 + n as i64);
    }
    let listed = service::list_api_keys(&store, "alice").unwrap();
    assert_eq!(listed.len(), 100);
    assert_eq!(listed[0].id, "key-102");
    assert_eq!(listed[99].id, "key-3");
    assert_eq!(service::LIST_LIMIT, 100);
}

#[test]
fn the_service_functions_forward_to_the_store() {
    let mut store = ApiKeyRepo::new();
    let key = service::create_api_key(&mut store, "alice", acl(&["m"], &[("m", 1)], 2, 3)).unwrap();
    assert!(key.key_hash.starts_with("sk-"));
    assert_eq!(key.expires_at, None);
    assert_eq!(key.metadata, None);
    assert_eq!(service::get_api_key(&store, "alice", &key.id), Ok(Some(key.clone())));
    assert_eq!(service::get_api_key(&store, "bob", &key.id), Ok(None));
    let changed =
        service::update_api_key(&mut store, "alice", &key.id, acl(&["n"], &[("n", 4)], 5, 6)).unwrap();
    assert_eq!(changed.acl, acl(&["n"], &[("n", 4)], 5, 6));
    assert_eq!(
        service::update_api_key(&mut store, "bob", &key.id, Acl::default()),
        Err(Error::NotFound)
    );
    assert_eq!(service::delete_api_key(&mut store, "bob", &key.id), Ok(()));
    assert_eq!(service::delete_api_key(&mut store, "alice", &key.id), Ok(()));
    let h = service::APIKeyHandlerViaCrateImpl;
    assert_eq!(
        h.get_api_key(&store, "alice".to_string(), key.id.clone()).map(|k| k.status),
        Ok(ApiKeyStatus::Revoked)
    );
    assert_eq!(h.get_api_key(&store, "bob".to_string(), key.id.clone()), Err(Error::NotFound));
    let second = h
        .create_api_key(
            &mut store,
            "alice".to_string(),
            CreateApiKey {
                expires_at: Some(at(1)),
                metadata: Some(JsonValue::Null),
                acl: None,
            },
        )
        .unwrap();
    assert_eq!(second.acl, Acl::default());
    assert_eq!(second.expires_at, None);
    assert_eq!(second.metadata, None);
    assert_eq!(h.list_api_keys(&store, "alice".to_string()).unwrap().len(), 2);
    assert_eq!(h.delete_api_key(&mut store, "alice".to_string(), second.id.clone()), Ok(()));
    assert!(h
        .update_api_key(&mut store, "alice".to_string(), second.id, acl(&["k"], &[], 1, 1))
        .is_ok());
}

#[test]
fn rows_map_to_keys_and_back() {
    let a = acl(&["m1", "m2"], &[("m2", 7)], 60, 3600);
    let (acl_row, model_rows) = acl_to_rows(&a, "acl-9", at(1), at(2));
    assert_eq!(acl_row.id, "acl-9");
    assert_eq!(acl_row.rate_limit_requests, 60);
    assert_eq!(acl_row.rate_limit_window, 3600);
    assert_eq!(acl_row.created_at, at(1));
    assert_eq!(acl_row.updated_at, at(2));
    assert_eq!(
        model_rows,
        vec![
            NewAclModelRow { acl_id: "acl-9".to_string(), model_name: "m1".to_string(), token_limit: 10_000 },
            NewAclModelRow { acl_id: "acl-9".to_string(), model_name: "m2".to_string(), token_limit: 7 },
        ]
    );
    let (_, none) = acl_to_rows(&Acl::default(), "x", at(0), at(0));
    assert!(none.is_empty());
    let stored_acl = AclRow {
        id: "acl-9".to_string(),
        rate_limit_requests: -1,
        rate_limit_window: 5,
        created_at: at(1),
        updated_at: at(2),
    };
    let stored_models = vec![
        AclModelRow { acl_id: "acl-9".to_string(), model_name: "m1".to_string(), token_limit: -1 },
        AclModelRow { acl_id: "acl-9".to_string(), model_name: "m2".to_string(), token_limit: 7 },
    ];
    let back = rows_to_acl(&stored_acl, &stored_models);
    assert_eq!(back, acl(&["m1", "m2"], &[("m1", u64::MAX), ("m2", 7)], u32::MAX, 5));
    let row = ApiKeyRow {
        id: "K".to_string(),
        user_id: "u".to_string(),
        key_hash: "T".to_string(),
        created_at: at(3),
        expires_at: Some(at(4)),
        metadata: Some(JsonValue::Bool(false)),
        status: "ReVoKeD".to_string(),
        acl_id: "acl-9".to_string(),
    };
    let key = to_api_key(&row, &stored_acl, &stored_models);
    assert_eq!(
        key,
        ApiKey {
            id: "K".to_string(),
            user_id: "u".to_string(),
            key_hash: "T".to_string(),
            created_at: at(3),
            expires_at: Some(at(4)),
            metadata: Some(JsonValue::Bool(false)),
            status: ApiKeyStatus::Revoked,
            acl: back,
        }
    );
}

#[test]
fn a_list_is_read_by_its_id() {
    let mut store = ApiKeyRepo::new();
    create(&mut store, "alice", 1, Some(acl(&["m", "n"], &[("m", 5), ("n", 6)], 2, 3)), T0);
    create(&mut store, "bob", 2, None, T0);
    assert_eq!(store.get_acl("acl-1"), Ok(acl(&["m", "n"], &[("m", 5), ("n", 6)], 2, 3)));
    assert_eq!(store.get_acl("acl-2"), Ok(Acl::default()));
    assert_eq!(store.get_acl("acl-3"), Err(Error::NotFound));
    assert_eq!(store.get_acl("key-1"), Err(Error::NotFound));
}

#[test]
fn a_row_without_its_list_does_not_read() {
    let store = ApiKeyRepo::new();
    let row = ApiKeyRow {
        id: "K".to_string(),
        user_id: "u".to_string(),
        key_hash: "T".to_string(),
        created_at: at(3),
        expires_at: None,
        metadata: None,
        status: "active".to_string(),
        acl_id: "nowhere".to_string(),
    };
    assert_eq!(store.get_api_key_dto(&row), Err(Error::Database));
}

#[test]
fn counts_keep_their_bits_in_signed_columns() {
    assert_eq!(to_signed32(0), 0);
    assert_eq!(to_signed32(i32::MAX as u32), i32::MAX);
    assert_eq!(to_signed32(i32::MAX as u32 + 1), i32::MIN);
    assert_eq!(to_signed32(u32::MAX), -1);
    assert_eq!(to_unsigned32(-1), u32::MAX);
    assert_eq!(to_unsigned32(i32::MIN), 1 << 31);
    assert_eq!(to_signed64(u64::MAX), -1);
    assert_eq!(to_signed64(1 << 63), i64::MIN);
    assert_eq!(to_signed64(12), 12);
    assert_eq!(to_unsigned64(i64::MIN), 1 << 63);
    assert_eq!(to_unsigned64(-2), u64::MAX - 1);
    for x in [0u32, 1, 1000, 3600, 0x7fff_ffff, 0x8000_0000, u32::MAX] {
        assert_eq!(to_unsigned32(to_signed32(x)), x);
    }
}

#[test]
fn budgets_are_looked_up_by_the_first_entry() {
    let entries = vec![limit("a", 1), limit("b", 2), limit("a", 3)];
    assert_eq!(find_limit(&entries, "a"), Some(1));
    assert_eq!(find_limit(&entries, "b"), Some(2));
    assert_eq!(find_limit(&entries, "c"), None);
    assert_eq!(find_limit(&Vec::new(), "a"), None);
}

#[test]
fn model_rows_are_distinct_by_list_and_model() {
    let row = |a: &str, m: &str| NewAclModelRow {
        acl_id: a.to_string(),
        model_name: m.to_string(),
        token_limit: 0,
    };
    assert!(models_distinct(&Vec::new()));
    assert!(models_distinct(&vec![row("a", "m")]));
    assert!(models_distinct(&vec![row("a", "m"), row("a", "n"), row("b", "m")]));
    assert!(!models_distinct(&vec![row("a", "m"), row("b", "m"), row("a", "m")]));
}

#[test]
fn status_is_written_strictly_and_read_leniently() {
    assert_eq!(ApiKeyStatus::Active.to_string(), "active");
    assert_eq!(ApiKeyStatus::Revoked.to_string(), "revoked");
    assert_eq!(ApiKeyStatus::Revoked.as_str(), "revoked");
    assert_eq!(ApiKeyStatus::from_text("revoked"), ApiKeyStatus::Revoked);
    assert_eq!(ApiKeyStatus::from_text("REVOKED"), ApiKeyStatus::Revoked);
    assert_eq!(ApiKeyStatus::from_text("Revoked"), ApiKeyStatus::Revoked);
    assert_eq!(ApiKeyStatus::from_text("active"), ApiKeyStatus::Active);
    assert_eq!(ApiKeyStatus::from_text("ACTIVE"), ApiKeyStatus::Active);
    assert_eq!(ApiKeyStatus::from_text(""), ApiKeyStatus::Active);
    assert_eq!(ApiKeyStatus::from_text("suspended"), ApiKeyStatus::Active);
    assert_eq!(ApiKeyStatus::from_text(" revoked"), ApiKeyStatus::Active);
    assert_eq!(ApiKeyStatus::from("REVOKED".to_string()), ApiKeyStatus::Revoked);
    assert_eq!(ApiKeyStatus::from("other".to_string()), ApiKeyStatus::Active);
}
