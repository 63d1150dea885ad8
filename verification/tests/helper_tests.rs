use lightbridge_authz::api_key::{Acl, ApiKey, ApiKeyStatus, ModelLimit, RateLimit};
use lightbridge_authz::json::{JsonField, JsonNumber, JsonValue};
use lightbridge_authz::metadata::{
    api_key_to_dynamic_metadata, json_map_to_prost_struct, json_value_to_prost_value, Field,
    Number, Struct, Value, MAX_EXACT,
};
use lightbridge_authz::server::AuthServer;
use lightbridge_authz::store::ApiKeyRepo;
use lightbridge_authz::time::Timestamp;

fn field(name: &str, value: JsonValue) -> JsonField {
    JsonField { name: name.to_string(), value }
}

fn text(s: &str) -> JsonValue {
    JsonValue::String(s.to_string())
}

fn get<'a>(fields: &'a [Field], name: &str) -> Option<&'a Value> {
    fields.iter().find(|f| f.name == name).map(|f| &f.value)
}

fn sample_key(metadata: Option<JsonValue>) -> ApiKey {
    ApiKey {
        id: "test_api_key_id".to_string(),
        user_id: "test_user_id".to_string(),
        key_hash: "hashed_token".to_string(),
        created_at: Timestamp::from_micros(1_700_000_000_000_000),
        expires_at: None,
        metadata,
        status: ApiKeyStatus::Active,
        acl: Acl {
            allowed_models: vec!["model1".to_string(), "model2".to_string()],
            tokens_per_model: Vec::new(),
            rate_limit: RateLimit { requests: 100, window_seconds: 60 },
        },
    }
}

#[test]
fn test_json_value_to_prost_value() {
    let test_json = JsonValue::Object(vec![
        field("string_field", text("value")),
        field("number_field", JsonValue::Number(JsonNumber::Float(42.5f64.to_bits()))),
        field("bool_field", JsonValue::Bool(true)),
        field("null_field", JsonValue::Null),
        field(
            "array_field",
            JsonValue::Array(vec![
                JsonValue::Number(JsonNumber::PosInt(1)),
                JsonValue::Number(JsonNumber::PosInt(2)),
                JsonValue::Number(JsonNumber::PosInt(3)),
            ]),
        ),
        field("object_field", JsonValue::Object(vec![field("nested_string", text("nested_value"))])),
    ]);

    let auth_server = AuthServer::new(ApiKeyRepo::new());
    let prost_value = auth_server.json_value_to_prost_value(test_json);

    let struct_value = match prost_value {
        Value::Struct(s) => s,
        _ => panic!("Expected StructValue"),
    };

    assert_eq!(get(&struct_value, "string_field"), Some(&Value::String("value".to_string())));
    match get(&struct_value, "number_field") {
        Some(Value::Number(Number::Float(bits))) => assert_eq!(f64::from_bits(*bits), 42.5),
        other => panic!("Expected a number, got {:?}", other),
    }
    assert_eq!(get(&struct_value, "bool_field"), Some(&Value::Bool(true)));
    assert_eq!(get(&struct_value, "null_field"), Some(&Value::Null));

    let array_value = match get(&struct_value, "array_field") {
        Some(Value::List(l)) => Some(l),
        _ => None,
    };
    assert!(array_value.is_some());
    assert_eq!(array_value.unwrap().len(), 3);
    assert_eq!(
        array_value.unwrap(),
        &vec![
            Value::Number(Number::Int(1)),
            Value::Number(Number::Int(2)),
            Value::Number(Number::Int(3)),
        ]
    );

    let nested_object = match get(&struct_value, "object_field") {
        Some(Value::Struct(s)) => Some(s),
        _ => None,
    };
    assert!(nested_object.is_some());
    assert_eq!(
        get(nested_object.unwrap(), "nested_string"),
        Some(&Value::String("nested_value".to_string()))
    );
}

#[test]
fn test_api_key_to_dynamic_metadata() {
    let auth_server = AuthServer::new(ApiKeyRepo::new());
    let api_key = sample_key(None);

    let result = auth_server.api_key_to_dynamic_metadata(api_key);
    assert!(result.is_ok());
    let dynamic_metadata = result.unwrap();

    assert_eq!(dynamic_metadata.get("user_id"), Some(&Value::String("test_user_id".to_string())));
    assert_eq!(
        dynamic_metadata.get("api_key_id"),
        Some(&Value::String("test_api_key_id".to_string()))
    );
    assert_eq!(
        dynamic_metadata.get("api_key_name"),
        Some(&Value::String("test_api_key_id".to_string()))
    );
    // The fields of the list stand at the top level, not under `permissions`.
    assert_eq!(dynamic_metadata.get("permissions"), None);
    let allowed_models = match dynamic_metadata.get("allowed_models") {
        Some(Value::List(l)) => Some(l),
        _ => None,
    };
    assert!(allowed_models.is_some());
    assert_eq!(allowed_models.unwrap().len(), 2);
    assert_eq!(
        allowed_models.unwrap(),
        &vec![Value::String("model1".to_string()), Value::String("model2".to_string())]
    );
    assert_eq!(dynamic_metadata.get("tokens_per_model"), Some(&Value::Struct(Vec::new())));
    assert_eq!(
        dynamic_metadata.get("rate_limit_requests"),
        Some(&Value::Number(Number::Int(100)))
    );
    assert_eq!(
        dynamic_metadata.get("rate_limit_window_seconds"),
        Some(&Value::Number(Number::Int(60)))
    );
    assert_eq!(dynamic_metadata.fields.len(), 7);
}

#[test]
fn dynamic_metadata_has_the_built_in_fields_in_order() {
    let names: Vec<String> = api_key_to_dynamic_metadata(sample_key(None))
        .unwrap()
        .fields
        .into_iter()
        .map(|f| f.name)
        .collect();
    assert_eq!(
        names,
        vec![
            "user_id",
            "api_key_id",
            "api_key_name",
            "allowed_models",
            "tokens_per_model",
            "rate_limit_requests",
            "rate_limit_window_seconds",
        ]
    );
}

#[test]
fn custom_metadata_is_merged_at_the_top_level() {
    let metadata = JsonValue::Object(vec![
        field("custom_data", text("value")),
        field("team", JsonValue::Number(JsonNumber::PosInt(7))),
    ]);
    let m = api_key_to_dynamic_metadata(sample_key(Some(metadata))).unwrap();
    assert_eq!(m.fields.len(), 9);
    assert_eq!(m.get("custom_data"), Some(&Value::String("value".to_string())));
    assert_eq!(m.get("team"), Some(&Value::Number(Number::Int(7))));
    assert_eq!(m.fields[7].name, "custom_data");
    assert_eq!(m.fields[8].name, "team");
}

#[test]
fn custom_metadata_cannot_shadow_built_in_fields() {
    let metadata = JsonValue::Object(vec![
        field("user_id", text("mallory")),
        field("rate_limit_requests", JsonValue::Number(JsonNumber::PosInt(1_000_000))),
        field("allowed_models", JsonValue::Array(vec![text("everything")])),
        field("api_key_id", text("x")),
        field("api_key_name", text("x")),
        field("tokens_per_model", JsonValue::Null),
        field("rate_limit_window_seconds", JsonValue::Number(JsonNumber::PosInt(1))),
        field("note", text("kept")),
    ]);
    let m = api_key_to_dynamic_metadata(sample_key(Some(metadata))).unwrap();
    assert_eq!(m.get("user_id"), Some(&Value::String("test_user_id".to_string())));
    assert_eq!(m.get("rate_limit_requests"), Some(&Value::Number(Number::Int(100))));
    assert_eq!(m.get("note"), Some(&Value::String("kept".to_string())));
    assert_eq!(m.fields.len(), 8);
    assert_eq!(m.fields.iter().filter(|f| f.name == "user_id").count(), 1);
}

#[test]
fn metadata_that_is_not_an_object_adds_nothing() {
    for metadata in [
        text("plain"),
        JsonValue::Array(vec![text("a")]),
        JsonValue::Null,
        JsonValue::Bool(true),
        JsonValue::Number(JsonNumber::PosInt(3)),
    ] {
        let m = api_key_to_dynamic_metadata(sample_key(Some(metadata))).unwrap();
        assert_eq!(m.fields.len(), 7);
    }
}

#[test]
fn token_budgets_become_a_structure() {
    let mut key = sample_key(None);
    key.acl.tokens_per_model = vec![
        ModelLimit { model: "model1".to_string(), tokens: 100_000 },
        ModelLimit { model: "model2".to_string(), tokens: u64::MAX },
    ];
    let m = api_key_to_dynamic_metadata(key).unwrap();
    assert_eq!(
        m.get("tokens_per_model"),
        Some(&Value::Struct(vec![
            Field { name: "model1".to_string(), value: Value::Number(Number::Int(100_000)) },
            Field {
                name: "model2".to_string(),
                value: Value::String("18446744073709551615".to_string()),
            },
        ]))
    );
}

#[test]
fn integers_up_to_two_to_the_53_stay_numbers() {
    assert_eq!(MAX_EXACT, 1u64 << 53);
    let n = |x| json_value_to_prost_value(JsonValue::Number(x));
    assert_eq!(n(JsonNumber::PosInt(0)), Value::Number(Number::Int(0)));
    assert_eq!(
        n(JsonNumber::PosInt(9_007_199_254_740_992)),
        Value::Number(Number::Int(9_007_199_254_740_992))
    );
    assert_eq!(
        n(JsonNumber::PosInt(9_007_199_254_740_993)),
        Value::String("9007199254740993".to_string())
    );
    assert_eq!(n(JsonNumber::NegInt(-1)), Value::Number(Number::Int(-1)));
    assert_eq!(
        n(JsonNumber::NegInt(-9_007_199_254_740_992)),
        Value::Number(Number::Int(-9_007_199_254_740_992))
    );
    assert_eq!(
        n(JsonNumber::NegInt(-9_007_199_254_740_993)),
        Value::String("-9007199254740993".to_string())
    );
    assert_eq!(n(JsonNumber::NegInt(i64::MIN)), Value::String("-9223372036854775808".to_string()));
    assert_eq!(n(JsonNumber::PosInt(u64::MAX)), Value::String("18446744073709551615".to_string()));
    let bits = (-0.125f64).to_bits();
    assert_eq!(n(JsonNumber::Float(bits)), Value::Number(Number::Float(bits)));
}

#[test]
fn json_map_becomes_a_struct_member_by_member() {
    let members = vec![field("a", JsonValue::Bool(false)), field("b", JsonValue::Array(Vec::new()))];
    let s = json_map_to_prost_struct(&members);
    assert_eq!(
        s,
        Struct {
            fields: vec![
                Field { name: "a".to_string(), value: Value::Bool(false) },
                Field { name: "b".to_string(), value: Value::List(Vec::new()) },
            ]
        }
    );
    assert_eq!(json_map_to_prost_struct(&Vec::new()), Struct { fields: Vec::new() });
    let auth_server = AuthServer::new(ApiKeyRepo::new());
    assert_eq!(
        auth_server.json_map_to_prost_struct(vec![field("n", JsonValue::Null)]),
        Struct { fields: vec![Field { name: "n".to_string(), value: Value::Null }] }
    );
}

#[test]
fn struct_get_gives_the_first_field_of_a_name() {
    let s = Struct {
        fields: vec![
            Field { name: "k".to_string(), value: Value::Bool(true) },
            Field { name: "k".to_string(), value: Value::Bool(false) },
        ],
    };
    assert_eq!(s.get("k"), Some(&Value::Bool(true)));
    assert_eq!(s.get("K"), None);
    assert_eq!(s.get(""), None);
}

#[test]
fn json_clone_is_a_deep_copy() {
    let v = JsonValue::Object(vec![field(
        "a",
        JsonValue::Array(vec![text("x"), JsonValue::Object(vec![field("b", JsonValue::Null)])]),
    )]);
    assert_eq!(v.clone(), v);
}
