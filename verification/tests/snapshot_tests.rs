use martijn_cli::artifacts::{build_inventory_file_name, build_snapshot_file_name};
use martijn_cli::json::{json_to_text, sort_json_value, JsonMember, JsonValue};
use martijn_cli::model::AzureAccount;
use martijn_cli::snapshot::{
    assemble_snapshot_envelope, build_group_snapshot_envelope, build_snapshot_envelope,
    build_snapshot_resources, compare_snapshot_resources,
    fingerprint_normalized_resource, normalize_snapshot_resource, normalized_resource_json,
};
use sha2::Digest;

fn text(s: &str) -> JsonValue {
    JsonValue::Text(String::from(s))
}

fn obj(members: Vec<(&str, JsonValue)>) -> JsonValue {
    JsonValue::Object(
        members
            .into_iter()
            .map(|(k, v)| JsonMember { key: String::from(k), value: v })
            .collect(),
    )
}

fn to_serde(v: &JsonValue) -> serde_json::Value {
    match v {
        JsonValue::Null => serde_json::Value::Null,
        JsonValue::Bool(b) => serde_json::Value::Bool(*b),
        JsonValue::Number(t) => serde_json::from_str(t).expect("number text should parse"),
        JsonValue::Text(t) => serde_json::Value::String(t.clone()),
        JsonValue::Array(items) => serde_json::Value::Array(items.iter().map(to_serde).collect()),
        JsonValue::Object(members) => {
            let mut map = serde_json::Map::new();
            for m in members {
                map.insert(m.key.clone(), to_serde(&m.value));
            }
            serde_json::Value::Object(map)
        }
    }
}

fn storage_resource() -> JsonValue {
    obj(vec![
        ("id", text("resource-id")),
        ("name", text("storage")),
        ("type", text("Microsoft.Storage/storageAccounts")),
        ("resourceGroup", text("rg-data")),
        ("location", text("northeurope")),
    ])
}

#[test]
fn normalizes_representative_raw_azure_resource() {
    let raw_resource = obj(vec![
        ("id", text("/subscriptions/sub-123/resourceGroups/rg-app/providers/Microsoft.Web/sites/app-api")),
        ("name", text("app-api")),
        ("type", text("Microsoft.Web/sites")),
        ("resourceGroup", text("rg-app")),
        ("location", text("westeurope")),
        ("kind", text("app")),
        ("sku", obj(vec![("name", text("P1v3"))])),
        ("tags", obj(vec![("env", text("prod"))])),
    ]);
    let normalized = normalize_snapshot_resource(&raw_resource);
    assert_eq!(
        normalized.id,
        "/subscriptions/sub-123/resourceGroups/rg-app/providers/Microsoft.Web/sites/app-api"
    );
    assert_eq!(normalized.name, "app-api");
    assert_eq!(normalized.resource_type, "Microsoft.Web/sites");
    assert_eq!(normalized.resource_group, "rg-app");
    assert_eq!(normalized.location, "westeurope");
    assert_eq!(json_to_text(&normalized.kind), "\"app\"");
    assert_eq!(json_to_text(&normalized.sku), "{\"name\":\"P1v3\"}");
    assert_eq!(json_to_text(&normalized.tags), "{\"env\":\"prod\"}");
}

#[test]
fn normalizes_missing_optional_fields_to_defaults() {
    let normalized = normalize_snapshot_resource(&storage_resource());
    assert_eq!(json_to_text(&normalized.kind), "null");
    assert_eq!(json_to_text(&normalized.sku), "null");
    assert_eq!(json_to_text(&normalized.tags), "{}");
}

#[test]
fn fingerprint_is_stable_for_same_normalized_resource() {
    let normalized = normalize_snapshot_resource(&storage_resource());
    let first_fingerprint = fingerprint_normalized_resource(&normalized);
    let second_fingerprint = fingerprint_normalized_resource(&normalized);
    assert_eq!(first_fingerprint, second_fingerprint);
    assert_eq!(first_fingerprint.len(), 64);
}

#[test]
fn fingerprint_is_the_sha256_of_the_compact_normalized_json() {
    let normalized = normalize_snapshot_resource(&storage_resource());
    let json = normalized_resource_json(&normalized);
    assert_eq!(
        json,
        "{\"id\":\"resource-id\",\"name\":\"storage\",\"type\":\"Microsoft.Storage/storageAccounts\",\"resourceGroup\":\"rg-data\",\"location\":\"northeurope\",\"kind\":null,\"sku\":null,\"tags\":{}}"
    );
    let expected: String = sha2::Sha256::digest(json.as_bytes()).iter().map(|b| format!("{b:02x}")).collect();
    assert_eq!(fingerprint_normalized_resource(&normalized), expected);
    assert_ne!(fingerprint_normalized_resource(&normalized), json);
}

#[test]
fn snapshot_file_name_uses_expected_prefix_and_extension() {
    let file_name = build_snapshot_file_name();
    assert!(file_name.starts_with("azure-snapshot-"));
    assert!(file_name.ends_with(".json"));
}

#[test]
fn inventory_file_name_uses_expected_prefix_and_extension() {
    let file_name = build_inventory_file_name();
    assert!(file_name.starts_with("azure-inventory-"));
    assert!(file_name.ends_with(".md"));
}

#[test]
fn sorting_json_orders_object_keys_at_every_depth() {
    let value = obj(vec![
        ("b", JsonValue::Array(vec![obj(vec![("z", JsonValue::Null), ("a", JsonValue::Bool(true))])])),
        ("a", JsonValue::Number(String::from("12"))),
    ]);
    let sorted = sort_json_value(&value);
    assert_eq!(json_to_text(&sorted), "{\"a\":12,\"b\":[{\"a\":true,\"z\":null}]}");
}

#[test]
fn compact_json_text_matches_serde_json() {
    let value = obj(vec![
        ("quote\"back\\slash", text("line\nbreak\ttab\u{1}\u{7f}é")),
        ("list", JsonValue::Array(vec![JsonValue::Number(String::from("-1.5")), JsonValue::Null, text("")])),
        ("flag", JsonValue::Bool(false)),
        ("empty", JsonValue::Object(Vec::new())),
    ]);
    let sorted = sort_json_value(&value);
    assert_eq!(json_to_text(&sorted), serde_json::to_string(&to_serde(&value)).expect("serializes"));
}

#[test]
fn snapshot_resources_are_sorted_by_type_group_name_and_id() {
    let raws = vec![
        obj(vec![("id", text("2")), ("name", text("b")), ("type", text("T")), ("resourceGroup", text("g"))]),
        obj(vec![("id", text("1")), ("name", text("A")), ("type", text("t")), ("resourceGroup", text("g"))]),
        obj(vec![("id", text("3")), ("name", text("c")), ("type", text("S")), ("resourceGroup", text("z"))]),
    ];
    let account = AzureAccount {
        name: String::from("Prod"),
        subscription_id: String::from("sub-123"),
        user: String::from("user@example.com"),
    };
    let envelope = assemble_snapshot_envelope(&account, String::from("2026-04-28T17:15:46Z"), raws);
    let ids: Vec<&str> = envelope.resources.iter().map(|r| r.normalized.id.as_str()).collect();
    assert_eq!(ids, vec!["3", "1", "2"]);
    assert_eq!(envelope.subscription.id, "sub-123");
    assert_eq!(envelope.generated_at, "2026-04-28T17:15:46Z");
    assert_eq!(
        compare_snapshot_resources(&envelope.resources[0], &envelope.resources[1]),
        std::cmp::Ordering::Less
    );
}

#[test]
fn snapshot_entries_keep_the_raw_value() {
    let built = build_snapshot_resources(vec![storage_resource()]);
    assert_eq!(built.len(), 1);
    assert_eq!(json_to_text(&built[0].raw), json_to_text(&storage_resource()));
    assert_eq!(built[0].fingerprint, fingerprint_normalized_resource(&built[0].normalized));
}

#[test]
fn snapshot_envelopes_are_stamped_with_the_current_time() {
    let account = AzureAccount {
        name: String::from("Prod"),
        subscription_id: String::from("sub-123"),
        user: String::from("user@example.com"),
    };
    let envelope = build_snapshot_envelope(&account, vec![storage_resource()]).expect("snapshot should build");
    assert!(envelope.generated_at.ends_with('Z'));
    assert_eq!(&envelope.generated_at[4..5], "-");
    assert_eq!(&envelope.generated_at[10..11], "T");
    assert_eq!(envelope.subscription.id, "sub-123");
    assert_eq!(envelope.resources.len(), 1);

    let groups = build_group_snapshot_envelope(
        &account,
        vec![obj(vec![("id", text("/g/b")), ("name", text("rg-b"))]), obj(vec![("id", text("/g/a")), ("name", text("RG-a"))])],
    )
    .expect("group snapshot should build");
    assert!(groups.generated_at.ends_with('Z'));
    assert_eq!(groups.groups[0].normalized.name, "RG-a");
    assert_eq!(groups.groups[1].normalized.name, "rg-b");
    assert_eq!(groups.groups[0].fingerprint.len(), 64);
}
