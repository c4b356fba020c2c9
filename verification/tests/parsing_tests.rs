use martijn_cli::inventory::display_value;
use martijn_cli::json::{raw_values_from_json, JsonValue};
use martijn_cli::login::validate_tenant;
use martijn_cli::model::AzureResourceReportItem;
use martijn_cli::report::sort_resources;

#[test]
fn azure_cli_arrays_are_read_item_by_item() {
    let items = raw_values_from_json(r#"[{"name":"a","count":5},null,"x"]"#, "resource")
        .expect("array should be read");
    assert_eq!(items.len(), 3);
    match &items[0] {
        JsonValue::Object(members) => {
            assert_eq!(members[0].key, "count");
            assert!(matches!(&members[0].value, JsonValue::Number(n) if n == "5"));
            assert_eq!(members[1].key, "name");
        }
        _ => panic!("the first item should be an object"),
    }
    assert!(matches!(items[1], JsonValue::Null));
    assert!(matches!(&items[2], JsonValue::Text(t) if t == "x"));
}

#[test]
fn invalid_azure_cli_output_names_the_snapshot_kind() {
    let error = raw_values_from_json("{\"not\":\"an array\"}", "group")
        .err()
        .expect("an object is not an array");
    assert!(error.starts_with("Azure CLI returned invalid group snapshot JSON: "));
    assert!(error.len() > "Azure CLI returned invalid group snapshot JSON: ".len());
}

#[test]
fn tenants_may_use_every_uuid_form() {
    assert!(validate_tenant("550e8400-e29b-41d4-a716-446655440000").is_ok());
    assert!(validate_tenant("550E8400E29B41D4A716446655440000").is_ok());
    assert!(validate_tenant("{550e8400-e29b-41d4-a716-446655440000}").is_ok());
    assert!(validate_tenant("URN:uuid:550e8400-e29b-41d4-a716-446655440000").is_ok());
    assert!(validate_tenant("550e8400e29b-41d4-a716-4466554400000").is_err());
    assert!(validate_tenant("550e8400-e29b-41d4-a716-44665544000g").is_err());
}

#[test]
fn unicode_white_space_is_trimmed() {
    assert_eq!(display_value("\u{3000}value\u{00a0}"), "value");
    assert_eq!(display_value("\u{2028}\u{205f}"), "-");
}

fn resource(name: &str, resource_type: &str, location: &str) -> AzureResourceReportItem {
    AzureResourceReportItem {
        name: String::from(name),
        resource_type: String::from(resource_type),
        location: String::from(location),
        kind: None,
        tags: None,
        sku: None,
    }
}

#[test]
fn resources_with_equal_keys_keep_their_order() {
    let mut resources = vec![
        resource("app", "Web", "first"),
        resource("db", "Sql", "only"),
        resource("APP", "web", "second"),
        resource("App", "WEB", "third"),
    ];
    sort_resources(&mut resources);
    let order: Vec<&str> = resources.iter().map(|r| r.location.as_str()).collect();
    assert_eq!(order, vec!["only", "first", "second", "third"]);
}
