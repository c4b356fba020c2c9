use martijn_cli::artifacts::{build_inventory_report_file_name, slugify_file_stem, InventoryReportKind};
use martijn_cli::inventory::{
    account_from_resource_snapshot, build_service_principal_login_arguments, decode_azure_cli_json_output, display_value,
    ensure_trailing_newline, group_list_items_from_snapshot, inventory_groups_from_resource_snapshot,
    parse_account_from_tsv, render_groups_list_text, render_resources_list_text,
    render_inventory_groups_list_from_snapshot, render_inventory_resources_tree_from_snapshot,
    render_resources_tree_markdown, render_resources_tree_text, render_saved_inventory_markdown,
    render_saved_resources_tree_markdown_from_view, report_tags_from_json_value, requested_report_name,
    status_message,
    resource_list_items_from_snapshot, resource_tree_items_from_snapshot,
    resource_tree_view_from_snapshot, AzureSubscriptionResourceListItem,
};
use martijn_cli::json::{JsonMember, JsonValue};
use martijn_cli::model::{AzureAccount, AzureResourceGroupReportItem};
use martijn_cli::snapshot::{
    AzureGroupSnapshotEnvelope, AzureSnapshotEnvelope, AzureSnapshotGroup,
    AzureSnapshotNormalizedGroup, AzureSnapshotNormalizedResource, AzureSnapshotResource,
    AzureSnapshotSubscription,
};

fn text(s: &str) -> JsonValue {
    JsonValue::Text(String::from(s))
}

fn obj(members: Vec<(&str, JsonValue)>) -> JsonValue {
    JsonValue::Object(
        members
            .into_iter()
            .map(|(k, v)| JsonMember { key: String::from(k), value: v })
            .collect(),
    )
}

fn sample_snapshot_subscription() -> AzureSnapshotSubscription {
    AzureSnapshotSubscription {
        id: String::from("sub"),
        name: String::from("subscription"),
        user: String::from("user@example.com"),
    }
}

fn resource(name: &str, resource_type: &str, group: &str, location: &str) -> AzureSnapshotResource {
    AzureSnapshotResource {
        normalized: AzureSnapshotNormalizedResource {
            id: format!("/subscriptions/sub/resourceGroups/{group}/providers/web/{name}"),
            name: String::from(name),
            resource_type: String::from(resource_type),
            resource_group: String::from(group),
            location: String::from(location),
            kind: JsonValue::Null,
            sku: obj(vec![("name", text("P1v3"))]),
            tags: obj(vec![("env", text("prod"))]),
        },
        fingerprint: String::from("resource-fingerprint"),
        raw: JsonValue::Object(Vec::new()),
    }
}

fn sample_resource_snapshot() -> AzureSnapshotEnvelope {
    AzureSnapshotEnvelope {
        generated_at: String::from("2026-04-28T17:15:46Z"),
        subscription: sample_snapshot_subscription(),
        resources: vec![resource("app-api", "Microsoft.Web/sites", "rg-app", "westeurope")],
    }
}

fn sample_group_snapshot() -> AzureGroupSnapshotEnvelope {
    AzureGroupSnapshotEnvelope {
        generated_at: String::from("2026-04-28T17:15:55Z"),
        subscription: sample_snapshot_subscription(),
        groups: vec![AzureSnapshotGroup {
            normalized: AzureSnapshotNormalizedGroup {
                id: String::from("/subscriptions/sub/resourceGroups/rg-app"),
                name: String::from("rg-app"),
                location: String::from("westeurope"),
                tags: JsonValue::Object(Vec::new()),
                managed_by: JsonValue::Null,
            },
            fingerprint: String::from("group-fingerprint"),
            raw: JsonValue::Object(Vec::new()),
        }],
    }
}

#[test]
fn parses_account_from_expected_tsv_output() {
    let raw_output = "My Subscription\n00000000-0000-0000-0000-000000000000\nalice@example.com\n";
    let account = parse_account_from_tsv(raw_output).expect("account should parse");
    assert_eq!(account.name, "My Subscription");
    assert_eq!(account.subscription_id, "00000000-0000-0000-0000-000000000000");
    assert_eq!(account.user, "alice@example.com");
}

#[test]
fn account_needs_exactly_three_non_empty_lines() {
    assert!(parse_account_from_tsv("a\n\n  b  \r\nc\r\n").is_some());
    assert!(parse_account_from_tsv("a\nb\n").is_none());
    assert!(parse_account_from_tsv("a\nb\nc\nd").is_none());
    assert!(parse_account_from_tsv("").is_none());
}

#[test]
fn builds_service_principal_login_arguments_in_expected_order() {
    let arguments = build_service_principal_login_arguments("tenant-id", "client-id", "secret-value");
    assert_eq!(
        arguments,
        [
            "login",
            "--service-principal",
            "--tenant",
            "tenant-id",
            "--username",
            "client-id",
            "--password",
            "secret-value",
        ]
    );
}

#[test]
fn keeps_valid_utf8_json_output_unchanged() {
    let stdout_bytes = br#"{"name":"storage-account"}"#;
    let decoded_output = decode_azure_cli_json_output(stdout_bytes);
    assert_eq!(decoded_output, r#"{"name":"storage-account"}"#);
}

#[test]
fn replaces_invalid_utf8_bytes_when_decoding_json_output() {
    let stdout_bytes = b"{\"name\":\"stor\xffage-account\"}";
    let decoded_output = decode_azure_cli_json_output(stdout_bytes);
    assert_eq!(decoded_output, "{\"name\":\"stor\u{FFFD}age-account\"}");
}

#[test]
fn slugify_file_stem_normalizes_custom_names() {
    let slug = slugify_file_stem(" Daily Report! ");
    assert_eq!(slug, "daily-report");
}

#[test]
fn slug_of_a_name_without_safe_characters_is_report() {
    assert_eq!(slugify_file_stem("  !!  "), "report");
    assert_eq!(slugify_file_stem("..a..b.."), "a..b");
}

#[test]
fn inventory_report_file_name_adds_markdown_extension_to_custom_name() {
    let file_name = build_inventory_report_file_name(InventoryReportKind::ResourcesList, Some("Daily Run"));
    assert_eq!(file_name, "daily-run.md");
}

#[test]
fn render_resources_list_text_prints_expected_columns() {
    let resources = vec![AzureSubscriptionResourceListItem {
        name: String::from("app-api"),
        resource_type: String::from("Microsoft.Web/sites"),
        resource_group: String::from("rg-app"),
        location: String::from("westeurope"),
    }];
    let output = render_resources_list_text(&resources);
    assert!(output.contains("app-api | Microsoft.Web/sites | rg-app | westeurope"));
}

#[test]
fn empty_resource_list_prints_a_row_of_dashes() {
    let output = render_resources_list_text(&Vec::new());
    assert_eq!(
        output,
        "Azure resources\nName | Type | Group | Location\n---- | ---- | ----- | --------\n- | - | - | -\n"
    );
}

#[test]
fn resource_snapshot_converts_to_resource_list_rows() {
    let resources = resource_list_items_from_snapshot(sample_resource_snapshot());
    let output = render_resources_list_text(&resources);
    assert!(output.contains("app-api | Microsoft.Web/sites | rg-app | westeurope"));
}

#[test]
fn group_snapshot_converts_to_group_list_rows() {
    let groups = group_list_items_from_snapshot(sample_group_snapshot());
    let output = render_groups_list_text(&groups);
    assert!(output.contains("rg-app | westeurope"));
}

#[test]
fn resource_snapshot_tree_renders_only_group_and_resource_names() {
    let grouped_resources = resource_tree_items_from_snapshot(sample_resource_snapshot());
    let output = render_resources_tree_text("subscription", &grouped_resources);
    assert_eq!(output, "subscription\n └── rg-app\n      └── app-api\n");
    assert!(!output.contains("```"));
    assert!(!output.contains("Microsoft.Web/sites"));
    assert!(!output.contains("westeurope"));
}

#[test]
fn tree_groups_sort_groups_and_names() {
    let snapshot = AzureSnapshotEnvelope {
        generated_at: String::new(),
        subscription: sample_snapshot_subscription(),
        resources: vec![
            resource("web-b", "t", "rg-b", "x"),
            resource("Web-a", "t", "rg-b", "x"),
            resource("db", "t", "rg-a", "x"),
            resource("  ", "t", "", "x"),
        ],
    };
    let view = resource_tree_view_from_snapshot(snapshot);
    assert_eq!(view.resource_group_count, 3);
    assert_eq!(view.total_resources, 4);
    assert_eq!(
        view.tree_body,
        "subscription\n ├── -\n      └── -\n ├── rg-a\n      └── db\n └── rg-b\n      ├── Web-a\n      └── web-b\n"
    );
}

#[test]
fn render_groups_list_text_prints_expected_columns() {
    let groups = vec![AzureResourceGroupReportItem {
        name: String::from("rg-app"),
        location: String::from("westeurope"),
    }];
    let output = render_groups_list_text(&groups);
    assert!(output.contains("rg-app | westeurope"));
}

#[test]
fn display_values_are_trimmed_with_a_dash_for_empty() {
    assert_eq!(display_value("  a b "), "a b");
    assert_eq!(display_value("   "), "-");
}

#[test]
fn saved_markdown_wraps_the_body_in_one_fence() {
    assert_eq!(render_saved_inventory_markdown("Title", "body"), "# Title\n\n```text\nbody\n```\n");
    assert_eq!(render_saved_inventory_markdown("Title", "body\n"), "# Title\n\n```text\nbody\n```\n");
    assert_eq!(ensure_trailing_newline("x"), "x\n");
    assert_eq!(ensure_trailing_newline("x\n"), "x\n");
}

#[test]
fn inventory_groups_come_from_snapshot_resources() {
    let snapshot = AzureSnapshotEnvelope {
        generated_at: String::new(),
        subscription: sample_snapshot_subscription(),
        resources: vec![
            resource("web", "Microsoft.Web/sites", "rg-B", "westeurope"),
            resource("db", "Microsoft.Sql/servers", "rg-B", "northeurope"),
            resource("vm", "Microsoft.Compute/virtualMachines", "rg-a", "westeurope"),
        ],
    };
    let groups = inventory_groups_from_resource_snapshot(snapshot);
    assert_eq!(groups.len(), 2);
    assert_eq!(groups[0].resource_group.name, "rg-a");
    assert_eq!(groups[1].resource_group.name, "rg-B");
    assert_eq!(groups[1].resource_group.location, "");
    assert_eq!(groups[1].resources[0].name, "db");
    assert_eq!(groups[1].resources[1].name, "web");
    let sku = groups[0].resources[0].sku.as_ref().expect("sku should be read");
    assert_eq!(sku.name.as_deref(), Some("P1v3"));
    let tags = groups[0].resources[0].tags.as_ref().expect("tags should be read");
    assert_eq!(tags.len(), 1);
    assert_eq!(tags[0].key, "env");
    assert_eq!(tags[0].value, "prod");
}

#[test]
fn tag_values_that_are_not_strings_are_shown_as_json() {
    let tags = report_tags_from_json_value(&obj(vec![
        ("b", JsonValue::Number(String::from("5"))),
        ("a", text("x")),
        ("c", JsonValue::Bool(true)),
    ]))
    .expect("tags should be read");
    let pairs: Vec<(String, String)> = tags.into_iter().map(|t| (t.key, t.value)).collect();
    assert_eq!(
        pairs,
        vec![
            (String::from("a"), String::from("x")),
            (String::from("b"), String::from("5")),
            (String::from("c"), String::from("true")),
        ]
    );
    assert!(report_tags_from_json_value(&obj(vec![])).is_none());
    assert!(report_tags_from_json_value(&text("x")).is_none());
}

#[test]
fn saved_tree_markdown_includes_metadata_and_one_code_block() {
    let tree_view = resource_tree_view_from_snapshot(sample_resource_snapshot());
    let markdown = render_saved_resources_tree_markdown_from_view(tree_view);
    assert!(markdown.starts_with("# Azure resources Inventory tree\n\n"));
    assert!(markdown.contains("- Subscription: subscription (sub)"));
    assert!(markdown.contains("- Azure user: user@example.com"));
    assert!(markdown.contains("- Resource groups: 1"));
    assert!(markdown.contains("- Total resources: 1"));
    assert!(markdown.contains("subscription\n └── rg-app\n      └── app-api\n"));
    assert_eq!(markdown.matches("```text").count(), 1);
}

#[test]
fn inventory_resources_tree_uses_the_saved_markdown_template_shape() {
    let command_markdown = render_inventory_resources_tree_from_snapshot(sample_resource_snapshot());
    let tree_view = resource_tree_view_from_snapshot(sample_resource_snapshot());
    let saved_markdown = render_saved_resources_tree_markdown_from_view(tree_view);
    assert!(command_markdown.starts_with("# Azure resources Inventory tree\n\n"));
    assert!(command_markdown.contains("```text\nsubscription\n └── rg-app\n      └── app-api\n"));
    assert_eq!(command_markdown, saved_markdown);
}

#[test]
fn tree_markdown_has_the_exact_layout() {
    let tree_view = resource_tree_view_from_snapshot(sample_resource_snapshot());
    assert_eq!(
        render_resources_tree_markdown(&tree_view, "2026-04-28 17:15 UTC"),
        "# Azure resources Inventory tree\n\n- Generated: 2026-04-28 17:15 UTC\n- Subscription: subscription (sub)\n- Azure user: user@example.com\n- Resource groups: 1\n- Total resources: 1\n\n```text\nsubscription\n └── rg-app\n      └── app-api\n```\n"
    );
}

#[test]
fn group_list_of_a_snapshot_is_sorted_by_name() {
    let mut snapshot = sample_group_snapshot();
    let mut second = sample_group_snapshot().groups.remove(0);
    second.normalized.name = String::from("Alpha");
    second.normalized.location = String::from(" ");
    snapshot.groups.push(second);
    assert_eq!(
        render_inventory_groups_list_from_snapshot(snapshot),
        "Azure resource groups\nName | Location\n---- | --------\nAlpha | -\nrg-app | westeurope\n"
    );
}

#[test]
fn status_line_names_user_subscription_and_id() {
    let account = AzureAccount {
        name: String::from("Prod"),
        subscription_id: String::from("sub-123"),
        user: String::from("alice@example.com"),
    };
    assert_eq!(status_message(&Some(account)), "Logged in as alice@example.com (Prod) on subscription sub-123");
    assert_eq!(status_message(&None), "Not logged in to Azure CLI.");
}

#[test]
fn save_requests_distinguish_generated_and_custom_names() {
    assert_eq!(requested_report_name(&None), None);
    assert_eq!(requested_report_name(&Some(String::from("  "))), Some(None));
    assert_eq!(
        requested_report_name(&Some(String::from("daily report"))),
        Some(Some(String::from("daily report")))
    );
}

#[test]
fn snapshot_subscription_becomes_the_account() {
    let account = account_from_resource_snapshot(&sample_resource_snapshot());
    assert_eq!(account.name, "subscription");
    assert_eq!(account.subscription_id, "sub");
    assert_eq!(account.user, "user@example.com");
}

#[test]
fn tree_and_inventory_list_every_resource_once() {
    let snapshot = || AzureSnapshotEnvelope {
        generated_at: String::new(),
        subscription: sample_snapshot_subscription(),
        resources: vec![
            resource("a", "t", "rg-2", "x"),
            resource("b", "t", "rg-1", "x"),
            resource("c", "t", "rg-2", "x"),
            resource("d", "t", " rg-1 ", "x"),
            resource("e", "t", "RG-1", "x"),
        ],
    };
    let tree = resource_tree_items_from_snapshot(snapshot());
    let names: Vec<&str> = tree.iter().map(|g| g.name.as_str()).collect();
    assert_eq!(names, vec!["RG-1", "rg-1", "rg-2"]);
    let listed: usize = tree.iter().map(|g| g.resources.len()).sum();
    assert_eq!(listed, 5);

    let groups = inventory_groups_from_resource_snapshot(snapshot());
    let counted: usize = groups.iter().map(|g| g.resources.len()).sum();
    assert_eq!(counted, 5);
    assert_eq!(groups.len(), 3);
}

#[test]
fn trailing_newline_is_added_once() {
    assert_eq!(ensure_trailing_newline("body"), "body\n");
    assert_eq!(ensure_trailing_newline("body\n"), "body\n");
    assert_eq!(ensure_trailing_newline(&ensure_trailing_newline("x")), "x\n");
    assert_eq!(ensure_trailing_newline(""), "\n");
}
