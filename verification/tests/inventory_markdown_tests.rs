use martijn_cli::inventory::{
    render_inventory_resources_list_from_snapshot, render_saved_resources_list_markdown_from_snapshot,
};
use martijn_cli::json::{JsonMember, JsonValue};
use martijn_cli::model::{
    AzureAccount, AzureInventoryGroup, AzureResourceGroupReportItem, AzureResourceReportItem,
    AzureResourceSkuReportItem, ResourceTag,
};
use martijn_cli::report::render_inventory_markdown;
use martijn_cli::snapshot::{
    AzureSnapshotEnvelope, AzureSnapshotNormalizedResource, AzureSnapshotResource,
    AzureSnapshotSubscription,
};

fn prod_account() -> AzureAccount {
    AzureAccount {
        name: String::from("Prod"),
        subscription_id: String::from("sub-123"),
        user: String::from("user-123"),
    }
}

fn tags(entries: &[(&str, &str)]) -> Option<Vec<ResourceTag>> {
    Some(
        entries
            .iter()
            .map(|(key, value)| ResourceTag { key: String::from(*key), value: String::from(*value) })
            .collect(),
    )
}

fn plain_resource(name: &str, resource_type: &str, location: &str) -> AzureResourceReportItem {
    AzureResourceReportItem {
        name: String::from(name),
        resource_type: String::from(resource_type),
        location: String::from(location),
        kind: None,
        tags: None,
        sku: None,
    }
}

fn group(name: &str, location: &str, resources: Vec<AzureResourceReportItem>) -> AzureInventoryGroup {
    AzureInventoryGroup {
        resource_group: AzureResourceGroupReportItem {
            name: String::from(name),
            location: String::from(location),
        },
        resources,
    }
}

#[test]
fn render_inventory_markdown_uses_new_layout_sections() {
    let account = prod_account();
    let inventory_groups = vec![
        group(
            "rg-app-prod",
            "westeurope",
            vec![
                AzureResourceReportItem {
                    name: String::from("app-api"),
                    resource_type: String::from("Microsoft.Web/sites"),
                    location: String::from("westeurope"),
                    kind: None,
                    tags: tags(&[("env", "prod")]),
                    sku: Some(AzureResourceSkuReportItem { name: Some(String::from("P1v3")) }),
                },
                AzureResourceReportItem {
                    name: String::from("storage"),
                    resource_type: String::from("Microsoft.Storage/storageAccounts"),
                    location: String::from("northeurope"),
                    kind: Some(String::from("StorageV2")),
                    tags: None,
                    sku: None,
                },
            ],
        ),
        group("rg-empty", "westeurope", Vec::new()),
    ];

    let markdown = render_inventory_markdown(&account, &inventory_groups, 2);

    assert!(markdown.starts_with("# Azure Inventory\n\n"));
    assert!(!markdown.starts_with("---\n"));
    assert!(markdown.contains("- Generated: "));
    assert!(markdown.contains("- Subscription: Prod (sub-123)"));
    assert!(markdown.contains("## Summary"));
    assert!(markdown.contains("### Resources per type"));
    assert!(markdown.contains("### Resources per region"));
    assert!(markdown.contains("### Empty resource groups"));
    assert!(markdown.contains("### Signals"));
    assert!(markdown.contains("## rg-app-prod (westeurope)"));
    assert!(markdown.contains("| Name | Type | Location | SKU | Tags |"));
    assert!(markdown.contains("| app-api | Microsoft.Web/sites | westeurope | P1v3 | env=prod |"));
    assert!(!markdown.contains(
        "| Name | Type | Location | SKU | Tags |\n|------|------|----------|-----|------|\n\n| app-api | Microsoft.Web/sites | westeurope | P1v3 | env=prod |"
    ));
}

#[test]
fn render_inventory_markdown_formats_tags_with_fallback_dash() {
    let account = prod_account();
    let mut tagged = plain_resource("tagged", "Microsoft.Web/sites", "westeurope");
    tagged.tags = tags(&[
        ("env", "prod"),
        ("hidden-link:/subscriptions/test", "Resource"),
        ("owner", "team-a"),
    ]);
    let inventory_groups = vec![group(
        "rg-demo",
        "westeurope",
        vec![tagged, plain_resource("untagged", "Microsoft.Storage/storageAccounts", "westeurope")],
    )];

    let markdown = render_inventory_markdown(&account, &inventory_groups, 2);

    assert!(markdown.contains("env=prod, owner=team-a"));
    assert!(!markdown.contains("hidden-link:/subscriptions/test=Resource"));
    assert!(markdown.contains("| untagged | Microsoft.Storage/storageAccounts | westeurope | - | - |"));
}

#[test]
fn render_inventory_markdown_keeps_resource_rows_on_separate_table_lines() {
    let account = prod_account();
    let inventory_groups = vec![group(
        "rg-demo",
        "westeurope",
        vec![
            plain_resource("resource-a", "Microsoft.Web/sites", "westeurope"),
            plain_resource("resource-b", "Microsoft.Web/sites", "westeurope"),
        ],
    )];

    let markdown = render_inventory_markdown(&account, &inventory_groups, 2);

    assert!(markdown.contains("| resource-a | Microsoft.Web/sites | westeurope | - | - |"));
    assert!(markdown.contains("| resource-b | Microsoft.Web/sites | westeurope | - | - |"));
    assert!(!markdown.contains(
        "| resource-a | Microsoft.Web/sites | westeurope | - | - |\n\n| resource-b | Microsoft.Web/sites | westeurope | - | - |"
    ));
}

#[test]
fn render_inventory_markdown_uses_dash_when_only_hidden_tags_exist() {
    let account = prod_account();
    let mut hidden_only = plain_resource("resource-hidden-only", "Microsoft.Web/sites", "westeurope");
    hidden_only.tags = tags(&[
        ("HIDDEN-TRACE-ID", "trace-123"),
        ("hidden-link:/subscriptions/test", "Resource"),
    ]);
    let inventory_groups = vec![group("rg-demo", "westeurope", vec![hidden_only])];

    let markdown = render_inventory_markdown(&account, &inventory_groups, 1);

    assert!(markdown.contains("| resource-hidden-only | Microsoft.Web/sites | westeurope | - | - |"));
}

#[test]
fn render_inventory_markdown_lists_non_standard_regions_from_groups_and_resources() {
    let account = prod_account();
    let inventory_groups = vec![
        group(
            "rg-one",
            "westeurope",
            vec![plain_resource("resource-one", "Microsoft.Web/sites", "northeurope")],
        ),
        group("rg-two", "swedencentral", Vec::new()),
    ];

    let markdown = render_inventory_markdown(&account, &inventory_groups, 1);

    assert!(markdown.contains("Non-standard regions detected: northeurope, swedencentral"));
}

#[test]
fn render_inventory_markdown_shows_total_resources_per_group() {
    let account = prod_account();
    let inventory_groups = vec![group(
        "rg-demo",
        "westeurope",
        vec![
            plain_resource("resource-a", "Microsoft.Web/sites", "westeurope"),
            plain_resource("resource-b", "Microsoft.Storage/storageAccounts", "westeurope"),
        ],
    )];

    let markdown = render_inventory_markdown(&account, &inventory_groups, 2);

    assert!(markdown.contains("- Total resources: 2"));
}

#[test]
fn inventory_markdown_has_the_exact_layout() {
    let account = prod_account();
    let inventory_groups = vec![
        group("rg_a", "", vec![plain_resource("x|y", "T", "eastus")]),
        group("rg-b", "westeurope", Vec::new()),
    ];

    let markdown = render_inventory_markdown(&account, &inventory_groups, 1);

    let generated_line_end = markdown.find("\n- Subscription:").expect("metadata should follow");
    let generated = &markdown["# Azure Inventory\n\n- Generated: ".len()..generated_line_end];
    assert!(generated.ends_with(" UTC"));
    let expected_rest = "\n- Subscription: Prod (sub-123)\n\
- Azure user: user-123\n\
- Resource groups: 2\n\
- Total resources: 1\n\
\n## Summary\n\n### Resources per type\n\n- T: 1\n\
\n### Resources per region\n\n- eastus: 1\n\
\n### Empty resource groups\n\n- rg-b\n\
\n### Signals\n\n- Resources without tags: 1\n\
- Non-standard regions detected: eastus\n\
\n## rg\\_a (-)\n\n- Total resources: 1\n\n\
| Name | Type | Location | SKU | Tags |\n|------|------|----------|-----|------|\n\
| x\\|y | T | eastus | - | - |\n\
\n## rg-b (westeurope)\n\n- Total resources: 0\n\n\
| Name | Type | Location | SKU | Tags |\n|------|------|----------|-----|------|\n";
    assert_eq!(&markdown[generated_line_end..], expected_rest);
}

#[test]
fn empty_inventory_lists_none() {
    let markdown = render_inventory_markdown(&prod_account(), &Vec::new(), 0);
    assert!(markdown.contains("### Resources per type\n\n- None\n"));
    assert!(markdown.contains("### Empty resource groups\n\n- None\n"));
    assert!(markdown.ends_with("- Resources without tags: 0\n- Non-standard regions detected: none\n"));
}

fn snapshot_resource(name: &str, group: &str) -> AzureSnapshotResource {
    AzureSnapshotResource {
        normalized: AzureSnapshotNormalizedResource {
            id: format!("/subscriptions/sub/resourceGroups/{group}/providers/web/{name}"),
            name: String::from(name),
            resource_type: String::from("Microsoft.Web/sites"),
            resource_group: String::from(group),
            location: String::from("westeurope"),
            kind: JsonValue::Null,
            sku: JsonValue::Object(vec![JsonMember {
                key: String::from("name"),
                value: JsonValue::Text(String::from("P1v3")),
            }]),
            tags: JsonValue::Object(vec![JsonMember {
                key: String::from("env"),
                value: JsonValue::Text(String::from("prod")),
            }]),
        },
        fingerprint: String::from("fingerprint"),
        raw: JsonValue::Object(Vec::new()),
    }
}

fn sample_resource_snapshot() -> AzureSnapshotEnvelope {
    AzureSnapshotEnvelope {
        generated_at: String::from("2026-04-28T17:15:46Z"),
        subscription: AzureSnapshotSubscription {
            id: String::from("sub"),
            name: String::from("subscription"),
            user: String::from("user@example.com"),
        },
        resources: vec![snapshot_resource("app-web", "rg-app"), snapshot_resource("app-api", "rg-app")],
    }
}

#[test]
fn resources_list_report_comes_from_the_snapshot() {
    let markdown = render_saved_resources_list_markdown_from_snapshot(sample_resource_snapshot());
    assert!(markdown.starts_with("# Azure Inventory\n\n"));
    assert!(markdown.contains("- Subscription: subscription (sub)"));
    assert!(markdown.contains("- Azure user: user@example.com"));
    assert!(markdown.contains("## rg-app (-)\n\n- Total resources: 2\n"));
    assert!(markdown.contains(
        "| app-api | Microsoft.Web/sites | westeurope | P1v3 | env=prod |\n| app-web | Microsoft.Web/sites | westeurope | P1v3 | env=prod |\n"
    ));
    let command = render_inventory_resources_list_from_snapshot(sample_resource_snapshot());
    assert!(command.contains("## rg-app (-)"));
}
