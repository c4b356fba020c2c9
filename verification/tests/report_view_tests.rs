use martijn_cli::model::{
    AzureAccount, AzureInventoryGroup, AzureResourceGroupReportItem, AzureResourceReportItem,
    AzureResourceSkuReportItem, ResourceTag,
};
use martijn_cli::report::{
    build_group_views, build_inventory_template_view, build_resources_per_region_summary,
    build_resources_per_type_summary, collect_empty_resource_group_names,
    collect_non_standard_regions, count_resources_without_tags, count_total_resources,
    escape_markdown_heading, escape_markdown_table_cell, escape_markdown_text,
    format_resource_tags, normalize_non_empty_value, normalize_region_value, resolve_resource_sku,
    resource_has_tags, sort_summary_rows, SummaryCountRow,
};

fn tag(key: &str, value: &str) -> ResourceTag {
    ResourceTag { key: String::from(key), value: String::from(value) }
}

fn resource(name: &str, resource_type: &str, location: &str) -> AzureResourceReportItem {
    AzureResourceReportItem {
        name: String::from(name),
        resource_type: String::from(resource_type),
        location: String::from(location),
        kind: None,
        tags: None,
        sku: None,
    }
}

fn group(name: &str, location: &str, resources: Vec<AzureResourceReportItem>) -> AzureInventoryGroup {
    AzureInventoryGroup {
        resource_group: AzureResourceGroupReportItem {
            name: String::from(name),
            location: String::from(location),
        },
        resources,
    }
}

fn rows(summary: &[SummaryCountRow]) -> Vec<(String, usize)> {
    summary.iter().map(|row| (row.label.clone(), row.count)).collect()
}

fn sample_groups() -> Vec<AzureInventoryGroup> {
    let mut app = resource("app-api", "Microsoft.Web/sites", "westeurope");
    app.sku = Some(AzureResourceSkuReportItem { name: Some(String::from("P1v3")) });
    app.tags = Some(vec![tag("env", "prod")]);
    let mut storage = resource("storage", "Microsoft.Storage/storageAccounts", "northeurope");
    storage.kind = Some(String::from("StorageV2"));
    let web = resource("app-web", "microsoft.web/sites", " WestEurope ");
    vec![
        group("rg-app-prod", "westeurope", vec![app, storage, web]),
        group("rg-empty", "swedencentral", Vec::new()),
    ]
}

#[test]
fn markdown_text_escapes_formatting_characters() {
    assert_eq!(escape_markdown_text("a_b*c[d]`e\\f"), "a\\_b\\*c\\[d\\]\\`e\\\\f");
    assert_eq!(escape_markdown_text("plain | text"), "plain | text");
    assert_eq!(escape_markdown_heading("rg_prod"), "rg\\_prod");
}

#[test]
fn table_cells_escape_pipes_and_line_breaks() {
    assert_eq!(escape_markdown_table_cell("a|b"), "a\\|b");
    assert_eq!(escape_markdown_table_cell("line1\r\nline2"), "line1<br>line2");
    assert_eq!(escape_markdown_table_cell("x_y"), "x\\_y");
}

#[test]
fn blank_values_fall_back_and_regions_are_lowercased() {
    assert_eq!(normalize_non_empty_value("  value ", "-"), "value");
    assert_eq!(normalize_non_empty_value(" \t ", "-"), "-");
    assert_eq!(normalize_region_value(" WestEurope "), Some(String::from("westeurope")));
    assert_eq!(normalize_region_value("   "), None);
}

#[test]
fn sku_prefers_sku_name_then_kind_then_dash() {
    let mut with_sku = resource("a", "t", "westeurope");
    with_sku.sku = Some(AzureResourceSkuReportItem { name: Some(String::from(" P1v3 ")) });
    with_sku.kind = Some(String::from("app"));
    assert_eq!(resolve_resource_sku(&with_sku), "P1v3");

    let mut blank_sku = resource("b", "t", "westeurope");
    blank_sku.sku = Some(AzureResourceSkuReportItem { name: Some(String::from("  ")) });
    blank_sku.kind = Some(String::from(" StorageV2 "));
    assert_eq!(resolve_resource_sku(&blank_sku), "StorageV2");

    let nothing = resource("c", "t", "westeurope");
    assert_eq!(resolve_resource_sku(&nothing), "-");
}

#[test]
fn tags_are_sorted_and_hidden_tags_are_left_out() {
    let mut tagged = resource("tagged", "Microsoft.Web/sites", "westeurope");
    tagged.tags = Some(vec![
        tag("env", "prod"),
        tag("hidden-link:/subscriptions/test", "Resource"),
        tag("owner", "team-a"),
    ]);
    assert_eq!(format_resource_tags(&tagged), "env=prod, owner=team-a");
    assert!(resource_has_tags(&tagged));

    let mut hidden_only = resource("hidden", "Microsoft.Web/sites", "westeurope");
    hidden_only.tags = Some(vec![
        tag("hidden-link:/subscriptions/test", "Resource"),
        tag("HIDDEN-TRACE-ID", "trace-123"),
    ]);
    assert_eq!(format_resource_tags(&hidden_only), "-");
    assert!(resource_has_tags(&hidden_only));

    let mut blank_key = resource("blank", "t", "westeurope");
    blank_key.tags = Some(vec![tag("  ", "x")]);
    assert_eq!(format_resource_tags(&blank_key), "-");
    assert!(!resource_has_tags(&blank_key));

    let untagged = resource("untagged", "t", "westeurope");
    assert_eq!(format_resource_tags(&untagged), "-");
    assert!(!resource_has_tags(&untagged));
}

#[test]
fn tag_keys_and_values_are_trimmed() {
    let mut tagged = resource("tagged", "t", "westeurope");
    tagged.tags = Some(vec![tag(" Team ", " core "), tag("app", "api")]);
    assert_eq!(format_resource_tags(&tagged), "app=api, Team=core");
}

#[test]
fn counts_resources_and_untagged_resources() {
    let groups = sample_groups();
    assert_eq!(count_total_resources(&groups), 3);
    assert_eq!(count_resources_without_tags(&groups), 2);
    assert_eq!(count_total_resources(&Vec::new()), 0);
}

#[test]
fn type_summary_counts_types_case_insensitively() {
    let groups = sample_groups();
    let summary = build_resources_per_type_summary(&groups);
    assert_eq!(
        rows(&summary),
        vec![
            (String::from("Microsoft.Web/sites"), 2),
            (String::from("Microsoft.Storage/storageAccounts"), 1),
        ]
    );
    let total: usize = summary.iter().map(|row| row.count).sum();
    assert_eq!(total, count_total_resources(&groups));
}

#[test]
fn region_summary_counts_normalized_regions() {
    let groups = sample_groups();
    let summary = build_resources_per_region_summary(&groups);
    assert_eq!(
        rows(&summary),
        vec![(String::from("westeurope"), 2), (String::from("northeurope"), 1)]
    );
    let total: usize = summary.iter().map(|row| row.count).sum();
    assert_eq!(total, 3);
}

#[test]
fn blank_types_and_regions_are_counted_under_a_dash() {
    let groups = vec![group(
        "rg",
        "westeurope",
        vec![resource("a", " ", ""), resource("b", "", "  "), resource("c", "x_y", "eastus")],
    )];
    let by_type = build_resources_per_type_summary(&groups);
    assert_eq!(rows(&by_type), vec![(String::from("-"), 2), (String::from("x\\_y"), 1)]);
    let by_region = build_resources_per_region_summary(&groups);
    assert_eq!(rows(&by_region), vec![(String::from("-"), 2), (String::from("eastus"), 1)]);
}

#[test]
fn summary_rows_sort_by_count_then_label() {
    let mut summary = vec![
        SummaryCountRow { label: String::from("beta"), count: 1 },
        SummaryCountRow { label: String::from("Alpha"), count: 1 },
        SummaryCountRow { label: String::from("gamma"), count: 3 },
        SummaryCountRow { label: String::from("alpha"), count: 1 },
    ];
    sort_summary_rows(&mut summary);
    assert_eq!(
        rows(&summary),
        vec![
            (String::from("gamma"), 3),
            (String::from("Alpha"), 1),
            (String::from("alpha"), 1),
            (String::from("beta"), 1),
        ]
    );
}

#[test]
fn empty_groups_are_listed_by_name() {
    let groups = vec![
        group("Zeta_rg", "westeurope", Vec::new()),
        group("busy", "westeurope", vec![resource("a", "t", "westeurope")]),
        group("alpha", "westeurope", Vec::new()),
    ];
    assert_eq!(
        collect_empty_resource_group_names(&groups),
        vec![String::from("alpha"), String::from("Zeta\\_rg")]
    );
}

#[test]
fn non_standard_regions_come_from_groups_and_resources() {
    let groups = vec![
        group("rg-one", "westeurope", vec![resource("resource-one", "Microsoft.Web/sites", "northeurope")]),
        group("rg-two", "SwedenCentral", Vec::new()),
        group("rg-three", " ", vec![resource("r", "t", "NorthEurope")]),
    ];
    assert_eq!(
        collect_non_standard_regions(&groups),
        vec![String::from("northeurope"), String::from("swedencentral")]
    );
    assert!(collect_non_standard_regions(&vec![group("rg", "WestEurope", Vec::new())]).is_empty());
}

#[test]
fn group_views_hold_one_escaped_row_per_resource() {
    let groups = sample_groups();
    let views = build_group_views(&groups);
    assert_eq!(views.len(), 2);
    assert_eq!(views[0].name, "rg-app-prod");
    assert_eq!(views[0].location, "westeurope");
    assert_eq!(views[0].total_resources, 3);
    let row = &views[0].resources[0];
    assert_eq!(row.name, "app-api");
    assert_eq!(row.resource_type, "Microsoft.Web/sites");
    assert_eq!(row.location, "westeurope");
    assert_eq!(row.sku, "P1v3");
    assert_eq!(row.tags, "env=prod");
    assert_eq!(views[0].resources[1].sku, "StorageV2");
    assert_eq!(views[0].resources[1].tags, "-");
    assert_eq!(views[1].total_resources, 0);
    assert!(views[1].resources.is_empty());
}

#[test]
fn template_view_collects_every_section() {
    let account = AzureAccount {
        name: String::from("Prod_sub"),
        subscription_id: String::from("sub-123"),
        user: String::from("user-123"),
    };
    let groups = sample_groups();
    let total = count_total_resources(&groups);
    let view = build_inventory_template_view(&account, &groups, total, String::from("2026-04-24 07:23 UTC"));
    assert_eq!(view.generated_at, "2026-04-24 07:23 UTC");
    assert_eq!(view.subscription_name, "Prod\\_sub");
    assert_eq!(view.subscription_id, "sub-123");
    assert_eq!(view.azure_user, "user-123");
    assert_eq!(view.resource_group_count, 2);
    assert_eq!(view.total_resources, 3);
    assert_eq!(view.resources_without_tags, 2);
    assert_eq!(view.empty_resource_groups, vec![String::from("rg-empty")]);
    assert_eq!(
        view.non_standard_regions,
        vec![String::from("northeurope"), String::from("swedencentral")]
    );
    assert_eq!(rows(&view.resources_per_type)[0], (String::from("Microsoft.Web/sites"), 2));
    assert_eq!(rows(&view.resources_per_region)[1], (String::from("northeurope"), 1));
    assert_eq!(view.groups.len(), 2);
}
