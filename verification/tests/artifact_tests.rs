use std::path::PathBuf;

use martijn_cli::artifacts::{
    build_inventory_file_name, build_inventory_report_file_name, build_snapshot_file_name,
    compose_generated_file_name, ensure_file_extension, file_name_matches,
    inventory_report_kind_directory, inventory_report_kind_file_prefix,
    inventory_report_kind_relative_directory, is_inventory_report_file_name, is_snapshot_file_name,
    list_inventory_reports_in_directory, list_snapshots_in_directory, match_inventory_report_name,
    match_snapshot_name, non_empty_text, select_snapshot_file, slugify_file_stem,
    snapshot_kind_directory_name, snapshot_kind_label, ArtifactMatch, InventoryReportFile,
    InventoryReportKind, SnapshotFile, SnapshotKind,
};

fn report(file_name: &str, modified_at: Option<u64>) -> InventoryReportFile {
    InventoryReportFile {
        file_name: String::from(file_name),
        path: format!("/reports/{file_name}"),
        modified_at,
        size_bytes: 10,
    }
}

fn snapshot(kind: SnapshotKind, file_name: &str, modified_at: Option<u64>) -> SnapshotFile {
    SnapshotFile {
        kind,
        file_name: String::from(file_name),
        path: format!("/snapshots/{file_name}"),
        modified_at,
        size_bytes: 2,
    }
}

fn names_of_reports(reports: &[InventoryReportFile]) -> Vec<&str> {
    reports.iter().map(|r| r.file_name.as_str()).collect()
}

fn names_of_snapshots(snapshots: &[SnapshotFile]) -> Vec<&str> {
    snapshots.iter().map(|s| s.file_name.as_str()).collect()
}

#[test]
fn extensions_are_added_once() {
    assert_eq!(ensure_file_extension("daily", "md"), "daily.md");
    assert_eq!(ensure_file_extension("daily.md", "md"), "daily.md");
    assert_eq!(ensure_file_extension("daily.json", "md"), "daily.json.md");
}

#[test]
fn blank_text_is_no_text() {
    assert_eq!(non_empty_text("  name "), Some(String::from("name")));
    assert_eq!(non_empty_text(" \t\n"), None);
}

#[test]
fn slug_keeps_dots_inside_and_drops_trailing_separators() {
    assert_eq!(slugify_file_stem("Report v1.2!!"), "report-v1.2");
    assert_eq!(slugify_file_stem("..hidden"), "hidden");
    assert_eq!(slugify_file_stem("a - b"), "a-b");
}

#[test]
fn slug_can_hold_two_dashes_around_a_dropped_dot() {
    assert_eq!(slugify_file_stem("a!.!b"), "a--b");
    assert_eq!(slugify_file_stem("a!.!"), "a");
}

#[test]
fn kind_directories_names_and_prefixes() {
    assert_eq!(
        PathBuf::from(inventory_report_kind_relative_directory(InventoryReportKind::ResourcesList)),
        PathBuf::from("resources").join("list")
    );
    assert_eq!(
        PathBuf::from(inventory_report_kind_relative_directory(InventoryReportKind::GroupsList)),
        PathBuf::from("groups").join("list")
    );
    assert_eq!(
        PathBuf::from(inventory_report_kind_directory("/home/me/inventory", InventoryReportKind::ResourcesTree)),
        PathBuf::from("/home/me/inventory").join("resources").join("tree")
    );
    assert_eq!(snapshot_kind_directory_name(SnapshotKind::Resources), "resources");
    assert_eq!(snapshot_kind_directory_name(SnapshotKind::Groups), "groups");
    assert_eq!(snapshot_kind_label(SnapshotKind::Resources), "resource");
    assert_eq!(snapshot_kind_label(SnapshotKind::Groups), "group");
    assert_eq!(
        inventory_report_kind_file_prefix(InventoryReportKind::ResourcesTree),
        "azure-inventory-resources-tree"
    );
}

#[test]
fn generated_names_join_prefix_timestamp_and_short_id() {
    assert_eq!(
        compose_generated_file_name("azure-snapshot", "20260424-072348", "abcdef0123456789", "json"),
        "azure-snapshot-20260424-072348-abcdef01.json"
    );
    let snapshot_name = build_snapshot_file_name();
    assert!(snapshot_name.starts_with("azure-snapshot-"));
    assert!(snapshot_name.ends_with(".json"));
    assert_eq!(snapshot_name.len(), "azure-snapshot-".len() + 15 + 1 + 8 + ".json".len());
    let inventory_name = build_inventory_file_name();
    assert!(inventory_name.starts_with("azure-inventory-"));
    assert!(inventory_name.ends_with(".md"));
}

#[test]
fn report_file_names_are_custom_or_generated() {
    assert_eq!(
        build_inventory_report_file_name(InventoryReportKind::GroupsList, Some("  Daily Groups ")),
        "daily-groups.md"
    );
    let generated = build_inventory_report_file_name(InventoryReportKind::GroupsList, Some("   "));
    assert!(generated.starts_with("azure-inventory-groups-list-"));
    assert!(generated.ends_with(".md"));
    let generated = build_inventory_report_file_name(InventoryReportKind::ResourcesList, None);
    assert!(generated.starts_with("azure-inventory-resources-list-"));
}

#[test]
fn report_and_snapshot_files_are_told_apart_by_extension() {
    assert!(is_inventory_report_file_name("daily.md"));
    assert!(!is_inventory_report_file_name("notes.txt"));
    assert!(is_snapshot_file_name("daily.json"));
    assert!(!is_snapshot_file_name("daily.json.bak"));
}

#[test]
fn names_match_file_name_stem_or_added_extension() {
    assert!(file_name_matches("daily-groups.json", "daily-groups.json", "json"));
    assert!(file_name_matches("daily-groups.json", " daily-groups ", "json"));
    assert!(!file_name_matches("daily-groups.json", "daily", "json"));
    assert!(!file_name_matches("daily-groups.json", "Daily-Groups", "json"));
}

#[test]
fn report_listing_is_newest_first_and_ignores_other_files() {
    let listed = list_inventory_reports_in_directory(vec![
        report("azure-inventory-20260423-080734-11111111.md", Some(100)),
        report("notes.txt", Some(300)),
        report("azure-inventory-20260424-072348-22222222.md", Some(200)),
        report("no-time.md", None),
    ]);
    assert_eq!(
        names_of_reports(&listed),
        vec![
            "azure-inventory-20260424-072348-22222222.md",
            "azure-inventory-20260423-080734-11111111.md",
            "no-time.md"
        ]
    );
    assert!(list_inventory_reports_in_directory(Vec::new()).is_empty());
}

#[test]
fn equal_times_list_by_file_name_descending() {
    let listed = list_snapshots_in_directory(vec![
        snapshot(SnapshotKind::Groups, "a.json", Some(5)),
        snapshot(SnapshotKind::Resources, "c.json", Some(5)),
        snapshot(SnapshotKind::Resources, "b.json", Some(5)),
        snapshot(SnapshotKind::Resources, "readme.md", Some(9)),
    ]);
    assert_eq!(names_of_snapshots(&listed), vec!["c.json", "b.json", "a.json"]);
}

#[test]
fn report_names_match_one_many_or_none() {
    let reports = || {
        vec![
            report("daily.md", Some(3)),
            report("daily", Some(2)),
            report("weekly.md", Some(1)),
        ]
    };
    match match_inventory_report_name("weekly", reports()) {
        ArtifactMatch::One(found) => assert_eq!(found.file_name, "weekly.md"),
        _ => panic!("weekly should match one report"),
    }
    match match_inventory_report_name("daily", reports()) {
        ArtifactMatch::Many(found) => assert_eq!(names_of_reports(&found), vec!["daily.md", "daily"]),
        _ => panic!("daily should match two reports"),
    }
    assert!(matches!(match_inventory_report_name("monthly", reports()), ArtifactMatch::NoMatch));
    match match_snapshot_name("daily-groups", vec![snapshot(SnapshotKind::Groups, "daily-groups.json", None)]) {
        ArtifactMatch::One(found) => assert_eq!(found.file_name, "daily-groups.json"),
        _ => panic!("the stem should match the snapshot"),
    }
}

#[test]
fn newest_snapshot_of_the_requested_kind_is_selected() {
    let listing = list_snapshots_in_directory(vec![
        snapshot(SnapshotKind::Resources, "20260423-080000-11111111.json", Some(10)),
        snapshot(SnapshotKind::Resources, "20260424-080000-22222222.json", Some(20)),
        snapshot(SnapshotKind::Groups, "20260425-080000-33333333.json", Some(30)),
    ]);
    let selected = select_snapshot_file(SnapshotKind::Resources, None, listing)
        .expect("resource snapshot should be selected");
    assert_eq!(selected.file_name, "20260424-080000-22222222.json");
}

#[test]
fn named_snapshot_is_selected_by_stem() {
    let listing = vec![
        snapshot(SnapshotKind::Groups, "daily-groups.json", Some(1)),
        snapshot(SnapshotKind::Resources, "daily-groups.json", Some(2)),
    ];
    let selected = select_snapshot_file(SnapshotKind::Groups, Some("daily-groups"), listing)
        .expect("named group snapshot should be selected");
    assert_eq!(selected.kind, SnapshotKind::Groups);
    assert_eq!(selected.file_name, "daily-groups.json");
}

#[test]
fn missing_snapshots_give_actionable_errors() {
    let error = select_snapshot_file(SnapshotKind::Resources, None, Vec::new())
        .err()
        .expect("missing resource snapshot should be an error");
    assert_eq!(
        error,
        "no resource snapshots found. Run `martijn azure snapshot create resource` first."
    );
    assert!(error.contains("snapshot create resource"));

    let error = select_snapshot_file(
        SnapshotKind::Groups,
        Some("weekly"),
        vec![snapshot(SnapshotKind::Groups, "daily.json", Some(1))],
    )
    .err()
    .expect("unknown name should be an error");
    assert_eq!(
        error,
        "no group snapshot found for `weekly`. Run `martijn azure snapshot create group` first."
    );
}

#[test]
fn ambiguous_snapshot_names_are_errors() {
    let listing = vec![
        snapshot(SnapshotKind::Resources, "daily.json", Some(2)),
        snapshot(SnapshotKind::Resources, "daily", Some(1)),
    ];
    let error = select_snapshot_file(SnapshotKind::Resources, Some("daily"), listing)
        .err()
        .expect("ambiguous name should be an error");
    assert_eq!(error, "multiple resource snapshots match `daily`: daily.json, daily");
}

#[test]
fn blank_snapshot_name_selects_the_newest() {
    let listing = vec![
        snapshot(SnapshotKind::Groups, "new.json", Some(2)),
        snapshot(SnapshotKind::Groups, "old.json", Some(1)),
    ];
    let selected = select_snapshot_file(SnapshotKind::Groups, Some("  "), listing)
        .expect("newest group snapshot should be selected");
    assert_eq!(selected.file_name, "new.json");
}

#[test]
fn slug_of_a_slug_is_the_same_slug() {
    for name in [" Daily Report! ", "Report v1.2!!", "a.b-c", "x__y", "ÄÖÜ sales 2026"] {
        let stem = slugify_file_stem(name);
        assert_eq!(slugify_file_stem(&stem), stem);
    }
}

#[test]
fn slug_of_a_slug_drops_a_character_after_a_dash() {
    assert_eq!(slugify_file_stem("a!..b"), "a-.b");
    assert_eq!(slugify_file_stem("a-.b"), "a-b");
    assert_eq!(slugify_file_stem("a--b"), "a-b");
}

#[test]
fn names_without_letters_or_digits_become_report() {
    assert_eq!(slugify_file_stem("!!! ..."), "report");
    assert_eq!(slugify_file_stem(""), "report");
    assert_eq!(slugify_file_stem("ÄÖÜ"), "report");
}
