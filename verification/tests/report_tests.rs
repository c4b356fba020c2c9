use martijn_cli::model::{AzureResourceGroupReportItem, AzureResourceReportItem};
use martijn_cli::report::{sort_resource_groups, sort_resources};

fn resource(name: &str, resource_type: &str) -> AzureResourceReportItem {
    AzureResourceReportItem {
        name: String::from(name),
        resource_type: String::from(resource_type),
        location: String::from("westeurope"),
        kind: None,
        tags: None,
        sku: None,
    }
}

#[test]
fn sorts_resource_groups_case_insensitively() {
    let mut resource_groups = vec![
        AzureResourceGroupReportItem { name: String::from("zeta-group"), location: String::from("westeurope") },
        AzureResourceGroupReportItem { name: String::from("Alpha-group"), location: String::from("northeurope") },
        AzureResourceGroupReportItem { name: String::from("beta-group"), location: String::from("swedencentral") },
    ];
    sort_resource_groups(&mut resource_groups);
    assert_eq!(resource_groups[0].name, "Alpha-group");
    assert_eq!(resource_groups[1].name, "beta-group");
    assert_eq!(resource_groups[2].name, "zeta-group");
}

#[test]
fn sorts_resources_by_type_then_name_case_insensitively() {
    let mut resources = vec![
        resource("vm-b", "Microsoft.Compute/virtualMachines"),
        resource("vm-a", "microsoft.compute/virtualMachines"),
        resource("app-z", "Microsoft.Web/sites"),
        resource("app-a", "Microsoft.Web/sites"),
    ];
    sort_resources(&mut resources);
    assert_eq!(resources[0].resource_type, "microsoft.compute/virtualMachines");
    assert_eq!(resources[1].resource_type, "Microsoft.Compute/virtualMachines");
    assert_eq!(resources[0].name, "vm-a");
    assert_eq!(resources[1].name, "vm-b");
    assert_eq!(resources[2].name, "app-a");
    assert_eq!(resources[3].name, "app-z");
}

#[test]
fn sorting_keeps_equal_names_in_order_and_is_idempotent() {
    let mut resource_groups = vec![
        AzureResourceGroupReportItem { name: String::from("B"), location: String::from("1") },
        AzureResourceGroupReportItem { name: String::from("a"), location: String::from("2") },
        AzureResourceGroupReportItem { name: String::from("b"), location: String::from("3") },
    ];
    sort_resource_groups(&mut resource_groups);
    let once: Vec<String> = resource_groups.iter().map(|g| g.location.clone()).collect();
    assert_eq!(once, vec!["2", "1", "3"]);
    sort_resource_groups(&mut resource_groups);
    let twice: Vec<String> = resource_groups.iter().map(|g| g.location.clone()).collect();
    assert_eq!(once, twice);
}
