use martijn_cli::config::{
    build_cli_config_path_from_home, build_cli_directory_from_home,
    build_inventory_output_directory_from_home, build_snapshot_output_directory_from_home,
    choose_home_directory, inventory_reports_directory, non_empty_value, resolve_cli_config_path,
    resolve_cli_directory, resolve_inventory_output_directory, resolve_snapshot_output_directory,
    AppConfig, AzureConfig, AzureServicePrincipalConfig,
};
use std::path::PathBuf;

#[test]
fn builds_cli_directory_under_home() {
    let home_directory = PathBuf::from("/home/martijn");
    let cli_directory = build_cli_directory_from_home("/home/martijn");
    assert_eq!(PathBuf::from(cli_directory), home_directory.join(".martijn").join("cli"));
}

#[test]
fn default_config_reports_no_values() {
    let config = AppConfig::default();
    assert_eq!(config.azure_tenant(), None);
    assert!(!config.has_complete_service_principal_defaults());
}

#[test]
fn output_directory_appends_inventory_segments_under_home() {
    let output_directory = build_inventory_output_directory_from_home("/home/martijn");
    assert_eq!(
        PathBuf::from(output_directory),
        PathBuf::from("/home/martijn").join(".martijn").join("cli").join("inventory")
    );
}

#[test]
fn output_directory_keeps_windows_style_home_paths_pathbuf_safe() {
    let output_directory = build_inventory_output_directory_from_home(r"C:\Users\Martijn");
    assert_eq!(
        PathBuf::from(output_directory),
        PathBuf::from(r"C:\Users\Martijn").join(".martijn").join("cli").join("inventory")
    );
}

#[test]
fn snapshot_output_directory_builds_under_martijn_cli_snapshot() {
    let home_directory = PathBuf::from("/home/martijn");
    let snapshot_directory = build_snapshot_output_directory_from_home("/home/martijn");
    assert_eq!(
        PathBuf::from(snapshot_directory),
        home_directory.join(".martijn").join("cli").join("snapshot")
    );
}

#[test]
fn config_path_is_below_the_cli_directory() {
    assert_eq!(
        PathBuf::from(build_cli_config_path_from_home("/home/martijn")),
        PathBuf::from("/home/martijn/.martijn/cli/config.toml")
    );
}

#[test]
fn configured_values_are_trimmed_and_blank_values_missing() {
    let config = AppConfig {
        azure: Some(AzureConfig {
            tenant: Some(String::from("  tenant-id  ")),
            service_principal: Some(AzureServicePrincipalConfig {
                client_id: Some(String::from("client-id")),
                client_secret: Some(String::from("   ")),
            }),
        }),
    };
    assert_eq!(config.azure_tenant(), Some(String::from("tenant-id")));
    assert_eq!(config.azure_service_principal_client_id(), Some(String::from("client-id")));
    assert_eq!(config.azure_service_principal_client_secret(), None);
    assert!(!config.has_complete_service_principal_defaults());
}

#[test]
fn home_directory_prefers_home_over_user_profile() {
    assert_eq!(
        choose_home_directory(Some(String::from("/home/a")), Some(String::from("C:/b"))),
        Some(String::from("/home/a"))
    );
    assert_eq!(
        choose_home_directory(Some(String::new()), Some(String::from("C:/b"))),
        Some(String::from("C:/b"))
    );
    assert_eq!(choose_home_directory(None, None), None);
}

#[test]
fn resolves_cli_config_path_under_home_variables() {
    let config_path = resolve_cli_config_path(Some(String::from("/tmp/martijn-home")), None)
        .expect("config path should resolve");
    assert_eq!(
        PathBuf::from(config_path),
        PathBuf::from("/tmp/martijn-home")
            .join(".martijn")
            .join("cli")
            .join("config.toml")
    );
}

#[test]
fn resolved_directories_fall_back_to_user_profile() {
    let home = || Some(String::new());
    let profile = || Some(String::from("/profiles/me"));
    assert_eq!(
        PathBuf::from(resolve_cli_directory(home(), profile()).unwrap()),
        PathBuf::from("/profiles/me").join(".martijn").join("cli")
    );
    assert_eq!(
        PathBuf::from(resolve_inventory_output_directory(home(), profile()).unwrap()),
        PathBuf::from("/profiles/me").join(".martijn").join("cli").join("inventory")
    );
    assert_eq!(
        inventory_reports_directory(home(), profile()),
        resolve_inventory_output_directory(home(), profile())
    );
    assert_eq!(
        PathBuf::from(resolve_snapshot_output_directory(home(), profile()).unwrap()),
        PathBuf::from("/profiles/me").join(".martijn").join("cli").join("snapshot")
    );
}

#[test]
fn missing_home_directory_is_an_error() {
    let message = "could not determine the user's home directory from HOME or USERPROFILE";
    assert_eq!(resolve_cli_directory(None, None), Err(String::from(message)));
    assert_eq!(resolve_cli_config_path(Some(String::new()), Some(String::new())), Err(String::from(message)));
    assert_eq!(resolve_snapshot_output_directory(None, Some(String::new())), Err(String::from(message)));
    assert_eq!(inventory_reports_directory(None, None), Err(String::from(message)));
}

#[test]
fn non_empty_values_are_trimmed() {
    assert_eq!(non_empty_value(&Some(String::from("  tenant "))), Some(String::from("tenant")));
    assert_eq!(non_empty_value(&Some(String::from("   "))), None);
    assert_eq!(non_empty_value(&None), None);
}
