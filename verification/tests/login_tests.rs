use martijn_cli::config::{AppConfig, AzureConfig, AzureServicePrincipalConfig};
use martijn_cli::login::{resolve_login, LoginArguments, ResolvedLogin};

#[test]
fn login_bare_login_auto_detects_service_principal_from_complete_config() {
    let arguments = LoginArguments { service_principal: false, client_id: None, client_secret: None, tenant: None };
    let config = AppConfig {
        azure: Some(AzureConfig {
            tenant: Some(String::from("00000000-0000-0000-0000-000000000000")),
            service_principal: Some(AzureServicePrincipalConfig {
                client_id: Some(String::from("11111111-1111-1111-1111-111111111111")),
                client_secret: Some(String::from("secret-value")),
            }),
        }),
    };
    let resolved_login = resolve_login(&arguments, &config).expect("login should resolve");
    assert!(matches!(
        resolved_login,
        ResolvedLogin::ServicePrincipal { tenant, client_id, client_secret, auto_detected: true }
            if tenant == "00000000-0000-0000-0000-000000000000"
                && client_id == "11111111-1111-1111-1111-111111111111"
                && client_secret == "secret-value"
    ));
}

#[test]
fn login_bare_login_falls_back_to_interactive_user_login_when_sp_config_is_incomplete() {
    let arguments = LoginArguments { service_principal: false, client_id: None, client_secret: None, tenant: None };
    let config = AppConfig {
        azure: Some(AzureConfig {
            tenant: Some(String::from("00000000-0000-0000-0000-000000000000")),
            service_principal: Some(AzureServicePrincipalConfig {
                client_id: Some(String::from("11111111-1111-1111-1111-111111111111")),
                client_secret: None,
            }),
        }),
    };
    let resolved_login = resolve_login(&arguments, &config).expect("login should resolve");
    assert!(matches!(
        resolved_login,
        ResolvedLogin::InteractiveUser { tenant } if tenant == "00000000-0000-0000-0000-000000000000"
    ));
}

#[test]
fn login_explicit_service_principal_flag_forces_service_principal_mode() {
    let arguments = LoginArguments {
        service_principal: true,
        client_id: Some(String::from("11111111-1111-1111-1111-111111111111")),
        client_secret: Some(String::from("secret-value")),
        tenant: Some(String::from("00000000-0000-0000-0000-000000000000")),
    };
    let config = AppConfig::default();
    let resolved_login = resolve_login(&arguments, &config).expect("login should resolve");
    assert!(matches!(resolved_login, ResolvedLogin::ServicePrincipal { auto_detected: false, .. }));
}

#[test]
fn login_cli_values_override_config_defaults() {
    let arguments = LoginArguments {
        service_principal: true,
        client_id: Some(String::from("22222222-2222-2222-2222-222222222222")),
        client_secret: None,
        tenant: Some(String::from("33333333-3333-3333-3333-333333333333")),
    };
    let config = AppConfig {
        azure: Some(AzureConfig {
            tenant: Some(String::from("00000000-0000-0000-0000-000000000000")),
            service_principal: Some(AzureServicePrincipalConfig {
                client_id: Some(String::from("11111111-1111-1111-1111-111111111111")),
                client_secret: Some(String::from("secret-value")),
            }),
        }),
    };
    let resolved_login = resolve_login(&arguments, &config).expect("login should resolve");
    assert!(matches!(
        resolved_login,
        ResolvedLogin::ServicePrincipal { tenant, client_id, client_secret, auto_detected: false }
            if tenant == "33333333-3333-3333-3333-333333333333"
                && client_id == "22222222-2222-2222-2222-222222222222"
                && client_secret == "secret-value"
    ));
}

#[test]
fn login_rejects_interactive_login_without_any_tenant_source() {
    let arguments = LoginArguments { service_principal: false, client_id: None, client_secret: None, tenant: None };
    let config = AppConfig::default();
    let error = resolve_login(&arguments, &config).expect_err("login should fail");
    assert!(error.contains("Interactive Azure login requires a tenant"));
}

#[test]
fn login_rejects_invalid_tenant_uuid_in_both_modes() {
    let user_login_arguments = LoginArguments {
        service_principal: false,
        client_id: None,
        client_secret: None,
        tenant: Some(String::from("not-a-guid")),
    };
    let service_principal_arguments = LoginArguments {
        service_principal: true,
        client_id: Some(String::from("11111111-1111-1111-1111-111111111111")),
        client_secret: Some(String::from("secret-value")),
        tenant: Some(String::from("not-a-guid")),
    };
    let config = AppConfig::default();
    assert!(resolve_login(&user_login_arguments, &config)
        .expect_err("interactive login should fail")
        .contains("Invalid tenant ID format"));
    assert!(resolve_login(&service_principal_arguments, &config)
        .expect_err("service-principal login should fail")
        .contains("Invalid tenant ID format"));
}

#[test]
fn login_rejects_invalid_client_id_uuid_for_service_principal_login() {
    let arguments = LoginArguments {
        service_principal: true,
        client_id: Some(String::from("not-a-guid")),
        client_secret: Some(String::from("secret-value")),
        tenant: Some(String::from("00000000-0000-0000-0000-000000000000")),
    };
    let config = AppConfig::default();
    let error = resolve_login(&arguments, &config).expect_err("login should fail");
    assert!(error.contains("Invalid client ID format"));
}

#[test]
fn login_rejects_empty_client_secret_for_service_principal_login() {
    let arguments = LoginArguments {
        service_principal: true,
        client_id: Some(String::from("11111111-1111-1111-1111-111111111111")),
        client_secret: Some(String::from("   ")),
        tenant: Some(String::from("00000000-0000-0000-0000-000000000000")),
    };
    let config = AppConfig::default();
    let error = resolve_login(&arguments, &config).expect_err("login should fail");
    assert!(error.contains("requires a client secret"));
}

#[test]
fn blank_cli_tenant_falls_back_to_config_tenant() {
    let arguments = LoginArguments {
        service_principal: false,
        client_id: None,
        client_secret: None,
        tenant: Some(String::from("   ")),
    };
    let config = AppConfig {
        azure: Some(AzureConfig {
            tenant: Some(String::from(" 00000000-0000-0000-0000-000000000000 ")),
            service_principal: None,
        }),
    };
    let resolved_login = resolve_login(&arguments, &config).expect("login should resolve");
    assert!(matches!(
        resolved_login,
        ResolvedLogin::InteractiveUser { tenant } if tenant == "00000000-0000-0000-0000-000000000000"
    ));
}

#[test]
fn service_principal_login_without_client_id_names_the_missing_value() {
    let arguments = LoginArguments {
        service_principal: true,
        client_id: None,
        client_secret: Some(String::from("secret-value")),
        tenant: Some(String::from("00000000-0000-0000-0000-000000000000")),
    };
    let error = resolve_login(&arguments, &AppConfig::default()).expect_err("login should fail");
    assert!(error.contains("requires a client ID"));
}
