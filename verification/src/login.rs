use vstd::prelude::*;

use crate::config::{AppConfig, non_empty, non_empty_value, opt_chars};
use crate::text::{ascii_lower, is_blank, is_blank_text};

verus! {

/// An ASCII hexadecimal digit, in either case.
pub open spec fn is_hex_digit(c: char) -> bool {
    ('0' <= c && c <= '9') || ('a' <= c && c <= 'f') || ('A' <= c && c <= 'F')
}

/// The hyphenated form: 36 characters, hyphens at 8, 13, 18 and 23, and
/// hexadecimal digits everywhere else.
pub open spec fn is_hyphenated_uuid(s: Seq<char>) -> bool {
    &&& s.len() == 36
    &&& s[8] == '-' && s[13] == '-' && s[18] == '-' && s[23] == '-'
    &&& forall|i: int|
        0 <= i < 36 && i != 8 && i != 13 && i != 18 && i != 23 ==> is_hex_digit(#[trigger] s[i])
}

/// Whether `uuid::Uuid::try_parse` accepts the text: 32 hexadecimal digits,
/// the hyphenated form, the hyphenated form in braces, or the hyphenated
/// form after a `urn:uuid:` prefix in any ASCII case.
pub open spec fn uuid_parses(s: Seq<char>) -> bool {
    ||| s.len() == 32 && forall|i: int| 0 <= i < 32 ==> is_hex_digit(#[trigger] s[i])
    ||| is_hyphenated_uuid(s)
    ||| s.len() == 38 && s[0] == '{' && s[37] == '}' && is_hyphenated_uuid(s.subrange(1, 37))
    ||| s.len() == 45 && (forall|i: int|
        0 <= i < 9 ==> ascii_lower(#[trigger] s[i]) == "urn:uuid:"@[i]) && is_hyphenated_uuid(
        s.subrange(9, 45),
    )
}

/// The arguments of the `login` command.
#[derive(Debug)]
pub struct LoginArguments {
    /// Whether `--service-principal` was given.
    pub service_principal: bool,
    /// The value of `--client-id`.
    pub client_id: Option<String>,
    /// The value of `--client-secret`.
    pub client_secret: Option<String>,
    /// The optional positional tenant.
    pub tenant: Option<String>,
}

/// The fully resolved login request.
#[derive(Debug)]
pub enum ResolvedLogin {
    /// Interactive user login with a tenant.
    InteractiveUser { tenant: String },
    /// Service-principal login with all its values.
    ServicePrincipal {
        tenant: String,
        client_id: String,
        client_secret: String,
        /// Whether the mode was picked from complete config defaults.
        auto_detected: bool,
    },
}

/// The model of a resolved login request.
pub enum LoginPlan {
    InteractiveUser { tenant: Seq<char> },
    ServicePrincipal {
        tenant: Seq<char>,
        client_id: Seq<char>,
        client_secret: Seq<char>,
        auto_detected: bool,
    },
}

impl View for ResolvedLogin {
    type V = LoginPlan;

    open spec fn view(&self) -> LoginPlan {
        match self {
            ResolvedLogin::InteractiveUser { tenant } => LoginPlan::InteractiveUser {
                tenant: tenant@,
            },
            ResolvedLogin::ServicePrincipal { tenant, client_id, client_secret, auto_detected } =>
                LoginPlan::ServicePrincipal {
                tenant: tenant@,
                client_id: client_id@,
                client_secret: client_secret@,
                auto_detected: *auto_detected,
            },
        }
    }
}

/// Why a login request could not be resolved.
pub enum LoginFailure {
    ServicePrincipalTenantMissing,
    ClientIdMissing,
    ClientSecretMissing,
    InteractiveTenantMissing,
    InvalidTenant,
    InvalidClientId,
    InvalidClientSecret,
}

/// The message shown for each failure.
pub open spec fn failure_message(f: LoginFailure) -> Seq<char> {
    match f {
        LoginFailure::ServicePrincipalTenantMissing =>
            "Service-principal login requires a tenant. Provide `login --service-principal <tenant>` or set `[azure].tenant` in `~/.martijn/cli/config.toml`."@,
        LoginFailure::ClientIdMissing =>
            "Service-principal login requires a client ID. Provide `--client-id` or set `[azure.service_principal].client_id` in `~/.martijn/cli/config.toml`."@,
        LoginFailure::ClientSecretMissing =>
            "Service-principal login requires a client secret. Provide `--client-secret` or set `[azure.service_principal].client_secret` in `~/.martijn/cli/config.toml`."@,
        LoginFailure::InteractiveTenantMissing =>
            "Interactive Azure login requires a tenant. Provide `login <tenant>` or set `[azure].tenant` in `~/.martijn/cli/config.toml`."@,
        LoginFailure::InvalidTenant => "Invalid tenant ID format. Please provide a valid UUID."@,
        LoginFailure::InvalidClientId => "Invalid client ID format. Please provide a valid UUID."@,
        LoginFailure::InvalidClientSecret =>
            "Invalid client secret. Please provide a non-empty value."@,
    }
}

/// The value given on the command line when it is not blank, else the
/// configured value when it is not blank.
pub open spec fn preferred_value(cli: Option<Seq<char>>, config: Option<Seq<char>>) -> Option<
    Seq<char>,
> {
    match non_empty(cli) {
        Some(v) => Some(v),
        None => non_empty(config),
    }
}

/// The validation of resolved service-principal values, in the order tenant,
/// client ID, secret.
pub open spec fn check_service_principal(
    tenant: Seq<char>,
    client_id: Seq<char>,
    client_secret: Seq<char>,
    auto_detected: bool,
) -> Result<LoginPlan, LoginFailure> {
    if !uuid_parses(tenant) {
        Err(LoginFailure::InvalidTenant)
    } else if !uuid_parses(client_id) {
        Err(LoginFailure::InvalidClientId)
    } else if is_blank(client_secret) {
        Err(LoginFailure::InvalidClientSecret)
    } else {
        Ok(LoginPlan::ServicePrincipal { tenant, client_id, client_secret, auto_detected })
    }
}

/// Whether the arguments are those of a bare `login` (no tenant, client ID or secret).
pub open spec fn is_bare(arguments: LoginArguments) -> bool {
    arguments.tenant is None && arguments.client_id is None && arguments.client_secret is None
}

/// How a login request resolves from command-line arguments and config defaults.
pub open spec fn login_resolution(arguments: LoginArguments, config: AppConfig) -> Result<
    LoginPlan,
    LoginFailure,
> {
    if arguments.service_principal {
        let tenant = preferred_value(opt_chars(arguments.tenant), config.raw_tenant());
        let client_id = preferred_value(opt_chars(arguments.client_id), config.raw_client_id());
        let client_secret = preferred_value(
            opt_chars(arguments.client_secret),
            config.raw_client_secret(),
        );
        if tenant is None {
            Err(LoginFailure::ServicePrincipalTenantMissing)
        } else if client_id is None {
            Err(LoginFailure::ClientIdMissing)
        } else if client_secret is None {
            Err(LoginFailure::ClientSecretMissing)
        } else {
            check_service_principal(
                tenant->0,
                client_id->0,
                client_secret->0,
                false,
            )
        }
    } else if is_bare(arguments) && config.complete_service_principal() {
        check_service_principal(
            config.tenant_value()->0,
            config.client_id_value()->0,
            config.client_secret_value()->0,
            true,
        )
    } else {
        match preferred_value(opt_chars(arguments.tenant), config.raw_tenant()) {
            None => Err(LoginFailure::InteractiveTenantMissing),
            Some(tenant) => if !uuid_parses(tenant) {
                Err(LoginFailure::InvalidTenant)
            } else {
                Ok(LoginPlan::InteractiveUser { tenant })
            },
        }
    }
}

/// Calls `uuid::Uuid::try_parse` and reports whether it succeeded; the
/// forms it accepts are those that `uuid_parses` lists.
#[verifier::external_body]
fn is_guid(value: &str) -> (r: bool)
    ensures
        r == uuid_parses(value@),
{
    uuid::Uuid::try_parse(value).is_ok()
}

/// A copy of the text of a string.
fn copy_string(s: &String) -> (r: String)
    ensures
        r@ == s@,
{
    s.clone()
}

/// Prefers the explicit command-line value and falls back to the config value;
/// blank values count as missing and kept values are trimmed.
pub fn resolve_string_value(cli_value: &Option<String>, config_value: &Option<String>) -> (r:
    Option<String>)
    ensures
        opt_chars(r) == preferred_value(opt_chars(*cli_value), opt_chars(*config_value)),
{
    match non_empty_value(cli_value) {
        Some(v) => Some(v),
        None => non_empty_value(config_value),
    }
}

/// The trimmed text when it is not blank.
pub fn non_empty_string(value: &str) -> (r: Option<String>)
    ensures
        opt_chars(r) == non_empty(Some(value@)),
{
    let owned = Some(value.to_owned());
    non_empty_value(&owned)
}

/// Checks that a tenant is a UUID.
pub fn validate_tenant(tenant: &str) -> (r: Result<(), String>)
    ensures
        r is Ok <==> uuid_parses(tenant@),
        r matches Err(e) ==> e@ == failure_message(LoginFailure::InvalidTenant),
{
    if is_guid(tenant) {
        Ok(())
    } else {
        Err("Invalid tenant ID format. Please provide a valid UUID.".to_owned())
    }
}

/// Checks that a client ID is a UUID.
pub fn validate_client_id(client_id: &str) -> (r: Result<(), String>)
    ensures
        r is Ok <==> uuid_parses(client_id@),
        r matches Err(e) ==> e@ == failure_message(LoginFailure::InvalidClientId),
{
    if is_guid(client_id) {
        Ok(())
    } else {
        Err("Invalid client ID format. Please provide a valid UUID.".to_owned())
    }
}

/// Checks that a client secret holds visible text.
pub fn validate_client_secret(client_secret: &str) -> (r: Result<(), String>)
    ensures
        r is Ok <==> !is_blank(client_secret@),
        r matches Err(e) ==> e@ == failure_message(LoginFailure::InvalidClientSecret),
{
    if is_blank_text(client_secret) {
        Err("Invalid client secret. Please provide a non-empty value.".to_owned())
    } else {
        Ok(())
    }
}

/// The outcome of `login_resolution` in executable form.
pub open spec fn resolution_matches(
    r: Result<ResolvedLogin, String>,
    expected: Result<LoginPlan, LoginFailure>,
) -> bool {
    match (r, expected) {
        (Ok(plan), Ok(p)) => plan@ == p,
        (Err(e), Err(f)) => e@ == failure_message(f),
        _ => false,
    }
}

fn check_service_principal_values(
    tenant: String,
    client_id: String,
    client_secret: String,
    auto_detected: bool,
) -> (r: Result<ResolvedLogin, String>)
    ensures
        resolution_matches(
            r,
            check_service_principal(tenant@, client_id@, client_secret@, auto_detected),
        ),
{
    validate_tenant(tenant.as_str())?;
    validate_client_id(client_id.as_str())?;
    validate_client_secret(client_secret.as_str())?;
    Ok(ResolvedLogin::ServicePrincipal { tenant, client_id, client_secret, auto_detected })
}

/// Resolves the login mode and its values from command-line arguments and
/// config defaults: `--service-principal` forces service-principal login; a
/// bare `login` picks service-principal login only when the config holds a
/// complete set of defaults; otherwise interactive user login with the tenant.
/// Explicit command-line values always win over config values.
pub fn resolve_login(arguments: &LoginArguments, config: &AppConfig) -> (r: Result<
    ResolvedLogin,
    String,
>)
    ensures
        resolution_matches(r, login_resolution(*arguments, *config)),
{
    let config_tenant = match &config.azure {
        Some(azure) => match &azure.tenant {
            Some(t) => Some(copy_string(t)),
            None => None,
        },
        None => None,
    };
    let config_client_id = match &config.azure {
        Some(azure) => match &azure.service_principal {
            Some(sp) => match &sp.client_id {
                Some(t) => Some(copy_string(t)),
                None => None,
            },
            None => None,
        },
        None => None,
    };
    let config_client_secret = match &config.azure {
        Some(azure) => match &azure.service_principal {
            Some(sp) => match &sp.client_secret {
                Some(t) => Some(copy_string(t)),
                None => None,
            },
            None => None,
        },
        None => None,
    };
    assert(opt_chars(config_tenant) == config.raw_tenant());
    assert(opt_chars(config_client_id) == config.raw_client_id());
    assert(opt_chars(config_client_secret) == config.raw_client_secret());

    if arguments.service_principal {
        let tenant = match resolve_string_value(&arguments.tenant, &config_tenant) {
            Some(t) => t,
            None => {
                return Err(
                    "Service-principal login requires a tenant. Provide `login --service-principal <tenant>` or set `[azure].tenant` in `~/.martijn/cli/config.toml`.".to_owned(),
                );
            },
        };
        let client_id = match resolve_string_value(&arguments.client_id, &config_client_id) {
            Some(t) => t,
            None => {
                return Err(
                    "Service-principal login requires a client ID. Provide `--client-id` or set `[azure.service_principal].client_id` in `~/.martijn/cli/config.toml`.".to_owned(),
                );
            },
        };
        let client_secret = match resolve_string_value(
            &arguments.client_secret,
            &config_client_secret,
        ) {
            Some(t) => t,
            None => {
                return Err(
                    "Service-principal login requires a client secret. Provide `--client-secret` or set `[azure.service_principal].client_secret` in `~/.martijn/cli/config.toml`.".to_owned(),
                );
            },
        };
        return check_service_principal_values(tenant, client_id, client_secret, false);
    }
    let is_bare_login = arguments.tenant.is_none() && arguments.client_id.is_none()
        && arguments.client_secret.is_none();

    if is_bare_login && config.has_complete_service_principal_defaults() {
        let tenant = config.azure_tenant().unwrap();
        let client_id = config.azure_service_principal_client_id().unwrap();
        let client_secret = config.azure_service_principal_client_secret().unwrap();
        return check_service_principal_values(tenant, client_id, client_secret, true);
    }
    let tenant = match resolve_string_value(&arguments.tenant, &config_tenant) {
        Some(t) => t,
        None => {
            return Err(
                "Interactive Azure login requires a tenant. Provide `login <tenant>` or set `[azure].tenant` in `~/.martijn/cli/config.toml`.".to_owned(),
            );
        },
    };
    validate_tenant(tenant.as_str())?;
    Ok(ResolvedLogin::InteractiveUser { tenant })
}

/// The tenant of a resolved login.
pub open spec fn plan_tenant(p: LoginPlan) -> Seq<char> {
    match p {
        LoginPlan::InteractiveUser { tenant } => tenant,
        LoginPlan::ServicePrincipal { tenant, .. } => tenant,
    }
}

/// A tenant, client ID or client secret given on the command line (not
/// blank) wins over the config value: the resolved value is the given one,
/// trimmed.
pub proof fn law_login_explicit_values_win(arguments: LoginArguments, config: AppConfig)
    ensures
        login_resolution(arguments, config) matches Ok(p) ==> (non_empty(opt_chars(arguments.tenant)) matches Some(t) ==> plan_tenant(p) == t),
        login_resolution(arguments, config) matches Ok(LoginPlan::ServicePrincipal { client_id, client_secret, .. }) ==> {
            &&& (non_empty(opt_chars(arguments.client_id)) matches Some(c) ==> client_id == c)
            &&& (non_empty(opt_chars(arguments.client_secret)) matches Some(c) ==> client_secret == c)
        },
{
}

/// `--service-principal` always selects service-principal login, never by
/// auto-detection; without it, service-principal login is picked only for a
/// bare `login` with complete config defaults, and a bare `login` without
/// them is an interactive user login with the configured tenant.
pub proof fn law_login_mode(arguments: LoginArguments, config: AppConfig)
    ensures
        arguments.service_principal ==> match login_resolution(arguments, config) {
            Ok(LoginPlan::ServicePrincipal { auto_detected, .. }) => !auto_detected,
            Ok(LoginPlan::InteractiveUser { .. }) => false,
            Err(_) => true,
        },
        login_resolution(arguments, config) matches Ok(LoginPlan::ServicePrincipal { auto_detected, .. })
            ==> (auto_detected <==> !arguments.service_principal),
        login_resolution(arguments, config) matches Ok(LoginPlan::ServicePrincipal { auto_detected, .. })
            && auto_detected ==> is_bare(arguments) && config.complete_service_principal(),
        !arguments.service_principal && is_bare(arguments) && !config.complete_service_principal()
            ==> match login_resolution(arguments, config) {
            Ok(LoginPlan::InteractiveUser { tenant }) => config.tenant_value() == Some(tenant),
            Ok(LoginPlan::ServicePrincipal { .. }) => false,
            Err(f) => f == LoginFailure::InteractiveTenantMissing || f == LoginFailure::InvalidTenant,
        },
{
}

/// Every resolved login holds a tenant that parses as a UUID, and a
/// service-principal login also a client ID that parses as a UUID and a
/// secret that is not blank.
pub proof fn law_login_values_valid(arguments: LoginArguments, config: AppConfig)
    ensures
        login_resolution(arguments, config) matches Ok(p) ==> uuid_parses(plan_tenant(p)),
        login_resolution(arguments, config) matches Ok(LoginPlan::ServicePrincipal { client_id, client_secret, .. })
            ==> uuid_parses(client_id) && !is_blank(client_secret),
{
}

/// Without a tenant on the command line, a login in either mode uses the
/// shared default tenant of the config file.
pub proof fn law_login_config_tenant(arguments: LoginArguments, config: AppConfig)
    ensures
        login_resolution(arguments, config) matches Ok(p) ==> (non_empty(opt_chars(arguments.tenant))
            is None ==> config.tenant_value() == Some(plan_tenant(p))),
{
}

} // verus!
