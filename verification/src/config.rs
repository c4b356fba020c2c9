use vstd::prelude::*;

use crate::text::{is_blank_text, trim, trim_text};

verus! {

/// The whole CLI configuration file (`~/.martijn/cli/config.toml`).
pub struct AppConfig {
    /// The optional `[azure]` table.
    pub azure: Option<AzureConfig>,
}

/// The `[azure]` table.
pub struct AzureConfig {
    /// The shared default tenant used by both login modes.
    pub tenant: Option<String>,
    /// The nested `[azure.service_principal]` table.
    pub service_principal: Option<AzureServicePrincipalConfig>,
}

/// The `[azure.service_principal]` table.
pub struct AzureServicePrincipalConfig {
    /// The default client ID for service-principal login.
    pub client_id: Option<String>,
    /// The default client secret for service-principal login.
    pub client_secret: Option<String>,
}

/// The characters of an optional string.
pub open spec fn opt_chars(v: Option<String>) -> Option<Seq<char>> {
    match v {
        Some(s) => Some(s@),
        None => None,
    }
}

/// A value that is present and not blank, trimmed; blank values count as missing.
pub open spec fn non_empty(v: Option<Seq<char>>) -> Option<Seq<char>> {
    match v {
        Some(s) => if trim(s).len() == 0 {
            None
        } else {
            Some(trim(s))
        },
        None => None,
    }
}

impl AppConfig {
    /// The raw `[azure].tenant` value.
    pub open spec fn raw_tenant(&self) -> Option<Seq<char>> {
        match self.azure {
            Some(azure) => opt_chars(azure.tenant),
            None => None,
        }
    }

    /// The raw `[azure.service_principal].client_id` value.
    pub open spec fn raw_client_id(&self) -> Option<Seq<char>> {
        match self.azure {
            Some(azure) => match azure.service_principal {
                Some(sp) => opt_chars(sp.client_id),
                None => None,
            },
            None => None,
        }
    }

    /// The raw `[azure.service_principal].client_secret` value.
    pub open spec fn raw_client_secret(&self) -> Option<Seq<char>> {
        match self.azure {
            Some(azure) => match azure.service_principal {
                Some(sp) => opt_chars(sp.client_secret),
                None => None,
            },
            None => None,
        }
    }

    /// The usable configured tenant.
    pub open spec fn tenant_value(&self) -> Option<Seq<char>> {
        non_empty(self.raw_tenant())
    }

    /// The usable configured service-principal client ID.
    pub open spec fn client_id_value(&self) -> Option<Seq<char>> {
        non_empty(self.raw_client_id())
    }

    /// The usable configured service-principal client secret.
    pub open spec fn client_secret_value(&self) -> Option<Seq<char>> {
        non_empty(self.raw_client_secret())
    }

    /// Whether tenant, client ID and client secret are all usable.
    pub open spec fn complete_service_principal(&self) -> bool {
        &&& self.tenant_value() is Some
        &&& self.client_id_value() is Some
        &&& self.client_secret_value() is Some
    }

    /// The empty configuration, the same as a missing file.
    pub fn default() -> (r: AppConfig)
        ensures
            r.azure is None,
    {
        AppConfig { azure: None }
    }

    /// The configured Azure tenant when it exists and is not blank (trimmed).
    pub fn azure_tenant(&self) -> (r: Option<String>)
        ensures
            opt_chars(r) == self.tenant_value(),
    {
        match &self.azure {
            Some(azure) => non_empty_value(&azure.tenant),
            None => None,
        }
    }

    /// The configured service-principal client ID when it exists and is not blank (trimmed).
    pub fn azure_service_principal_client_id(&self) -> (r: Option<String>)
        ensures
            opt_chars(r) == self.client_id_value(),
    {
        match &self.azure {
            Some(azure) => match &azure.service_principal {
                Some(sp) => non_empty_value(&sp.client_id),
                None => None,
            },
            None => None,
        }
    }

    /// The configured service-principal client secret when it exists and is not blank (trimmed).
    pub fn azure_service_principal_client_secret(&self) -> (r: Option<String>)
        ensures
            opt_chars(r) == self.client_secret_value(),
    {
        match &self.azure {
            Some(azure) => match &azure.service_principal {
                Some(sp) => non_empty_value(&sp.client_secret),
                None => None,
            },
            None => None,
        }
    }

    /// Whether the configuration holds a complete set of service-principal defaults.
    pub fn has_complete_service_principal_defaults(&self) -> (r: bool)
        ensures
            r == self.complete_service_principal(),
    {
        self.azure_tenant().is_some() && self.azure_service_principal_client_id().is_some()
            && self.azure_service_principal_client_secret().is_some()
    }
}

/// A configured value, trimmed, or `None` when it is missing or blank.
pub fn non_empty_value(value: &Option<String>) -> (r: Option<String>)
    ensures
        opt_chars(r) == non_empty(opt_chars(*value)),
{
    match value {
        Some(v) => {
            if is_blank_text(v.as_str()) {
                None
            } else {
                Some(trim_text(v.as_str()))
            }
        },
        None => None,
    }
}

/// The characters of `base` joined with one more path segment, as `Path::join`
/// produces them.
pub uninterp spec fn path_join(base: Seq<char>, segment: Seq<char>) -> Seq<char>;

/// Calls `Path::join` on a UTF-8 base path and a relative segment; the result
/// is named by `path_join`. Both inputs are UTF-8, so the joined path is too
/// and its conversion back to text loses nothing.
#[verifier::external_body]
pub(crate) fn join_path(base: &str, segment: &str) -> (r: String)
    ensures
        r@ == path_join(base@, segment@),
{
    std::path::Path::new(base).join(segment).to_string_lossy().into_owned()
}

/// The CLI directory `<home>/.martijn/cli`.
pub open spec fn cli_directory(home: Seq<char>) -> Seq<char> {
    path_join(path_join(home, ".martijn"@), "cli"@)
}

/// Appends the fixed `.martijn/cli` directory below a known home directory.
pub fn build_cli_directory_from_home(home_directory: &str) -> (r: String)
    ensures
        r@ == cli_directory(home_directory@),
{
    let app = join_path(home_directory, ".martijn");
    join_path(app.as_str(), "cli")
}

/// The config file `<cli directory>/config.toml`.
pub fn build_cli_config_path_from_home(home_directory: &str) -> (r: String)
    ensures
        r@ == path_join(cli_directory(home_directory@), "config.toml"@),
{
    let dir = build_cli_directory_from_home(home_directory);
    join_path(dir.as_str(), "config.toml")
}

/// The inventory report directory `<cli directory>/inventory`.
pub fn build_inventory_output_directory_from_home(home_directory: &str) -> (r: String)
    ensures
        r@ == path_join(cli_directory(home_directory@), "inventory"@),
{
    let dir = build_cli_directory_from_home(home_directory);
    join_path(dir.as_str(), "inventory")
}

/// The snapshot directory `<cli directory>/snapshot`.
pub fn build_snapshot_output_directory_from_home(home_directory: &str) -> (r: String)
    ensures
        r@ == path_join(cli_directory(home_directory@), "snapshot"@),
{
    let dir = build_cli_directory_from_home(home_directory);
    join_path(dir.as_str(), "snapshot")
}

/// The home directory chosen from the values of `HOME` and `USERPROFILE`:
/// the first one that is present and not empty.
pub open spec fn home_choice(home: Option<Seq<char>>, user_profile: Option<Seq<char>>) -> Option<
    Seq<char>,
> {
    match home {
        Some(h) if h.len() > 0 => Some(h),
        _ => match user_profile {
            Some(u) if u.len() > 0 => Some(u),
            _ => None,
        },
    }
}

/// Picks the home directory from the values of `HOME` and `USERPROFILE`.
pub fn choose_home_directory(home: Option<String>, user_profile: Option<String>) -> (r: Option<
    String,
>)
    ensures
        opt_chars(r) == home_choice(opt_chars(home), opt_chars(user_profile)),
{
    if let Some(h) = home {
        if h.as_str().is_empty() == false {
            return Some(h);
        }
    }
    if let Some(u) = user_profile {
        if u.as_str().is_empty() == false {
            return Some(u);
        }
    }
    None
}

/// The message given when neither `HOME` nor `USERPROFILE` names a directory.
pub open spec fn home_directory_error() -> Seq<char> {
    "could not determine the user's home directory from HOME or USERPROFILE"@
}

/// A directory below the chosen home directory, or the home-directory error.
pub open spec fn below_home(
    home: Option<Seq<char>>,
    user_profile: Option<Seq<char>>,
    place: spec_fn(Seq<char>) -> Seq<char>,
) -> Result<Seq<char>, Seq<char>> {
    match home_choice(home, user_profile) {
        Some(h) => Ok(place(h)),
        None => Err(home_directory_error()),
    }
}

/// The view of a `Result` of texts.
pub open spec fn result_chars(r: Result<String, String>) -> Result<Seq<char>, Seq<char>> {
    match r {
        Ok(s) => Ok(s@),
        Err(e) => Err(e@),
    }
}

fn home_directory_or_error(home: Option<String>, user_profile: Option<String>) -> (r: Result<
    String,
    String,
>)
    ensures
        result_chars(r) == below_home(opt_chars(home), opt_chars(user_profile), |h: Seq<char>| h),
{
    match choose_home_directory(home, user_profile) {
        Some(h) => Ok(h),
        None => Err(
            String::from_str("could not determine the user's home directory from HOME or USERPROFILE"),
        ),
    }
}

/// Resolves the shared CLI directory `<home>/.martijn/cli` from the values
/// of `HOME` and `USERPROFILE`.
pub fn resolve_cli_directory(home: Option<String>, user_profile: Option<String>) -> (r: Result<
    String,
    String,
>)
    ensures
        result_chars(r) == below_home(
            opt_chars(home),
            opt_chars(user_profile),
            |h: Seq<char>| cli_directory(h),
        ),
{
    match home_directory_or_error(home, user_profile) {
        Ok(h) => Ok(build_cli_directory_from_home(h.as_str())),
        Err(e) => Err(e),
    }
}

/// Resolves the config file `<home>/.martijn/cli/config.toml` from the
/// values of `HOME` and `USERPROFILE`.
pub fn resolve_cli_config_path(home: Option<String>, user_profile: Option<String>) -> (r: Result<
    String,
    String,
>)
    ensures
        result_chars(r) == below_home(
            opt_chars(home),
            opt_chars(user_profile),
            |h: Seq<char>| path_join(cli_directory(h), "config.toml"@),
        ),
{
    match home_directory_or_error(home, user_profile) {
        Ok(h) => Ok(build_cli_config_path_from_home(h.as_str())),
        Err(e) => Err(e),
    }
}

/// Resolves the inventory report directory `<home>/.martijn/cli/inventory`
/// from the values of `HOME` and `USERPROFILE`.
pub fn resolve_inventory_output_directory(home: Option<String>, user_profile: Option<String>) -> (r:
    Result<String, String>)
    ensures
        result_chars(r) == below_home(
            opt_chars(home),
            opt_chars(user_profile),
            |h: Seq<char>| path_join(cli_directory(h), "inventory"@),
        ),
{
    match home_directory_or_error(home, user_profile) {
        Ok(h) => Ok(build_inventory_output_directory_from_home(h.as_str())),
        Err(e) => Err(e),
    }
}

/// The directory where inventory reports are stored; the same directory
/// that report generation writes below.
pub fn inventory_reports_directory(home: Option<String>, user_profile: Option<String>) -> (r: Result<
    String,
    String,
>)
    ensures
        result_chars(r) == below_home(
            opt_chars(home),
            opt_chars(user_profile),
            |h: Seq<char>| path_join(cli_directory(h), "inventory"@),
        ),
{
    resolve_inventory_output_directory(home, user_profile)
}

/// Resolves the snapshot directory `<home>/.martijn/cli/snapshot` from the
/// values of `HOME` and `USERPROFILE`.
pub fn resolve_snapshot_output_directory(home: Option<String>, user_profile: Option<String>) -> (r:
    Result<String, String>)
    ensures
        result_chars(r) == below_home(
            opt_chars(home),
            opt_chars(user_profile),
            |h: Seq<char>| path_join(cli_directory(h), "snapshot"@),
        ),
{
    match home_directory_or_error(home, user_profile) {
        Ok(h) => Ok(build_snapshot_output_directory_from_home(h.as_str())),
        Err(e) => Err(e),
    }
}

} // verus!
