use vstd::prelude::*;

/// Text over character sequences: trimming, case folding, searching, joining.
pub mod text;
/// The config file's values and the directories below the home directory.
pub mod config;
/// How `login` turns command-line values and config defaults into a login.
pub mod login;
/// Stable sorting by composite keys, with its laws.
pub mod sort;
/// Saved reports and snapshots: file names, locations, listing and lookup.
pub mod artifacts;
/// UTC calendar fields and the timestamps shown in names and reports.
pub mod clock;
/// The account, resource group and resource fields that reports show.
pub mod model;
/// The inventory report: escaping, summaries, signals, sections, Markdown.
pub mod report;
/// JSON values, key-sorted copies and compact JSON text.
pub mod json;
/// Resource and resource group snapshots: normalization, fingerprints, order.
pub mod snapshot;
/// Terminal lists, the resource tree, and reports built from snapshots.
pub mod inventory;
/// Shared argument scanning and the errors of the command parsers.
pub mod args;
/// The `azure` subcommands of the command line.
pub mod azure_cli;
/// The commands of the interactive Azure shell.
pub mod azure_shell;
/// The commands of the earlier interactive Azure shell.
pub mod classic_azure_shell;
/// The `dummy` subcommands of the command line.
pub mod dummy;
/// The commands of the interactive dummy shell.
pub mod dummy_shell;
/// The commands of the interactive root shell.
pub mod root_shell;
/// The top-level command line and shell line splitting.
pub mod cli;

verus! {
} // verus!
