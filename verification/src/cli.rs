//! The commands of the command line and their arguments, as plain data.

use std::path::PathBuf;
use vstd::prelude::*;

verus! {

/// `std::path::PathBuf`, carried through as an opaque value.
#[verifier::external_type_specification]
#[verifier::external_body]
pub struct ExPathBuf(PathBuf);

/// The origin that requests carry unless another is given.
pub const DEFAULT_ORIGIN: &'static str = "hc-ops";

/// Arguments of an administrative call to a running node.
#[derive(Debug)]
pub struct AdminArgs {
    /// The tag of the node to connect to.
    pub tag: String,
    /// The origin header of the request.
    pub origin: String,
    pub command: AdminCommands,
}

/// The administrative calls.
#[derive(Debug)]
pub enum AdminCommands {
    /// List the installed apps, in full or as a summary.
    ListApps { full: bool },
    /// Install an app from a bundle file and enable it.
    InstallApp { path: PathBuf, network_seed: Option<String>, app_id: Option<String> },
    /// Uninstall an app.
    UninstallApp { app_id: String },
    /// Storage used, for all apps or for one.
    StorageInfo { app_id: Option<String> },
    /// Network metrics per shard, for all apps or for one.
    NetworkMetrics { app_id: Option<String> },
    /// Network statistics of the node.
    NetworkStats,
}

/// Arguments for checking and running app initialisation.
#[derive(Debug)]
pub struct InitArgs {
    /// The tag of the node to connect to.
    pub tag: String,
    /// The origin header of the request.
    pub origin: String,
    pub command: InitCommands,
}

/// The initialisation commands.
#[derive(Debug)]
pub enum InitCommands {
    /// Report which cells have been initialised.
    Check,
    /// Initialise the cells of one app.
    Execute { origin: String, app_id: String },
}

/// Arguments for exploring the stores of a node.
#[derive(Debug)]
pub struct ExploreArgs {
    /// The tag of the node to connect to.
    pub tag: String,
    /// The origin header of the request.
    pub origin: String,
    /// The root of the node's data directory.
    pub data_root_path: PathBuf,
}

/// Arguments for comparing data with that of another node.
#[derive(Debug)]
pub struct CompareArgs {
    pub command: CompareCommands,
}

/// The comparisons.
#[derive(Debug)]
pub enum CompareCommands {
    /// Compare two printed captures of slice hashes.
    SliceHashes { our_file: PathBuf, their_file: PathBuf },
}

} // verus!
