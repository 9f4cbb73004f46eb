//! The command line of the first generation of the program, as plain
//! values: one variant for each command, with its own options.

use vstd::prelude::*;
use vstd::string::*;
use crate::text::str_eq;

verus! {

/// The command line.
#[derive(Debug)]
pub struct Cli {
    pub command: Commands,
}

/// The commands and their options.
#[derive(Debug)]
#[allow(inconsistent_fields)]
pub enum Commands {
    /// Clone a package base from the repository.
    Clone { package_name: String, mpr_url: MprURL },
    /// Comment on a package page.
    Comment { package_name: String, message: Option<String>, mpr_url: MprURL, mpr_token: MprToken },
    /// Install packages from both catalogs.
    Install { package_names: Vec<String>, mpr_url: MprURL },
    /// List packages of both catalogs.
    List { mpr_url: MprURL, name_only: bool, mode: SearchMode, package_names: Vec<String> },
    /// List the comments on a package.
    ListComments { mpr_url: MprURL, paging: Paging, package_name: String },
    /// Remove packages from the system.
    Remove { mpr_url: MprURL, purge: bool, autoremove: bool, package_names: Vec<String> },
    /// Search for a package.
    Search { mpr_url: MprURL, name_only: bool, mode: SearchMode, query: Vec<String> },
    /// Update the catalogs.
    Update { mpr_url: MprURL },
    /// Upgrade the packages on the system.
    Upgrade { mpr_url: MprURL, mode: UpgradeMode },
    /// Show the user that the token belongs to.
    Whoami { mpr_url: MprURL, mpr_token: MprToken },
}

/// Which catalogs an upgrade covers.
#[derive(Clone, Copy, Debug, PartialEq, Eq, Structural)]
pub enum UpgradeMode {
    /// Upgrade the packages of both catalogs.
    Both,
    /// Upgrade the packages of the system catalog only.
    AptOnly,
    /// Upgrade the packages of the auxiliary catalog only.
    MprOnly,
}

/// When output goes to a pager.
#[derive(Clone, Copy, Debug, PartialEq, Eq, Structural)]
pub enum Paging {
    Auto,
    Always,
    Never,
}

/// The address of the repository.
#[derive(Debug)]
pub struct MprURL {
    pub url: String,
}

/// The token that authorizes requests to the repository.
#[derive(Debug)]
pub struct MprToken {
    pub token: String,
}

/// Which packages a listing or a search shows.
#[derive(Clone, Copy, Debug, PartialEq, Eq, PartialOrd, Ord, Hash, Structural)]
pub enum SearchMode {
    /// No filter applied.
    NoFilter,
    /// Only packages of the auxiliary catalog.
    MprOnly,
    /// Only packages of the system catalog.
    AptOnly,
    /// Only installed packages.
    Installed,
}

/// The filters of a listing, as switches.
#[derive(Clone, Copy, Debug, PartialEq, Eq, Structural)]
pub struct Filters {
    pub apt_only: bool,
    pub mpr_only: bool,
    pub installed_only: bool,
}

impl UpgradeMode {
    /// Whether the upgrade covers the system catalog.
    pub fn covers_apt(self) -> (r: bool)
        ensures
            r == (self != UpgradeMode::MprOnly),
    {
        match self {
            UpgradeMode::MprOnly => false,
            _ => true,
        }
    }

    /// Whether the upgrade covers the auxiliary catalog.
    pub fn covers_mpr(self) -> (r: bool)
        ensures
            r == (self != UpgradeMode::AptOnly),
    {
        match self {
            UpgradeMode::AptOnly => false,
            _ => true,
        }
    }
}

impl Paging {
    /// The paging that a word asks for: `always`, `never`, and automatic for
    /// any other word.
    pub fn from_text(word: &str) -> (r: Paging)
        ensures
            r == if word@ == "always"@ {
                Paging::Always
            } else if word@ == "never"@ {
                Paging::Never
            } else {
                Paging::Auto
            },
    {
        if str_eq(word, "always") {
            Paging::Always
        } else if str_eq(word, "never") {
            Paging::Never
        } else {
            Paging::Auto
        }
    }
}

impl SearchMode {
    /// The switches that the mode stands for: at most one is set.
    pub fn filters(self) -> (r: Filters)
        ensures
            r.apt_only == (self == SearchMode::AptOnly),
            r.mpr_only == (self == SearchMode::MprOnly),
            r.installed_only == (self == SearchMode::Installed),
    {
        Filters {
            apt_only: matches!(self, SearchMode::AptOnly),
            mpr_only: matches!(self, SearchMode::MprOnly),
            installed_only: matches!(self, SearchMode::Installed),
        }
    }
}

} // verus!
