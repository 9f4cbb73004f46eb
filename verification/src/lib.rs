//! Planning the installation of packages from two catalogs: the system's own
//! package index and a repository of packages that are built from source.

pub mod apt;
pub mod args;
pub mod cache;
pub mod cli;
pub mod clone;
pub mod comment;
pub mod date;
pub mod depend;
pub mod graph;
pub mod install;
pub mod install_util;
pub mod list;
pub mod list_comments;
pub mod message;
pub mod mpr_cache;
pub mod progress;
pub mod quick_list;
pub mod ranking;
pub mod remove;
pub mod request;
pub mod resolve;
pub mod search;
pub mod style;
pub mod text;
pub mod transaction;
pub mod update;
pub mod upgrade;
pub mod util;
pub mod version;
pub mod whoami;
