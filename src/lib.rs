//! Locates an installed executable by scanning the directories of a
//! search-path list, in order, for a regular file of the requested name.
//!
//! The lookup logic is verified against a model in which the search path is a
//! sequence of characters and the file system is a predicate on candidate
//! paths. Reading the process environment and querying the file system are
//! left to the caller, which hands in the variable's value and a probe.
pub mod locate;
pub mod path_list;

pub use crate::locate::{first_regular_in, locate};
pub use crate::path_list::{PathConvention, join_path, split_path_list};
