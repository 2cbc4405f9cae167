//! The command-line request, as plain values: the argument parser in the
//! surrounding binary fills this in and hands it over.

use vstd::prelude::*;

verus! {

/// What the user asked for on the command line.
#[derive(Debug)]
pub struct Args {
    /// The path to list.
    pub target: String,
    /// Use the long listing format.
    pub long: bool,
    /// Show hidden files too.
    pub show_hidden: bool,
    /// Force one entry per line.
    pub one_per_line: bool,
    /// Walk subdirectories recursively.
    pub recursive: bool,
}

} // verus!
