//! A directory-listing renderer: classifies filesystem entries, sorts them,
//! and lays them out into aligned textual presentations.

pub mod cli;
pub mod config;
pub mod file_entry;
pub mod formatter;
pub mod icon;
pub mod layout;
pub mod sort;
pub mod text;

pub use cli::Args;
pub use config::{Color, ColorConfig, Config, DisplayConfig, IconColorConfig, IconConfig};
pub use file_entry::{FileEntry, FileType};
pub use formatter::{Formatter, format_long, format_one_per_line, format_recursive, format_short};
pub use formatter::recursive::TreeNode;
pub use icon::FileIcon;
pub use layout::{Line, Segment};
pub use sort::{SortField, sort_default, sort_entries};

use vstd::prelude::*;

verus! {

/// The diagnostic for a target path that does not exist, word for word as
/// it is printed to the error stream.
pub fn missing_target_message(target: &str) -> (s: String)
    ensures
        s@ == "lx: cannot access '"@ + target@ + "': No such file or directory"@,
{
    let mut s = "lx: cannot access '".to_owned();
    s.append(target);
    s.append("': No such file or directory");
    s
}

} // verus!
