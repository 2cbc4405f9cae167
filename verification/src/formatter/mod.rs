//! The renderers: four presentation strategies over one entry model,
//! sort engine and column layout.

pub mod long;
pub mod one_per_line;
pub mod recursive;
pub mod short;

pub use long::format_long;
pub use one_per_line::format_one_per_line;
pub use recursive::format_recursive;
pub use short::format_short;

use vstd::prelude::*;

use crate::config::{Config, default_config_v};
use crate::file_entry::FileEntry;
use crate::layout::{Line, grouped, group_of, partition_entries, views_of_lines};
use crate::sort::views_of;
use long::{LayoutSpec, default_fields, long_rows, long_rows_spec};
use short::{format_single_column_per_type, single_column_lines};

verus! {

/// The renderers over the built-in defaults: entries are grouped by type in
/// their incoming order, without re-sorting.
pub struct Formatter;

impl Formatter {
    /// The compact layout under the default theme and geometry: one column
    /// per type group, in the entries' incoming order within each group.
    pub fn format_short(entries: Vec<FileEntry>) -> (lines: Vec<Line>)
        ensures
            views_of_lines(lines@) == single_column_lines(
                group_of(views_of(entries@), 0),
                group_of(views_of(entries@), 1),
                group_of(views_of(entries@), 2),
                2,
                default_config_v(),
            ),
    {
        let (d, e, f) = partition_entries(entries);
        let config = Config::default();
        format_single_column_per_type(d, e, f, 2, &config)
    }

    /// The long table under the default theme, field order and spacing:
    /// entries grouped by type in their incoming order within each group.
    pub fn format_long(entries: Vec<FileEntry>) -> (lines: Vec<Line>)
        ensures
            views_of_lines(lines@) == long_rows_spec(
                grouped(views_of(entries@)),
                default_fields(),
                2,
                default_config_v(),
            ),
    {
        let ghost orig = views_of(entries@);
        let (d, e, mut f) = partition_entries(entries);
        let mut all = d;
        let mut e2 = e;
        all.append(&mut e2);
        all.append(&mut f);
        proof {
            assert(views_of(all@) =~= grouped(orig));
        }
        let config = Config::default();
        let layout = LayoutSpec::default();
        long_rows(&all, &layout, 2, &config)
    }
}

} // verus!
