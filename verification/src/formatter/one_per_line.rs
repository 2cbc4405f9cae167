//! One entry per output line, grouped by type, with icon and name.

use vstd::prelude::*;

use crate::config::{Config, ConfigV};
use crate::file_entry::{EntryV, FileEntry};
use crate::layout::{Line, SegV, append_entry_segs, entry_segs, views_of_lines};
use crate::sort::{SortKey, sort_default, sort_seq, views_of};

verus! {

/// The whole one-per-line layout of an already ordered entry sequence: the
/// icon, blank and name segments of each entry on a line of its own.
pub open spec fn one_per_line_spec(entries: Seq<EntryV>, cfg: ConfigV) -> Seq<Seq<SegV>> {
    Seq::new(entries.len(), |i: int| entry_segs(entries[i], cfg))
}

/// In the one-per-line layout every directory's line stands before every
/// executable's line, which stands before every regular file's line: line
/// `i` shows the `i`-th entry of the sorted order, whose type rank never
/// decreases along the output.
pub proof fn lemma_one_per_line_groups(entries: Seq<EntryV>, cfg: ConfigV, i: int, j: int)
    requires
        0 <= i <= j < one_per_line_spec(sort_seq(SortKey::DefaultName, entries), cfg).len(),
    ensures
        one_per_line_spec(sort_seq(SortKey::DefaultName, entries), cfg)[i] == entry_segs(
            sort_seq(SortKey::DefaultName, entries)[i],
            cfg,
        ),
        crate::file_entry::type_rank(
            crate::file_entry::entry_type(sort_seq(SortKey::DefaultName, entries)[i]),
        ) <= crate::file_entry::type_rank(
            crate::file_entry::entry_type(sort_seq(SortKey::DefaultName, entries)[j]),
        ),
{
    crate::sort::lemma_sort_groups_types(SortKey::DefaultName, entries, i, j);
}

/// Lays out entries one per line: directories first, then executables, then
/// regular files, each group in the default case-insensitive name order.
pub fn format_one_per_line(entries: Vec<FileEntry>, config: &Config) -> (lines: Vec<Line>)
    ensures
        views_of_lines(lines@) == one_per_line_spec(
            sort_seq(SortKey::DefaultName, views_of(entries@)),
            config@,
        ),
{
    let mut v = entries;
    sort_default(&mut v);
    let ghost sorted = views_of(v@);
    let mut lines: Vec<Line> = Vec::new();
    let mut i: usize = 0;
    proof {
        assert(views_of_lines(lines@) =~= one_per_line_spec(sorted.take(0), config@));
    }
    while i < v.len()
        invariant
            i <= v.len(),
            sorted == views_of(v@),
            sorted.len() == v.len(),
            views_of_lines(lines@) == one_per_line_spec(sorted.take(i as int), config@),
        decreases v.len() - i,
    {
        let ghost prev = views_of_lines(lines@);
        let mut l = Line::new();
        append_entry_segs(&mut l, &v[i], config);
        proof {
            assert(l@ =~= entry_segs(sorted[i as int], config@));
        }
        lines.push(l);
        proof {
            assert(views_of_lines(lines@) =~= prev.push(lines@.last()@));
            assert(views_of_lines(lines@) =~= one_per_line_spec(sorted.take(i + 1), config@));
        }
        i = i + 1;
    }
    proof {
        assert(sorted.take(v.len() as int) =~= sorted);
    }
    lines
}

} // verus!
