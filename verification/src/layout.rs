//! The column layout model: output is a sequence of lines, each a sequence
//! of segments carrying their own color and emphasis, so that padding is
//! always computed from the plain text before any styling is applied.

use vstd::prelude::*;

use crate::config::{Color, Config, ConfigV, IconConfig, IconConfigV};
use crate::file_entry::{EntryV, FileEntry, FileType, entry_type, file_icon_of};
use crate::icon::{custom_glyph, icon_color, label_color};
use crate::sort::{rank_of, views_of};
use crate::text::{display_width, space_seq, spaces, str_width, push_char};

verus! {

/// One run of characters with one styling: either plain, or colored and
/// possibly bold.
#[derive(Debug)]
pub struct Segment {
    pub text: String,
    pub color: Option<Color>,
    pub bold: bool,
}

/// Mathematical image of a `Segment`.
pub struct SegV {
    pub text: Seq<char>,
    pub color: Option<Color>,
    pub bold: bool,
}

impl View for Segment {
    type V = SegV;

    open spec fn view(&self) -> SegV {
        SegV { text: self.text@, color: self.color, bold: self.bold }
    }
}

/// One output line, as the segments to print left to right.
#[derive(Debug)]
pub struct Line {
    pub segs: Vec<Segment>,
}

impl View for Line {
    type V = Seq<SegV>;

    open spec fn view(&self) -> Seq<SegV> {
        self.segs@.map_values(|s: Segment| s@)
    }
}

/// The images of a sequence of lines.
pub open spec fn views_of_lines(s: Seq<Line>) -> Seq<Seq<SegV>> {
    s.map_values(|l: Line| l@)
}

/// The plain text of a line: its segments' texts concatenated, with every
/// styling stripped.
pub open spec fn line_plain(l: Seq<SegV>) -> Seq<char>
    decreases l.len(),
{
    if l.len() == 0 {
        Seq::empty()
    } else {
        line_plain(l.drop_last()) + l.last().text
    }
}

impl Line {
    /// A line with no segments yet.
    pub fn new() -> (l: Line)
        ensures
            l@ == Seq::<SegV>::empty(),
    {
        let l = Line { segs: Vec::new() };
        proof {
            assert(l@ =~= Seq::<SegV>::empty());
        }
        l
    }

    /// Appends a plain segment.
    pub fn push_plain(&mut self, text: String)
        ensures
            final(self)@ == old(self)@.push(SegV { text: text@, color: None, bold: false }),
    {
        let ghost prev = self@;
        self.segs.push(Segment { text, color: None, bold: false });
        proof {
            assert(self@ =~= prev.push(self.segs@.last()@));
        }
    }

    /// Appends a styled segment.
    pub fn push_styled(&mut self, text: String, color: Color, bold: bool)
        ensures
            final(self)@ == old(self)@.push(SegV { text: text@, color: Some(color), bold }),
    {
        let ghost prev = self@;
        self.segs.push(Segment { text, color: Some(color), bold });
        proof {
            assert(self@ =~= prev.push(self.segs@.last()@));
        }
    }
}

/// The label a tabular renderer measures for an entry: the themed icon
/// glyph, one blank, then the display name.
pub open spec fn label_of(e: EntryV, icons: IconConfigV) -> Seq<char> {
    custom_glyph(file_icon_of(e), icons) + seq![' '] + e.name
}

/// Builds an entry's label.
pub fn entry_label(e: &FileEntry, icons: &IconConfig) -> (s: String)
    ensures
        s@ == label_of(e@, icons@),
{
    let mut s = e.get_icon_custom(icons);
    push_char(&mut s, ' ');
    s.append(e.name.as_str());
    proof {
        assert(s@ =~= label_of(e@, icons@));
    }
    s
}

/// The widest label of a group, in display columns; an empty group is zero
/// columns wide.
pub open spec fn max_label_width(s: Seq<EntryV>, icons: IconConfigV) -> nat
    decreases s.len(),
{
    if s.len() == 0 {
        0
    } else {
        let rest = max_label_width(s.drop_last(), icons);
        let last = display_width(label_of(s.last(), icons));
        if last > rest {
            last
        } else {
            rest
        }
    }
}

/// Every label of a group fits inside the group's column.
pub proof fn lemma_max_label_width_ge(s: Seq<EntryV>, icons: IconConfigV, i: int)
    requires
        0 <= i < s.len(),
    ensures
        display_width(label_of(s[i], icons)) <= max_label_width(s, icons),
    decreases s.len(),
{
    if i < s.len() - 1 {
        assert(s.drop_last()[i] == s[i]);
        lemma_max_label_width_ge(s.drop_last(), icons, i);
    }
}

/// Computes the widest label of a group.
pub fn group_width(entries: &Vec<FileEntry>, icons: &IconConfig) -> (w: usize)
    ensures
        w as nat == max_label_width(views_of(entries@), icons@),
{
    let ghost vs = views_of(entries@);
    let mut w: usize = 0;
    let mut i: usize = 0;
    proof {
        assert(vs.take(0) =~= Seq::<EntryV>::empty());
    }
    while i < entries.len()
        invariant
            i <= entries.len(),
            vs == views_of(entries@),
            vs.len() == entries.len(),
            w as nat == max_label_width(vs.take(i as int), icons@),
        decreases entries.len() - i,
    {
        let label = entry_label(&entries[i], icons);
        let lw = str_width(label.as_str());
        proof {
            assert(vs.take(i + 1).drop_last() =~= vs.take(i as int));
            assert(vs.take(i + 1).last() == vs[i as int]);
        }
        if lw > w {
            w = lw;
        }
        i = i + 1;
    }
    proof {
        assert(vs.take(vs.len() as int) =~= vs);
    }
    w
}

/// The padding that brings a text of width `actual` up to `target` columns:
/// empty when the text already fills the column.
pub open spec fn pad_seq(actual: nat, target: nat) -> Seq<char> {
    if actual < target {
        space_seq((target - actual) as nat)
    } else {
        Seq::empty()
    }
}

/// Builds the padding for a measured label.
pub fn padding_for(actual: usize, target: usize) -> (s: String)
    ensures
        s@ == pad_seq(actual as nat, target as nat),
{
    if actual < target {
        spaces(target - actual)
    } else {
        let s = String::new();
        proof {
            assert(s@ =~= pad_seq(actual as nat, target as nat));
        }
        s
    }
}

/// The number of visual columns a group needs under a row cap:
/// the count divided by the cap, rounded up.
pub open spec fn cols_needed(count: nat, cap: nat) -> nat
    recommends
        cap > 0,
{
    ((count + cap - 1) as int / cap as int) as nat
}

/// A plain segment: the given text, no color, no emphasis.
pub open spec fn plain_seg(t: Seq<char>) -> SegV {
    SegV { text: t, color: None, bold: false }
}

/// The three segments every renderer prints for an entry: its icon in the
/// icon color, one blank, and its name in the label color, bold unless the
/// entry is a regular file.
pub open spec fn entry_segs(e: EntryV, cfg: ConfigV) -> Seq<SegV> {
    seq![
        SegV {
            text: custom_glyph(file_icon_of(e), cfg.icons),
            color: Some(icon_color(file_icon_of(e), cfg.icons.colors)),
            bold: false,
        },
        plain_seg(seq![' ']),
        SegV {
            text: e.name,
            color: Some(label_color(file_icon_of(e), cfg.colors)),
            bold: entry_type(e) != FileType::RegularFile,
        },
    ]
}

/// Appends an entry's icon, blank and name segments to a line.
pub fn append_entry_segs(l: &mut Line, e: &FileEntry, config: &Config)
    ensures
        final(l)@ == old(l)@ + entry_segs(e@, config@),
{
    let ghost prev = l@;
    l.push_styled(e.get_icon_custom(&config.icons), e.get_icon_color(&config.icons.colors), false);
    l.push_plain(" ".to_owned());
    let bold = match e.get_file_type() {
        FileType::RegularFile => false,
        _ => true,
    };
    l.push_styled(e.name.clone(), e.get_color(&config.colors), bold);
    proof {
        reveal_strlit(" ");
        assert(" "@ =~= seq![' ']);
        assert(l@ =~= prev + entry_segs(e@, config@));
    }
}

/// The entries of one type-group rank, in their incoming order.
pub open spec fn group_of(s: Seq<EntryV>, r: int) -> Seq<EntryV> {
    s.filter(|e: EntryV| rank_of(e) == r)
}

/// The grouped order of a sequence: its directories, then its executables,
/// then its regular files, each keeping the incoming order.
pub open spec fn grouped(s: Seq<EntryV>) -> Seq<EntryV> {
    group_of(s, 0) + group_of(s, 1) + group_of(s, 2)
}

/// Grouping preserves the type invariant: in the grouped order, every
/// directory stands before every executable, which stands before every
/// regular file — the ranks never decrease.
pub proof fn lemma_grouped_ranks(s: Seq<EntryV>, i: int, j: int)
    requires
        0 <= i <= j < grouped(s).len(),
    ensures
        rank_of(grouped(s)[i]) <= rank_of(grouped(s)[j]),
{
    broadcast use vstd::prelude::Seq::lemma_filter_pred;

    let g0 = group_of(s, 0);
    let g1 = group_of(s, 1);
    let g2 = group_of(s, 2);
    assert forall|k: int| 0 <= k < grouped(s).len() implies {
        &&& k < g0.len() ==> rank_of(grouped(s)[k]) == 0
        &&& g0.len() <= k < g0.len() + g1.len() ==> rank_of(grouped(s)[k]) == 1
        &&& g0.len() + g1.len() <= k ==> rank_of(grouped(s)[k]) == 2
    } by {
        if k < g0.len() {
            assert(grouped(s)[k] == g0[k]);
        } else if k < g0.len() + g1.len() {
            assert(grouped(s)[k] == g1[k - g0.len()]);
        } else {
            assert(grouped(s)[k] == g2[k - g0.len() - g1.len()]);
        }
    }
}

/// Appending one entry extends exactly the group of its own rank.
pub proof fn lemma_group_of_push(s: Seq<EntryV>, x: EntryV, r: int)
    ensures
        group_of(s.push(x), r) == if rank_of(x) == r {
            group_of(s, r).push(x)
        } else {
            group_of(s, r)
        },
{
    reveal_with_fuel(Seq::filter, 2);
    assert(s.push(x).drop_last() =~= s);
    assert(s.push(x).last() == x);
}

/// Splits entries into the three type groups, keeping the incoming order
/// within each group.
pub fn partition_entries(entries: Vec<FileEntry>) -> (t: (Vec<FileEntry>, Vec<FileEntry>, Vec<
    FileEntry,
>))
    ensures
        views_of(t.0@) == group_of(views_of(entries@), 0),
        views_of(t.1@) == group_of(views_of(entries@), 1),
        views_of(t.2@) == group_of(views_of(entries@), 2),
{
    let ghost orig = views_of(entries@);
    let mut rest = entries;
    let mut d: Vec<FileEntry> = Vec::new();
    let mut e: Vec<FileEntry> = Vec::new();
    let mut f: Vec<FileEntry> = Vec::new();
    let ghost k: int = 0;
    proof {
        assert(orig.take(0) =~= Seq::<EntryV>::empty());
        assert(views_of(rest@) =~= orig.skip(0));
        assert(views_of(d@) =~= group_of(orig.take(0), 0));
        assert(views_of(e@) =~= group_of(orig.take(0), 1));
        assert(views_of(f@) =~= group_of(orig.take(0), 2));
    }
    while rest.len() > 0
        invariant
            0 <= k <= orig.len(),
            views_of(rest@) == orig.skip(k),
            rest@.len() == orig.len() - k,
            views_of(d@) == group_of(orig.take(k), 0),
            views_of(e@) == group_of(orig.take(k), 1),
            views_of(f@) == group_of(orig.take(k), 2),
        decreases rest.len(),
    {
        let ghost before = rest@;
        let x = rest.remove(0);
        proof {
            assert(x@ == orig.skip(k)[0]);
            assert(x@ == orig[k]);
            assert(rest@ =~= before.skip(1));
            assert(views_of(rest@) =~= views_of(before).skip(1));
            assert(views_of(rest@) =~= orig.skip(k + 1));
        }
        let ghost gd = views_of(d@);
        let ghost ge = views_of(e@);
        let ghost gf = views_of(f@);
        match x.get_file_type() {
            FileType::Directory => d.push(x),
            FileType::Executable => e.push(x),
            FileType::RegularFile => f.push(x),
        }
        proof {
            assert(orig.take(k + 1) =~= orig.take(k).push(orig[k]));
            lemma_group_of_push(orig.take(k), orig[k], 0);
            lemma_group_of_push(orig.take(k), orig[k], 1);
            lemma_group_of_push(orig.take(k), orig[k], 2);
            if rank_of(orig[k]) == 0 {
                assert(views_of(d@) =~= gd.push(orig[k]));
            } else if rank_of(orig[k]) == 1 {
                assert(views_of(e@) =~= ge.push(orig[k]));
            } else {
                assert(views_of(f@) =~= gf.push(orig[k]));
            }
            assert(views_of(d@) =~= group_of(orig.take(k + 1), 0));
            assert(views_of(e@) =~= group_of(orig.take(k + 1), 1));
            assert(views_of(f@) =~= group_of(orig.take(k + 1), 2));
            k = k + 1;
        }
    }
    proof {
        assert(orig.take(orig.len() as int) =~= orig);
    }
    (d, e, f)
}

} // verus!
