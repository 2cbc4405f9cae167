//! The detailed "long" table: one row per entry, a configurable ordered
//! field list, column widths computed per field across all entries.

use vstd::prelude::*;

use crate::config::{Config, ConfigV};
use crate::file_entry::{EntryV, FileEntry, FileType, entry_type, file_icon_of, modified_text,
    perm_text, size_text};
use crate::icon::{custom_glyph, icon_color, label_color};
use crate::layout::{Line, SegV, pad_seq, padding_for, plain_seg, views_of_lines};
use crate::sort::{SortKey, sort_default, sort_seq, views_of};
use crate::text::{dec_str, display_width, space_seq, spaces, str_width, u64_to_dec};

verus! {

/// A column of the long table.
#[derive(Debug, Clone, Copy, PartialEq, Eq, Structural)]
pub enum LongField {
    Filename,
    Icon,
    Size,
    Modified,
    Owner,
    Group,
    LinkCount,
    Permissions,
}

/// The ordered list of fields a long table renders.
#[derive(Debug, Clone)]
pub struct LayoutSpec {
    pub fields: Vec<LongField>,
}

impl View for LayoutSpec {
    type V = Seq<LongField>;

    open spec fn view(&self) -> Seq<LongField> {
        self.fields@
    }
}

/// The canonical field order when none is configured.
pub open spec fn default_fields() -> Seq<LongField> {
    seq![
        LongField::Filename,
        LongField::Icon,
        LongField::Size,
        LongField::Modified,
        LongField::Owner,
        LongField::Group,
        LongField::LinkCount,
        LongField::Permissions,
    ]
}

impl Default for LayoutSpec {
    /// Filename, icon, size, modified, owner, group, link count,
    /// permissions.
    fn default() -> (l: Self)
        ensures
            l@ == default_fields(),
    {
        let fields = vec![
            LongField::Filename,
            LongField::Icon,
            LongField::Size,
            LongField::Modified,
            LongField::Owner,
            LongField::Group,
            LongField::LinkCount,
            LongField::Permissions,
        ];
        proof {
            assert(fields@ =~= default_fields());
        }
        LayoutSpec { fields }
    }
}

/// The plain text of one field of one entry.
pub open spec fn field_text(fld: LongField, e: EntryV, cfg: ConfigV) -> Seq<char> {
    match fld {
        LongField::Filename => e.name,
        LongField::Icon => custom_glyph(file_icon_of(e), cfg.icons),
        LongField::Size => size_text(e.size),
        LongField::Modified => modified_text(e.modified),
        LongField::Owner => e.owner,
        LongField::Group => e.group,
        LongField::LinkCount => dec_str(e.nlink as nat),
        LongField::Permissions => perm_text(e.is_dir, e.mode),
    }
}

/// A field's column width: the widest text it shows over all entries.
pub open spec fn field_width(fld: LongField, s: Seq<EntryV>, cfg: ConfigV) -> nat
    decreases s.len(),
{
    if s.len() == 0 {
        0
    } else {
        let rest = field_width(fld, s.drop_last(), cfg);
        let last = display_width(field_text(fld, s.last(), cfg));
        if last > rest {
            last
        } else {
            rest
        }
    }
}

/// Every entry's text fits inside its field's column.
pub proof fn lemma_field_width_ge(fld: LongField, s: Seq<EntryV>, cfg: ConfigV, i: int)
    requires
        0 <= i < s.len(),
    ensures
        display_width(field_text(fld, s[i], cfg)) <= field_width(fld, s, cfg),
    decreases s.len(),
{
    if i < s.len() - 1 {
        assert(s.drop_last()[i] == s[i]);
        lemma_field_width_ge(fld, s.drop_last(), cfg, i);
    }
}

/// Whether a field's text is padded on the left (right-aligned numbers), on
/// the right (left-aligned words), or not at all.
pub open spec fn pads_left(fld: LongField) -> bool {
    fld == LongField::Size || fld == LongField::LinkCount
}

/// Left-aligned fields pad on the right — unless they close the row, since
/// trailing blanks never follow the final column.
pub open spec fn pads_right(fld: LongField) -> bool {
    fld == LongField::Filename || fld == LongField::Owner || fld == LongField::Group
}

/// One cell of a row: the field's text, padded to the field's width
/// according to its alignment; the filename carries the entry's label color
/// and emphasis, the icon its icon color.
pub open spec fn cell_segs(fld: LongField, e: EntryV, w: nat, is_last: bool, cfg: ConfigV) -> Seq<
    SegV,
> {
    let t = field_text(fld, e, cfg);
    let dw = display_width(t);
    let content = if fld == LongField::Filename {
        SegV {
            text: t,
            color: Some(label_color(file_icon_of(e), cfg.colors)),
            bold: entry_type(e) != FileType::RegularFile,
        }
    } else if fld == LongField::Icon {
        SegV { text: t, color: Some(icon_color(file_icon_of(e), cfg.icons.colors)), bold: false }
    } else {
        plain_seg(t)
    };
    if pads_left(fld) {
        seq![plain_seg(pad_seq(dw, w)), content]
    } else if pads_right(fld) && !is_last {
        seq![content, plain_seg(pad_seq(dw, w))]
    } else {
        seq![content]
    }
}

/// The cells of a row from field `j` on, separated by the column spacing.
pub open spec fn long_row_from(
    fields: Seq<LongField>,
    j: int,
    e: EntryV,
    s: Seq<EntryV>,
    spacing: nat,
    cfg: ConfigV,
) -> Seq<SegV>
    decreases fields.len() - j,
{
    if j < 0 || j >= fields.len() {
        Seq::<SegV>::empty()
    } else {
        cell_segs(fields[j], e, field_width(fields[j], s, cfg), j == fields.len() - 1, cfg) + (if j
            < fields.len() - 1 {
            seq![plain_seg(space_seq(spacing))]
        } else {
            Seq::<SegV>::empty()
        }) + long_row_from(fields, j + 1, e, s, spacing, cfg)
    }
}

/// One whole row of the long table for entry `e`, with widths taken over
/// the entry sequence `s`.
pub open spec fn long_row(
    fields: Seq<LongField>,
    e: EntryV,
    s: Seq<EntryV>,
    spacing: nat,
    cfg: ConfigV,
) -> Seq<SegV> {
    long_row_from(fields, 0, e, s, spacing, cfg)
}

/// The long table of an entry sequence in its given order: one row per
/// entry, widths shared across the whole table.
pub open spec fn long_rows_spec(
    s: Seq<EntryV>,
    fields: Seq<LongField>,
    spacing: nat,
    cfg: ConfigV,
) -> Seq<Seq<SegV>> {
    Seq::new(s.len(), |i: int| long_row(fields, s[i], s, spacing, cfg))
}

/// The public long layout: entries in the default order, one table.
pub open spec fn long_spec(
    entries: Seq<EntryV>,
    fields: Seq<LongField>,
    spacing: nat,
    cfg: ConfigV,
) -> Seq<Seq<SegV>> {
    long_rows_spec(sort_seq(SortKey::DefaultName, entries), fields, spacing, cfg)
}

/// Renders one field's text of one entry.
pub(crate) fn field_text_exec(fld: LongField, e: &FileEntry, config: &Config) -> (s: String)
    ensures
        s@ == field_text(fld, e@, config@),
{
    match fld {
        LongField::Filename => e.name.clone(),
        LongField::Icon => e.get_icon_custom(&config.icons),
        LongField::Size => e.format_size(),
        LongField::Modified => e.format_modified(),
        LongField::Owner => e.owner.clone(),
        LongField::Group => e.group.clone(),
        LongField::LinkCount => u64_to_dec(e.nlink),
        LongField::Permissions => e.format_permissions(),
    }
}

/// Computes one field's column width over all entries.
fn field_width_exec(fld: LongField, entries: &Vec<FileEntry>, config: &Config) -> (w: usize)
    ensures
        w as nat == field_width(fld, views_of(entries@), config@),
{
    let ghost vs = views_of(entries@);
    let mut w: usize = 0;
    let mut i: usize = 0;
    proof {
        assert(vs.take(0) =~= Seq::<EntryV>::empty());
    }
    while i < entries.len()
        invariant
            i <= entries.len(),
            vs == views_of(entries@),
            vs.len() == entries.len(),
            w as nat == field_width(fld, vs.take(i as int), config@),
        decreases entries.len() - i,
    {
        let t = field_text_exec(fld, &entries[i], config);
        let tw = str_width(t.as_str());
        proof {
            assert(vs.take(i + 1).drop_last() =~= vs.take(i as int));
            assert(vs.take(i + 1).last() == vs[i as int]);
        }
        if tw > w {
            w = tw;
        }
        i = i + 1;
    }
    proof {
        assert(vs.take(vs.len() as int) =~= vs);
    }
    w
}

/// Appends one cell to a row.
fn append_cell(
    line: &mut Line,
    fld: LongField,
    e: &FileEntry,
    w: usize,
    is_last: bool,
    config: &Config,
)
    requires
        w as nat >= display_width(field_text(fld, e@, config@)),
    ensures
        final(line)@ == old(line)@ + cell_segs(fld, e@, w as nat, is_last, config@),
{
    let ghost prev = line@;
    let t = field_text_exec(fld, e, config);
    let actual = str_width(t.as_str());
    let pads_left_now = match fld {
        LongField::Size => true,
        LongField::LinkCount => true,
        _ => false,
    };
    let pads_right_now = match fld {
        LongField::Filename => true,
        LongField::Owner => true,
        LongField::Group => true,
        _ => false,
    };
    if pads_left_now {
        line.push_plain(padding_for(actual, w));
    }
    match fld {
        LongField::Filename => {
            let bold = match e.get_file_type() {
                FileType::RegularFile => false,
                _ => true,
            };
            line.push_styled(t, e.get_color(&config.colors), bold);
        },
        LongField::Icon => {
            line.push_styled(t, e.get_icon_color(&config.icons.colors), false);
        },
        _ => {
            line.push_plain(t);
        },
    }
    if pads_right_now && !is_last {
        let t2 = field_text_exec(fld, e, config);
        let actual2 = str_width(t2.as_str());
        line.push_plain(padding_for(actual2, w));
    }
    proof {
        assert(line@ =~= prev + cell_segs(fld, e@, w as nat, is_last, config@));
    }
}

/// Builds one row of the long table, with widths taken over the ghost
/// entry sequence the table covers.
pub(crate) fn build_long_row(
    fields: &Vec<LongField>,
    e: &FileEntry,
    widths: &Vec<usize>,
    Ghost(level): Ghost<Seq<EntryV>>,
    spacing: usize,
    config: &Config,
) -> (l: Line)
    requires
        widths@.len() == fields@.len(),
        level.contains(e@),
        forall|j: int|
            0 <= j < fields@.len() ==> widths@[j] as nat == field_width(
                fields@[j],
                level,
                config@,
            ),
    ensures
        l@ == long_row(fields@, e@, level, spacing as nat, config@),
{
    let ghost vs = level;
    let n = fields.len();
    let mut l = Line::new();
    let mut j: usize = 0;
    while j < n
        invariant
            j <= n,
            n == fields@.len(),
            widths@.len() == fields@.len(),
            vs == level,
            vs.contains(e@),
            forall|q: int|
                0 <= q < fields@.len() ==> widths@[q] as nat == field_width(fields@[q], vs, config@),
            long_row(fields@, e@, vs, spacing as nat, config@) == l@ + long_row_from(
                fields@,
                j as int,
                e@,
                vs,
                spacing as nat,
                config@,
            ),
        decreases n - j,
    {
        let fld = fields[j];
        let ghost before = l@;
        proof {
            let k = choose|k: int| 0 <= k < vs.len() && vs[k] == e@;
            lemma_field_width_ge(fld, vs, config@, k);
        }
        append_cell(&mut l, fld, e, widths[j], j == n - 1, config);
        if j < n - 1 {
            l.push_plain(spaces(spacing));
        }
        proof {
            assert(l@ + long_row_from(fields@, j + 1, e@, vs, spacing as nat, config@) =~= before
                + long_row_from(fields@, j as int, e@, vs, spacing as nat, config@));
        }
        j = j + 1;
    }
    proof {
        assert(l@ + long_row_from(fields@, n as int, e@, vs, spacing as nat, config@) =~= l@);
    }
    l
}

/// Lays an already ordered entry vector into one long table.
pub(crate) fn long_rows(
    entries: &Vec<FileEntry>,
    layout: &LayoutSpec,
    spacing: usize,
    config: &Config,
) -> (lines: Vec<Line>)
    ensures
        views_of_lines(lines@) == long_rows_spec(
            views_of(entries@),
            layout@,
            spacing as nat,
            config@,
        ),
{
    let ghost vs = views_of(entries@);
    let mut widths: Vec<usize> = Vec::new();
    let mut j: usize = 0;
    while j < layout.fields.len()
        invariant
            j <= layout.fields@.len(),
            widths@.len() == j,
            vs == views_of(entries@),
            forall|q: int|
                0 <= q < j ==> widths@[q] as nat == field_width(layout.fields@[q], vs, config@),
        decreases layout.fields@.len() - j,
    {
        let w = field_width_exec(layout.fields[j], entries, config);
        widths.push(w);
        j = j + 1;
    }
    let ghost target = long_rows_spec(vs, layout@, spacing as nat, config@);
    let mut lines: Vec<Line> = Vec::new();
    let mut i: usize = 0;
    proof {
        assert(views_of_lines(lines@) =~= target.take(0));
    }
    while i < entries.len()
        invariant
            i <= entries.len(),
            vs == views_of(entries@),
            vs.len() == entries.len(),
            widths@.len() == layout.fields@.len(),
            forall|q: int|
                0 <= q < layout.fields@.len() ==> widths@[q] as nat == field_width(
                    layout.fields@[q],
                    vs,
                    config@,
                ),
            target == long_rows_spec(vs, layout@, spacing as nat, config@),
            target.len() == vs.len(),
            views_of_lines(lines@) == target.take(i as int),
        decreases entries.len() - i,
    {
        let ghost prev = views_of_lines(lines@);
        proof {
            assert(vs.contains(vs[i as int]));
        }
        let l = build_long_row(&layout.fields, &entries[i], &widths, Ghost(vs), spacing, config);
        lines.push(l);
        proof {
            assert(views_of_lines(lines@) =~= prev.push(lines@.last()@));
            assert(views_of_lines(lines@) =~= target.take(i + 1));
        }
        i = i + 1;
    }
    proof {
        assert(target.take(vs.len() as int) =~= target);
    }
    lines
}

/// Renders the long table under a configured field list: entries in the
/// default order, one table with shared column widths.
pub fn format_long_with(entries: Vec<FileEntry>, config: &Config, layout: &LayoutSpec) -> (lines:
    Vec<Line>)
    ensures
        views_of_lines(lines@) == long_spec(
            views_of(entries@),
            layout@,
            config@.display.column_spacing,
            config@,
        ),
{
    let mut v = entries;
    sort_default(&mut v);
    long_rows(&v, layout, config.display.column_spacing, config)
}

/// Renders the long table with the canonical field order.
pub fn format_long(entries: Vec<FileEntry>, config: &Config) -> (lines: Vec<Line>)
    ensures
        views_of_lines(lines@) == long_spec(
            views_of(entries@),
            default_fields(),
            config@.display.column_spacing,
            config@,
        ),
{
    let layout = LayoutSpec::default();
    format_long_with(entries, config, &layout)
}

} // verus!
