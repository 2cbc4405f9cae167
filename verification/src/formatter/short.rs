//! The compact multi-column renderer: the three type groups side by side,
//! one column per group, or — under a row cap — several columns per group
//! filled top to bottom.

use vstd::prelude::*;

use crate::config::{Config, ConfigV};
use crate::file_entry::{EntryV, FileEntry};
use crate::layout::{Line, SegV, append_entry_segs, entry_label, entry_segs, group_of,
    group_width, label_of, max_label_width, lemma_max_label_width_ge, cols_needed, pad_seq,
    padding_for, partition_entries, plain_seg, views_of_lines};
use crate::sort::{SortKey, sort_default, sort_seq, views_of};
use crate::text::{display_width, space_seq, spaces, str_width};

verus! {

/// The larger of three counts.
pub open spec fn max3(a: nat, b: nat, c: nat) -> nat {
    if a >= b && a >= c {
        a
    } else if b >= c {
        b
    } else {
        c
    }
}

/// One group's contribution to a row in the one-column-per-group layout:
/// its entry for this row, or blanks the width of its column; nothing
/// follows the last occupied column of a row.
pub open spec fn sc_piece(
    g: Seq<EntryV>,
    w: nat,
    i: int,
    is_last: bool,
    spacing: nat,
    cfg: ConfigV,
) -> Seq<SegV> {
    if i < g.len() {
        entry_segs(g[i], cfg) + if is_last {
            Seq::<SegV>::empty()
        } else {
            seq![
                plain_seg(pad_seq(display_width(label_of(g[i], cfg.icons)), w)),
                plain_seg(space_seq(spacing)),
            ]
        }
    } else {
        if is_last {
            Seq::<SegV>::empty()
        } else {
            seq![plain_seg(space_seq(w)), plain_seg(space_seq(spacing))]
        }
    }
}

/// The index of the last group with an entry in row `i`, counting only
/// groups whose column is shown; `-1` when the row is empty.
pub open spec fn sc_last(
    d: Seq<EntryV>,
    e: Seq<EntryV>,
    f: Seq<EntryV>,
    wd: nat,
    we: nat,
    wf: nat,
    i: int,
) -> int {
    if wf > 0 && i < f.len() {
        2
    } else if we > 0 && i < e.len() {
        1
    } else if wd > 0 && i < d.len() {
        0
    } else {
        -1
    }
}

/// Row `i` of the one-column-per-group layout: the three group columns in
/// type order, each padded to its group's width, separated by the column
/// spacing; a group with no shown column contributes nothing.
pub open spec fn sc_line(
    d: Seq<EntryV>,
    e: Seq<EntryV>,
    f: Seq<EntryV>,
    wd: nat,
    we: nat,
    wf: nat,
    spacing: nat,
    i: int,
    cfg: ConfigV,
) -> Seq<SegV> {
    let last = sc_last(d, e, f, wd, we, wf, i);
    (if wd > 0 && 0 <= last {
        sc_piece(d, wd, i, last == 0, spacing, cfg)
    } else {
        Seq::<SegV>::empty()
    }) + (if we > 0 && 1 <= last {
        sc_piece(e, we, i, last == 1, spacing, cfg)
    } else {
        Seq::<SegV>::empty()
    }) + (if wf > 0 && 2 <= last {
        sc_piece(f, wf, i, last == 2, spacing, cfg)
    } else {
        Seq::<SegV>::empty()
    })
}

/// The whole one-column-per-group layout: one row for every index into the
/// longest group.
pub open spec fn single_column_lines(
    d: Seq<EntryV>,
    e: Seq<EntryV>,
    f: Seq<EntryV>,
    spacing: nat,
    cfg: ConfigV,
) -> Seq<Seq<SegV>> {
    let wd = max_label_width(d, cfg.icons);
    let we = max_label_width(e, cfg.icons);
    let wf = max_label_width(f, cfg.icons);
    Seq::new(
        max3(d.len(), e.len(), f.len()),
        |i: int| sc_line(d, e, f, wd, we, wf, spacing, i, cfg),
    )
}

/// Appends one group's contribution to a row.
fn append_sc_piece(
    line: &mut Line,
    g: &Vec<FileEntry>,
    w: usize,
    i: usize,
    is_last: bool,
    spacing: usize,
    config: &Config,
)
    requires
        w as nat == max_label_width(views_of(g@), config@.icons),
    ensures
        final(line)@ == old(line)@ + sc_piece(
            views_of(g@),
            w as nat,
            i as int,
            is_last,
            spacing as nat,
            config@,
        ),
{
    let ghost prev = line@;
    if i < g.len() {
        append_entry_segs(line, &g[i], config);
        if !is_last {
            let label = entry_label(&g[i], &config.icons);
            let actual = str_width(label.as_str());
            proof {
                lemma_max_label_width_ge(views_of(g@), config@.icons, i as int);
            }
            line.push_plain(padding_for(actual, w));
            line.push_plain(spaces(spacing));
        }
    } else {
        if !is_last {
            line.push_plain(spaces(w));
            line.push_plain(spaces(spacing));
        }
    }
    proof {
        assert(line@ =~= prev + sc_piece(
            views_of(g@),
            w as nat,
            i as int,
            is_last,
            spacing as nat,
            config@,
        ));
    }
}

/// Builds row `i` of the one-column-per-group layout.
fn build_sc_line(
    d: &Vec<FileEntry>,
    e: &Vec<FileEntry>,
    f: &Vec<FileEntry>,
    wd: usize,
    we: usize,
    wf: usize,
    spacing: usize,
    i: usize,
    config: &Config,
) -> (l: Line)
    requires
        wd as nat == max_label_width(views_of(d@), config@.icons),
        we as nat == max_label_width(views_of(e@), config@.icons),
        wf as nat == max_label_width(views_of(f@), config@.icons),
    ensures
        l@ == sc_line(
            views_of(d@),
            views_of(e@),
            views_of(f@),
            wd as nat,
            we as nat,
            wf as nat,
            spacing as nat,
            i as int,
            config@,
        ),
{
    let mut last: i32 = -1;
    if wd > 0 && i < d.len() {
        last = 0;
    }
    if we > 0 && i < e.len() {
        last = 1;
    }
    if wf > 0 && i < f.len() {
        last = 2;
    }
    proof {
        assert(last as int == sc_last(
            views_of(d@),
            views_of(e@),
            views_of(f@),
            wd as nat,
            we as nat,
            wf as nat,
            i as int,
        ));
    }
    let mut l = Line::new();
    if wd > 0 && 0 <= last {
        append_sc_piece(&mut l, d, wd, i, last == 0, spacing, config);
    }
    if we > 0 && 1 <= last {
        append_sc_piece(&mut l, e, we, i, last == 1, spacing, config);
    }
    if wf > 0 && 2 <= last {
        append_sc_piece(&mut l, f, wf, i, last == 2, spacing, config);
    }
    proof {
        assert(l@ =~= sc_line(
            views_of(d@),
            views_of(e@),
            views_of(f@),
            wd as nat,
            we as nat,
            wf as nat,
            spacing as nat,
            i as int,
            config@,
        ));
    }
    l
}

/// Lays the three groups out side by side, one column per group, in type
/// order, each column as wide as its widest label.
pub fn format_single_column_per_type(
    directories: Vec<FileEntry>,
    executables: Vec<FileEntry>,
    regular_files: Vec<FileEntry>,
    column_spacing: usize,
    config: &Config,
) -> (lines: Vec<Line>)
    ensures
        views_of_lines(lines@) == single_column_lines(
            views_of(directories@),
            views_of(executables@),
            views_of(regular_files@),
            column_spacing as nat,
            config@,
        ),
{
    let ghost dv = views_of(directories@);
    let ghost ev = views_of(executables@);
    let ghost fv = views_of(regular_files@);
    let wd = group_width(&directories, &config.icons);
    let we = group_width(&executables, &config.icons);
    let wf = group_width(&regular_files, &config.icons);
    let mut rows = directories.len();
    if executables.len() > rows {
        rows = executables.len();
    }
    if regular_files.len() > rows {
        rows = regular_files.len();
    }
    proof {
        assert(rows as nat == max3(dv.len(), ev.len(), fv.len()));
    }
    let mut lines: Vec<Line> = Vec::new();
    let mut i: usize = 0;
    let ghost target = single_column_lines(dv, ev, fv, column_spacing as nat, config@);
    proof {
        assert(views_of_lines(lines@) =~= target.take(0));
    }
    while i < rows
        invariant
            i <= rows,
            dv == views_of(directories@),
            ev == views_of(executables@),
            fv == views_of(regular_files@),
            wd as nat == max_label_width(dv, config@.icons),
            we as nat == max_label_width(ev, config@.icons),
            wf as nat == max_label_width(fv, config@.icons),
            rows as nat == max3(dv.len(), ev.len(), fv.len()),
            target == single_column_lines(dv, ev, fv, column_spacing as nat, config@),
            target.len() == rows,
            views_of_lines(lines@) == target.take(i as int),
        decreases rows - i,
    {
        let ghost prev = views_of_lines(lines@);
        let l = build_sc_line(
            &directories,
            &executables,
            &regular_files,
            wd,
            we,
            wf,
            column_spacing,
            i,
            config,
        );
        lines.push(l);
        proof {
            assert(views_of_lines(lines@) =~= prev.push(lines@.last()@));
            assert(views_of_lines(lines@) =~= target.take(i + 1));
        }
        i = i + 1;
    }
    proof {
        assert(target.take(rows as int) =~= target);
    }
    lines
}

/// The smaller of two counts.
pub open spec fn min2(a: nat, b: nat) -> nat {
    if a <= b {
        a
    } else {
        b
    }
}

/// One cell of the column-major layout: the entry at `col * cap + row`, or
/// blanks when that column has no entry in this row. The spacing before a
/// cell belongs to the cell, so the first column carries none.
pub open spec fn cm_piece(
    g: Seq<EntryV>,
    w: nat,
    cap: nat,
    row: int,
    col: int,
    spacing: nat,
    with_pad: bool,
    cfg: ConfigV,
) -> Seq<SegV>
    recommends
        cap > 0,
{
    let idx = col * cap + row;
    if idx < g.len() {
        (if col > 0 {
            seq![plain_seg(space_seq(spacing))]
        } else {
            Seq::<SegV>::empty()
        }) + entry_segs(g[idx], cfg) + (if with_pad {
            seq![plain_seg(pad_seq(display_width(label_of(g[idx], cfg.icons)), w))]
        } else {
            Seq::<SegV>::empty()
        })
    } else {
        if col == 0 {
            seq![plain_seg(space_seq(w))]
        } else {
            seq![plain_seg(space_seq((spacing + w) as nat))]
        }
    }
}

/// The cells of columns `0` through `upto`, concatenated; the cell at
/// `nopad_col` omits its padding.
pub open spec fn cm_cols(
    g: Seq<EntryV>,
    w: nat,
    cap: nat,
    row: int,
    upto: int,
    spacing: nat,
    nopad_col: int,
    cfg: ConfigV,
) -> Seq<SegV>
    decreases upto + 1,
{
    if upto < 0 {
        Seq::<SegV>::empty()
    } else {
        cm_cols(g, w, cap, row, upto - 1, spacing, nopad_col, cfg) + cm_piece(
            g,
            w,
            cap,
            row,
            upto,
            spacing,
            upto != nopad_col,
            cfg,
        )
    }
}

/// One group's whole section of a row in the column-major layout: every
/// column the group needs, except that the section holding the row's last
/// entry stops at that entry, unpadded.
pub open spec fn cm_section(
    g: Seq<EntryV>,
    w: nat,
    cap: nat,
    row: int,
    spacing: nat,
    is_last: bool,
    cfg: ConfigV,
) -> Seq<SegV>
    recommends
        cap > 0,
        g.len() > 0,
        0 <= row,
        is_last ==> row < g.len(),
{
    let n = g.len();
    let maxcol = if is_last {
        (n - 1 - row) / cap as int
    } else {
        cols_needed(n, cap) - 1
    };
    cm_cols(
        g,
        w,
        cap,
        row,
        maxcol,
        spacing,
        if is_last {
            maxcol
        } else {
            -1
        },
        cfg,
    )
}

/// The index of the last group with an entry in this row, or `-1`.
pub open spec fn cm_lastg(d: Seq<EntryV>, e: Seq<EntryV>, f: Seq<EntryV>, row: int) -> int {
    if row < f.len() {
        2
    } else if row < e.len() {
        1
    } else if row < d.len() {
        0
    } else {
        -1
    }
}

/// Row `row` of the column-major layout: the groups' sections in type
/// order, separated by the column spacing, ending at the row's last entry.
pub open spec fn cm_line(
    d: Seq<EntryV>,
    e: Seq<EntryV>,
    f: Seq<EntryV>,
    wd: nat,
    we: nat,
    wf: nat,
    cap: nat,
    spacing: nat,
    row: int,
    cfg: ConfigV,
) -> Seq<SegV>
    recommends
        cap > 0,
{
    let lastg = cm_lastg(d, e, f, row);
    (if d.len() > 0 && 0 <= lastg {
        cm_section(d, wd, cap, row, spacing, lastg == 0, cfg) + (if 0 < lastg {
            seq![plain_seg(space_seq(spacing))]
        } else {
            Seq::<SegV>::empty()
        })
    } else {
        Seq::<SegV>::empty()
    }) + (if e.len() > 0 && 1 <= lastg {
        cm_section(e, we, cap, row, spacing, lastg == 1, cfg) + (if 1 < lastg {
            seq![plain_seg(space_seq(spacing))]
        } else {
            Seq::<SegV>::empty()
        })
    } else {
        Seq::<SegV>::empty()
    }) + (if f.len() > 0 && 2 <= lastg {
        cm_section(f, wf, cap, row, spacing, lastg == 2, cfg)
    } else {
        Seq::<SegV>::empty()
    })
}

/// The whole column-major layout under a row cap: each group fills one
/// visual column top to bottom up to the cap before starting the next;
/// rows past every group's entries are not emitted.
pub open spec fn max_rows_lines(
    d: Seq<EntryV>,
    e: Seq<EntryV>,
    f: Seq<EntryV>,
    cap: nat,
    spacing: nat,
    cfg: ConfigV,
) -> Seq<Seq<SegV>>
    recommends
        cap > 0,
{
    let wd = max_label_width(d, cfg.icons);
    let we = max_label_width(e, cfg.icons);
    let wf = max_label_width(f, cfg.icons);
    Seq::new(
        min2(cap, max3(d.len(), e.len(), f.len())),
        |row: int| cm_line(d, e, f, wd, we, wf, cap, spacing, row, cfg),
    )
}

/// Appends one column-major cell.
fn append_cm_piece(
    line: &mut Line,
    g: &Vec<FileEntry>,
    w: usize,
    cap: usize,
    row: usize,
    col: usize,
    spacing: usize,
    with_pad: bool,
    config: &Config,
)
    requires
        cap > 0,
        w as nat == max_label_width(views_of(g@), config@.icons),
    ensures
        final(line)@ == old(line)@ + cm_piece(
            views_of(g@),
            w as nat,
            cap as nat,
            row as int,
            col as int,
            spacing as nat,
            with_pad,
            config@,
        ),
{
    let ghost prev = line@;
    let ghost gv = views_of(g@);
    let glen = g.len();
    let idx_opt: Option<usize> = match col.checked_mul(cap) {
        Some(b) => b.checked_add(row),
        None => None,
    };
    let mut occupied = false;
    let mut idx: usize = 0;
    match idx_opt {
        Some(v) => {
            if v < glen {
                occupied = true;
                idx = v;
            }
        },
        None => {},
    }
    proof {
        assert(gv.len() == glen);
        assert(occupied == (col as int * cap as int + row < gv.len()));
        if occupied {
            assert(idx as int == col as int * cap as int + row);
        }
    }
    if occupied {
        if col > 0 {
            line.push_plain(spaces(spacing));
        }
        append_entry_segs(line, &g[idx], config);
        if with_pad {
            let label = entry_label(&g[idx], &config.icons);
            let actual = str_width(label.as_str());
            proof {
                lemma_max_label_width_ge(gv, config@.icons, idx as int);
            }
            line.push_plain(padding_for(actual, w));
        }
    } else {
        if col == 0 {
            line.push_plain(spaces(w));
        } else {
            let mut b = spaces(spacing);
            b.append(spaces(w).as_str());
            proof {
                assert(b@ =~= space_seq((spacing + w) as nat));
            }
            line.push_plain(b);
        }
    }
    proof {
        assert(line@ =~= prev + cm_piece(
            gv,
            w as nat,
            cap as nat,
            row as int,
            col as int,
            spacing as nat,
            with_pad,
            config@,
        ));
    }
}

/// Appends one group's whole section of a row.
fn append_cm_section(
    line: &mut Line,
    g: &Vec<FileEntry>,
    w: usize,
    cap: usize,
    row: usize,
    spacing: usize,
    is_last: bool,
    config: &Config,
)
    requires
        cap > 0,
        g.len() > 0,
        is_last ==> row < g.len(),
        w as nat == max_label_width(views_of(g@), config@.icons),
    ensures
        final(line)@ == old(line)@ + cm_section(
            views_of(g@),
            w as nat,
            cap as nat,
            row as int,
            spacing as nat,
            is_last,
            config@,
        ),
{
    let ghost prev = line@;
    let ghost gv = views_of(g@);
    let n = g.len();
    let maxcol: usize = if is_last {
        (n - 1 - row) / cap
    } else {
        (n - 1) / cap
    };
    proof {
        if is_last {
            vstd::arithmetic::div_mod::lemma_div_nonincreasing((n - 1 - row) as int, cap as int);
        } else {
            vstd::arithmetic::div_mod::lemma_div_plus_one((n - 1) as int, cap as int);
            assert(cols_needed(n as nat, cap as nat) - 1 == (n - 1) as int / cap as int);
            vstd::arithmetic::div_mod::lemma_div_nonincreasing((n - 1) as int, cap as int);
        }
        assert(maxcol as int <= n - 1);
    }
    let ghost nopad: int = if is_last {
        maxcol as int
    } else {
        -1
    };
    let mut col: usize = 0;
    while col <= maxcol
        invariant
            col <= maxcol + 1,
            cap > 0,
            gv == views_of(g@),
            gv.len() == g@.len(),
            n as nat == gv.len(),
            maxcol as int <= gv.len() - 1,
            nopad == if is_last {
                maxcol as int
            } else {
                -1
            },
            w as nat == max_label_width(gv, config@.icons),
            line@ == prev + cm_cols(
                gv,
                w as nat,
                cap as nat,
                row as int,
                col as int - 1,
                spacing as nat,
                nopad,
                config@,
            ),
        decreases maxcol + 1 - col,
    {
        let with_pad = !(is_last && col == maxcol);
        proof {
            assert(with_pad == (col as int != nopad));
        }
        append_cm_piece(line, g, w, cap, row, col, spacing, with_pad, config);
        proof {
            assert(line@ =~= prev + cm_cols(
                gv,
                w as nat,
                cap as nat,
                row as int,
                col as int,
                spacing as nat,
                nopad,
                config@,
            ));
        }
        col = col + 1;
    }
}

/// Builds one row of the column-major layout.
fn build_cm_line(
    d: &Vec<FileEntry>,
    e: &Vec<FileEntry>,
    f: &Vec<FileEntry>,
    wd: usize,
    we: usize,
    wf: usize,
    cap: usize,
    spacing: usize,
    row: usize,
    config: &Config,
) -> (l: Line)
    requires
        cap > 0,
        wd as nat == max_label_width(views_of(d@), config@.icons),
        we as nat == max_label_width(views_of(e@), config@.icons),
        wf as nat == max_label_width(views_of(f@), config@.icons),
    ensures
        l@ == cm_line(
            views_of(d@),
            views_of(e@),
            views_of(f@),
            wd as nat,
            we as nat,
            wf as nat,
            cap as nat,
            spacing as nat,
            row as int,
            config@,
        ),
{
    let mut lastg: i32 = -1;
    if row < d.len() {
        lastg = 0;
    }
    if row < e.len() {
        lastg = 1;
    }
    if row < f.len() {
        lastg = 2;
    }
    proof {
        assert(lastg as int == cm_lastg(views_of(d@), views_of(e@), views_of(f@), row as int));
    }
    let mut l = Line::new();
    if d.len() > 0 && 0 <= lastg {
        append_cm_section(&mut l, d, wd, cap, row, spacing, lastg == 0, config);
        if 0 < lastg {
            l.push_plain(spaces(spacing));
        }
    }
    if e.len() > 0 && 1 <= lastg {
        append_cm_section(&mut l, e, we, cap, row, spacing, lastg == 1, config);
        if 1 < lastg {
            l.push_plain(spaces(spacing));
        }
    }
    if f.len() > 0 && 2 <= lastg {
        append_cm_section(&mut l, f, wf, cap, row, spacing, lastg == 2, config);
    }
    proof {
        assert(l@ =~= cm_line(
            views_of(d@),
            views_of(e@),
            views_of(f@),
            wd as nat,
            we as nat,
            wf as nat,
            cap as nat,
            spacing as nat,
            row as int,
            config@,
        ));
    }
    l
}

/// Lays the three groups out column-major under a hard row cap: each group
/// takes `ceil(count / cap)` columns, filled top to bottom.
pub fn format_with_max_rows(
    directories: Vec<FileEntry>,
    executables: Vec<FileEntry>,
    regular_files: Vec<FileEntry>,
    max_rows: usize,
    column_spacing: usize,
    config: &Config,
) -> (lines: Vec<Line>)
    requires
        max_rows > 0,
    ensures
        views_of_lines(lines@) == max_rows_lines(
            views_of(directories@),
            views_of(executables@),
            views_of(regular_files@),
            max_rows as nat,
            column_spacing as nat,
            config@,
        ),
{
    let ghost dv = views_of(directories@);
    let ghost ev = views_of(executables@);
    let ghost fv = views_of(regular_files@);
    let wd = group_width(&directories, &config.icons);
    let we = group_width(&executables, &config.icons);
    let wf = group_width(&regular_files, &config.icons);
    let mut rows = directories.len();
    if executables.len() > rows {
        rows = executables.len();
    }
    if regular_files.len() > rows {
        rows = regular_files.len();
    }
    if max_rows < rows {
        rows = max_rows;
    }
    proof {
        assert(rows as nat == min2(max_rows as nat, max3(dv.len(), ev.len(), fv.len())));
    }
    let ghost target = max_rows_lines(dv, ev, fv, max_rows as nat, column_spacing as nat, config@);
    let mut lines: Vec<Line> = Vec::new();
    let mut row: usize = 0;
    proof {
        assert(views_of_lines(lines@) =~= target.take(0));
    }
    while row < rows
        invariant
            row <= rows,
            max_rows > 0,
            dv == views_of(directories@),
            ev == views_of(executables@),
            fv == views_of(regular_files@),
            wd as nat == max_label_width(dv, config@.icons),
            we as nat == max_label_width(ev, config@.icons),
            wf as nat == max_label_width(fv, config@.icons),
            target == max_rows_lines(dv, ev, fv, max_rows as nat, column_spacing as nat, config@),
            target.len() == rows,
            views_of_lines(lines@) == target.take(row as int),
        decreases rows - row,
    {
        let ghost prev = views_of_lines(lines@);
        let l = build_cm_line(
            &directories,
            &executables,
            &regular_files,
            wd,
            we,
            wf,
            max_rows,
            column_spacing,
            row,
            config,
        );
        lines.push(l);
        proof {
            assert(views_of_lines(lines@) =~= prev.push(lines@.last()@));
            assert(views_of_lines(lines@) =~= target.take(row + 1));
        }
        row = row + 1;
    }
    proof {
        assert(target.take(rows as int) =~= target);
    }
    lines
}

/// The full short layout: entries in the default order, split into type
/// groups, then laid out side by side — column-major when a positive row
/// cap is configured, one column per group otherwise.
pub open spec fn short_spec(entries: Seq<EntryV>, cfg: ConfigV) -> Seq<Seq<SegV>> {
    let sorted = sort_seq(SortKey::DefaultName, entries);
    let d = group_of(sorted, 0);
    let e = group_of(sorted, 1);
    let f = group_of(sorted, 2);
    if cfg.display.max_rows > 0 {
        max_rows_lines(d, e, f, cfg.display.max_rows, cfg.display.column_spacing, cfg)
    } else {
        single_column_lines(d, e, f, cfg.display.column_spacing, cfg)
    }
}

/// Renders the compact multi-column listing.
pub fn format_short(entries: Vec<FileEntry>, config: &Config) -> (lines: Vec<Line>)
    ensures
        views_of_lines(lines@) == short_spec(views_of(entries@), config@),
{
    let mut v = entries;
    sort_default(&mut v);
    let (d, e, f) = partition_entries(v);
    if config.display.max_rows > 0 {
        format_with_max_rows(
            d,
            e,
            f,
            config.display.max_rows,
            config.display.column_spacing,
            config,
        )
    } else {
        format_single_column_per_type(d, e, f, config.display.column_spacing, config)
    }
}

} // verus!
