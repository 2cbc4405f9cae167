//! The recursive renderer over a materialized directory tree: the classic
//! connector/indent tree, and the two recursive long styles — nested, which
//! interleaves a directory's table right after its row, and header, which
//! prints each directory's full table before any child's.
//!
//! At every level the children are filtered for hidden names and ordered
//! alphabetically by raw (not case-folded) name. A directory that could not
//! be read is handed over with no children and so contributes no output
//! below its own line.

use vstd::prelude::*;

use crate::config::{Config, ConfigV};
use crate::file_entry::{EntryV, FileEntry};
use crate::formatter::long::{LayoutSpec, LongField, build_long_row, default_fields,
    field_text_exec, field_width, long_row};
use crate::layout::{Line, SegV, append_entry_segs, entry_segs, plain_seg, views_of_lines};
use crate::text::{lex_lt, str_eq, str_name_lt};

verus! {

/// One node of a directory tree: the entry itself and, for a directory that
/// could be read, the nodes found inside it.
#[derive(Debug)]
pub struct TreeNode {
    pub entry: FileEntry,
    pub children: Vec<TreeNode>,
}

/// The sibling order of the recursive renderer: raw name, by scalar value.
pub open spec fn node_lt(a: TreeNode, b: TreeNode) -> bool {
    lex_lt(a.entry.name@, b.entry.name@)
}

/// Stable insertion of a node among ordered siblings.
pub open spec fn insert_node(x: TreeNode, s: Seq<TreeNode>) -> Seq<TreeNode>
    decreases s.len(),
{
    if s.len() == 0 {
        seq![x]
    } else if node_lt(x, s[0]) {
        seq![x] + s
    } else {
        seq![s[0]] + insert_node(x, s.drop_first())
    }
}

/// The siblings in display order: each node, in turn, inserted among those
/// before it.
pub open spec fn sort_nodes(s: Seq<TreeNode>) -> Seq<TreeNode>
    decreases s.len(),
{
    if s.len() == 0 {
        Seq::empty()
    } else {
        insert_node(s.last(), sort_nodes(s.drop_last()))
    }
}

proof fn lemma_insert_node_elems(x: TreeNode, s: Seq<TreeNode>, y: TreeNode)
    requires
        insert_node(x, s).contains(y),
    ensures
        y == x || s.contains(y),
    decreases s.len(),
{
    let r = insert_node(x, s);
    if s.len() == 0 {
        assert(r == seq![x]);
    } else if node_lt(x, s[0]) {
        let k = choose|k: int| 0 <= k < r.len() && r[k] == y;
        if k > 0 {
            assert(s[k - 1] == y);
        }
    } else {
        let k = choose|k: int| 0 <= k < r.len() && r[k] == y;
        if k == 0 {
            assert(s[0] == y);
        } else {
            assert(insert_node(x, s.drop_first())[k - 1] == y);
            assert(insert_node(x, s.drop_first()).contains(y));
            lemma_insert_node_elems(x, s.drop_first(), y);
            if s.drop_first().contains(y) {
                let m = choose|m: int| 0 <= m < s.drop_first().len() && s.drop_first()[m] == y;
                assert(s[m + 1] == y);
            }
        }
    }
}

proof fn lemma_sort_nodes_elems(s: Seq<TreeNode>, y: TreeNode)
    requires
        sort_nodes(s).contains(y),
    ensures
        s.contains(y),
    decreases s.len(),
{
    if s.len() > 0 {
        lemma_insert_node_elems(s.last(), sort_nodes(s.drop_last()), y);
        if sort_nodes(s.drop_last()).contains(y) {
            lemma_sort_nodes_elems(s.drop_last(), y);
            let m = choose|m: int| 0 <= m < s.drop_last().len() && s.drop_last()[m] == y;
            assert(s[m] == y);
        } else {
            assert(s[s.len() - 1] == y);
        }
    }
}

/// Whether a node's name marks it hidden: it starts with a dot.
pub open spec fn node_is_hidden(t: TreeNode) -> bool {
    t.entry.name@.len() > 0 && t.entry.name@[0] == '.'
}

/// Whether a node is kept at this level.
pub open spec fn node_kept(t: TreeNode, show_hidden: bool) -> bool {
    show_hidden || !node_is_hidden(t)
}

/// The children a level displays: the hidden ones dropped (unless shown),
/// the rest in raw-name order.
pub open spec fn visible_children(ts: Seq<TreeNode>, show_hidden: bool) -> Seq<TreeNode> {
    sort_nodes(ts.filter(|t: TreeNode| node_kept(t, show_hidden)))
}

proof fn lemma_filter_elems(s: Seq<TreeNode>, show_hidden: bool, y: TreeNode)
    requires
        s.filter(|t: TreeNode| node_kept(t, show_hidden)).contains(y),
    ensures
        s.contains(y),
    decreases s.len(),
{
    reveal_with_fuel(Seq::filter, 2);
    if s.len() > 0 {
        let f = s.filter(|t: TreeNode| node_kept(t, show_hidden));
        let fr = s.drop_last().filter(|t: TreeNode| node_kept(t, show_hidden));
        if node_kept(s.last(), show_hidden) {
            let k = choose|k: int| 0 <= k < f.len() && f[k] == y;
            if k == f.len() - 1 {
                assert(s[s.len() - 1] == y);
            } else {
                assert(fr.contains(y));
                lemma_filter_elems(s.drop_last(), show_hidden, y);
                let m = choose|m: int| 0 <= m < s.drop_last().len() && s.drop_last()[m] == y;
                assert(s[m] == y);
            }
        } else {
            lemma_filter_elems(s.drop_last(), show_hidden, y);
            let m = choose|m: int| 0 <= m < s.drop_last().len() && s.drop_last()[m] == y;
            assert(s[m] == y);
        }
    }
}

/// Every displayed child was among the node's children.
pub proof fn lemma_visible_children_elems(ts: Seq<TreeNode>, show_hidden: bool, y: TreeNode)
    requires
        visible_children(ts, show_hidden).contains(y),
    ensures
        ts.contains(y),
{
    lemma_sort_nodes_elems(ts.filter(|t: TreeNode| node_kept(t, show_hidden)), y);
    lemma_filter_elems(ts, show_hidden, y);
}

/// The height of a node: one more than its tallest child.
pub open spec fn node_height(t: TreeNode) -> nat
    decreases t,
{
    1 + forest_height(t.children@)
}

/// The tallest height among a sequence of nodes.
pub open spec fn forest_height(ts: Seq<TreeNode>) -> nat
    decreases ts,
{
    if ts.len() == 0 {
        0
    } else {
        let h0 = node_height(ts[0]);
        let hr = forest_height(ts.drop_first());
        if h0 > hr {
            h0
        } else {
            hr
        }
    }
}

/// A member never stands taller than its forest.
pub proof fn lemma_member_height(ts: Seq<TreeNode>, y: TreeNode)
    requires
        ts.contains(y),
    ensures
        node_height(y) <= forest_height(ts),
    decreases ts.len(),
{
    let k = choose|k: int| 0 <= k < ts.len() && ts[k] == y;
    if k == 0 {
    } else {
        assert(ts.drop_first()[k - 1] == y);
        assert(ts.drop_first().contains(y));
        lemma_member_height(ts.drop_first(), y);
    }
}

/// A forest drawn from another's members is no taller.
pub proof fn lemma_sub_forest_height(sub: Seq<TreeNode>, ts: Seq<TreeNode>)
    requires
        forall|y: TreeNode| sub.contains(y) ==> ts.contains(y),
    ensures
        forest_height(sub) <= forest_height(ts),
    decreases sub.len(),
{
    if sub.len() > 0 {
        assert(sub.contains(sub[0]));
        lemma_member_height(ts, sub[0]);
        assert forall|y: TreeNode| sub.drop_first().contains(y) implies ts.contains(y) by {
            let m = choose|m: int|
                0 <= m < sub.drop_first().len() && sub.drop_first()[m] == y;
            assert(sub[m + 1] == y);
        }
        lemma_sub_forest_height(sub.drop_first(), ts);
    }
}

/// What a node displays below itself is built from children no taller than
/// its own children.
pub proof fn lemma_visible_children_height(ts: Seq<TreeNode>, show_hidden: bool)
    ensures
        forest_height(visible_children(ts, show_hidden)) <= forest_height(ts),
{
    assert forall|y: TreeNode| visible_children(ts, show_hidden).contains(y) implies ts.contains(
        y,
    ) by {
        lemma_visible_children_elems(ts, show_hidden, y);
    }
    lemma_sub_forest_height(visible_children(ts, show_hidden), ts);
}

/// The connector drawn before an entry in the connector-style tree.
pub open spec fn tree_connector(ascii: bool, is_last: bool) -> Seq<char> {
    if ascii {
        if is_last {
            "\u{2514}\u{2500}\u{2500}"@
        } else {
            "\u{251c}\u{2500}\u{2500}"@
        }
    } else {
        Seq::empty()
    }
}

/// What the running prefix grows by below a node.
pub open spec fn tree_extension(ascii: bool, is_last: bool) -> Seq<char> {
    if ascii {
        if is_last {
            "    "@
        } else {
            "\u{2502}   "@
        }
    } else {
        "  "@
    }
}

/// The lines of one node of the tree: its own connector line, then — for a
/// directory — the lines of its displayed children, depth first.
pub open spec fn tree_node_lines(
    t: TreeNode,
    prefix: Seq<char>,
    is_last: bool,
    ascii: bool,
    show_hidden: bool,
    cfg: ConfigV,
) -> Seq<Seq<SegV>>
    decreases node_height(t), 0int,
    via tree_node_lines_decreases
{
    let own = seq![plain_seg(prefix + tree_connector(ascii, is_last))] + entry_segs(
        tree_entry_v(t),
        cfg,
    );
    seq![own] + if t.entry.is_dir {
        tree_forest_lines(
            visible_children(t.children@, show_hidden),
            prefix + tree_extension(ascii, is_last),
            ascii,
            show_hidden,
            cfg,
        )
    } else {
        Seq::<Seq<SegV>>::empty()
    }
}

/// The image of a node's entry.
pub open spec fn tree_entry_v(t: TreeNode) -> EntryV {
    t.entry@
}

/// The lines of ordered siblings, each followed by its own subtree.
pub open spec fn tree_forest_lines(
    ts: Seq<TreeNode>,
    prefix: Seq<char>,
    ascii: bool,
    show_hidden: bool,
    cfg: ConfigV,
) -> Seq<Seq<SegV>>
    decreases forest_height(ts), ts.len(),
{
    if ts.len() == 0 {
        Seq::<Seq<SegV>>::empty()
    } else {
        tree_node_lines(ts[0], prefix, ts.len() == 1, ascii, show_hidden, cfg)
            + tree_forest_lines(ts.drop_first(), prefix, ascii, show_hidden, cfg)
    }
}

#[via_fn]
proof fn tree_node_lines_decreases(
    t: TreeNode,
    prefix: Seq<char>,
    is_last: bool,
    ascii: bool,
    show_hidden: bool,
    cfg: ConfigV,
) {
    lemma_visible_children_height(t.children@, show_hidden);
}

// ----- the nested and header long styles -----

/// The entry images of a node sequence.
pub open spec fn entries_of(ts: Seq<TreeNode>) -> Seq<EntryV> {
    ts.map_values(|t: TreeNode| t.entry@)
}

/// The indent added for each further level of the nested long style.
pub open spec fn nested_indent_step() -> Seq<char> {
    "    "@
}

/// The rows of a nested-long level: for each node, an indented long-format
/// row with widths over this level alone; a directory's subtree follows its
/// own row at once, one indent step deeper.
pub open spec fn nested_forest_lines(
    ts: Seq<TreeNode>,
    level: Seq<EntryV>,
    indent: Seq<char>,
    spacing: nat,
    show_hidden: bool,
    cfg: ConfigV,
) -> Seq<Seq<SegV>>
    decreases forest_height(ts), ts.len(),
    via nested_forest_lines_decreases
{
    if ts.len() == 0 {
        Seq::<Seq<SegV>>::empty()
    } else {
        let row = seq![plain_seg(indent)] + long_row(
            default_fields(),
            ts[0].entry@,
            level,
            spacing,
            cfg,
        );
        let sub = if ts[0].entry.is_dir {
            let shown = visible_children(ts[0].children@, show_hidden);
            nested_forest_lines(
                shown,
                entries_of(shown),
                indent + nested_indent_step(),
                spacing,
                show_hidden,
                cfg,
            )
        } else {
            Seq::<Seq<SegV>>::empty()
        };
        seq![row] + sub + nested_forest_lines(
            ts.drop_first(),
            level,
            indent,
            spacing,
            show_hidden,
            cfg,
        )
    }
}

#[via_fn]
proof fn nested_forest_lines_decreases(
    ts: Seq<TreeNode>,
    level: Seq<EntryV>,
    indent: Seq<char>,
    spacing: nat,
    show_hidden: bool,
    cfg: ConfigV,
) {
    if ts.len() > 0 {
        lemma_visible_children_height(ts[0].children@, show_hidden);
        assert(node_height(ts[0]) == 1 + forest_height(ts[0].children@));
        assert(forest_height(ts) >= node_height(ts[0]));
    }
}

/// The long-format table of one level: one row per displayed node, widths
/// over the level alone.
pub open spec fn level_table_lines(
    ts: Seq<TreeNode>,
    spacing: nat,
    cfg: ConfigV,
) -> Seq<Seq<SegV>> {
    Seq::new(
        ts.len(),
        |i: int| long_row(default_fields(), ts[i].entry@, entries_of(ts), spacing, cfg),
    )
}

/// The lines of a directory in the header long style: a blank line and a
/// path header (omitted at the root), the directory's whole table, and only
/// then each child directory's own lines, in sibling order.
pub open spec fn header_dir_lines(
    t: TreeNode,
    path: Seq<char>,
    is_root: bool,
    spacing: nat,
    show_hidden: bool,
    cfg: ConfigV,
) -> Seq<Seq<SegV>>
    decreases node_height(t), 0int, 0int,
    via header_dir_lines_decreases
{
    let shown = visible_children(t.children@, show_hidden);
    (if is_root {
        Seq::<Seq<SegV>>::empty()
    } else {
        seq![Seq::<SegV>::empty(), seq![plain_seg(path + seq![':'])]]
    }) + level_table_lines(shown, spacing, cfg) + header_children_lines(
        shown,
        path,
        spacing,
        show_hidden,
        cfg,
    )
}

/// The child-directory blocks that follow a header-style table.
pub open spec fn header_children_lines(
    ts: Seq<TreeNode>,
    path: Seq<char>,
    spacing: nat,
    show_hidden: bool,
    cfg: ConfigV,
) -> Seq<Seq<SegV>>
    decreases forest_height(ts), 1int, ts.len(),
{
    if ts.len() == 0 {
        Seq::<Seq<SegV>>::empty()
    } else {
        (if ts[0].entry.is_dir {
            header_dir_lines(
                ts[0],
                path + seq!['/'] + ts[0].entry.name@,
                false,
                spacing,
                show_hidden,
                cfg,
            )
        } else {
            Seq::<Seq<SegV>>::empty()
        }) + header_children_lines(ts.drop_first(), path, spacing, show_hidden, cfg)
    }
}

/// The header style never interleaves: a directory's lines are its own
/// header block, then its complete table, and only after the whole table
/// the blocks of its child directories, in sibling order.
pub proof fn lemma_header_table_before_children(
    t: TreeNode,
    path: Seq<char>,
    is_root: bool,
    spacing: nat,
    show_hidden: bool,
    cfg: ConfigV,
)
    ensures
        header_dir_lines(t, path, is_root, spacing, show_hidden, cfg) == (if is_root {
            Seq::<Seq<SegV>>::empty()
        } else {
            seq![Seq::<SegV>::empty(), seq![plain_seg(path + seq![':'])]]
        }) + level_table_lines(visible_children(t.children@, show_hidden), spacing, cfg)
            + header_children_lines(
            visible_children(t.children@, show_hidden),
            path,
            spacing,
            show_hidden,
            cfg,
        ),
{
}

#[via_fn]
proof fn header_dir_lines_decreases(
    t: TreeNode,
    path: Seq<char>,
    is_root: bool,
    spacing: nat,
    show_hidden: bool,
    cfg: ConfigV,
) {
    lemma_visible_children_height(t.children@, show_hidden);
}

// ----- executable ordering of a level -----

/// Decides the sibling order.
fn node_lt_exec(a: &TreeNode, b: &TreeNode) -> (r: bool)
    ensures
        r == node_lt(*a, *b),
{
    str_name_lt(a.entry.name.as_str(), b.entry.name.as_str(), false)
}

proof fn lemma_insert_node_position(x: TreeNode, s: Seq<TreeNode>, p: int)
    requires
        0 <= p <= s.len(),
        forall|q: int| 0 <= q < p ==> !node_lt(x, s[q]),
        p < s.len() ==> node_lt(x, s[p]),
    ensures
        insert_node(x, s) == s.take(p) + seq![x] + s.skip(p),
    decreases s.len(),
{
    if s.len() == 0 {
        assert(insert_node(x, s) =~= s.take(p) + seq![x] + s.skip(p));
    } else if p == 0 {
        assert(node_lt(x, s[0]));
        assert(insert_node(x, s) =~= s.take(0) + seq![x] + s.skip(0));
    } else {
        assert(!node_lt(x, s[0]));
        assert forall|q: int| 0 <= q < p - 1 implies !node_lt(x, s.drop_first()[q]) by {
            assert(s.drop_first()[q] == s[q + 1]);
        }
        assert(p - 1 < s.drop_first().len() ==> node_lt(x, s.drop_first()[p - 1]));
        lemma_insert_node_position(x, s.drop_first(), p - 1);
        assert(insert_node(x, s) =~= s.take(p) + seq![x] + s.skip(p));
    }
}

/// Inserts a node among ordered siblings at its stable position.
fn insert_node_exec(res: &mut Vec<TreeNode>, x: TreeNode)
    ensures
        final(res)@ == insert_node(x, old(res)@),
{
    let ghost vs = res@;
    let mut p: usize = 0;
    while p < res.len() && !node_lt_exec(&x, &res[p])
        invariant
            p <= res.len(),
            vs == res@,
            forall|q: int| 0 <= q < p ==> !node_lt(x, vs[q]),
        decreases res.len() - p,
    {
        p = p + 1;
    }
    proof {
        lemma_insert_node_position(x, vs, p as int);
    }
    res.insert(p, x);
    proof {
        assert(res@ =~= vs.take(p as int) + seq![x] + vs.skip(p as int));
    }
}

/// Whether this node is dropped as hidden.
fn node_hidden_exec(t: &TreeNode) -> (r: bool)
    ensures
        r == node_is_hidden(*t),
{
    let s = t.entry.name.as_str();
    let l = s.unicode_len();
    if l == 0 {
        false
    } else {
        let c = s.get_char(0);
        if (c as u32) == ('.' as u32) {
            proof {
                assert(c == '.') by {
                    assert(c as u32 == '.' as u32);
                }
            }
            true
        } else {
            false
        }
    }
}

proof fn lemma_kept_filter_push(s: Seq<TreeNode>, x: TreeNode, show_hidden: bool)
    ensures
        s.push(x).filter(|t: TreeNode| node_kept(t, show_hidden)) == if node_kept(
            x,
            show_hidden,
        ) {
            s.filter(|t: TreeNode| node_kept(t, show_hidden)).push(x)
        } else {
            s.filter(|t: TreeNode| node_kept(t, show_hidden))
        },
{
    reveal_with_fuel(Seq::filter, 2);
    assert(s.push(x).drop_last() =~= s);
    assert(s.push(x).last() == x);
}

/// Filters and orders one level's children for display.
fn shown_children_exec(children: Vec<TreeNode>, show_hidden: bool) -> (r: Vec<TreeNode>)
    ensures
        r@ == visible_children(children@, show_hidden),
{
    let ghost orig = children@;
    let mut rest = children;
    let mut kept: Vec<TreeNode> = Vec::new();
    let ghost k: int = 0;
    proof {
        assert(orig.take(0) =~= Seq::<TreeNode>::empty());
        assert(rest@ =~= orig.skip(0));
        reveal_with_fuel(Seq::filter, 1);
        assert(kept@ =~= orig.take(0).filter(|t: TreeNode| node_kept(t, show_hidden)));
    }
    while rest.len() > 0
        invariant
            0 <= k <= orig.len(),
            rest@ == orig.skip(k),
            rest@.len() == orig.len() - k,
            kept@ == orig.take(k).filter(|t: TreeNode| node_kept(t, show_hidden)),
        decreases rest.len(),
    {
        let ghost before = rest@;
        let x = rest.remove(0);
        proof {
            assert(x == orig.skip(k)[0]);
            assert(x == orig[k]);
            assert(rest@ =~= before.skip(1));
            assert(rest@ =~= orig.skip(k + 1));
            assert(orig.take(k + 1) =~= orig.take(k).push(orig[k]));
            lemma_kept_filter_push(orig.take(k), orig[k], show_hidden);
        }
        let keep = show_hidden || !node_hidden_exec(&x);
        let ghost kept_before = kept@;
        if keep {
            kept.push(x);
        }
        proof {
            assert(kept@ =~= orig.take(k + 1).filter(|t: TreeNode| node_kept(t, show_hidden)));
            k = k + 1;
        }
    }
    proof {
        assert(orig.take(orig.len() as int) =~= orig);
    }
    let ghost filtered = orig.filter(|t: TreeNode| node_kept(t, show_hidden));
    let mut rest2 = kept;
    let mut res: Vec<TreeNode> = Vec::new();
    let ghost m: int = 0;
    proof {
        assert(filtered.take(0) =~= Seq::<TreeNode>::empty());
        assert(res@ =~= sort_nodes(filtered.take(0)));
        assert(rest2@ =~= filtered.skip(0));
    }
    while rest2.len() > 0
        invariant
            0 <= m <= filtered.len(),
            rest2@ == filtered.skip(m),
            rest2@.len() == filtered.len() - m,
            res@ == sort_nodes(filtered.take(m)),
        decreases rest2.len(),
    {
        let ghost before = rest2@;
        let x = rest2.remove(0);
        proof {
            assert(x == filtered.skip(m)[0]);
            assert(x == filtered[m]);
            assert(rest2@ =~= before.skip(1));
            assert(rest2@ =~= filtered.skip(m + 1));
        }
        insert_node_exec(&mut res, x);
        proof {
            assert(filtered.take(m + 1).drop_last() =~= filtered.take(m));
            assert(filtered.take(m + 1).last() == filtered[m]);
            assert(res@ =~= sort_nodes(filtered.take(m + 1)));
            m = m + 1;
        }
    }
    proof {
        assert(filtered.take(filtered.len() as int) =~= filtered);
    }
    res
}

// ----- the connector/indent tree, executable -----

/// Renders one tree node and, depth first, its displayed subtree.
fn render_tree_node(
    t: TreeNode,
    prefix: &str,
    is_last: bool,
    ascii: bool,
    show_hidden: bool,
    config: &Config,
    lines: &mut Vec<Line>,
)
    ensures
        views_of_lines(final(lines)@) == views_of_lines(old(lines)@) + tree_node_lines(
            t,
            prefix@,
            is_last,
            ascii,
            show_hidden,
            config@,
        ),
    decreases node_height(t), 0int,
{
    let ghost t0 = t;
    let ghost base = views_of_lines(lines@);
    let TreeNode { entry, children } = t;
    let mut pc = prefix.to_owned();
    if ascii {
        if is_last {
            pc.append("\u{2514}\u{2500}\u{2500}");
        } else {
            pc.append("\u{251c}\u{2500}\u{2500}");
        }
    }
    proof {
        assert(pc@ =~= prefix@ + tree_connector(ascii, is_last));
    }
    let mut l = Line::new();
    l.push_plain(pc);
    append_entry_segs(&mut l, &entry, config);
    proof {
        assert(l@ =~= seq![plain_seg(prefix@ + tree_connector(ascii, is_last))] + entry_segs(
            t0.entry@,
            config@,
        ));
    }
    lines.push(l);
    proof {
        assert(views_of_lines(lines@) =~= base.push(lines@.last()@));
    }
    if entry.is_dir {
        let mut np = prefix.to_owned();
        if ascii {
            if is_last {
                np.append("    ");
            } else {
                np.append("\u{2502}   ");
            }
        } else {
            np.append("  ");
        }
        proof {
            assert(np@ =~= prefix@ + tree_extension(ascii, is_last));
        }
        let shown = shown_children_exec(children, show_hidden);
        proof {
            lemma_visible_children_height(t0.children@, show_hidden);
            assert(node_height(t0) == 1 + forest_height(t0.children@));
        }
        render_tree_forest(shown, np.as_str(), ascii, show_hidden, config, lines);
    }
    proof {
        assert(views_of_lines(lines@) =~= base + tree_node_lines(
            t0,
            prefix@,
            is_last,
            ascii,
            show_hidden,
            config@,
        ));
    }
}

/// Renders ordered siblings, each followed by its own subtree.
fn render_tree_forest(
    nodes: Vec<TreeNode>,
    prefix: &str,
    ascii: bool,
    show_hidden: bool,
    config: &Config,
    lines: &mut Vec<Line>,
)
    ensures
        views_of_lines(final(lines)@) == views_of_lines(old(lines)@) + tree_forest_lines(
            nodes@,
            prefix@,
            ascii,
            show_hidden,
            config@,
        ),
    decreases forest_height(nodes@), nodes@.len(),
{
    let ghost full = nodes@;
    let ghost base = views_of_lines(lines@);
    if nodes.len() == 0 {
        proof {
            assert(views_of_lines(lines@) =~= base + tree_forest_lines(
                full,
                prefix@,
                ascii,
                show_hidden,
                config@,
            ));
        }
        return ;
    }
    let is_l = nodes.len() == 1;
    let mut rest = nodes;
    let c = rest.remove(0);
    proof {
        assert(c == full[0]);
        assert(rest@ =~= full.drop_first());
    }
    render_tree_node(c, prefix, is_l, ascii, show_hidden, config, lines);
    render_tree_forest(rest, prefix, ascii, show_hidden, config, lines);
    proof {
        assert(views_of_lines(lines@) =~= base + tree_forest_lines(
            full,
            prefix@,
            ascii,
            show_hidden,
            config@,
        ));
    }
}

// ----- the nested long style, executable -----

/// Computes one field's column width over a level's nodes.
fn field_width_nodes(fld: LongField, nodes: &Vec<TreeNode>, config: &Config) -> (w: usize)
    ensures
        w as nat == field_width(fld, entries_of(nodes@), config@),
{
    let ghost vs = entries_of(nodes@);
    let mut w: usize = 0;
    let mut i: usize = 0;
    proof {
        assert(vs.take(0) =~= Seq::<EntryV>::empty());
    }
    while i < nodes.len()
        invariant
            i <= nodes.len(),
            vs == entries_of(nodes@),
            vs.len() == nodes.len(),
            w as nat == field_width(fld, vs.take(i as int), config@),
        decreases nodes.len() - i,
    {
        let t = field_text_exec(fld, &nodes[i].entry, config);
        let tw = crate::text::str_width(t.as_str());
        proof {
            assert(vs.take(i + 1).drop_last() =~= vs.take(i as int));
            assert(vs.take(i + 1).last() == vs[i as int]);
            assert(vs[i as int] == nodes@[i as int].entry@);
        }
        if tw > w {
            w = tw;
        }
        i = i + 1;
    }
    proof {
        assert(vs.take(vs.len() as int) =~= vs);
    }
    w
}

/// Computes the widths of every default field over a level.
fn level_widths(fields: &Vec<LongField>, nodes: &Vec<TreeNode>, config: &Config) -> (widths: Vec<
    usize,
>)
    ensures
        widths@.len() == fields@.len(),
        forall|j: int|
            0 <= j < fields@.len() ==> widths@[j] as nat == field_width(
                fields@[j],
                entries_of(nodes@),
                config@,
            ),
{
    let mut widths: Vec<usize> = Vec::new();
    let mut j: usize = 0;
    while j < fields.len()
        invariant
            j <= fields@.len(),
            widths@.len() == j,
            forall|q: int|
                0 <= q < j ==> widths@[q] as nat == field_width(
                    fields@[q],
                    entries_of(nodes@),
                    config@,
                ),
        decreases fields@.len() - j,
    {
        let w = field_width_nodes(fields[j], nodes, config);
        widths.push(w);
        j = j + 1;
    }
    widths
}

/// Renders one nested-long level: widths over the level, then each node's
/// row, a directory's subtree following its own row one step deeper.
fn render_nested_level(
    nodes: Vec<TreeNode>,
    indent: &str,
    spacing: usize,
    show_hidden: bool,
    config: &Config,
    lines: &mut Vec<Line>,
)
    ensures
        views_of_lines(final(lines)@) == views_of_lines(old(lines)@) + nested_forest_lines(
            nodes@,
            entries_of(nodes@),
            indent@,
            spacing as nat,
            show_hidden,
            config@,
        ),
    decreases forest_height(nodes@), nodes@.len(), 1int,
{
    let layout = LayoutSpec::default();
    let widths = level_widths(&layout.fields, &nodes, config);
    proof {
        assert forall|i: int| 0 <= i < nodes@.len() implies entries_of(nodes@).contains(
            nodes@[i].entry@,
        ) by {
            assert(entries_of(nodes@)[i] == nodes@[i].entry@);
        }
    }
    render_nested_rest(
        nodes,
        &layout.fields,
        &widths,
        Ghost(entries_of(nodes@)),
        indent,
        spacing,
        show_hidden,
        config,
        lines,
    );
}

/// Renders the remaining rows of a nested-long level.
fn render_nested_rest(
    rest: Vec<TreeNode>,
    fields: &Vec<LongField>,
    widths: &Vec<usize>,
    Ghost(level): Ghost<Seq<EntryV>>,
    indent: &str,
    spacing: usize,
    show_hidden: bool,
    config: &Config,
    lines: &mut Vec<Line>,
)
    requires
        fields@ == default_fields(),
        widths@.len() == fields@.len(),
        forall|i: int| 0 <= i < rest@.len() ==> level.contains(rest@[i].entry@),
        forall|j: int|
            0 <= j < fields@.len() ==> widths@[j] as nat == field_width(
                fields@[j],
                level,
                config@,
            ),
    ensures
        views_of_lines(final(lines)@) == views_of_lines(old(lines)@) + nested_forest_lines(
            rest@,
            level,
            indent@,
            spacing as nat,
            show_hidden,
            config@,
        ),
    decreases forest_height(rest@), rest@.len(), 0int,
{
    let ghost full = rest@;
    let ghost base = views_of_lines(lines@);
    if rest.len() == 0 {
        proof {
            assert(views_of_lines(lines@) =~= base + nested_forest_lines(
                full,
                level,
                indent@,
                spacing as nat,
                show_hidden,
                config@,
            ));
        }
        return ;
    }
    let mut rest2 = rest;
    let c = rest2.remove(0);
    proof {
        assert(c == full[0]);
        assert(rest2@ =~= full.drop_first());
        assert(full.contains(full[0]));
    }
    let mut l = Line::new();
    l.push_plain(indent.to_owned());
    let ghost lv = l@;
    let row = build_long_row(fields, &c.entry, widths, Ghost(level), spacing, config);
    let mut l2 = l;
    let mut row2 = row;
    l2.segs.append(&mut row2.segs);
    proof {
        assert(l2@ =~= lv + row@);
        assert(l2@ =~= seq![plain_seg(indent@)] + long_row(
            default_fields(),
            c.entry@,
            level,
            spacing as nat,
            config@,
        ));
    }
    lines.push(l2);
    proof {
        assert(views_of_lines(lines@) =~= base.push(lines@.last()@));
    }
    if c.entry.is_dir {
        let ghost c0 = c;
        let TreeNode { entry, children } = c;
        let shown = shown_children_exec(children, show_hidden);
        proof {
            lemma_visible_children_height(c0.children@, show_hidden);
            assert(node_height(c0) == 1 + forest_height(c0.children@));
            lemma_member_height(full, c0);
        }
        let mut deeper = indent.to_owned();
        deeper.append("    ");
        proof {
            assert(deeper@ =~= indent@ + nested_indent_step());
        }
        render_nested_level(shown, deeper.as_str(), spacing, show_hidden, config, lines);
    }
    render_nested_rest(
        rest2,
        fields,
        widths,
        Ghost(level),
        indent,
        spacing,
        show_hidden,
        config,
        lines,
    );
    proof {
        assert(views_of_lines(lines@) =~= base + nested_forest_lines(
            full,
            level,
            indent@,
            spacing as nat,
            show_hidden,
            config@,
        ));
    }
}

// ----- the header long style, executable -----

/// Renders one directory in the header style: its path header and blank
/// separator (omitted at the root), its whole table, then each child
/// directory's block.
fn render_header_dir(
    t: TreeNode,
    path: String,
    is_root: bool,
    spacing: usize,
    show_hidden: bool,
    config: &Config,
    lines: &mut Vec<Line>,
)
    ensures
        views_of_lines(final(lines)@) == views_of_lines(old(lines)@) + header_dir_lines(
            t,
            path@,
            is_root,
            spacing as nat,
            show_hidden,
            config@,
        ),
    decreases node_height(t), 0int, 0int,
{
    let ghost t0 = t;
    let ghost base = views_of_lines(lines@);
    if !is_root {
        let ghost b0 = views_of_lines(lines@);
        lines.push(Line::new());
        proof {
            assert(views_of_lines(lines@) =~= b0.push(lines@.last()@));
        }
        let mut h = path.clone();
        crate::text::push_char(&mut h, ':');
        proof {
            assert(h@ =~= path@ + seq![':']);
        }
        let mut hl = Line::new();
        hl.push_plain(h);
        let ghost b1 = views_of_lines(lines@);
        lines.push(hl);
        proof {
            assert(views_of_lines(lines@) =~= b1.push(lines@.last()@));
        }
    }
    let ghost mid = views_of_lines(lines@);
    proof {
        if is_root {
            assert(mid =~= base);
        } else {
            assert(mid =~= base + seq![
                Seq::<SegV>::empty(),
                seq![plain_seg(path@ + seq![':'])],
            ]);
        }
    }
    let TreeNode { entry, children } = t;
    let shown = shown_children_exec(children, show_hidden);
    let ghost shv = shown@;
    let layout = LayoutSpec::default();
    let widths = level_widths(&layout.fields, &shown, config);
    let ghost table = level_table_lines(shv, spacing as nat, config@);
    let mut i: usize = 0;
    proof {
        assert(views_of_lines(lines@) =~= mid + table.take(0));
    }
    while i < shown.len()
        invariant
            i <= shown.len(),
            shv == shown@,
            shv.len() == shown.len(),
            layout@ == default_fields(),
            widths@.len() == layout@.len(),
            forall|j: int|
                0 <= j < layout@.len() ==> widths@[j] as nat == field_width(
                    layout@[j],
                    entries_of(shv),
                    config@,
                ),
            table == level_table_lines(shv, spacing as nat, config@),
            table.len() == shv.len(),
            views_of_lines(lines@) == mid + table.take(i as int),
        decreases shown.len() - i,
    {
        let ghost prev = views_of_lines(lines@);
        proof {
            assert(entries_of(shv)[i as int] == shv[i as int].entry@);
            assert(entries_of(shv).contains(entries_of(shv)[i as int]));
        }
        let row = build_long_row(
            &layout.fields,
            &shown[i].entry,
            &widths,
            Ghost(entries_of(shv)),
            spacing,
            config,
        );
        lines.push(row);
        proof {
            assert(views_of_lines(lines@) =~= prev.push(lines@.last()@));
            assert(views_of_lines(lines@) =~= mid + table.take(i + 1));
        }
        i = i + 1;
    }
    proof {
        assert(table.take(shv.len() as int) =~= table);
        lemma_visible_children_height(t0.children@, show_hidden);
        assert(node_height(t0) == 1 + forest_height(t0.children@));
    }
    render_header_children(shown, path.as_str(), spacing, show_hidden, config, lines);
    proof {
        assert(views_of_lines(lines@) =~= base + header_dir_lines(
            t0,
            path@,
            is_root,
            spacing as nat,
            show_hidden,
            config@,
        ));
    }
}

/// Renders the child-directory blocks that follow a header-style table.
fn render_header_children(
    nodes: Vec<TreeNode>,
    path: &str,
    spacing: usize,
    show_hidden: bool,
    config: &Config,
    lines: &mut Vec<Line>,
)
    ensures
        views_of_lines(final(lines)@) == views_of_lines(old(lines)@) + header_children_lines(
            nodes@,
            path@,
            spacing as nat,
            show_hidden,
            config@,
        ),
    decreases forest_height(nodes@), 1int, nodes@.len(),
{
    let ghost full = nodes@;
    let ghost base = views_of_lines(lines@);
    if nodes.len() == 0 {
        proof {
            assert(views_of_lines(lines@) =~= base + header_children_lines(
                full,
                path@,
                spacing as nat,
                show_hidden,
                config@,
            ));
        }
        return ;
    }
    let mut rest = nodes;
    let c = rest.remove(0);
    proof {
        assert(c == full[0]);
        assert(rest@ =~= full.drop_first());
    }
    if c.entry.is_dir {
        let mut p2 = path.to_owned();
        crate::text::push_char(&mut p2, '/');
        p2.append(c.entry.name.as_str());
        proof {
            assert(p2@ =~= path@ + seq!['/'] + c.entry.name@);
        }
        render_header_dir(c, p2, false, spacing, show_hidden, config, lines);
    }
    render_header_children(rest, path, spacing, show_hidden, config, lines);
    proof {
        assert(views_of_lines(lines@) =~= base + header_children_lines(
            full,
            path@,
            spacing as nat,
            show_hidden,
            config@,
        ));
    }
}

// ----- the top-level recursive renderer -----

/// The header line for the walk's root: its icon and name, or the name
/// alone when the themed glyph is empty.
pub open spec fn root_line(e: EntryV, cfg: ConfigV) -> Seq<SegV> {
    if crate::icon::custom_glyph(crate::file_entry::file_icon_of(e), cfg.icons).len() == 0 {
        seq![
            SegV {
                text: e.name,
                color: Some(
                    crate::icon::label_color(crate::file_entry::file_icon_of(e), cfg.colors),
                ),
                bold: crate::file_entry::entry_type(e) != crate::file_entry::FileType::RegularFile,
            },
        ]
    } else {
        entry_segs(e, cfg)
    }
}

/// Builds the root header line.
fn root_line_exec(e: &FileEntry, config: &Config) -> (l: Line)
    ensures
        l@ == root_line(e@, config@),
{
    let glyph = e.get_icon_custom(&config.icons);
    let mut l = Line::new();
    if glyph.as_str().unicode_len() == 0 {
        let bold = match e.get_file_type() {
            crate::file_entry::FileType::RegularFile => false,
            _ => true,
        };
        l.push_styled(e.name.clone(), e.get_color(&config.colors), bold);
        proof {
            assert(l@ =~= root_line(e@, config@));
        }
    } else {
        append_entry_segs(&mut l, e, config);
        proof {
            assert(l@ =~= root_line(e@, config@));
        }
    }
    l
}

/// The full recursive layout of a materialized tree: the connector or
/// indent tree when the long format is off, else the nested or header long
/// style as configured.
pub open spec fn format_recursive_spec(
    t: TreeNode,
    show_hidden: bool,
    long: bool,
    cfg: ConfigV,
) -> Seq<Seq<SegV>> {
    if !long {
        seq![root_line(t.entry@, cfg)] + tree_forest_lines(
            visible_children(t.children@, show_hidden),
            Seq::empty(),
            cfg.display.tree_style == "ascii"@,
            show_hidden,
            cfg,
        )
    } else if cfg.display.recursive_style == "header"@ {
        header_dir_lines(t, t.entry.name@, true, cfg.display.column_spacing, show_hidden, cfg)
    } else {
        let shown = visible_children(t.children@, show_hidden);
        seq![root_line(t.entry@, cfg)] + nested_forest_lines(
            shown,
            entries_of(shown),
            Seq::empty(),
            cfg.display.column_spacing,
            show_hidden,
            cfg,
        )
    }
}

/// Renders the recursive listing of a directory tree.
pub fn format_recursive(root: TreeNode, config: &Config, show_hidden: bool, long: bool) -> (lines:
    Vec<Line>)
    ensures
        views_of_lines(lines@) == format_recursive_spec(root, show_hidden, long, config@),
{
    let ghost t0 = root;
    let mut lines: Vec<Line> = Vec::new();
    if !long {
        let ascii = str_eq(config.display.tree_style.as_str(), "ascii");
        let l = root_line_exec(&root.entry, config);
        lines.push(l);
        let ghost base = views_of_lines(lines@);
        proof {
            assert(base =~= seq![root_line(t0.entry@, config@)]);
        }
        let TreeNode { entry, children } = root;
        let shown = shown_children_exec(children, show_hidden);
        render_tree_forest(shown, "", ascii, show_hidden, config, &mut lines);
        proof {
            reveal_strlit("");
            assert(""@ =~= Seq::<char>::empty());
            assert(views_of_lines(lines@) =~= format_recursive_spec(
                t0,
                show_hidden,
                long,
                config@,
            ));
        }
        lines
    } else if str_eq(config.display.recursive_style.as_str(), "header") {
        let path = root.entry.name.clone();
        render_header_dir(
            root,
            path,
            true,
            config.display.column_spacing,
            show_hidden,
            config,
            &mut lines,
        );
        proof {
            assert(views_of_lines(lines@) =~= format_recursive_spec(
                t0,
                show_hidden,
                long,
                config@,
            ));
        }
        lines
    } else {
        let l = root_line_exec(&root.entry, config);
        lines.push(l);
        let ghost base = views_of_lines(lines@);
        proof {
            assert(base =~= seq![root_line(t0.entry@, config@)]);
        }
        let TreeNode { entry, children } = root;
        let shown = shown_children_exec(children, show_hidden);
        render_nested_level(
            shown,
            "",
            config.display.column_spacing,
            show_hidden,
            config,
            &mut lines,
        );
        proof {
            reveal_strlit("");
            assert(""@ =~= Seq::<char>::empty());
            assert(views_of_lines(lines@) =~= format_recursive_spec(
                t0,
                show_hidden,
                long,
                config@,
            ));
        }
        lines
    }
}

} // verus!
