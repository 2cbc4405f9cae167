//! The sort engine: a stable two-level ordering — file-type group first,
//! then a secondary key — specified by a spec-level insertion sort whose
//! result the executable sort reproduces exactly.

use vstd::prelude::*;

use crate::file_entry::{EntryV, FileEntry, entry_type, type_rank};
use crate::text::{fold_seq, lemma_lex_lt_asym, lemma_lex_lt_trans, lex_lt, name_lt, str_name_lt,
    str_eq, fold_str};

verus! {

/// The secondary key applied within a type group.
#[derive(Debug, Clone, Copy, PartialEq, Eq, Structural)]
pub enum SortField {
    Name,
    Size,
    Date,
    Type,
}

/// A complete ordering request: either the default ordering, which compares
/// names case-insensitively, or an explicitly requested field.
#[derive(Debug, Clone, Copy, PartialEq, Eq, Structural)]
pub enum SortKey {
    DefaultName,
    Field(SortField),
}

impl SortField {
    /// Reads a field name, case-insensitively; anything unrecognised means
    /// the name field.
    pub fn from_string(s: &str) -> (f: SortField)
        ensures
            f == sort_field_from_name(s@),
    {
        let folded = fold_str(s);
        let fs = folded.as_str();
        if str_eq(fs, "size") {
            SortField::Size
        } else if str_eq(fs, "date") {
            SortField::Date
        } else if str_eq(fs, "type") {
            SortField::Type
        } else {
            SortField::Name
        }
    }
}

/// The field a request string denotes, case-insensitively; unknown strings
/// default to the name field.
pub open spec fn sort_field_from_name(s: Seq<char>) -> SortField {
    let f = fold_seq(s);
    if f == "size"@ {
        SortField::Size
    } else if f == "date"@ {
        SortField::Date
    } else if f == "type"@ {
        SortField::Type
    } else {
        SortField::Name
    }
}

/// The type-group rank of an entry.
pub open spec fn rank_of(e: EntryV) -> int {
    type_rank(entry_type(e))
}

/// A modification time as a single point on a line: unexpressible times sort
/// as older than everything expressible.
pub open spec fn mtime_of(e: EntryV) -> int {
    match e.modified {
        None => -1,
        Some(t) => t as int,
    }
}

/// Strict "comes strictly before" between two entries under a key: the type
/// group decides first; within a group, the secondary key. Name comparison
/// is case-folded only for the default ordering; size and date order
/// descending; date ties fall back to the case-sensitive name.
pub open spec fn entry_lt(key: SortKey, a: EntryV, b: EntryV) -> bool {
    if rank_of(a) != rank_of(b) {
        rank_of(a) < rank_of(b)
    } else {
        match key {
            SortKey::DefaultName => name_lt(a.name, b.name, true),
            SortKey::Field(SortField::Name) => name_lt(a.name, b.name, false),
            SortKey::Field(SortField::Size) => a.size > b.size,
            SortKey::Field(SortField::Date) => mtime_of(a) > mtime_of(b) || (mtime_of(a)
                == mtime_of(b) && name_lt(a.name, b.name, false)),
            SortKey::Field(SortField::Type) => name_lt(a.name, b.name, false),
        }
    }
}

/// No two entries precede each other both ways.
pub proof fn lemma_entry_lt_asym(key: SortKey, a: EntryV, b: EntryV)
    requires
        entry_lt(key, a, b),
    ensures
        !entry_lt(key, b, a),
{
    if rank_of(a) == rank_of(b) {
        if lex_lt(fold_seq(a.name), fold_seq(b.name)) {
            lemma_lex_lt_asym(fold_seq(a.name), fold_seq(b.name));
        }
        if lex_lt(a.name, b.name) {
            lemma_lex_lt_asym(a.name, b.name);
        }
    }
}

/// The entry order is transitive.
pub proof fn lemma_entry_lt_trans(key: SortKey, a: EntryV, b: EntryV, c: EntryV)
    requires
        entry_lt(key, a, b),
        entry_lt(key, b, c),
    ensures
        entry_lt(key, a, c),
{
    if rank_of(a) == rank_of(b) && rank_of(b) == rank_of(c) {
        if lex_lt(fold_seq(a.name), fold_seq(b.name)) && lex_lt(
            fold_seq(b.name),
            fold_seq(c.name),
        ) {
            lemma_lex_lt_trans(fold_seq(a.name), fold_seq(b.name), fold_seq(c.name));
        }
        if lex_lt(a.name, b.name) && lex_lt(b.name, c.name) {
            lemma_lex_lt_trans(a.name, b.name, c.name);
        }
    }
}

/// No entry anywhere later in the sequence comes strictly before an earlier
/// one: the sequence is ordered under the key.
pub open spec fn sorted_by(key: SortKey, s: Seq<EntryV>) -> bool {
    forall|i: int, j: int| 0 <= i < j < s.len() ==> !entry_lt(key, s[j], s[i])
}

/// Stable insertion: the new entry goes after every entry it does not
/// strictly precede, so equals keep their old relative order.
pub open spec fn insert_sorted(key: SortKey, x: EntryV, s: Seq<EntryV>) -> Seq<EntryV>
    decreases s.len(),
{
    if s.len() == 0 {
        seq![x]
    } else if entry_lt(key, x, s[0]) {
        seq![x] + s
    } else {
        seq![s[0]] + insert_sorted(key, x, s.drop_first())
    }
}

/// The stable sort of a sequence under a key: each entry, in order, inserted
/// into the sorted image of what came before it.
pub open spec fn sort_seq(key: SortKey, s: Seq<EntryV>) -> Seq<EntryV>
    decreases s.len(),
{
    if s.len() == 0 {
        Seq::empty()
    } else {
        insert_sorted(key, s.last(), sort_seq(key, s.drop_last()))
    }
}

proof fn lemma_insert_len(key: SortKey, x: EntryV, s: Seq<EntryV>)
    ensures
        insert_sorted(key, x, s).len() == s.len() + 1,
    decreases s.len(),
{
    if s.len() == 0 {
    } else if entry_lt(key, x, s[0]) {
    } else {
        lemma_insert_len(key, x, s.drop_first());
    }
}

proof fn lemma_insert_elems(key: SortKey, x: EntryV, s: Seq<EntryV>, y: EntryV)
    requires
        insert_sorted(key, x, s).contains(y),
    ensures
        y == x || s.contains(y),
    decreases s.len(),
{
    let r = insert_sorted(key, x, s);
    if s.len() == 0 {
        assert(r == seq![x]);
    } else if entry_lt(key, x, s[0]) {
        let k = choose|k: int| 0 <= k < r.len() && r[k] == y;
        if k > 0 {
            assert(s[k - 1] == y);
        }
    } else {
        let k = choose|k: int| 0 <= k < r.len() && r[k] == y;
        if k == 0 {
            assert(s[0] == y);
        } else {
            assert(insert_sorted(key, x, s.drop_first())[k - 1] == y);
            assert(insert_sorted(key, x, s.drop_first()).contains(y));
            lemma_insert_elems(key, x, s.drop_first(), y);
            if s.drop_first().contains(y) {
                let m = choose|m: int| 0 <= m < s.drop_first().len() && s.drop_first()[m] == y;
                assert(s[m + 1] == y);
            }
        }
    }
}

proof fn lemma_insert_sorted_keeps(key: SortKey, x: EntryV, s: Seq<EntryV>)
    requires
        sorted_by(key, s),
    ensures
        sorted_by(key, insert_sorted(key, x, s)),
    decreases s.len(),
{
    let r = insert_sorted(key, x, s);
    if s.len() == 0 {
    } else if entry_lt(key, x, s[0]) {
        assert forall|i: int, j: int| 0 <= i < j < r.len() implies !entry_lt(key, r[j], r[i]) by {
            if i == 0 {
                assert(r[j] == s[j - 1]);
                if entry_lt(key, s[j - 1], x) {
                    if j == 1 {
                        lemma_entry_lt_asym(key, x, s[0]);
                    } else {
                        lemma_entry_lt_trans(key, s[j - 1], x, s[0]);
                    }
                    assert(false);
                }
            } else {
                assert(r[i] == s[i - 1]);
                assert(r[j] == s[j - 1]);
            }
        }
    } else {
        let rest = insert_sorted(key, x, s.drop_first());
        assert(sorted_by(key, s.drop_first()));
        lemma_insert_sorted_keeps(key, x, s.drop_first());
        lemma_insert_len(key, x, s.drop_first());
        assert forall|i: int, j: int| 0 <= i < j < r.len() implies !entry_lt(key, r[j], r[i]) by {
            if i == 0 {
                assert(r[j] == rest[j - 1]);
                assert(rest.contains(rest[j - 1]));
                lemma_insert_elems(key, x, s.drop_first(), rest[j - 1]);
                if rest[j - 1] == x {
                    assert(!entry_lt(key, x, s[0]));
                } else {
                    let m = choose|m: int|
                        0 <= m < s.drop_first().len() && s.drop_first()[m] == rest[j - 1];
                    assert(s[m + 1] == rest[j - 1]);
                }
            } else {
                assert(r[i] == rest[i - 1]);
                assert(r[j] == rest[j - 1]);
            }
        }
    }
}

/// What a sort returns is ordered under its key.
pub proof fn lemma_sort_sorted(key: SortKey, s: Seq<EntryV>)
    ensures
        sorted_by(key, sort_seq(key, s)),
    decreases s.len(),
{
    if s.len() > 0 {
        lemma_sort_sorted(key, s.drop_last());
        lemma_insert_sorted_keeps(key, s.last(), sort_seq(key, s.drop_last()));
    }
}

proof fn lemma_insert_multiset(key: SortKey, x: EntryV, s: Seq<EntryV>)
    ensures
        insert_sorted(key, x, s).to_multiset() == s.to_multiset().insert(x),
    decreases s.len(),
{
    broadcast use vstd::seq_lib::group_to_multiset_ensures;

    let r = insert_sorted(key, x, s);
    if s.len() == 0 {
        assert(seq![x] =~= Seq::<EntryV>::empty().push(x));
        assert(r.to_multiset() =~= s.to_multiset().insert(x));
    } else if entry_lt(key, x, s[0]) {
        lemma_multiset_of_cons(x, s);
        assert(r.to_multiset() =~= s.to_multiset().insert(x));
    } else {
        lemma_insert_multiset(key, x, s.drop_first());
        lemma_multiset_of_cons(s[0], insert_sorted(key, x, s.drop_first()));
        lemma_multiset_of_cons(s[0], s.drop_first());
        assert(seq![s[0]] + s.drop_first() =~= s);
        assert(r.to_multiset() =~= s.to_multiset().insert(x));
    }
}

proof fn lemma_multiset_of_cons(x: EntryV, s: Seq<EntryV>)
    ensures
        (seq![x] + s).to_multiset() == s.to_multiset().insert(x),
{
    broadcast use vstd::seq_lib::group_to_multiset_ensures;
    broadcast use vstd::multiset::group_multiset_axioms;

    let c = seq![x] + s;
    assert(c[0] == x);
    assert(c.remove(0) =~= s);
    assert(s.to_multiset() =~= c.to_multiset().remove(x));
    assert(c.contains(x));
    assert(c.to_multiset().count(x) > 0);
    assert forall|y: EntryV| c.to_multiset().count(y) == s.to_multiset().insert(x).count(
        y,
    ) by {
        if y == x {
            assert(s.to_multiset().count(x) == c.to_multiset().count(x) - 1);
        } else {
            assert(s.to_multiset().count(y) == c.to_multiset().count(y));
        }
    }
    assert(c.to_multiset() =~= s.to_multiset().insert(x));
}

/// A sort returns exactly the entries it was given: the result is a
/// permutation of the input.
pub proof fn lemma_sort_multiset(key: SortKey, s: Seq<EntryV>)
    ensures
        sort_seq(key, s).to_multiset() == s.to_multiset(),
    decreases s.len(),
{
    broadcast use vstd::seq_lib::group_to_multiset_ensures;

    if s.len() > 0 {
        lemma_sort_multiset(key, s.drop_last());
        lemma_insert_multiset(key, s.last(), sort_seq(key, s.drop_last()));
        assert(s.drop_last().push(s.last()) =~= s);
        assert(s.drop_last().push(s.last()).to_multiset() == s.drop_last().to_multiset().insert(
            s.last(),
        ));
    }
}

proof fn lemma_insert_at_end(key: SortKey, x: EntryV, s: Seq<EntryV>)
    requires
        forall|i: int| 0 <= i < s.len() ==> !entry_lt(key, x, s[i]),
    ensures
        insert_sorted(key, x, s) == s.push(x),
    decreases s.len(),
{
    if s.len() == 0 {
        assert(insert_sorted(key, x, s) =~= s.push(x));
    } else {
        lemma_insert_at_end(key, x, s.drop_first());
        assert(insert_sorted(key, x, s) =~= s.push(x));
    }
}

/// Sorting a sequence that is already ordered gives it back unchanged —
/// the sort never reorders entries it considers tied.
pub proof fn lemma_sort_of_sorted(key: SortKey, s: Seq<EntryV>)
    requires
        sorted_by(key, s),
    ensures
        sort_seq(key, s) == s,
    decreases s.len(),
{
    if s.len() > 0 {
        assert(sorted_by(key, s.drop_last()));
        lemma_sort_of_sorted(key, s.drop_last());
        assert forall|i: int| 0 <= i < s.drop_last().len() implies !entry_lt(
            key,
            s.last(),
            s.drop_last()[i],
        ) by {
            assert(s.drop_last()[i] == s[i]);
        }
        lemma_insert_at_end(key, s.last(), s.drop_last());
        assert(s.drop_last().push(s.last()) =~= s);
    }
}

/// Sorting is idempotent: a second sort under the same key changes nothing.
pub proof fn lemma_sort_idempotent(key: SortKey, s: Seq<EntryV>)
    ensures
        sort_seq(key, sort_seq(key, s)) == sort_seq(key, s),
{
    lemma_sort_sorted(key, s);
    lemma_sort_of_sorted(key, sort_seq(key, s));
}

/// In a sorted sequence the type groups never interleave: every directory
/// stands before every executable, which stands before every regular file.
pub proof fn lemma_sort_groups_types(key: SortKey, s: Seq<EntryV>, i: int, j: int)
    requires
        0 <= i <= j < sort_seq(key, s).len(),
    ensures
        rank_of(sort_seq(key, s)[i]) <= rank_of(sort_seq(key, s)[j]),
{
    lemma_sort_sorted(key, s);
    if i < j {
        assert(!entry_lt(key, sort_seq(key, s)[j], sort_seq(key, s)[i]));
    }
}

/// Within one type group, a size sort is descending: a later entry is never
/// larger than an earlier one.
pub proof fn lemma_size_sort_descending(s: Seq<EntryV>, i: int, j: int)
    requires
        0 <= i <= j < sort_seq(SortKey::Field(SortField::Size), s).len(),
        rank_of(sort_seq(SortKey::Field(SortField::Size), s)[i]) == rank_of(
            sort_seq(SortKey::Field(SortField::Size), s)[j],
        ),
    ensures
        sort_seq(SortKey::Field(SortField::Size), s)[i].size >= sort_seq(
            SortKey::Field(SortField::Size),
            s,
        )[j].size,
{
    let key = SortKey::Field(SortField::Size);
    lemma_sort_sorted(key, s);
    if i < j {
        assert(!entry_lt(key, sort_seq(key, s)[j], sort_seq(key, s)[i]));
    }
}

/// The images of a sequence of entries.
pub open spec fn views_of(s: Seq<FileEntry>) -> Seq<EntryV> {
    s.map_values(|e: FileEntry| e@)
}

/// Executable counterpart of `type_rank` over an entry.
fn rank_exec(e: &FileEntry) -> (r: u8)
    ensures
        r as int == rank_of(e@),
{
    if e.is_dir {
        0
    } else if e.is_executable {
        1
    } else {
        2
    }
}

/// Decides `entry_lt` for two concrete entries.
fn entry_lt_exec(key: SortKey, a: &FileEntry, b: &FileEntry) -> (r: bool)
    ensures
        r == entry_lt(key, a@, b@),
{
    let ra = rank_exec(a);
    let rb = rank_exec(b);
    if ra != rb {
        return ra < rb;
    }
    match key {
        SortKey::DefaultName => str_name_lt(self_name(a), self_name(b), true),
        SortKey::Field(SortField::Name) => str_name_lt(self_name(a), self_name(b), false),
        SortKey::Field(SortField::Size) => a.size > b.size,
        SortKey::Field(SortField::Date) => {
            let ma = &a.modified;
            let mb = &b.modified;
            match (ma, mb) {
                (None, None) => str_name_lt(self_name(a), self_name(b), false),
                (None, Some(_)) => false,
                (Some(_), None) => true,
                (Some(ta), Some(tb)) => {
                    if *ta > *tb {
                        true
                    } else if *ta == *tb {
                        str_name_lt(self_name(a), self_name(b), false)
                    } else {
                        false
                    }
                },
            }
        },
        SortKey::Field(SortField::Type) => str_name_lt(self_name(a), self_name(b), false),
    }
}

/// The display name of an entry, as a slice.
fn self_name(e: &FileEntry) -> (s: &str)
    ensures
        s@ == e@.name,
{
    e.name.as_str()
}

proof fn lemma_insert_position(key: SortKey, x: EntryV, s: Seq<EntryV>, p: int)
    requires
        0 <= p <= s.len(),
        forall|q: int| 0 <= q < p ==> !entry_lt(key, x, s[q]),
        p < s.len() ==> entry_lt(key, x, s[p]),
    ensures
        insert_sorted(key, x, s) == s.take(p) + seq![x] + s.skip(p),
    decreases s.len(),
{
    if s.len() == 0 {
        assert(insert_sorted(key, x, s) =~= s.take(p) + seq![x] + s.skip(p));
    } else if p == 0 {
        assert(entry_lt(key, x, s[0]));
        assert(insert_sorted(key, x, s) =~= s.take(0) + seq![x] + s.skip(0));
    } else {
        assert(!entry_lt(key, x, s[0]));
        assert forall|q: int| 0 <= q < p - 1 implies !entry_lt(key, x, s.drop_first()[q]) by {
            assert(s.drop_first()[q] == s[q + 1]);
        }
        assert(p - 1 < s.drop_first().len() ==> entry_lt(key, x, s.drop_first()[p - 1]));
        lemma_insert_position(key, x, s.drop_first(), p - 1);
        assert(insert_sorted(key, x, s) =~= s.take(p) + seq![x] + s.skip(p));
    }
}

/// Inserts one entry into an ordered vector at its stable position.
fn insert_entry(res: &mut Vec<FileEntry>, key: SortKey, e: FileEntry)
    ensures
        views_of(final(res)@) == insert_sorted(key, e@, views_of(old(res)@)),
{
    let ghost vs = views_of(res@);
    let mut p: usize = 0;
    while p < res.len() && !entry_lt_exec(key, &e, &res[p])
        invariant
            p <= res.len(),
            vs == views_of(res@),
            vs.len() == res.len(),
            forall|q: int| 0 <= q < p ==> !entry_lt(key, e@, vs[q]),
        decreases res.len() - p,
    {
        p = p + 1;
    }
    proof {
        if p < res.len() {
            assert(entry_lt(key, e@, vs[p as int]));
        }
        lemma_insert_position(key, e@, vs, p as int);
    }
    res.insert(p, e);
    proof {
        assert(views_of(res@) =~= vs.take(p as int) + seq![e@] + vs.skip(p as int));
    }
}

/// Sorts a vector of entries under a key, reproducing the stable
/// spec-level sort exactly.
fn sort_by_key(entries: &mut Vec<FileEntry>, key: SortKey)
    ensures
        views_of(final(entries)@) == sort_seq(key, views_of(old(entries)@)),
{
    let ghost orig = views_of(entries@);
    let mut res: Vec<FileEntry> = Vec::new();
    let ghost k: int = 0;
    proof {
        assert(views_of(res@) =~= sort_seq(key, orig.take(0)));
        assert(views_of(entries@) =~= orig.skip(0));
    }
    while entries.len() > 0
        invariant
            0 <= k <= orig.len(),
            views_of(entries@) == orig.skip(k),
            entries@.len() == orig.len() - k,
            views_of(res@) == sort_seq(key, orig.take(k)),
        decreases entries.len(),
    {
        let ghost before = entries@;
        let e = entries.remove(0);
        proof {
            assert(e@ == orig.skip(k)[0]);
            assert(e@ == orig[k]);
        }
        insert_entry(&mut res, key, e);
        proof {
            assert(entries@ =~= before.skip(1));
            assert(views_of(entries@) =~= views_of(before).skip(1));
            assert(views_of(entries@) =~= orig.skip(k + 1));
            assert(orig.take(k + 1).drop_last() =~= orig.take(k));
            assert(orig.take(k + 1).last() == orig[k]);
            assert(views_of(res@) == sort_seq(key, orig.take(k + 1)));
            k = k + 1;
        }
    }
    proof {
        assert(orig.take(k) =~= orig);
    }
    *entries = res;
}

/// Sorts under an explicitly requested field: type groups first, then the
/// field's own order within each group.
pub fn sort_entries(entries: &mut Vec<FileEntry>, sort_field: SortField)
    ensures
        views_of(final(entries)@) == sort_seq(SortKey::Field(sort_field), views_of(old(
            entries,
        )@)),
{
    sort_by_key(entries, SortKey::Field(sort_field));
}

/// The canonical ordering when no field was requested: type groups first,
/// then the case-insensitive name.
pub fn sort_default(entries: &mut Vec<FileEntry>)
    ensures
        views_of(final(entries)@) == sort_seq(SortKey::DefaultName, views_of(old(entries)@)),
{
    sort_by_key(entries, SortKey::DefaultName);
}

/// Sorts by type group, then case-sensitive name.
pub fn sort_by_name(entries: &mut Vec<FileEntry>)
    ensures
        views_of(final(entries)@) == sort_seq(SortKey::Field(SortField::Name), views_of(old(
            entries,
        )@)),
{
    sort_by_key(entries, SortKey::Field(SortField::Name));
}

/// Sorts by type group, then size, largest first.
pub fn sort_by_size(entries: &mut Vec<FileEntry>)
    ensures
        views_of(final(entries)@) == sort_seq(SortKey::Field(SortField::Size), views_of(old(
            entries,
        )@)),
{
    sort_by_key(entries, SortKey::Field(SortField::Size));
}

/// Sorts by type group, then modification time, newest first, name on ties.
pub fn sort_by_date(entries: &mut Vec<FileEntry>)
    ensures
        views_of(final(entries)@) == sort_seq(SortKey::Field(SortField::Date), views_of(old(
            entries,
        )@)),
{
    sort_by_key(entries, SortKey::Field(SortField::Date));
}

/// Sorts by type group alone, name within each group.
pub fn sort_by_type(entries: &mut Vec<FileEntry>)
    ensures
        views_of(final(entries)@) == sort_seq(SortKey::Field(SortField::Type), views_of(old(
            entries,
        )@)),
{
    sort_by_key(entries, SortKey::Field(SortField::Type));
}

} // verus!
