//! Character and string utilities shared by the renderers: terminal display
//! width, decimal rendering, padding, and lexicographic comparison.

use vstd::prelude::*;

verus! {

/// The number of terminal columns a string occupies. Wide glyphs count two
/// columns, combining marks none; this is distinct from character count.
pub uninterp spec fn display_width(s: Seq<char>) -> nat;

/// Relies on unicode_width::UnicodeWidthStr::width: the number of terminal
/// columns occupied, a function of the characters alone; an empty string
/// occupies no columns.
#[verifier::external_body]
pub fn str_width(s: &str) -> (w: usize)
    ensures
        w as nat == display_width(s@),
        s@.len() == 0 ==> w == 0,
{
    unicode_width::UnicodeWidthStr::width(s)
}

/// Relies on String::push: appends one character at the end.
#[verifier::external_body]
pub fn push_char(s: &mut String, c: char)
    ensures
        final(s)@ == old(s)@.push(c),
{
    s.push(c);
}

/// A run of `n` blanks.
pub open spec fn space_seq(n: nat) -> Seq<char> {
    Seq::new(n, |i: int| ' ')
}

/// Builds a string of `n` blanks.
pub fn spaces(n: usize) -> (s: String)
    ensures
        s@ == space_seq(n as nat),
{
    let mut s = String::new();
    let mut i: usize = 0;
    while i < n
        invariant
            i <= n,
            s@ == space_seq(i as nat),
        decreases n - i,
    {
        push_char(&mut s, ' ');
        proof {
            assert(s@ =~= space_seq((i + 1) as nat));
        }
        i = i + 1;
    }
    s
}

/// The digit character for a value below ten.
pub open spec fn digit_char(d: nat) -> char
    recommends
        d < 10,
{
    ((('0' as u8) + d) as u8) as char
}

/// Decimal digits of `n`, most significant first, no leading zeros
/// (a single zero for zero itself).
pub open spec fn dec_str(n: nat) -> Seq<char>
    decreases n,
{
    if n < 10 {
        seq![digit_char(n)]
    } else {
        dec_str(n / 10).push(digit_char(n % 10))
    }
}

/// Renders an unsigned value in decimal.
pub fn u64_to_dec(n: u64) -> (s: String)
    ensures
        s@ == dec_str(n as nat),
    decreases n,
{
    if n < 10 {
        let mut s = String::new();
        push_char(&mut s, (('0' as u8) + (n as u8)) as char);
        proof {
            assert(s@ =~= dec_str(n as nat));
        }
        s
    } else {
        let mut s = u64_to_dec(n / 10);
        push_char(&mut s, (('0' as u8) + ((n % 10) as u8)) as char);
        s
    }
}

/// ASCII upper-case letters fold to lower case; everything else is unchanged.
pub open spec fn lower_char(c: char) -> char {
    if 'A' <= c && c <= 'Z' {
        (((c as u8) + 32) as u8) as char
    } else {
        c
    }
}

/// Case-folds every character of a name.
pub open spec fn fold_seq(s: Seq<char>) -> Seq<char> {
    s.map_values(|c: char| lower_char(c))
}

/// Executable counterpart of `lower_char`.
pub fn lower_char_exec(c: char) -> (r: char)
    ensures
        r == lower_char(c),
{
    let u = c as u32;
    if 65 <= u && u <= 90 {
        ((u + 32) as u8) as char
    } else {
        c
    }
}

/// Case-folds a whole string.
pub fn fold_str(s: &str) -> (r: String)
    ensures
        r@ == fold_seq(s@),
{
    let len = s.unicode_len();
    let mut r = String::new();
    let mut i: usize = 0;
    while i < len
        invariant
            i <= len,
            len == s@.len(),
            r@ == fold_seq(s@.take(i as int)),
        decreases len - i,
    {
        let c = lower_char_exec(s.get_char(i));
        push_char(&mut r, c);
        proof {
            assert(fold_seq(s@.take(i + 1)) =~= fold_seq(s@.take(i as int)).push(
                lower_char(s@[i as int]),
            ));
        }
        i = i + 1;
    }
    proof {
        assert(s@.take(len as int) =~= s@);
    }
    r
}

/// Character-for-character equality of two string slices.
pub fn str_eq(a: &str, b: &str) -> (r: bool)
    ensures
        r == (a@ == b@),
{
    let alen = a.unicode_len();
    let blen = b.unicode_len();
    if alen != blen {
        return false;
    }
    let mut i: usize = 0;
    while i < alen
        invariant
            i <= alen,
            alen == a@.len(),
            alen == b@.len(),
            forall|j: int| 0 <= j < i ==> a@[j] == b@[j],
        decreases alen - i,
    {
        let ca = a.get_char(i);
        let cb = b.get_char(i);
        if (ca as u32) != (cb as u32) {
            proof {
                assert(a@[i as int] as u32 != b@[i as int] as u32);
            }
            return false;
        }
        proof {
            assert(a@[i as int] as u32 == b@[i as int] as u32);
            assert(a@[i as int] == b@[i as int]);
        }
        i = i + 1;
    }
    proof {
        assert(a@ =~= b@);
    }
    true
}

/// Strict lexicographic order on character sequences, by scalar value.
pub open spec fn lex_lt(a: Seq<char>, b: Seq<char>) -> bool
    decreases a.len(),
{
    if b.len() == 0 {
        false
    } else if a.len() == 0 {
        true
    } else if (a[0] as u32) < (b[0] as u32) {
        true
    } else if a[0] == b[0] {
        lex_lt(a.drop_first(), b.drop_first())
    } else {
        false
    }
}

/// The order applied to names: raw scalar order, or case-folded first.
pub open spec fn name_lt(a: Seq<char>, b: Seq<char>, fold: bool) -> bool {
    if fold {
        lex_lt(fold_seq(a), fold_seq(b))
    } else {
        lex_lt(a, b)
    }
}

/// The lexicographic order is irreflexive-asymmetric: two sequences never
/// precede each other both ways.
pub proof fn lemma_lex_lt_asym(a: Seq<char>, b: Seq<char>)
    requires
        lex_lt(a, b),
    ensures
        !lex_lt(b, a),
    decreases a.len(),
{
    if a.len() == 0 {
    } else if (a[0] as u32) < (b[0] as u32) {
    } else {
        lemma_lex_lt_asym(a.drop_first(), b.drop_first());
    }
}

/// The lexicographic order is transitive.
pub proof fn lemma_lex_lt_trans(a: Seq<char>, b: Seq<char>, c: Seq<char>)
    requires
        lex_lt(a, b),
        lex_lt(b, c),
    ensures
        lex_lt(a, c),
    decreases a.len(),
{
    if a.len() == 0 {
    } else if (a[0] as u32) < (b[0] as u32) {
    } else if (b[0] as u32) < (c[0] as u32) {
    } else {
        lemma_lex_lt_trans(a.drop_first(), b.drop_first(), c.drop_first());
    }
}

proof fn lemma_lex_lt_step(a: Seq<char>, b: Seq<char>, i: int)
    requires
        0 <= i < a.len(),
        i < b.len(),
        a[i] == b[i],
    ensures
        lex_lt(a.skip(i), b.skip(i)) == lex_lt(a.skip(i + 1), b.skip(i + 1)),
{
    assert(a.skip(i).len() > 0);
    assert(b.skip(i).len() > 0);
    assert(a.skip(i)[0] == a[i]);
    assert(b.skip(i)[0] == b[i]);
    assert(a.skip(i).drop_first() =~= a.skip(i + 1));
    assert(b.skip(i).drop_first() =~= b.skip(i + 1));
}

/// Compares two names, optionally case-folded, in the strict order `name_lt`.
pub fn str_name_lt(a: &str, b: &str, fold: bool) -> (r: bool)
    ensures
        r == name_lt(a@, b@, fold),
{
    let ghost fa = if fold { fold_seq(a@) } else { a@ };
    let ghost fb = if fold { fold_seq(b@) } else { b@ };
    let alen = a.unicode_len();
    let blen = b.unicode_len();
    let mut i: usize = 0;
    proof {
        assert(fa.skip(0) =~= fa);
        assert(fb.skip(0) =~= fb);
    }
    loop
        invariant
            i <= alen,
            i <= blen,
            alen == a@.len(),
            blen == b@.len(),
            fa == if fold { fold_seq(a@) } else { a@ },
            fb == if fold { fold_seq(b@) } else { b@ },
            fa.len() == alen,
            fb.len() == blen,
            lex_lt(fa, fb) == lex_lt(fa.skip(i as int), fb.skip(i as int)),
            name_lt(a@, b@, fold) == lex_lt(fa, fb),
        decreases alen - i,
    {
        if i >= alen {
            // `a` is exhausted: it comes first exactly when `b` goes on.
            return i < blen;
        }
        if i >= blen {
            return false;
        }
        let ca = if fold {
            lower_char_exec(a.get_char(i))
        } else {
            a.get_char(i)
        };
        let cb = if fold {
            lower_char_exec(b.get_char(i))
        } else {
            b.get_char(i)
        };
        proof {
            assert(fa[i as int] == ca);
            assert(fb[i as int] == cb);
            assert(fa.skip(i as int)[0] == fa[i as int]);
            assert(fb.skip(i as int)[0] == fb[i as int]);
        }
        if (ca as u32) < (cb as u32) {
            return true;
        }
        if (cb as u32) < (ca as u32) {
            return false;
        }
        proof {
            assert(ca as u32 == cb as u32);
            assert(ca == cb) by {
                assert(ca as u32 == cb as u32);
            }
            lemma_lex_lt_step(fa, fb, i as int);
        }
        i = i + 1;
    }
}

} // verus!
