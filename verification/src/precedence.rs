//! Semantic-version precedence.
//!
//! Pre-release and build identifier lists order by the semantic-versioning
//! precedence rules: identifier lists are compared element by element, a
//! shorter list of otherwise equal identifiers comes first, identifiers made
//! only of digits are numeric, numerics order below alphanumerics and among
//! themselves by value, and alphanumerics order lexically. Build metadata
//! orders the same way except that numeric identifiers may carry leading
//! zeros, which order after the same value written without them.

use vstd::prelude::*;
use crate::text::{first_idx, first_index, lemma_first_idx_props, vec_subrange};

verus! {

/// Three-way lexicographic comparison of character sequences by scalar value.
pub open spec fn lex_cmp(a: Seq<char>, b: Seq<char>) -> int
    decreases a.len(),
{
    if a.len() == 0 && b.len() == 0 {
        0
    } else if a.len() == 0 {
        -1
    } else if b.len() == 0 {
        1
    } else if a[0] != b[0] {
        if (a[0] as u32) < (b[0] as u32) {
            -1
        } else {
            1
        }
    } else {
        lex_cmp(a.drop_first(), b.drop_first())
    }
}

/// `lex_cmp` answers in three values, flips with its arguments, and ties only
/// on equal sequences.
pub proof fn lemma_lex_cmp_antisym(a: Seq<char>, b: Seq<char>)
    ensures
        -1 <= lex_cmp(a, b) <= 1,
        lex_cmp(a, b) == -lex_cmp(b, a),
        lex_cmp(a, b) == 0 ==> a == b,
    decreases a.len(),
{
    if a.len() == 0 && b.len() == 0 {
        assert(a =~= b);
    } else if a.len() == 0 || b.len() == 0 {
    } else if a[0] != b[0] {
        vstd::utf8::char_u32_cast(a[0], a[0] as u32);
        vstd::utf8::char_u32_cast(b[0], b[0] as u32);
    } else {
        lemma_lex_cmp_antisym(a.drop_first(), b.drop_first());
        if lex_cmp(a, b) == 0 {
            assert(a.drop_first() == b.drop_first());
            assert forall|i: int| 0 <= i < a.len() implies a[i] == b[i] by {
                if i > 0 {
                    assert(a.drop_first()[i - 1] == b.drop_first()[i - 1]);
                }
            }
            assert(a =~= b);
        }
    }
}

/// `lex_cmp` is transitive.
pub proof fn lemma_lex_cmp_trans(a: Seq<char>, b: Seq<char>, c: Seq<char>)
    requires
        lex_cmp(a, b) <= 0,
        lex_cmp(b, c) <= 0,
    ensures
        lex_cmp(a, c) <= 0,
    decreases a.len(),
{
    if a.len() == 0 {
    } else if b.len() == 0 {
        assert(lex_cmp(a, b) == 1);
    } else if c.len() == 0 {
        assert(lex_cmp(b, c) == 1);
    } else if a[0] == b[0] && b[0] == c[0] {
        lemma_lex_cmp_trans(a.drop_first(), b.drop_first(), c.drop_first());
    } else {
        vstd::utf8::char_u32_cast(a[0], a[0] as u32);
        vstd::utf8::char_u32_cast(b[0], b[0] as u32);
        vstd::utf8::char_u32_cast(c[0], c[0] as u32);
    }
}

/// An identifier made only of ASCII digits; the empty identifier counts.
pub open spec fn is_num_ident(t: Seq<char>) -> bool {
    forall|i: int| 0 <= i < t.len() ==> '0' <= #[trigger] t[i] && t[i] <= '9'
}

/// Leading zeros removed.
pub open spec fn trim_zeros(s: Seq<char>) -> Seq<char>
    decreases s.len(),
{
    if s.len() > 0 && s[0] == '0' {
        trim_zeros(s.drop_first())
    } else {
        s
    }
}

/// `trim_zeros` drops exactly the leading run of zeros.
pub proof fn lemma_trim_zeros_skip(s: Seq<char>, k: int)
    requires
        0 <= k <= s.len(),
        forall|j: int| 0 <= j < k ==> s[j] == '0',
        k < s.len() ==> s[k] != '0',
    ensures
        trim_zeros(s) == s.skip(k),
    decreases k,
{
    if k == 0 {
        assert(s.skip(0) =~= s);
    } else {
        assert(s[0] == '0');
        lemma_trim_zeros_skip(s.drop_first(), k - 1);
        assert(s.drop_first().skip(k - 1) =~= s.skip(k));
    }
}

/// The sign of comparing two integers.
pub open spec fn int_cmp(x: int, y: int) -> int {
    if x < y {
        -1
    } else if x > y {
        1
    } else {
        0
    }
}

/// The second comparison decides where the first ties.
pub open spec fn chain_cmp(c: int, d: int) -> int {
    if c != 0 {
        c
    } else {
        d
    }
}

/// Pre-release identifier comparison: numerics by value (length of the digit
/// string, then lexically), numeric below alphanumeric, alphanumerics
/// lexically.
pub open spec fn pre_ident_cmp(a: Seq<char>, b: Seq<char>) -> int {
    if is_num_ident(a) && is_num_ident(b) {
        chain_cmp(int_cmp(a.len() as int, b.len() as int), lex_cmp(a, b))
    } else if is_num_ident(a) {
        -1
    } else if is_num_ident(b) {
        1
    } else {
        lex_cmp(a, b)
    }
}

/// Build identifier comparison: as for pre-release identifiers, except that a
/// numeric identifier may carry leading zeros; the zero-trimmed values order
/// first, and among equal values the longer spelling comes later.
pub open spec fn build_ident_cmp(a: Seq<char>, b: Seq<char>) -> int {
    if is_num_ident(a) && is_num_ident(b) {
        chain_cmp(
            int_cmp(trim_zeros(a).len() as int, trim_zeros(b).len() as int),
            chain_cmp(
                lex_cmp(trim_zeros(a), trim_zeros(b)),
                int_cmp(a.len() as int, b.len() as int),
            ),
        )
    } else if is_num_ident(a) {
        -1
    } else if is_num_ident(b) {
        1
    } else {
        lex_cmp(a, b)
    }
}

/// Per-identifier facts the list lemmas rest on.
pub proof fn lemma_pre_ident_cmp_antisym(a: Seq<char>, b: Seq<char>)
    ensures
        -1 <= pre_ident_cmp(a, b) <= 1,
        pre_ident_cmp(a, b) == -pre_ident_cmp(b, a),
{
    lemma_lex_cmp_antisym(a, b);
    lemma_lex_cmp_antisym(b, a);
}

pub proof fn lemma_pre_ident_cmp_trans(a: Seq<char>, b: Seq<char>, c: Seq<char>)
    requires
        pre_ident_cmp(a, b) <= 0,
        pre_ident_cmp(b, c) <= 0,
    ensures
        pre_ident_cmp(a, c) <= 0,
{
    lemma_lex_cmp_antisym(a, b);
    lemma_lex_cmp_antisym(b, c);
    lemma_lex_cmp_antisym(a, c);
    if lex_cmp(a, b) <= 0 && lex_cmp(b, c) <= 0 {
        lemma_lex_cmp_trans(a, b, c);
    }
    if lex_cmp(a, b) == 0 {
    }
}

pub proof fn lemma_build_ident_cmp_antisym(a: Seq<char>, b: Seq<char>)
    ensures
        -1 <= build_ident_cmp(a, b) <= 1,
        build_ident_cmp(a, b) == -build_ident_cmp(b, a),
{
    lemma_lex_cmp_antisym(trim_zeros(a), trim_zeros(b));
    lemma_lex_cmp_antisym(trim_zeros(b), trim_zeros(a));
    lemma_lex_cmp_antisym(a, b);
    lemma_lex_cmp_antisym(b, a);
}

pub proof fn lemma_build_ident_cmp_trans(a: Seq<char>, b: Seq<char>, c: Seq<char>)
    requires
        build_ident_cmp(a, b) <= 0,
        build_ident_cmp(b, c) <= 0,
    ensures
        build_ident_cmp(a, c) <= 0,
{
    lemma_lex_cmp_antisym(trim_zeros(a), trim_zeros(b));
    lemma_lex_cmp_antisym(trim_zeros(b), trim_zeros(c));
    lemma_lex_cmp_antisym(trim_zeros(a), trim_zeros(c));
    lemma_lex_cmp_antisym(a, b);
    lemma_lex_cmp_antisym(b, c);
    lemma_lex_cmp_antisym(a, c);
    if lex_cmp(trim_zeros(a), trim_zeros(b)) <= 0 && lex_cmp(trim_zeros(b), trim_zeros(c)) <= 0 {
        lemma_lex_cmp_trans(trim_zeros(a), trim_zeros(b), trim_zeros(c));
    }
    if lex_cmp(trim_zeros(a), trim_zeros(b)) == 0 {
        assert(trim_zeros(a) == trim_zeros(b));
    }
    if lex_cmp(trim_zeros(b), trim_zeros(c)) == 0 {
        assert(trim_zeros(b) == trim_zeros(c));
    }
    if lex_cmp(a, b) <= 0 && lex_cmp(b, c) <= 0 {
        lemma_lex_cmp_trans(a, b, c);
    }
}

/// All consequences of antisymmetry and transitivity at three identifiers.
proof fn lemma_pre_ident_cmp_facts(a: Seq<char>, b: Seq<char>, c: Seq<char>)
    ensures
        pre_ident_cmp(a, b) < 0 && pre_ident_cmp(b, c) <= 0 ==> pre_ident_cmp(a, c) < 0,
        pre_ident_cmp(a, b) <= 0 && pre_ident_cmp(b, c) < 0 ==> pre_ident_cmp(a, c) < 0,
        pre_ident_cmp(a, b) == 0 && pre_ident_cmp(b, c) == 0 ==> pre_ident_cmp(a, c) == 0,
        pre_ident_cmp(a, b) <= 0 && pre_ident_cmp(b, c) <= 0 ==> pre_ident_cmp(a, c) <= 0,
{
    lemma_pre_ident_cmp_antisym(a, b);
    lemma_pre_ident_cmp_antisym(b, c);
    lemma_pre_ident_cmp_antisym(a, c);
    if pre_ident_cmp(a, b) <= 0 && pre_ident_cmp(b, c) <= 0 {
        lemma_pre_ident_cmp_trans(a, b, c);
    }
    if pre_ident_cmp(b, a) <= 0 && pre_ident_cmp(a, c) <= 0 {
        lemma_pre_ident_cmp_trans(b, a, c);
    }
    if pre_ident_cmp(c, a) <= 0 && pre_ident_cmp(a, b) <= 0 {
        lemma_pre_ident_cmp_trans(c, a, b);
    }
    if pre_ident_cmp(b, c) <= 0 && pre_ident_cmp(c, a) <= 0 {
        lemma_pre_ident_cmp_trans(b, c, a);
    }
    if pre_ident_cmp(a, c) <= 0 && pre_ident_cmp(c, b) <= 0 {
        lemma_pre_ident_cmp_trans(a, c, b);
    }
    if pre_ident_cmp(c, b) <= 0 && pre_ident_cmp(b, a) <= 0 {
        lemma_pre_ident_cmp_trans(c, b, a);
    }
}

/// All consequences of antisymmetry and transitivity at three identifiers.
proof fn lemma_build_ident_cmp_facts(a: Seq<char>, b: Seq<char>, c: Seq<char>)
    ensures
        build_ident_cmp(a, b) < 0 && build_ident_cmp(b, c) <= 0 ==> build_ident_cmp(a, c) < 0,
        build_ident_cmp(a, b) <= 0 && build_ident_cmp(b, c) < 0 ==> build_ident_cmp(a, c) < 0,
        build_ident_cmp(a, b) == 0 && build_ident_cmp(b, c) == 0 ==> build_ident_cmp(a, c) == 0,
        build_ident_cmp(a, b) <= 0 && build_ident_cmp(b, c) <= 0 ==> build_ident_cmp(a, c) <= 0,
{
    lemma_build_ident_cmp_antisym(a, b);
    lemma_build_ident_cmp_antisym(b, c);
    lemma_build_ident_cmp_antisym(a, c);
    if build_ident_cmp(a, b) <= 0 && build_ident_cmp(b, c) <= 0 {
        lemma_build_ident_cmp_trans(a, b, c);
    }
    if build_ident_cmp(b, a) <= 0 && build_ident_cmp(a, c) <= 0 {
        lemma_build_ident_cmp_trans(b, a, c);
    }
    if build_ident_cmp(c, a) <= 0 && build_ident_cmp(a, b) <= 0 {
        lemma_build_ident_cmp_trans(c, a, b);
    }
    if build_ident_cmp(b, c) <= 0 && build_ident_cmp(c, a) <= 0 {
        lemma_build_ident_cmp_trans(b, c, a);
    }
    if build_ident_cmp(a, c) <= 0 && build_ident_cmp(c, b) <= 0 {
        lemma_build_ident_cmp_trans(a, c, b);
    }
    if build_ident_cmp(c, b) <= 0 && build_ident_cmp(b, a) <= 0 {
        lemma_build_ident_cmp_trans(c, b, a);
    }
}

/// Text split at every `.`, keeping empty segments; never an empty list.
pub open spec fn dot_idents(s: Seq<char>) -> Seq<Seq<char>>
    decreases s.len(),
    via dot_idents_decreases
{
    let i = first_idx(s, '.');
    if i == s.len() {
        seq![s]
    } else {
        seq![s.take(i)] + dot_idents(s.skip(i + 1))
    }
}

#[via_fn]
proof fn dot_idents_decreases(s: Seq<char>) {
    lemma_first_idx_props(s, '.');
}

/// Identifier lists compared element by element; where every leading
/// identifier ties, the shorter list comes first.
pub open spec fn pre_list_cmp(al: Seq<Seq<char>>, bl: Seq<Seq<char>>) -> int
    decreases al.len(),
{
    if al.len() == 0 && bl.len() == 0 {
        0
    } else if al.len() == 0 {
        -1
    } else if bl.len() == 0 {
        1
    } else {
        chain_cmp(
            pre_ident_cmp(al[0], bl[0]),
            pre_list_cmp(al.drop_first(), bl.drop_first()),
        )
    }
}

/// As `pre_list_cmp`, over build identifiers.
pub open spec fn build_list_cmp(al: Seq<Seq<char>>, bl: Seq<Seq<char>>) -> int
    decreases al.len(),
{
    if al.len() == 0 && bl.len() == 0 {
        0
    } else if al.len() == 0 {
        -1
    } else if bl.len() == 0 {
        1
    } else {
        chain_cmp(
            build_ident_cmp(al[0], bl[0]),
            build_list_cmp(al.drop_first(), bl.drop_first()),
        )
    }
}

pub proof fn lemma_pre_list_cmp_antisym(al: Seq<Seq<char>>, bl: Seq<Seq<char>>)
    ensures
        -1 <= pre_list_cmp(al, bl) <= 1,
        pre_list_cmp(al, bl) == -pre_list_cmp(bl, al),
    decreases al.len(),
{
    if al.len() > 0 && bl.len() > 0 {
        lemma_pre_ident_cmp_antisym(al[0], bl[0]);
        lemma_pre_list_cmp_antisym(al.drop_first(), bl.drop_first());
    }
}

pub proof fn lemma_pre_list_cmp_trans(al: Seq<Seq<char>>, bl: Seq<Seq<char>>, cl: Seq<Seq<char>>)
    requires
        pre_list_cmp(al, bl) <= 0,
        pre_list_cmp(bl, cl) <= 0,
    ensures
        pre_list_cmp(al, cl) <= 0,
    decreases al.len(),
{
    if al.len() == 0 {
    } else if bl.len() == 0 {
        assert(pre_list_cmp(al, bl) == 1);
    } else if cl.len() == 0 {
        assert(pre_list_cmp(bl, cl) == 1);
    } else {
        lemma_pre_ident_cmp_facts(al[0], bl[0], cl[0]);
        lemma_pre_list_cmp_antisym(al.drop_first(), bl.drop_first());
        lemma_pre_list_cmp_antisym(bl.drop_first(), cl.drop_first());
        lemma_pre_list_cmp_antisym(al.drop_first(), cl.drop_first());
        if pre_list_cmp(al.drop_first(), bl.drop_first()) <= 0 && pre_list_cmp(
            bl.drop_first(),
            cl.drop_first(),
        ) <= 0 {
            lemma_pre_list_cmp_trans(al.drop_first(), bl.drop_first(), cl.drop_first());
        }
    }
}

pub proof fn lemma_build_list_cmp_antisym(al: Seq<Seq<char>>, bl: Seq<Seq<char>>)
    ensures
        -1 <= build_list_cmp(al, bl) <= 1,
        build_list_cmp(al, bl) == -build_list_cmp(bl, al),
    decreases al.len(),
{
    if al.len() > 0 && bl.len() > 0 {
        lemma_build_ident_cmp_antisym(al[0], bl[0]);
        lemma_build_list_cmp_antisym(al.drop_first(), bl.drop_first());
    }
}

pub proof fn lemma_build_list_cmp_trans(al: Seq<Seq<char>>, bl: Seq<Seq<char>>, cl: Seq<Seq<char>>)
    requires
        build_list_cmp(al, bl) <= 0,
        build_list_cmp(bl, cl) <= 0,
    ensures
        build_list_cmp(al, cl) <= 0,
    decreases al.len(),
{
    if al.len() == 0 {
    } else if bl.len() == 0 {
        assert(build_list_cmp(al, bl) == 1);
    } else if cl.len() == 0 {
        assert(build_list_cmp(bl, cl) == 1);
    } else {
        lemma_build_ident_cmp_facts(al[0], bl[0], cl[0]);
        lemma_build_list_cmp_antisym(al.drop_first(), bl.drop_first());
        lemma_build_list_cmp_antisym(bl.drop_first(), cl.drop_first());
        lemma_build_list_cmp_antisym(al.drop_first(), cl.drop_first());
        if build_list_cmp(al.drop_first(), bl.drop_first()) <= 0 && build_list_cmp(
            bl.drop_first(),
            cl.drop_first(),
        ) <= 0 {
            lemma_build_list_cmp_trans(al.drop_first(), bl.drop_first(), cl.drop_first());
        }
    }
}

/// Pre-release precedence over the raw texts: a version without a pre-release
/// orders above one with, and two pre-releases order by their identifiers.
pub open spec fn pre_cmp(a: Seq<char>, b: Seq<char>) -> int {
    if a.len() == 0 && b.len() == 0 {
        0
    } else if a.len() == 0 {
        1
    } else if b.len() == 0 {
        -1
    } else {
        pre_list_cmp(dot_idents(a), dot_idents(b))
    }
}

/// Build precedence over the raw texts.
pub open spec fn build_cmp(a: Seq<char>, b: Seq<char>) -> int {
    build_list_cmp(dot_idents(a), dot_idents(b))
}

pub proof fn lemma_pre_cmp_antisym(a: Seq<char>, b: Seq<char>)
    ensures
        -1 <= pre_cmp(a, b) <= 1,
        pre_cmp(a, b) == -pre_cmp(b, a),
{
    if a.len() > 0 && b.len() > 0 {
        lemma_pre_list_cmp_antisym(dot_idents(a), dot_idents(b));
    }
}

pub proof fn lemma_pre_cmp_trans(a: Seq<char>, b: Seq<char>, c: Seq<char>)
    requires
        pre_cmp(a, b) <= 0,
        pre_cmp(b, c) <= 0,
    ensures
        pre_cmp(a, c) <= 0,
{
    if a.len() > 0 && b.len() > 0 && c.len() > 0 {
        lemma_pre_list_cmp_trans(dot_idents(a), dot_idents(b), dot_idents(c));
    }
}

pub proof fn lemma_build_cmp_antisym(a: Seq<char>, b: Seq<char>)
    ensures
        -1 <= build_cmp(a, b) <= 1,
        build_cmp(a, b) == -build_cmp(b, a),
{
    lemma_build_list_cmp_antisym(dot_idents(a), dot_idents(b));
}

pub proof fn lemma_build_cmp_trans(a: Seq<char>, b: Seq<char>, c: Seq<char>)
    requires
        build_cmp(a, b) <= 0,
        build_cmp(b, c) <= 0,
    ensures
        build_cmp(a, c) <= 0,
{
    lemma_build_list_cmp_trans(dot_idents(a), dot_idents(b), dot_idents(c));
}

/// All consequences of antisymmetry and transitivity at three pre-release
/// texts.
pub proof fn lemma_pre_cmp_facts(a: Seq<char>, b: Seq<char>, c: Seq<char>)
    ensures
        pre_cmp(a, b) < 0 && pre_cmp(b, c) <= 0 ==> pre_cmp(a, c) < 0,
        pre_cmp(a, b) <= 0 && pre_cmp(b, c) < 0 ==> pre_cmp(a, c) < 0,
        pre_cmp(a, b) == 0 && pre_cmp(b, c) == 0 ==> pre_cmp(a, c) == 0,
        pre_cmp(a, b) <= 0 && pre_cmp(b, c) <= 0 ==> pre_cmp(a, c) <= 0,
        pre_cmp(a, b) == -pre_cmp(b, a),
{
    lemma_pre_cmp_antisym(a, b);
    lemma_pre_cmp_antisym(b, c);
    lemma_pre_cmp_antisym(a, c);
    if pre_cmp(a, b) <= 0 && pre_cmp(b, c) <= 0 {
        lemma_pre_cmp_trans(a, b, c);
    }
    if pre_cmp(b, a) <= 0 && pre_cmp(a, c) <= 0 {
        lemma_pre_cmp_trans(b, a, c);
    }
    if pre_cmp(c, a) <= 0 && pre_cmp(a, b) <= 0 {
        lemma_pre_cmp_trans(c, a, b);
    }
    if pre_cmp(b, c) <= 0 && pre_cmp(c, a) <= 0 {
        lemma_pre_cmp_trans(b, c, a);
    }
    if pre_cmp(a, c) <= 0 && pre_cmp(c, b) <= 0 {
        lemma_pre_cmp_trans(a, c, b);
    }
    if pre_cmp(c, b) <= 0 && pre_cmp(b, a) <= 0 {
        lemma_pre_cmp_trans(c, b, a);
    }
}

/// All consequences of antisymmetry and transitivity at three build texts.
pub proof fn lemma_build_cmp_facts(a: Seq<char>, b: Seq<char>, c: Seq<char>)
    ensures
        build_cmp(a, b) < 0 && build_cmp(b, c) <= 0 ==> build_cmp(a, c) < 0,
        build_cmp(a, b) <= 0 && build_cmp(b, c) < 0 ==> build_cmp(a, c) < 0,
        build_cmp(a, b) == 0 && build_cmp(b, c) == 0 ==> build_cmp(a, c) == 0,
        build_cmp(a, b) <= 0 && build_cmp(b, c) <= 0 ==> build_cmp(a, c) <= 0,
        build_cmp(a, b) == -build_cmp(b, a),
{
    lemma_build_cmp_antisym(a, b);
    lemma_build_cmp_antisym(b, c);
    lemma_build_cmp_antisym(a, c);
    if build_cmp(a, b) <= 0 && build_cmp(b, c) <= 0 {
        lemma_build_cmp_trans(a, b, c);
    }
    if build_cmp(b, a) <= 0 && build_cmp(a, c) <= 0 {
        lemma_build_cmp_trans(b, a, c);
    }
    if build_cmp(c, a) <= 0 && build_cmp(a, b) <= 0 {
        lemma_build_cmp_trans(c, a, b);
    }
    if build_cmp(b, c) <= 0 && build_cmp(c, a) <= 0 {
        lemma_build_cmp_trans(b, c, a);
    }
    if build_cmp(a, c) <= 0 && build_cmp(c, b) <= 0 {
        lemma_build_cmp_trans(a, c, b);
    }
    if build_cmp(c, b) <= 0 && build_cmp(b, a) <= 0 {
        lemma_build_cmp_trans(c, b, a);
    }
}

/// Decides `lex_cmp`.
fn lex_cmp_x(a: &Vec<char>, b: &Vec<char>) -> (r: i32)
    ensures
        r as int == lex_cmp(a@, b@),
{
    let an = a.len();
    let bn = b.len();
    let mut i: usize = 0;
    proof {
        assert(a@.skip(0) =~= a@);
        assert(b@.skip(0) =~= b@);
    }
    loop
        invariant
            an == a@.len(),
            bn == b@.len(),
            i <= an,
            i <= bn,
            lex_cmp(a@, b@) == lex_cmp(a@.skip(i as int), b@.skip(i as int)),
        decreases an - i,
    {
        if i == an && i == bn {
            return 0;
        }
        if i == an {
            return -1;
        }
        if i == bn {
            return 1;
        }
        let ca = a[i];
        let cb = b[i];
        if ca != cb {
            if (ca as u32) < (cb as u32) {
                return -1;
            }
            return 1;
        }
        proof {
            assert(a@.skip(i as int).drop_first() =~= a@.skip(i + 1 as int));
            assert(b@.skip(i as int).drop_first() =~= b@.skip(i + 1 as int));
        }
        i = i + 1;
    }
}

/// Decides `is_num_ident`.
fn is_num_x(t: &Vec<char>) -> (r: bool)
    ensures
        r == is_num_ident(t@),
{
    let n = t.len();
    let mut i: usize = 0;
    while i < n
        invariant
            n == t@.len(),
            i <= n,
            forall|k: int| 0 <= k < i ==> '0' <= #[trigger] t@[k] && t@[k] <= '9',
        decreases n - i,
    {
        if !('0' <= t[i] && t[i] <= '9') {
            return false;
        }
        i = i + 1;
    }
    true
}

/// The identifier with its leading zeros removed.
fn trimmed_zeros(t: &Vec<char>) -> (r: Vec<char>)
    ensures
        r@ == trim_zeros(t@),
{
    let n = t.len();
    let mut k: usize = 0;
    while k < n && t[k] == '0'
        invariant
            n == t@.len(),
            k <= n,
            forall|j: int| 0 <= j < k ==> t@[j] == '0',
        decreases n - k,
    {
        k = k + 1;
    }
    proof {
        lemma_trim_zeros_skip(t@, k as int);
        assert(t@.subrange(k as int, n as int) =~= t@.skip(k as int));
    }
    vec_subrange(t, k, n)
}

/// Decides `pre_ident_cmp`.
fn pre_ident_cmp_x(a: &Vec<char>, b: &Vec<char>) -> (r: i32)
    ensures
        r as int == pre_ident_cmp(a@, b@),
{
    let na = is_num_x(a);
    let nb = is_num_x(b);
    if na && nb {
        if a.len() < b.len() {
            -1
        } else if a.len() > b.len() {
            1
        } else {
            lex_cmp_x(a, b)
        }
    } else if na {
        -1
    } else if nb {
        1
    } else {
        lex_cmp_x(a, b)
    }
}

/// Decides `build_ident_cmp`.
fn build_ident_cmp_x(a: &Vec<char>, b: &Vec<char>) -> (r: i32)
    ensures
        r as int == build_ident_cmp(a@, b@),
{
    let na = is_num_x(a);
    let nb = is_num_x(b);
    if na && nb {
        let ta = trimmed_zeros(a);
        let tb = trimmed_zeros(b);
        if ta.len() < tb.len() {
            -1
        } else if ta.len() > tb.len() {
            1
        } else {
            let c = lex_cmp_x(&ta, &tb);
            if c != 0 {
                c
            } else if a.len() < b.len() {
                -1
            } else if a.len() > b.len() {
                1
            } else {
                0
            }
        }
    } else if na {
        -1
    } else if nb {
        1
    } else {
        lex_cmp_x(a, b)
    }
}

/// The identifier texts of `v`, split at every `.`.
fn dot_split(v: &Vec<char>) -> (r: Vec<Vec<char>>)
    ensures
        crate::specifier::toks_model(r@) == dot_idents(v@),
{
    let n = v.len();
    let mut toks: Vec<Vec<char>> = Vec::new();
    let mut p: usize = 0;
    proof {
        assert(crate::specifier::toks_model(toks@) =~= Seq::<Seq<char>>::empty());
        assert(v@.skip(0) =~= v@);
    }
    loop
        invariant
            n == v@.len(),
            p <= n,
            dot_idents(v@) == crate::specifier::toks_model(toks@) + dot_idents(
                v@.skip(p as int),
            ),
        decreases n - p,
    {
        let rem = vec_subrange(v, p, n);
        proof {
            assert(rem@ =~= v@.skip(p as int));
        }
        let qrel = first_index(&rem, '.');
        proof {
            lemma_first_idx_props(rem@, '.');
        }
        let seg = vec_subrange(v, p, p + qrel);
        proof {
            assert(seg@ =~= rem@.take(qrel as int));
        }
        let ghost toks_pre = toks@;
        toks.push(seg);
        proof {
            assert(crate::specifier::toks_model(toks@) =~= crate::specifier::toks_model(
                toks_pre,
            ).push(seg@));
        }
        if qrel == rem.len() {
            proof {
                assert(seg@ =~= rem@);
                assert(dot_idents(rem@) == seq![rem@]);
                assert(crate::specifier::toks_model(toks_pre) + dot_idents(rem@)
                    =~= crate::specifier::toks_model(toks@));
            }
            return toks;
        }
        proof {
            assert(dot_idents(rem@) == seq![rem@.take(qrel as int)] + dot_idents(
                rem@.skip(qrel + 1),
            ));
            assert(v@.skip(p + qrel + 1) =~= rem@.skip(qrel + 1));
            assert(crate::specifier::toks_model(toks_pre) + dot_idents(rem@)
                =~= crate::specifier::toks_model(toks@) + dot_idents(v@.skip(p + qrel + 1)));
        }
        p = p + qrel + 1;
    }
}

/// Decides `pre_list_cmp` on split identifier lists.
fn pre_list_cmp_x(a: &Vec<Vec<char>>, b: &Vec<Vec<char>>) -> (r: i32)
    ensures
        r as int == pre_list_cmp(
            crate::specifier::toks_model(a@),
            crate::specifier::toks_model(b@),
        ),
{
    let ghost am = crate::specifier::toks_model(a@);
    let ghost bm = crate::specifier::toks_model(b@);
    let an = a.len();
    let bn = b.len();
    let mut k: usize = 0;
    proof {
        assert(am.skip(0) =~= am);
        assert(bm.skip(0) =~= bm);
    }
    loop
        invariant
            am == crate::specifier::toks_model(a@),
            bm == crate::specifier::toks_model(b@),
            an == am.len(),
            bn == bm.len(),
            k <= an,
            k <= bn,
            pre_list_cmp(am, bm) == pre_list_cmp(am.skip(k as int), bm.skip(k as int)),
        decreases an - k,
    {
        if k == an && k == bn {
            return 0;
        }
        if k == an {
            return -1;
        }
        if k == bn {
            return 1;
        }
        proof {
            assert(am[k as int] == a@[k as int]@);
            assert(bm[k as int] == b@[k as int]@);
            assert(am.skip(k as int)[0] == am[k as int]);
            assert(bm.skip(k as int)[0] == bm[k as int]);
        }
        let c = pre_ident_cmp_x(&a[k], &b[k]);
        if c != 0 {
            return c;
        }
        proof {
            assert(am.skip(k as int).drop_first() =~= am.skip(k + 1 as int));
            assert(bm.skip(k as int).drop_first() =~= bm.skip(k + 1 as int));
        }
        k = k + 1;
    }
}

/// Decides `build_list_cmp` on split identifier lists.
fn build_list_cmp_x(a: &Vec<Vec<char>>, b: &Vec<Vec<char>>) -> (r: i32)
    ensures
        r as int == build_list_cmp(
            crate::specifier::toks_model(a@),
            crate::specifier::toks_model(b@),
        ),
{
    let ghost am = crate::specifier::toks_model(a@);
    let ghost bm = crate::specifier::toks_model(b@);
    let an = a.len();
    let bn = b.len();
    let mut k: usize = 0;
    proof {
        assert(am.skip(0) =~= am);
        assert(bm.skip(0) =~= bm);
    }
    loop
        invariant
            am == crate::specifier::toks_model(a@),
            bm == crate::specifier::toks_model(b@),
            an == am.len(),
            bn == bm.len(),
            k <= an,
            k <= bn,
            build_list_cmp(am, bm) == build_list_cmp(am.skip(k as int), bm.skip(k as int)),
        decreases an - k,
    {
        if k == an && k == bn {
            return 0;
        }
        if k == an {
            return -1;
        }
        if k == bn {
            return 1;
        }
        proof {
            assert(am[k as int] == a@[k as int]@);
            assert(bm[k as int] == b@[k as int]@);
            assert(am.skip(k as int)[0] == am[k as int]);
            assert(bm.skip(k as int)[0] == bm[k as int]);
        }
        let c = build_ident_cmp_x(&a[k], &b[k]);
        if c != 0 {
            return c;
        }
        proof {
            assert(am.skip(k as int).drop_first() =~= am.skip(k + 1 as int));
            assert(bm.skip(k as int).drop_first() =~= bm.skip(k + 1 as int));
        }
        k = k + 1;
    }
}

/// Decides `pre_cmp` on two pre-release texts.
pub fn pre_cmp_x(a: &str, b: &str) -> (r: i32)
    ensures
        r as int == pre_cmp(a@, b@),
{
    let ac = crate::text::str_to_chars(a);
    let bc = crate::text::str_to_chars(b);
    if ac.len() == 0 && bc.len() == 0 {
        return 0;
    }
    if ac.len() == 0 {
        return 1;
    }
    if bc.len() == 0 {
        return -1;
    }
    let al = dot_split(&ac);
    let bl = dot_split(&bc);
    pre_list_cmp_x(&al, &bl)
}

/// Decides `build_cmp` on two build texts.
pub fn build_cmp_x(a: &str, b: &str) -> (r: i32)
    ensures
        r as int == build_cmp(a@, b@),
{
    let ac = crate::text::str_to_chars(a);
    let bc = crate::text::str_to_chars(b);
    let al = dot_split(&ac);
    let bl = dot_split(&bc);
    build_list_cmp_x(&al, &bl)
}

} // verus!
