//! The laws of the range engine: what holds of normalization and parsing on
//! every input, proved once and for all.

use vstd::prelude::*;
use crate::comparator::Comparator;
use crate::constraint::ConstraintModel;
use crate::error::ErrModel;
use crate::model::{
    adj_dup_scan, bounds_alternate_ok, comps_of, displayable_cs, eq_adjacency_ok, insert_sorted,
    is_ne, ne_filter, non_eq_comps, normalize_spec, other_filter, simplify, sort_cs, sorted_cs,
};
use crate::range::{insert_pos, lemma_insert_sorted_split, lemma_sort_cs_multiset,
    lemma_sort_cs_sorted};
use crate::specifier::parse_range_spec;
use crate::text::{lemma_strip_ws_idempotent, strip_ws};
use crate::version::{lemma_order, v_eq, VT};

verus! {

/// Single-any exclusivity: a constraint list that mixes `*` with any other
/// constraint always fails normalization as an invalid range.
pub proof fn lemma_star_exclusive<V: VT>(cs: Seq<ConstraintModel<V::V>>)
    requires
        cs.len() > 1,
        exists|i: int| 0 <= i < cs.len() && (#[trigger] cs[i]).comparator == Comparator::Any,
    ensures
        normalize_spec::<V>(cs) == Err::<Seq<ConstraintModel<V::V>>, ErrModel>(
            ErrModel::InvalidRange,
        ),
{
}

/// Whitespace insensitivity: a specifier parses exactly as its
/// whitespace-stripped form does.
pub proof fn lemma_whitespace_insensitive<V: VT>(s: Seq<char>)
    ensures
        parse_range_spec::<V>(s) == parse_range_spec::<V>(strip_ws(s)),
{
    lemma_strip_ws_idempotent(s);
}

/// No two constraints name equivalent versions.
pub open spec fn distinct_versions<V: VT>(s: Seq<ConstraintModel<V::V>>) -> bool {
    forall|i: int, j: int|
        0 <= i < j < s.len() ==> !v_eq::<V>(#[trigger] s[i].version, #[trigger] s[j].version)
}

/// Adjacent comparators on which the redundancy-elimination pass would act.
pub open spec fn stable_pair(a: Comparator, b: Comparator) -> bool {
    &&& !(a.is_lower_bound() && (b.is_lower_bound() || b == Comparator::Equal))
    &&& !((a == Comparator::Equal || a.is_upper_bound()) && b.is_upper_bound())
}

/// At position `t`, the pair survives the redundancy-elimination pass.
pub open spec fn stable_at<V: VT>(s: Seq<ConstraintModel<V::V>>, t: int) -> bool {
    stable_pair(s[t].comparator, s[t + 1].comparator)
}

/// No adjacent pair would be acted on by the redundancy-elimination pass.
pub open spec fn stable_pairs<V: VT>(s: Seq<ConstraintModel<V::V>>) -> bool {
    forall|t: int| 0 <= t < s.len() - 1 ==> #[trigger] stable_at::<V>(s, t)
}

/// The canonical form that normalization produces: a single constraint, or a
/// sorted duplicate-free star-free list whose non-`!=` part is stable under
/// redundancy elimination and structurally valid.
pub open spec fn canonical_cs<V: VT>(cs: Seq<ConstraintModel<V::V>>) -> bool {
    ||| cs.len() == 1
    ||| {
        &&& cs.len() > 1
        &&& (forall|i: int| 0 <= i < cs.len() ==> (#[trigger] cs[i]).comparator != Comparator::Any)
        &&& sorted_cs::<V>(cs)
        &&& distinct_versions::<V>(cs)
        &&& stable_pairs::<V>(other_filter::<V>(cs))
        &&& eq_adjacency_ok(comps_of::<V>(other_filter::<V>(cs)))
        &&& bounds_alternate_ok(comps_of::<V>(other_filter::<V>(cs)))
    }
}

/// Well-formedness of versions carries to any list holding only the given
/// constraints.
pub proof fn lemma_subset_displayable<V: VT>(
    cs: Seq<ConstraintModel<V::V>>,
    out: Seq<ConstraintModel<V::V>>,
)
    requires
        out.to_multiset().subset_of(cs.to_multiset()),
        displayable_cs::<V>(cs),
    ensures
        displayable_cs::<V>(out),
{
    broadcast use vstd::seq_lib::group_to_multiset_ensures;

    assert forall|i: int|
        0 <= i < out.len() implies ((#[trigger] out[i]).comparator != Comparator::Any ==> V::wf_v(
        out[i].version,
    )) by {
        assert(out.to_multiset().count(out[i]) >= 1);
        assert(cs.contains(out[i]));
        let w = choose|w: int| 0 <= w < cs.len() && cs[w] == out[i];
    }
}

/// Sorting an already sorted list changes nothing.
pub proof fn lemma_sort_sorted_id<V: VT>(s: Seq<ConstraintModel<V::V>>)
    requires
        sorted_cs::<V>(s),
    ensures
        sort_cs::<V>(s) == s,
    decreases s.len(),
{
    if s.len() > 0 {
        assert(sorted_cs::<V>(s.drop_last()));
        lemma_sort_sorted_id::<V>(s.drop_last());
        let s1 = s.drop_last();
        lemma_insert_sorted_split::<V>(s.last(), s1);
        let j = insert_pos::<V>(s.last(), s1);
        if j < s1.len() {
            assert(V::le_spec(s[j].version, s.last().version));
            assert(false);
        }
        assert(sort_cs::<V>(s) =~= s);
    }
}

/// A duplicate-free sorted list passes the duplicate scan.
pub proof fn lemma_no_adjacent_dup<V: VT>(s: Seq<ConstraintModel<V::V>>, i: int)
    requires
        distinct_versions::<V>(s),
        i >= 1,
    ensures
        adj_dup_scan::<V>(s, i) is None,
    decreases s.len() - i,
{
    if 1 <= i && i < s.len() {
        lemma_no_adjacent_dup::<V>(s, i + 1);
    }
}

/// The redundancy-elimination pass leaves a stable list unchanged.
pub proof fn lemma_simplify_noop<V: VT>(
    acc: Seq<ConstraintModel<V::V>>,
    rest: Seq<ConstraintModel<V::V>>,
)
    requires
        stable_pairs::<V>(acc + rest),
    ensures
        simplify::<V>(acc, rest) == acc + rest,
    decreases rest.len(),
{
    let whole = acc + rest;
    if rest.len() == 0 {
        assert(simplify::<V>(acc, rest) =~= acc + rest);
    } else {
        let cur = rest[0];
        let rest1 = rest.drop_first();
        if rest1.len() > 0 {
            let next = rest1[0];
            assert(stable_at::<V>(whole, acc.len() as int));
            assert(whole[acc.len() as int] == cur);
            assert(whole[acc.len() as int + 1] == next);
            if acc.len() > 0 {
                assert(stable_at::<V>(whole, acc.len() - 1));
                assert(whole[acc.len() - 1] == acc.last());
            }
            assert(acc.push(cur) + rest1 =~= acc + rest);
            lemma_simplify_noop::<V>(acc.push(cur), rest1);
        } else {
            assert(simplify::<V>(acc, rest) == acc.push(cur));
            assert(acc.push(cur) =~= acc + rest);
        }
    }
}

/// The looser of two adjacent same-family bounds survives the
/// redundancy-elimination pass. In the sorted work list the current
/// constraint carries the smaller version, so: a lower bound swallows a lower
/// bound or an `=` standing right after it (the smaller lower bound is kept);
/// and an upper bound or an `=` standing right before an upper bound is
/// itself swallowed (the larger upper bound is kept).
pub proof fn lemma_looser_bound_survives<V: VT>(
    cur: ConstraintModel<V::V>,
    next: ConstraintModel<V::V>,
    rest: Seq<ConstraintModel<V::V>>,
)
    ensures
        cur.comparator.is_lower_bound() && (next.comparator.is_lower_bound() || next.comparator
            == Comparator::Equal) ==> simplify::<V>(Seq::empty(), seq![cur, next] + rest)
            == simplify::<V>(Seq::empty(), seq![cur] + rest),
        (cur.comparator == Comparator::Equal || cur.comparator.is_upper_bound())
            && next.comparator.is_upper_bound() ==> simplify::<V>(
            Seq::empty(),
            seq![cur, next] + rest,
        ) == simplify::<V>(Seq::empty(), seq![next] + rest),
{
    let work = seq![cur, next] + rest;
    assert(work[0] == cur);
    assert(work.drop_first() =~= seq![next] + rest);
    assert(work.drop_first()[0] == next);
    if cur.comparator.is_lower_bound() && (next.comparator.is_lower_bound() || next.comparator
        == Comparator::Equal) {
        assert(seq![cur] + (seq![next] + rest).drop_first() =~= seq![cur] + rest);
    }
}

/// Two sorted duplicate-free lists holding the same constraints are equal.
pub proof fn lemma_sorted_unique<V: VT>(
    a: Seq<ConstraintModel<V::V>>,
    b: Seq<ConstraintModel<V::V>>,
)
    requires
        sorted_cs::<V>(a),
        sorted_cs::<V>(b),
        distinct_versions::<V>(a),
        a.to_multiset() == b.to_multiset(),
    ensures
        a == b,
    decreases a.len(),
{
    broadcast use vstd::seq_lib::group_to_multiset_ensures;

    if a.len() == 0 {
        assert(b.to_multiset().len() == 0);
        assert(a =~= b);
    } else {
        assert(a.to_multiset().contains(a[0]));
        assert(b.to_multiset().contains(a[0]));
        assert(b.contains(a[0]));
        let k = choose|k: int| 0 <= k < b.len() && b[k] == a[0];
        assert(b.to_multiset().contains(b[0]));
        assert(a.to_multiset().contains(b[0]));
        assert(a.contains(b[0]));
        let m = choose|m: int| 0 <= m < a.len() && a[m] == b[0];
        // b[0] <= b[k] == a[0] and a[0] <= a[m] == b[0], so they are
        // equivalent; distinctness puts both at the front.
        lemma_order::<V>(a[0].version, b[0].version, a[0].version);
        if k > 0 {
            assert(V::le_spec(b[0].version, b[k].version));
        }
        if m > 0 {
            assert(V::le_spec(a[0].version, a[m].version));
        }
        assert(v_eq::<V>(a[0].version, b[0].version));
        if m > 0 {
            assert(!v_eq::<V>(a[0].version, a[m].version));
            assert(false);
        }
        assert(a[0] == b[0]);
        let a1 = a.drop_first();
        let b1 = b.drop_first();
        assert(a1 =~= a.remove(0));
        assert(b1 =~= b.remove(0));
        vstd::seq_lib::to_multiset_remove(a, 0);
        vstd::seq_lib::to_multiset_remove(b, 0);
        assert(a1.to_multiset() == b1.to_multiset());
        assert(sorted_cs::<V>(a1));
        assert(sorted_cs::<V>(b1));
        assert(distinct_versions::<V>(a1));
        lemma_sorted_unique::<V>(a1, b1);
        assert forall|i: int| 0 <= i < a.len() implies a[i] == b[i] by {
            if i > 0 {
                assert(a1[i - 1] == b1[i - 1]);
            }
        }
        assert(a =~= b);
    }
}

/// A sequence's constraints are exactly its `!=` part and its other part.
pub proof fn lemma_partition_multiset<V: VT>(s: Seq<ConstraintModel<V::V>>)
    ensures
        (other_filter::<V>(s) + ne_filter::<V>(s)).to_multiset() == s.to_multiset(),
    decreases s.len(),
{
    broadcast use vstd::seq_lib::group_to_multiset_ensures;

    reveal(Seq::filter);
    if s.len() == 0 {
        assert(other_filter::<V>(s) + ne_filter::<V>(s) =~= s);
    } else {
        lemma_partition_multiset::<V>(s.drop_last());
        let x = s.last();
        let o1 = other_filter::<V>(s.drop_last());
        let n1 = ne_filter::<V>(s.drop_last());
        vstd::seq_lib::lemma_multiset_commutative(o1, n1);
        if is_ne::<V>(x) {
            assert(ne_filter::<V>(s) == n1.push(x));
            assert(other_filter::<V>(s) == o1);
            vstd::seq_lib::lemma_multiset_commutative(o1, n1.push(x));
            assert(n1.push(x).to_multiset() == n1.to_multiset().insert(x));
            assert(s.to_multiset() == s.drop_last().to_multiset().insert(x)) by {
                assert(s =~= s.drop_last().push(x));
            }
            assert((o1 + n1.push(x)).to_multiset() =~= s.to_multiset());
        } else {
            assert(ne_filter::<V>(s) == n1);
            assert(other_filter::<V>(s) == o1.push(x));
            vstd::seq_lib::lemma_multiset_commutative(o1.push(x), n1);
            assert(o1.push(x).to_multiset() == o1.to_multiset().insert(x));
            assert(s.to_multiset() == s.drop_last().to_multiset().insert(x)) by {
                assert(s =~= s.drop_last().push(x));
            }
            assert((o1.push(x) + n1).to_multiset() =~= s.to_multiset());
        }
    }
}

/// Normalization is the identity on canonical constraint lists.
pub proof fn lemma_normalize_idempotent<V: VT>(cs: Seq<ConstraintModel<V::V>>)
    requires
        canonical_cs::<V>(cs),
    ensures
        normalize_spec::<V>(cs) == Ok::<Seq<ConstraintModel<V::V>>, ErrModel>(cs),
{
    if cs.len() == 1 {
    } else {
        lemma_sort_sorted_id::<V>(cs);
        lemma_no_adjacent_dup::<V>(cs, 1);
        let ne = ne_filter::<V>(cs);
        let other = other_filter::<V>(cs);
        if other.len() == 0 {
            assert(ne =~= cs) by {
                lemma_filter_all_ne::<V>(cs);
            }
        } else {
            assert(Seq::<ConstraintModel<V::V>>::empty() + other =~= other);
            lemma_simplify_noop::<V>(Seq::empty(), other);
            assert(simplify::<V>(Seq::empty(), other) == other);
            lemma_partition_multiset::<V>(cs);
            lemma_sort_cs_multiset::<V>(other + ne);
            lemma_sort_cs_sorted::<V>(other + ne);
            lemma_sorted_unique::<V>(cs, sort_cs::<V>(other + ne));
        }
    }
}

/// Removing one element keeps a list sorted and duplicate-free, and keeps
/// every remaining element and the whole multiset within the original.
proof fn lemma_remove_keeps<V: VT>(s: Seq<ConstraintModel<V::V>>, k: int)
    requires
        0 <= k < s.len(),
    ensures
        sorted_cs::<V>(s) ==> sorted_cs::<V>(s.remove(k)),
        s.remove(k).to_multiset().subset_of(s.to_multiset()),
{
    broadcast use vstd::seq_lib::group_to_multiset_ensures;

    let r = s.remove(k);
    if sorted_cs::<V>(s) {
        assert forall|x: int, y: int|
            0 <= x < y < r.len() implies V::le_spec(
            #[trigger] r[x].version,
            #[trigger] r[y].version,
        ) by {
            let x2: int = if x < k {
                x
            } else {
                x + 1
            };
            let y2: int = if y < k {
                y
            } else {
                y + 1
            };
            assert(r[x] == s[x2]);
            assert(r[y] == s[y2]);
        }
    }
    vstd::seq_lib::to_multiset_remove(s, k);
    assert forall|x: ConstraintModel<V::V>|
        #[trigger] r.to_multiset().count(x) <= s.to_multiset().count(x) by {
        assert(r.to_multiset() == s.to_multiset().remove(s[k]));
    }
}

/// What the redundancy-elimination pass guarantees of its result, given that
/// the accepted prefix is stable and meets the work list at a stable pair:
/// the result is stable, it keeps the order, and it holds only constraints of
/// the input.
proof fn lemma_simplify_props<V: VT>(
    acc: Seq<ConstraintModel<V::V>>,
    rest: Seq<ConstraintModel<V::V>>,
)
    requires
        stable_pairs::<V>(acc),
        acc.len() > 0 && rest.len() > 0 ==> stable_pair(
            acc.last().comparator,
            rest[0].comparator,
        ),
    ensures
        stable_pairs::<V>(simplify::<V>(acc, rest)),
        sorted_cs::<V>(acc + rest) ==> sorted_cs::<V>(simplify::<V>(acc, rest)),
        simplify::<V>(acc, rest).to_multiset().subset_of((acc + rest).to_multiset()),
        acc.len() + rest.len() > 0 ==> simplify::<V>(acc, rest).len() > 0,
    decreases rest.len(), acc.len(),
{
    broadcast use vstd::seq_lib::group_to_multiset_ensures;

    let whole = acc + rest;
    let out = simplify::<V>(acc, rest);
    if rest.len() == 0 {
        assert(out =~= whole);
    } else {
        let cur = rest[0];
        let rest1 = rest.drop_first();
        assert(whole[acc.len() as int] == cur);
        if rest1.len() > 0 {
            let next = rest1[0];
            assert(whole[acc.len() as int + 1] == next);
            if cur.comparator.is_lower_bound() && (next.comparator.is_lower_bound()
                || next.comparator == Comparator::Equal) {
                let rest2 = seq![cur] + rest1.drop_first();
                assert(acc + rest2 =~= whole.remove(acc.len() as int + 1));
                lemma_remove_keeps::<V>(whole, acc.len() as int + 1);
                lemma_simplify_props::<V>(acc, rest2);
            } else if (cur.comparator == Comparator::Equal || cur.comparator.is_upper_bound())
                && next.comparator.is_upper_bound() {
                if acc.len() > 0 {
                    let acc2 = acc.drop_last();
                    let rest2 = seq![acc.last()] + rest1;
                    assert(acc2 + rest2 =~= whole.remove(acc.len() as int));
                    lemma_remove_keeps::<V>(whole, acc.len() as int);
                    assert(stable_pairs::<V>(acc2)) by {
                        assert forall|t: int|
                            0 <= t < acc2.len() - 1 implies #[trigger] stable_at::<V>(acc2, t) by {
                            assert(stable_at::<V>(acc, t));
                            assert(acc2[t] == acc[t] && acc2[t + 1] == acc[t + 1]);
                        }
                    }
                    if acc2.len() > 0 {
                        assert(stable_at::<V>(acc, acc.len() - 2));
                        assert(acc2.last() == acc[acc.len() - 2]);
                    }
                    lemma_simplify_props::<V>(acc2, rest2);
                } else {
                    assert(acc + rest1 =~= whole.remove(acc.len() as int));
                    lemma_remove_keeps::<V>(whole, acc.len() as int);
                    lemma_simplify_props::<V>(acc, rest1);
                }
            } else if acc.len() > 0 && acc.last().comparator.is_lower_bound()
                && (cur.comparator.is_lower_bound() || cur.comparator == Comparator::Equal) {
                // excluded by the stable boundary pair
                assert(false);
            } else if acc.len() > 0 && (acc.last().comparator == Comparator::Equal
                || acc.last().comparator.is_upper_bound()) && cur.comparator.is_upper_bound() {
                // excluded by the stable boundary pair
                assert(false);
            } else {
                let acc2 = acc.push(cur);
                assert(acc2 + rest1 =~= whole);
                assert(stable_pairs::<V>(acc2)) by {
                    assert forall|t: int|
                        0 <= t < acc2.len() - 1 implies #[trigger] stable_at::<V>(acc2, t) by {
                        if t < acc.len() - 1 {
                            assert(stable_at::<V>(acc, t));
                            assert(acc2[t] == acc[t] && acc2[t + 1] == acc[t + 1]);
                        } else {
                            assert(acc2[t] == acc.last() && acc2[t + 1] == cur);
                        }
                    }
                }
                assert(acc2.last() == cur);
                assert(stable_pair(cur.comparator, next.comparator));
                lemma_simplify_props::<V>(acc2, rest1);
            }
        } else {
            let acc2 = acc.push(cur);
            assert(out == acc2);
            assert(acc2 =~= whole);
            assert(stable_pairs::<V>(acc2)) by {
                assert forall|t: int|
                    0 <= t < acc2.len() - 1 implies #[trigger] stable_at::<V>(acc2, t) by {
                    if t < acc.len() - 1 {
                        assert(stable_at::<V>(acc, t));
                        assert(acc2[t] == acc[t] && acc2[t + 1] == acc[t + 1]);
                    } else {
                        assert(acc2[t] == acc.last() && acc2[t + 1] == cur);
                    }
                }
            }
        }
    }
}

/// A value standing at two positions counts at least twice in the multiset.
proof fn lemma_positions_to_count<V: VT>(
    s: Seq<ConstraintModel<V::V>>,
    i: int,
    j: int,
)
    requires
        0 <= i < j < s.len(),
        s[i] == s[j],
    ensures
        s.to_multiset().count(s[i]) >= 2,
{
    broadcast use vstd::seq_lib::group_to_multiset_ensures;

    vstd::seq_lib::to_multiset_remove(s, i);
    let r = s.remove(i);
    assert(r[j - 1] == s[j]);
    assert(r.contains(s[j]));
    assert(r.to_multiset().count(s[j]) >= 1);
    assert(r.to_multiset() == s.to_multiset().remove(s[i]));
}

/// A value counting at least twice in the multiset stands at two positions.
proof fn lemma_count_to_positions<V: VT>(s: Seq<ConstraintModel<V::V>>, x: ConstraintModel<V::V>)
    requires
        s.to_multiset().count(x) >= 2,
    ensures
        exists|i: int, j: int| #![trigger s[i], s[j]] 0 <= i < j < s.len() && s[i] == x && s[j] == x,
{
    broadcast use vstd::seq_lib::group_to_multiset_ensures;

    assert(s.contains(x));
    let i = choose|i: int| 0 <= i < s.len() && s[i] == x;
    vstd::seq_lib::to_multiset_remove(s, i);
    let r = s.remove(i);
    assert(r.to_multiset().count(x) >= 1);
    assert(r.contains(x));
    let j0 = choose|j0: int| 0 <= j0 < r.len() && r[j0] == x;
    if j0 < i {
        assert(s[j0] == x);
        assert(0 <= j0 < i < s.len() && s[j0] == x && s[i] == x);
    } else {
        assert(s[j0 + 1] == x);
        assert(0 <= i < j0 + 1 < s.len() && s[i] == x && s[j0 + 1] == x);
    }
}

/// Distinctness carries through any rearrangement of the same constraints.
proof fn lemma_distinct_permutation<V: VT>(
    a: Seq<ConstraintModel<V::V>>,
    b: Seq<ConstraintModel<V::V>>,
)
    requires
        distinct_versions::<V>(a),
        b.to_multiset().subset_of(a.to_multiset()),
    ensures
        distinct_versions::<V>(b),
{
    broadcast use vstd::seq_lib::group_to_multiset_ensures;

    assert forall|i: int, j: int|
        0 <= i < j < b.len() implies !v_eq::<V>(
        #[trigger] b[i].version,
        #[trigger] b[j].version,
    ) by {
        if v_eq::<V>(b[i].version, b[j].version) {
            if b[i] == b[j] {
                lemma_positions_to_count::<V>(b, i, j);
                assert(a.to_multiset().count(b[i]) >= 2);
                lemma_count_to_positions::<V>(a, b[i]);
                let (p, q) = choose|p: int, q: int|
                    #![trigger a[p], a[q]]
                    0 <= p < q < a.len() && a[p] == b[i] && a[q] == b[i];
                assert(!v_eq::<V>(a[p].version, a[q].version));
            } else {
                assert(b.to_multiset().count(b[i]) >= 1);
                assert(b.to_multiset().count(b[j]) >= 1);
                assert(a.contains(b[i]));
                assert(a.contains(b[j]));
                let p = choose|p: int| 0 <= p < a.len() && a[p] == b[i];
                let q = choose|q: int| 0 <= q < a.len() && a[q] == b[j];
                assert(p != q);
                if p < q {
                    assert(!v_eq::<V>(a[p].version, a[q].version));
                } else {
                    assert(!v_eq::<V>(a[q].version, a[p].version));
                    lemma_order::<V>(b[i].version, b[j].version, b[i].version);
                }
            }
        }
    }
}

/// The two partitions of a sorted list are sorted, and hold only constraints
/// of the list.
proof fn lemma_filter_keeps<V: VT>(s: Seq<ConstraintModel<V::V>>)
    requires
        sorted_cs::<V>(s),
    ensures
        sorted_cs::<V>(ne_filter::<V>(s)),
        sorted_cs::<V>(other_filter::<V>(s)),
        ne_filter::<V>(s).to_multiset().subset_of(s.to_multiset()),
        other_filter::<V>(s).to_multiset().subset_of(s.to_multiset()),
    decreases s.len(),
{
    broadcast use vstd::seq_lib::group_to_multiset_ensures;

    reveal(Seq::filter);
    if s.len() == 0 {
        assert(ne_filter::<V>(s) =~= s);
        assert(other_filter::<V>(s) =~= s);
    } else {
        let s1 = s.drop_last();
        let x = s.last();
        assert(sorted_cs::<V>(s1));
        lemma_filter_keeps::<V>(s1);
        assert(s =~= s1.push(x));
        crate::model::lemma_partition_push::<V>(s1, x);
        assert forall|p: Seq<ConstraintModel<V::V>>|
            (p == ne_filter::<V>(s1) || p == other_filter::<V>(s1)) implies sorted_cs::<V>(
            p.push(x),
        ) by {
            assert forall|u: int, w: int|
                0 <= u < w < p.push(x).len() implies V::le_spec(
                #[trigger] p.push(x)[u].version,
                #[trigger] p.push(x)[w].version,
            ) by {
                if w < p.len() {
                    assert(p.push(x)[u] == p[u] && p.push(x)[w] == p[w]);
                } else {
                    assert(p.push(x)[u] == p[u]);
                    assert(p.to_multiset().count(p[u]) >= 1);
                    assert(s1.contains(p[u]));
                    let q = choose|q: int| 0 <= q < s1.len() && s1[q] == p[u];
                    assert(V::le_spec(s[q].version, s[s.len() - 1].version));
                }
            }
        }
        assert(s1.to_multiset().subset_of(s.to_multiset())) by {
            assert(s1 =~= s.remove(s.len() - 1));
            lemma_remove_keeps::<V>(s, s.len() - 1);
        }
        assert forall|y: ConstraintModel<V::V>|
            #[trigger] ne_filter::<V>(s).to_multiset().count(y) <= s.to_multiset().count(y) by {
            if is_ne::<V>(x) {
                assert(ne_filter::<V>(s) == ne_filter::<V>(s1).push(x));
                assert(ne_filter::<V>(s1).push(x).to_multiset() == ne_filter::<V>(
                    s1,
                ).to_multiset().insert(x));
                assert(s.to_multiset() == s1.to_multiset().insert(x)) by {
                    assert(s =~= s1.push(x));
                }
            }
        }
        assert forall|y: ConstraintModel<V::V>|
            #[trigger] other_filter::<V>(s).to_multiset().count(y) <= s.to_multiset().count(
            y,
        ) by {
            if !is_ne::<V>(x) {
                assert(other_filter::<V>(s) == other_filter::<V>(s1).push(x));
                assert(other_filter::<V>(s1).push(x).to_multiset() == other_filter::<V>(
                    s1,
                ).to_multiset().insert(x));
                assert(s.to_multiset() == s1.to_multiset().insert(x)) by {
                    assert(s =~= s1.push(x));
                }
            }
        }
    }
}

/// An element of the output stems from the input list.
proof fn lemma_member_not_any<V: VT>(
    cs: Seq<ConstraintModel<V::V>>,
    sorted: Seq<ConstraintModel<V::V>>,
    out: Seq<ConstraintModel<V::V>>,
    i: int,
)
    requires
        sorted.to_multiset() == cs.to_multiset(),
        out.to_multiset().subset_of(sorted.to_multiset()),
        forall|w: int| 0 <= w < cs.len() ==> (#[trigger] cs[w]).comparator != Comparator::Any,
        0 <= i < out.len(),
    ensures
        out[i].comparator != Comparator::Any,
{
    broadcast use vstd::seq_lib::group_to_multiset_ensures;

    assert(out.to_multiset().count(out[i]) >= 1);
    assert(cs.contains(out[i]));
    let w = choose|w: int| 0 <= w < cs.len() && cs[w] == out[i];
}

/// The all-`!=` case of normalization yields a canonical list.
proof fn lemma_canon_ne_case<V: VT>(
    cs: Seq<ConstraintModel<V::V>>,
    sorted: Seq<ConstraintModel<V::V>>,
    out: Seq<ConstraintModel<V::V>>,
)
    requires
        cs.len() > 1,
        forall|w: int| 0 <= w < cs.len() ==> (#[trigger] cs[w]).comparator != Comparator::Any,
        sorted == sort_cs::<V>(cs),
        adj_dup_scan::<V>(sorted, 1) is None,
        other_filter::<V>(sorted).len() == 0,
        out == ne_filter::<V>(sorted),
    ensures
        canonical_cs::<V>(out),
        out.to_multiset().subset_of(cs.to_multiset()),
{
    broadcast use vstd::seq_lib::group_to_multiset_ensures;

    lemma_sort_cs_sorted::<V>(cs);
    lemma_sort_cs_multiset::<V>(cs);
    lemma_dup_scan_distinct::<V>(sorted);
    lemma_filter_keeps::<V>(sorted);
    lemma_filter_all_ne::<V>(sorted);
    assert(out == sorted);
    if out.len() > 1 {
        assert forall|i: int|
            0 <= i < out.len() implies (#[trigger] out[i]).comparator != Comparator::Any by {
            lemma_member_not_any::<V>(cs, sorted, out, i);
        }
        assert(forall|i: int| 0 <= i < out.len() ==> is_ne::<V>(#[trigger] out[i])) by {
            assert forall|i: int| 0 <= i < out.len() implies is_ne::<V>(#[trigger] out[i]) by {
                assert(ne_filter::<V>(sorted).to_multiset().count(out[i]) >= 1);
                lemma_filter_count::<V>(sorted, out[i]);
            }
        }
        lemma_all_ne_parts::<V>(out);
    }
}

/// The merged case of normalization yields a canonical list.
proof fn lemma_canon_merge_case<V: VT>(
    cs: Seq<ConstraintModel<V::V>>,
    sorted: Seq<ConstraintModel<V::V>>,
    simp: Seq<ConstraintModel<V::V>>,
    ne: Seq<ConstraintModel<V::V>>,
    out: Seq<ConstraintModel<V::V>>,
)
    requires
        cs.len() > 1,
        forall|w: int| 0 <= w < cs.len() ==> (#[trigger] cs[w]).comparator != Comparator::Any,
        sorted == sort_cs::<V>(cs),
        adj_dup_scan::<V>(sorted, 1) is None,
        ne == ne_filter::<V>(sorted),
        other_filter::<V>(sorted).len() > 0,
        simp == simplify::<V>(Seq::empty(), other_filter::<V>(sorted)),
        eq_adjacency_ok(comps_of::<V>(simp)),
        bounds_alternate_ok(comps_of::<V>(simp)),
        out == sort_cs::<V>(simp + ne),
    ensures
        canonical_cs::<V>(out),
        out.to_multiset().subset_of(cs.to_multiset()),
{
    broadcast use vstd::seq_lib::group_to_multiset_ensures;

    let other = other_filter::<V>(sorted);
    lemma_sort_cs_sorted::<V>(cs);
    lemma_sort_cs_multiset::<V>(cs);
    lemma_dup_scan_distinct::<V>(sorted);
    lemma_filter_keeps::<V>(sorted);
    assert(Seq::<ConstraintModel<V::V>>::empty() + other =~= other);
    lemma_simplify_props::<V>(Seq::empty(), other);
    let merged = simp + ne;
    lemma_sort_cs_sorted::<V>(merged);
    lemma_sort_cs_multiset::<V>(merged);
    assert(merged.to_multiset().subset_of(sorted.to_multiset())) by {
        vstd::seq_lib::lemma_multiset_commutative(simp, ne);
        lemma_partition_multiset::<V>(sorted);
        vstd::seq_lib::lemma_multiset_commutative(other, ne);
        assert forall|y: ConstraintModel<V::V>|
            #[trigger] merged.to_multiset().count(y) <= sorted.to_multiset().count(y) by {
            assert(merged.to_multiset().count(y) == simp.to_multiset().count(y)
                + ne.to_multiset().count(y));
            assert(simp.to_multiset().count(y) <= other.to_multiset().count(y));
            assert((other + ne).to_multiset().count(y) == other.to_multiset().count(y)
                + ne.to_multiset().count(y));
        }
    }
    assert(out.to_multiset().subset_of(cs.to_multiset())) by {
        assert forall|y: ConstraintModel<V::V>|
            #[trigger] out.to_multiset().count(y) <= cs.to_multiset().count(y) by {
            assert(out.to_multiset().count(y) == merged.to_multiset().count(y));
            assert(merged.to_multiset().count(y) <= sorted.to_multiset().count(y));
        }
    }
    assert(out.to_multiset().subset_of(sorted.to_multiset())) by {
        assert forall|y: ConstraintModel<V::V>|
            #[trigger] out.to_multiset().count(y) <= sorted.to_multiset().count(y) by {
            assert(out.to_multiset().count(y) == merged.to_multiset().count(y));
        }
    }
    lemma_distinct_permutation::<V>(sorted, out);
    assert(out.len() == simp.len() + ne.len());
    assert(simp.len() > 0);
    if out.len() > 1 {
        assert forall|i: int|
            0 <= i < out.len() implies (#[trigger] out[i]).comparator != Comparator::Any by {
            lemma_member_not_any::<V>(cs, sorted, out, i);
        }
        lemma_out_parts::<V>(cs, out, simp, ne, sorted);
        assert(sorted_cs::<V>(out));
        assert(distinct_versions::<V>(out));
        assert(stable_pairs::<V>(other_filter::<V>(out)));
        assert(eq_adjacency_ok(comps_of::<V>(other_filter::<V>(out))));
        assert(bounds_alternate_ok(comps_of::<V>(other_filter::<V>(out))));
    } else {
        assert(out.len() == 1);
    }
}

/// What normalization yields is canonical, and holds only constraints it was
/// given.
pub proof fn lemma_normalize_canonical<V: VT>(
    cs: Seq<ConstraintModel<V::V>>,
    out: Seq<ConstraintModel<V::V>>,
)
    requires
        normalize_spec::<V>(cs) == Ok::<Seq<ConstraintModel<V::V>>, ErrModel>(out),
    ensures
        canonical_cs::<V>(out),
        out.to_multiset().subset_of(cs.to_multiset()),
{
    broadcast use vstd::seq_lib::group_to_multiset_ensures;

    if cs.len() == 1 {
        assert(out == cs);
        assert forall|y: ConstraintModel<V::V>|
            #[trigger] out.to_multiset().count(y) <= cs.to_multiset().count(y) by {}
    } else {
        let sorted = sort_cs::<V>(cs);
        assert(forall|w: int|
            0 <= w < cs.len() ==> (#[trigger] cs[w]).comparator != Comparator::Any);
        let ne = ne_filter::<V>(sorted);
        let other = other_filter::<V>(sorted);
        if other.len() == 0 {
            lemma_canon_ne_case::<V>(cs, sorted, out);
        } else {
            let simp = simplify::<V>(Seq::empty(), other);
            lemma_canon_merge_case::<V>(cs, sorted, simp, ne, out);
        }
    }
}

/// In a list of `!=` constraints alone, the non-`!=` part is empty and every
/// structural rule holds of it vacuously.
proof fn lemma_all_ne_parts<V: VT>(out: Seq<ConstraintModel<V::V>>)
    requires
        forall|i: int| 0 <= i < out.len() ==> is_ne::<V>(#[trigger] out[i]),
    ensures
        other_filter::<V>(out).len() == 0,
        stable_pairs::<V>(other_filter::<V>(out)),
        eq_adjacency_ok(comps_of::<V>(other_filter::<V>(out))),
        bounds_alternate_ok(comps_of::<V>(other_filter::<V>(out))),
    decreases out.len(),
{
    reveal(Seq::filter);
    if out.len() > 0 {
        assert(forall|i: int|
            0 <= i < out.drop_last().len() ==> is_ne::<V>(#[trigger] out.drop_last()[i]));
        lemma_all_ne_parts::<V>(out.drop_last());
        assert(is_ne::<V>(out.last()));
    } else {
        assert(other_filter::<V>(out) =~= out);
        assert(comps_of::<V>(other_filter::<V>(out)).len() == 0);
        assert(non_eq_comps(comps_of::<V>(other_filter::<V>(out))) =~= Seq::<Comparator>::empty())
            by {
            reveal(Seq::filter);
        }
    }
}

/// In a sorted list with no equivalent adjacent pair, versions further apart
/// differ too.
proof fn lemma_sorted_apart_distinct<V: VT>(s: Seq<ConstraintModel<V::V>>, i: int, j: int)
    requires
        sorted_cs::<V>(s),
        forall|k: int| 1 <= k < s.len() ==> !v_eq::<V>((#[trigger] s[k]).version, s[k - 1].version),
        0 <= i < j < s.len(),
    ensures
        !v_eq::<V>(s[i].version, s[j].version),
{
    if v_eq::<V>(s[i].version, s[j].version) {
        assert(!v_eq::<V>(s[i + 1].version, s[i].version));
        assert(V::le_spec(s[i].version, s[i + 1].version));
        if i + 1 < j {
            assert(V::le_spec(s[i + 1].version, s[j].version));
        } else {
            V::lemma_le_total(s[i + 1].version, s[j].version, s[j].version);
        }
        V::lemma_le_total(s[i + 1].version, s[j].version, s[i].version);
        assert(V::le_spec(s[i + 1].version, s[i].version));
        assert(v_eq::<V>(s[i + 1].version, s[i].version));
    }
}

/// A sorted list that passes the duplicate scan has pairwise distinct
/// versions.
#[verifier::rlimit(100)]
proof fn lemma_dup_scan_distinct<V: VT>(s: Seq<ConstraintModel<V::V>>)
    requires
        sorted_cs::<V>(s),
        adj_dup_scan::<V>(s, 1) is None,
    ensures
        distinct_versions::<V>(s),
{
    lemma_dup_scan_all::<V>(s, 1);
    assert forall|i: int, j: int|
        0 <= i < j < s.len() implies !v_eq::<V>(
        #[trigger] s[i].version,
        #[trigger] s[j].version,
    ) by {
        lemma_sorted_apart_distinct::<V>(s, i, j);
    }
}

/// A clean duplicate scan means no adjacent pair is equivalent.
proof fn lemma_dup_scan_all<V: VT>(s: Seq<ConstraintModel<V::V>>, i: int)
    requires
        adj_dup_scan::<V>(s, i) is None,
        1 <= i,
    ensures
        forall|k: int| i <= k < s.len() ==> !v_eq::<V>((#[trigger] s[k]).version, s[k - 1].version),
    decreases s.len() - i,
{
    if i < s.len() {
        lemma_dup_scan_all::<V>(s, i + 1);
    }
}

/// How many times a value occurs in each partition of a list.
proof fn lemma_filter_count<V: VT>(s: Seq<ConstraintModel<V::V>>, y: ConstraintModel<V::V>)
    ensures
        ne_filter::<V>(s).to_multiset().count(y) == if is_ne::<V>(y) {
            s.to_multiset().count(y)
        } else {
            0
        },
        other_filter::<V>(s).to_multiset().count(y) == if !is_ne::<V>(y) {
            s.to_multiset().count(y)
        } else {
            0
        },
    decreases s.len(),
{
    broadcast use vstd::seq_lib::group_to_multiset_ensures;

    reveal(Seq::filter);
    if s.len() == 0 {
        assert(ne_filter::<V>(s) =~= s);
        assert(other_filter::<V>(s) =~= s);
    } else {
        let s1 = s.drop_last();
        let x = s.last();
        lemma_filter_count::<V>(s1, y);
        crate::model::lemma_partition_push::<V>(s1, x);
        assert(s =~= s1.push(x));
        assert(s.to_multiset() == s1.to_multiset().insert(x));
        if is_ne::<V>(x) {
            assert(ne_filter::<V>(s).to_multiset() == ne_filter::<V>(s1).to_multiset().insert(x));
        } else {
            assert(other_filter::<V>(s).to_multiset() == other_filter::<V>(
                s1,
            ).to_multiset().insert(x));
        }
    }
}

/// In the merged output, the non-`!=` part is exactly the survivor list, so
/// its structural properties carry over.
proof fn lemma_out_parts<V: VT>(
    cs: Seq<ConstraintModel<V::V>>,
    out: Seq<ConstraintModel<V::V>>,
    simp: Seq<ConstraintModel<V::V>>,
    ne: Seq<ConstraintModel<V::V>>,
    sorted: Seq<ConstraintModel<V::V>>,
)
    requires
        sorted_cs::<V>(out),
        distinct_versions::<V>(sorted),
        sorted_cs::<V>(simp),
        stable_pairs::<V>(simp),
        eq_adjacency_ok(comps_of::<V>(simp)),
        bounds_alternate_ok(comps_of::<V>(simp)),
        ne == ne_filter::<V>(sorted),
        simp.to_multiset().subset_of(other_filter::<V>(sorted).to_multiset()),
        out.to_multiset() == (simp + ne).to_multiset(),
    ensures
        other_filter::<V>(out) == simp,
        stable_pairs::<V>(other_filter::<V>(out)),
        eq_adjacency_ok(comps_of::<V>(other_filter::<V>(out))),
        bounds_alternate_ok(comps_of::<V>(other_filter::<V>(out))),
{
    broadcast use vstd::seq_lib::group_to_multiset_ensures;

    lemma_filter_keeps::<V>(out);
    vstd::seq_lib::lemma_multiset_commutative(simp, ne);
    assert forall|y: ConstraintModel<V::V>|
        #[trigger] other_filter::<V>(out).to_multiset().count(y) == simp.to_multiset().count(
        y,
    ) by {
        lemma_filter_count::<V>(out, y);
        lemma_filter_count::<V>(sorted, y);
        assert(out.to_multiset().count(y) == simp.to_multiset().count(y) + ne.to_multiset().count(
            y,
        ));
        if is_ne::<V>(y) {
            assert(other_filter::<V>(sorted).to_multiset().count(y) == 0);
            assert(simp.to_multiset().count(y) == 0);
        } else {
            assert(ne.to_multiset().count(y) == 0);
        }
    }
    assert(other_filter::<V>(out).to_multiset() =~= simp.to_multiset());
    assert(distinct_versions::<V>(simp)) by {
        assert forall|y: ConstraintModel<V::V>|
            #[trigger] simp.to_multiset().count(y) <= sorted.to_multiset().count(y) by {
            lemma_filter_count::<V>(sorted, y);
        }
        lemma_distinct_permutation::<V>(sorted, simp);
    }
    lemma_sorted_unique::<V>(simp, other_filter::<V>(out));
}

/// A sequence whose non-`!=` part is empty is all `!=`.
proof fn lemma_filter_all_ne<V: VT>(s: Seq<ConstraintModel<V::V>>)
    requires
        other_filter::<V>(s).len() == 0,
    ensures
        ne_filter::<V>(s) == s,
    decreases s.len(),
{
    reveal(Seq::filter);
    if s.len() > 0 {
        assert(other_filter::<V>(s.drop_last()).len() == 0);
        lemma_filter_all_ne::<V>(s.drop_last());
        assert(!(!is_ne::<V>(s.last())));
        assert(ne_filter::<V>(s) =~= s);
    }
}

} // verus!
