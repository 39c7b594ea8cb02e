//! Version ranges: an ordered list of constraints under a scheme name.
//!
//! A range is parsed from specifier text, normalized and validated into a
//! canonical form, and then queried for containment. The methods here promise
//! to compute exactly the functions of the model module.

use vstd::prelude::*;
use vstd::seq_lib::*;
use vstd::string::StringExecFns;
use crate::comparator::Comparator;
use crate::constraint::{ConstraintModel, VersionConstraint};
use crate::error::{err_is, ErrModel, VersError};
use crate::model::{
    adj_dup_scan, all_ne, alt_at, bounds_of, comps_of, contains_spec, cs_model, eq_adj_at,
    eq_adjacency_ok,
    bounds_alternate_ok, insert_sorted, interval_check, is_ne, lemma_bounds_push,
    lemma_comps_of_index, lemma_cs_model_index, lemma_non_eq_comps_push, lemma_partition_push,
    ne_filter, non_eq_comps, normalize_spec,
    other_filter, scan_eq, simplify, sort_cs, sorted_cs,
};
use crate::version::{lemma_order, v_eq, v_lt, VT};

verus! {

/// A version range: a versioning scheme name and the constraints.
#[derive(Debug, PartialEq, Eq)]
pub struct VersionRange<V: VT> {
    /// The versioning scheme, for example `npm` or `semver`.
    pub versioning_scheme: String,
    /// The version constraints, canonical once normalized.
    pub constraints: Vec<VersionConstraint<V>>,
}

/// The mathematical content of a range.
#[verifier::ext_equal]
pub ghost struct RangeModel<T> {
    pub scheme: Seq<char>,
    pub constraints: Seq<ConstraintModel<T>>,
}

impl<V: VT> View for VersionRange<V> {
    type V = RangeModel<V::V>;

    open spec fn view(&self) -> RangeModel<V::V> {
        RangeModel { scheme: self.versioning_scheme@, constraints: cs_model(self.constraints@) }
    }
}

/// Where `insert_sorted` puts the new constraint: after the leading run of
/// constraints that sort no later than it.
pub open spec fn insert_pos<V: VT>(
    c: ConstraintModel<V::V>,
    s: Seq<ConstraintModel<V::V>>,
) -> int
    decreases s.len(),
{
    if s.len() == 0 {
        0
    } else if V::le_spec(s[0].version, c.version) {
        1 + insert_pos::<V>(c, s.drop_first())
    } else {
        0
    }
}

/// `insert_sorted` splits the sequence at `insert_pos`.
pub proof fn lemma_insert_sorted_split<V: VT>(
    c: ConstraintModel<V::V>,
    s: Seq<ConstraintModel<V::V>>,
)
    ensures
        ({
            let j = insert_pos::<V>(c, s);
            &&& 0 <= j <= s.len()
            &&& (forall|k: int| 0 <= k < j ==> V::le_spec(#[trigger] s[k].version, c.version))
            &&& (j < s.len() ==> !V::le_spec(s[j].version, c.version))
            &&& insert_sorted::<V>(c, s) == s.take(j) + seq![c] + s.skip(j)
        }),
    decreases s.len(),
{
    let j = insert_pos::<V>(c, s);
    if s.len() == 0 {
        assert(insert_sorted::<V>(c, s) =~= s.take(0) + seq![c] + s.skip(0));
    } else if V::le_spec(s[0].version, c.version) {
        lemma_insert_sorted_split::<V>(c, s.drop_first());
        let s1 = s.drop_first();
        let j1 = insert_pos::<V>(c, s1);
        assert(insert_sorted::<V>(c, s) =~= seq![s[0]] + insert_sorted::<V>(c, s1));
        assert(seq![s[0]] + (s1.take(j1) + seq![c] + s1.skip(j1)) =~= s.take(j) + seq![c] + s.skip(
            j,
        ));
        assert forall|k: int| 0 <= k < j implies V::le_spec(#[trigger] s[k].version, c.version) by {
            if k > 0 {
                assert(s[k] == s1[k - 1]);
            }
        }
    } else {
        assert(insert_sorted::<V>(c, s) =~= s.take(0) + seq![c] + s.skip(0));
    }
}

/// Inserting into a sorted sequence keeps it sorted.
pub proof fn lemma_insert_sorted_sorted<V: VT>(
    c: ConstraintModel<V::V>,
    s: Seq<ConstraintModel<V::V>>,
)
    requires
        sorted_cs::<V>(s),
    ensures
        sorted_cs::<V>(insert_sorted::<V>(c, s)),
{
    lemma_insert_sorted_split::<V>(c, s);
    let j = insert_pos::<V>(c, s);
    let out = insert_sorted::<V>(c, s);
    assert forall|x: int, y: int|
        0 <= x < y < out.len() implies V::le_spec(
        #[trigger] out[x].version,
        #[trigger] out[y].version,
    ) by {
        if x < j && y == j {
            // out[y] is c, and s[x] is among the leading run
        } else if x == j && y > j {
            // out[x] is c; s[j..] all sort after c
            let w = s[y - 1];
            if j < s.len() {
                lemma_order::<V>(c.version, s[j].version, w.version);
                lemma_order::<V>(s[j].version, w.version, c.version);
            }
        } else if x < j && y > j {
            lemma_order::<V>(s[x].version, c.version, s[y - 1].version);
        }
    }
}

/// Sorting yields a sorted sequence.
pub proof fn lemma_sort_cs_sorted<V: VT>(s: Seq<ConstraintModel<V::V>>)
    ensures
        sorted_cs::<V>(sort_cs::<V>(s)),
    decreases s.len(),
{
    if s.len() > 0 {
        lemma_sort_cs_sorted::<V>(s.drop_last());
        lemma_insert_sorted_sorted::<V>(s.last(), sort_cs::<V>(s.drop_last()));
    }
}

/// Sorting keeps exactly the original constraints.
pub proof fn lemma_sort_cs_multiset<V: VT>(s: Seq<ConstraintModel<V::V>>)
    ensures
        sort_cs::<V>(s).to_multiset() == s.to_multiset(),
        sort_cs::<V>(s).len() == s.len(),
    decreases s.len(),
{
    broadcast use vstd::seq_lib::group_to_multiset_ensures;

    if s.len() > 0 {
        lemma_sort_cs_multiset::<V>(s.drop_last());
        let sorted1 = sort_cs::<V>(s.drop_last());
        let c = s.last();
        lemma_insert_sorted_split::<V>(c, sorted1);
        let j = insert_pos::<V>(c, sorted1);
        lemma_multiset_split::<V>(sorted1, j, c);
        assert(sort_cs::<V>(s) == sorted1.take(j) + seq![c] + sorted1.skip(j));
        vstd::seq_lib::lemma_multiset_commutative(sorted1, seq![c]);
        vstd::seq_lib::lemma_multiset_commutative(s.drop_last(), seq![c]);
        assert(s =~= s.drop_last() + seq![c]);
    }
}

/// The multiset of a sequence with one element spliced in.
proof fn lemma_multiset_split<V: VT>(
    s: Seq<ConstraintModel<V::V>>,
    j: int,
    c: ConstraintModel<V::V>,
)
    requires
        0 <= j <= s.len(),
    ensures
        (s.take(j) + seq![c] + s.skip(j)).to_multiset() == (s + seq![c]).to_multiset(),
{
    vstd::seq_lib::lemma_multiset_commutative(s.take(j), seq![c] + s.skip(j));
    vstd::seq_lib::lemma_multiset_commutative(seq![c], s.skip(j));
    vstd::seq_lib::lemma_multiset_commutative(s, seq![c]);
    vstd::seq_lib::lemma_multiset_commutative(s.take(j), s.skip(j));
    assert(s.take(j) + seq![c] + s.skip(j) =~= s.take(j) + (seq![c] + s.skip(j)));
    assert(s.take(j) + s.skip(j) =~= s);
    assert((s.take(j) + seq![c] + s.skip(j)).to_multiset() =~= (s + seq![c]).to_multiset());
}

/// Decides `V::le_spec` on the versions of two constraints.
fn le_c<V: VT>(a: &VersionConstraint<V>, b: &VersionConstraint<V>) -> (r: bool)
    ensures
        r == V::le_spec(a@.version, b@.version),
{
    a.version.le_v(&b.version)
}

/// Decides version equivalence of two constraints.
fn eq_c<V: VT>(a: &VersionConstraint<V>, b: &VersionConstraint<V>) -> (r: bool)
    ensures
        r == v_eq::<V>(a@.version, b@.version),
{
    a.version.le_v(&b.version) && b.version.le_v(&a.version)
}

/// Places one constraint into an already sorted vector.
fn insert_one<V: VT>(sorted: &mut Vec<VersionConstraint<V>>, x: VersionConstraint<V>)
    requires
        sorted_cs::<V>(cs_model(old(sorted)@)),
    ensures
        cs_model(final(sorted)@) == insert_sorted::<V>(x@, cs_model(old(sorted)@)),
        sorted_cs::<V>(cs_model(final(sorted)@)),
{
    let ghost s = cs_model(sorted@);
    let mut j: usize = sorted.len();
    loop
        invariant
            j <= sorted@.len(),
            s == cs_model(sorted@),
            sorted_cs::<V>(s),
            forall|k: int| j <= k < s.len() ==> !V::le_spec(#[trigger] s[k].version, x@.version),
        ensures
            j <= sorted@.len(),
            s == cs_model(sorted@),
            forall|k: int| j <= k < s.len() ==> !V::le_spec(#[trigger] s[k].version, x@.version),
            j > 0 ==> V::le_spec(s[j - 1].version, x@.version),
        decreases j,
    {
        if j == 0 {
            break;
        }
        if le_c(&sorted[j - 1], &x) {
            proof {
                assert(s[j - 1] == sorted@[j - 1]@);
            }
            break;
        }
        proof {
            assert(s[j - 1] == sorted@[j - 1]@);
        }
        j = j - 1;
    }
    proof {
        assert forall|k: int| 0 <= k < j implies V::le_spec(
            #[trigger] s[k].version,
            x@.version,
        ) by {
            if k < j - 1 {
                assert(V::le_spec(s[k].version, s[j - 1].version));
                V::lemma_le_total(s[k].version, s[j - 1].version, x@.version);
            }
        }
        lemma_insert_sorted_split::<V>(x@, s);
        let p = insert_pos::<V>(x@, s);
        if p < j {
            assert(V::le_spec(s[p].version, x@.version));
            assert(false);
        }
        if j < p {
            assert(!V::le_spec(s[j as int].version, x@.version));
            assert(false);
        }
        assert(p == j);
    }
    sorted.insert(j, x);
    proof {
        assert(cs_model(sorted@) =~= s.take(j as int) + seq![x@] + s.skip(j as int));
        lemma_insert_sorted_sorted::<V>(x@, s);
    }
}

/// Sorts the constraints ascending by version, stably.
fn sort_vec<V: VT>(v: &mut Vec<VersionConstraint<V>>)
    ensures
        cs_model(final(v)@) == sort_cs::<V>(cs_model(old(v)@)),
        sorted_cs::<V>(cs_model(final(v)@)),
{
    let ghost orig = cs_model(v@);
    let mut out: Vec<VersionConstraint<V>> = Vec::new();
    proof {
        assert(cs_model(out@) =~= sort_cs::<V>(orig.take(0)));
    }
    while v.len() > 0
        invariant
            v@.len() <= orig.len(),
            cs_model(v@) =~= orig.skip(orig.len() - v@.len()),
            cs_model(out@) == sort_cs::<V>(orig.take(orig.len() - v@.len())),
            sorted_cs::<V>(cs_model(out@)),
        decreases v@.len(),
    {
        let ghost i = orig.len() - v@.len();
        proof {
            assert(cs_model(v@)[0] == v@[0]@);
        }
        let ghost vpre = v@;
        let x = v.remove(0);
        proof {
            assert(x@ == cs_model(vpre)[0]);
            assert(x@ == orig[i as int]);
            assert(v@ =~= vpre.skip(1));
            assert forall|k: int| 0 <= k < v@.len() implies cs_model(v@)[k] == orig.skip(
                i + 1 as int,
            )[k] by {
                assert(cs_model(v@)[k] == v@[k]@);
                assert(v@[k] == vpre[k + 1]);
                assert(cs_model(vpre)[k + 1] == vpre[k + 1]@);
            }
            assert(cs_model(v@) =~= orig.skip(i + 1 as int));
            assert(orig.take(i + 1 as int).drop_last() =~= orig.take(i as int));
            assert(orig.take(i + 1 as int).last() == orig[i as int]);
        }
        insert_one(&mut out, x);
    }
    proof {
        assert(orig.take(orig.len() as int) =~= orig);
    }
    core::mem::swap(v, &mut out);
}

/// The diagnostic for a comparator that must not follow another.
fn follow_msg(a: Comparator, b: Comparator, ignoring_eq: bool) -> String {
    let mut msg = String::from_str("\"");
    msg.append(a.symbol());
    msg.append("\" must not be followed by \"");
    msg.append(b.symbol());
    if ignoring_eq {
        msg.append("\" in a normalized range (ignoring \"!=\" and \"=\")");
    } else {
        msg.append("\" in a normalized range (ignoring \"!=\")");
    }
    msg
}

/// Whether some constraint is an `Any` constraint.
fn has_any_c<V: VT>(v: &Vec<VersionConstraint<V>>) -> (r: bool)
    ensures
        r == exists|k: int|
            0 <= k < cs_model(v@).len() && (#[trigger] cs_model(v@)[k]).comparator
                == Comparator::Any,
{
    let ghost s = cs_model(v@);
    let n = v.len();
    let mut i: usize = 0;
    while i < n
        invariant
            n == v@.len(),
            s == cs_model(v@),
            i <= n,
            forall|k: int| 0 <= k < i ==> (#[trigger] s[k]).comparator != Comparator::Any,
        decreases n - i,
    {
        proof {
            assert(s[i as int] == v@[i as int]@);
        }
        if matches!(v[i].comparator, Comparator::Any) {
            return true;
        }
        i = i + 1;
    }
    false
}

/// The displayed version of the first adjacent duplicate, if any.
fn find_dup<V: VT>(v: &Vec<VersionConstraint<V>>) -> (r: Option<String>)
    ensures
        match r {
            Some(s) => adj_dup_scan::<V>(cs_model(v@), 1) is Some && s@ == V::display_vspec(
                adj_dup_scan::<V>(cs_model(v@), 1).unwrap(),
            ),
            None => adj_dup_scan::<V>(cs_model(v@), 1) is None,
        },
{
    let ghost s = cs_model(v@);
    let n = v.len();
    let mut i: usize = 1;
    while i < n
        invariant
            n == v@.len(),
            s == cs_model(v@),
            1 <= i,
            adj_dup_scan::<V>(s, 1) == adj_dup_scan::<V>(s, i as int),
        decreases n - i,
    {
        proof {
            assert(s[i as int] == v@[i as int]@);
            assert(s[i - 1 as int] == v@[i - 1 as int]@);
        }
        if eq_c(&v[i - 1], &v[i]) {
            proof {
                assert(adj_dup_scan::<V>(s, i as int) == Some(s[i as int].version));
            }
            return Some(v[i].version.display_v());
        }
        i = i + 1;
    }
    None
}

/// Splits the constraints into the `!=` ones and the rest, keeping order.
fn partition_ne<V: VT>(v: Vec<VersionConstraint<V>>) -> (r: (
    Vec<VersionConstraint<V>>,
    Vec<VersionConstraint<V>>,
))
    ensures
        cs_model(r.0@) == ne_filter::<V>(cs_model(v@)),
        cs_model(r.1@) == other_filter::<V>(cs_model(v@)),
{
    let ghost s = cs_model(v@);
    let mut rest = v;
    let mut ne: Vec<VersionConstraint<V>> = Vec::new();
    let mut other: Vec<VersionConstraint<V>> = Vec::new();
    proof {
        assert(s.take(0) =~= Seq::empty());
        reveal(Seq::filter);
    }
    while rest.len() > 0
        invariant
            rest@.len() <= s.len(),
            cs_model(rest@) =~= s.skip(s.len() - rest@.len()),
            cs_model(ne@) == ne_filter::<V>(s.take(s.len() - rest@.len())),
            cs_model(other@) == other_filter::<V>(s.take(s.len() - rest@.len())),
        decreases rest@.len(),
    {
        let ghost k = s.len() - rest@.len();
        let ghost cpre = rest@;
        proof {
            assert(cs_model(cpre)[0] == cpre[0]@);
        }
        let c = rest.remove(0);
        proof {
            assert(c@ == s[k]);
            assert forall|t: int|
                0 <= t < rest@.len() implies cs_model(rest@)[t] == s.skip(k + 1)[t] by {
                assert(cs_model(rest@)[t] == rest@[t]@);
                assert(rest@[t] == cpre[t + 1]);
                assert(cs_model(cpre)[t + 1] == cpre[t + 1]@);
            }
            assert(cs_model(rest@) =~= s.skip(k + 1));
            assert(s.take(k + 1) =~= s.take(k).push(s[k]));
            lemma_partition_push::<V>(s.take(k), s[k]);
        }
        if matches!(c.comparator, Comparator::NotEqual) {
            let ghost nepre = ne@;
            ne.push(c);
            proof {
                assert(cs_model(ne@) =~= cs_model(nepre).push(c@));
            }
        } else {
            let ghost otpre = other@;
            other.push(c);
            proof {
                assert(cs_model(other@) =~= cs_model(otpre).push(c@));
            }
        }
    }
    proof {
        assert(s.take(s.len() as int) =~= s);
    }
    (ne, other)
}

/// Runs the redundancy-elimination work list over the non-`!=` constraints.
fn simplify_work<V: VT>(work: Vec<VersionConstraint<V>>) -> (acc: Vec<VersionConstraint<V>>)
    ensures
        cs_model(acc@) == simplify::<V>(Seq::empty(), cs_model(work@)),
{
    let ghost target = simplify::<V>(Seq::empty(), cs_model(work@));
    let mut other = work;
    let mut acc: Vec<VersionConstraint<V>> = Vec::new();
    proof {
        assert(cs_model(acc@) =~= Seq::empty());
    }
    while other.len() > 0
        invariant
            simplify::<V>(cs_model(acc@), cs_model(other@)) == target,
        decreases other@.len(), acc@.len(),
    {
        let ghost am = cs_model(acc@);
        let ghost rm = cs_model(other@);
        let ghost opre = other@;
        proof {
            assert(cs_model(opre)[0] == opre[0]@);
        }
        let cur = other.remove(0);
        proof {
            assert(cur@ == rm[0]);
            assert forall|t: int|
                0 <= t < other@.len() implies cs_model(other@)[t] == rm.drop_first()[t] by {
                assert(cs_model(other@)[t] == other@[t]@);
                assert(other@[t] == opre[t + 1]);
                assert(cs_model(opre)[t + 1] == opre[t + 1]@);
            }
            assert(cs_model(other@) =~= rm.drop_first());
        }
        let ghost rest1 = rm.drop_first();
        if other.len() > 0 {
            proof {
                assert(cs_model(other@)[0] == other@[0]@);
            }
            let cur_lower = cur.comparator.is_lower();
            let cur_upper = cur.comparator.is_upper();
            let cur_eq = matches!(cur.comparator, Comparator::Equal);
            let next_lower = other[0].comparator.is_lower();
            let next_upper = other[0].comparator.is_upper();
            let next_eq = matches!(other[0].comparator, Comparator::Equal);
            if cur_lower && (next_lower || next_eq) {
                let ghost o2 = other@;
                let dropped = other.remove(0);
                other.insert(0, cur);
                proof {
                    assert forall|t: int|
                        0 <= t < other@.len() implies cs_model(other@)[t] == (seq![rm[0]]
                        + rest1.drop_first())[t] by {
                        assert(cs_model(other@)[t] == other@[t]@);
                        if t > 0 {
                            assert(other@[t] == o2[t]);
                            assert(cs_model(o2)[t] == o2[t]@);
                        }
                    }
                    assert(cs_model(other@) =~= seq![rm[0]] + rest1.drop_first());
                    assert(simplify::<V>(am, rm) == simplify::<V>(
                        am,
                        seq![rm[0]] + rest1.drop_first(),
                    ));
                }
            } else if (cur_eq || cur_upper) && next_upper {
                if acc.len() > 0 {
                    let ghost a2 = cs_model(acc@);
                    proof {
                        assert(cs_model(acc@)[acc@.len() - 1] == acc@[acc@.len() - 1]@);
                    }
                    if let Some(prev) = acc.pop() {
                        let ghost o2 = other@;
                        other.insert(0, prev);
                        proof {
                            assert forall|t: int|
                                0 <= t < cs_model(acc@).len() implies cs_model(acc@)[t]
                                == a2.drop_last()[t] by {
                                assert(cs_model(acc@)[t] == acc@[t]@);
                                assert(a2[t] == acc@[t]@);
                            }
                            assert(cs_model(acc@) =~= a2.drop_last());
                            assert(prev@ == a2.last());
                            assert forall|t: int|
                                0 <= t < other@.len() implies cs_model(other@)[t] == (seq![
                                    a2.last(),
                                ] + rest1)[t] by {
                                assert(cs_model(other@)[t] == other@[t]@);
                                if t > 0 {
                                    assert(other@[t] == o2[t - 1]);
                                    assert(cs_model(o2)[t - 1] == o2[t - 1]@);
                                }
                            }
                            assert(cs_model(other@) =~= seq![a2.last()] + rest1);
                            assert(simplify::<V>(am, rm) == simplify::<V>(
                                a2.drop_last(),
                                seq![a2.last()] + rest1,
                            ));
                        }
                    }
                } else {
                    proof {
                        assert(simplify::<V>(am, rm) == simplify::<V>(am, rest1));
                    }
                }
            } else if acc.len() > 0 && acc[acc.len() - 1].comparator.is_lower() && (cur_lower
                || cur_eq) {
                proof {
                    assert(cs_model(acc@)[acc@.len() - 1] == acc@[acc@.len() - 1]@);
                    assert(simplify::<V>(am, rm) == simplify::<V>(am, rest1));
                }
            } else if acc.len() > 0 && (matches!(acc[acc.len() - 1].comparator, Comparator::Equal)
                || acc[acc.len() - 1].comparator.is_upper()) && cur_upper {
                proof {
                    assert(cs_model(acc@)[acc@.len() - 1] == acc@[acc@.len() - 1]@);
                }
                let ghost a2 = cs_model(acc@);
                let _ = acc.pop();
                acc.push(cur);
                proof {
                    assert(cs_model(acc@) =~= a2.drop_last().push(cur@));
                    assert(simplify::<V>(am, rm) == simplify::<V>(
                        a2.drop_last().push(rm[0]),
                        rest1,
                    ));
                }
            } else {
                proof {
                    if acc@.len() > 0 {
                        assert(cs_model(acc@)[acc@.len() - 1] == acc@[acc@.len() - 1]@);
                    }
                }
                let ghost a2 = cs_model(acc@);
                acc.push(cur);
                proof {
                    assert(cs_model(acc@) =~= a2.push(cur@));
                    assert(simplify::<V>(am, rm) == simplify::<V>(a2.push(rm[0]), rest1));
                }
            }
        } else {
            let ghost a2 = cs_model(acc@);
            acc.push(cur);
            proof {
                assert(cs_model(acc@) =~= a2.push(cur@));
                assert(simplify::<V>(am, rm) == a2.push(rm[0]));
                assert(cs_model(other@) =~= Seq::empty());
            }
        }
    }
    acc
}

/// The comparators of the constraints, as a vector.
fn comparators_of<V: VT>(acc: &Vec<VersionConstraint<V>>) -> (r: Vec<Comparator>)
    ensures
        r@ == comps_of::<V>(cs_model(acc@)),
{
    let ghost compsm = comps_of::<V>(cs_model(acc@));
    let m = acc.len();
    let mut cv: Vec<Comparator> = Vec::new();
    let mut i: usize = 0;
    while i < m
        invariant
            compsm == comps_of::<V>(cs_model(acc@)),
            m == acc@.len(),
            m == compsm.len(),
            i <= m,
            cv@ =~= compsm.take(i as int),
        decreases m - i,
    {
        proof {
            lemma_cs_model_index::<V>(acc@, i as int);
            lemma_comps_of_index::<V>(cs_model(acc@), i as int);
            assert(cs_model(acc@)[i as int] == acc@[i as int]@);
            assert(cs_model(acc@)[i as int].comparator == acc@[i as int].comparator);
            assert(compsm[i as int] == acc@[i as int].comparator);
        }
        let ghost cvpre = cv@;
        cv.push(acc[i].comparator);
        proof {
            assert(cv@ == cvpre.push(acc@[i as int].comparator));
            assert(cv@ =~= compsm.take(i + 1 as int));
        }
        i = i + 1;
    }
    proof {
        assert(cv@ =~= compsm);
    }
    cv
}

/// The offending pair where an `=` is followed by something other than `=`,
/// `>` or `>=`, if any.
fn check_eq_adjacency(cv: &Vec<Comparator>) -> (r: Option<String>)
    ensures
        r is Some <==> !eq_adjacency_ok(cv@),
{
    let m = cv.len();
    let mut i: usize = 1;
    while i < m
        invariant
            m == cv@.len(),
            1 <= i,
            forall|t: int| 0 <= t < i - 1 ==> #[trigger] eq_adj_at(cv@, t),
        decreases m - i,
    {
        if matches!(cv[i - 1], Comparator::Equal) {
            let nxt = cv[i];
            if !(matches!(nxt, Comparator::Equal) || nxt.is_lower()) {
                proof {
                    assert(!eq_adj_at(cv@, i - 1 as int));
                }
                return Some(follow_msg(Comparator::Equal, nxt, false));
            }
        }
        proof {
            assert(eq_adj_at(cv@, i - 1 as int));
        }
        i = i + 1;
    }
    None
}

/// The non-`=` comparators, as a vector.
fn non_eq_of(cv: &Vec<Comparator>) -> (r: Vec<Comparator>)
    ensures
        r@ == non_eq_comps(cv@),
{
    let m = cv.len();
    let mut bs: Vec<Comparator> = Vec::new();
    proof {
        assert(cv@.take(0) =~= Seq::empty());
        reveal(Seq::filter);
    }
    let mut i: usize = 0;
    while i < m
        invariant
            m == cv@.len(),
            i <= m,
            bs@ == non_eq_comps(cv@.take(i as int)),
        decreases m - i,
    {
        proof {
            assert(cv@.take(i + 1) =~= cv@.take(i as int).push(cv@[i as int]));
            lemma_non_eq_comps_push(cv@.take(i as int), cv@[i as int]);
        }
        if !matches!(cv[i], Comparator::Equal) {
            bs.push(cv[i]);
        }
        i = i + 1;
    }
    proof {
        assert(cv@.take(m as int) =~= cv@);
    }
    bs
}

/// The offending pair where the bound comparators fail to alternate, if any.
fn check_alternation(cv: &Vec<Comparator>) -> (r: Option<String>)
    ensures
        r is Some <==> !bounds_alternate_ok(cv@),
{
    let bs = non_eq_of(cv);
    let ghost bsm = non_eq_comps(cv@);
    let bn = bs.len();
    let mut i: usize = 1;
    while i < bn
        invariant
            bsm == non_eq_comps(cv@),
            bn == bs@.len(),
            bs@ == bsm,
            1 <= i,
            forall|t: int| 0 <= t < i - 1 ==> #[trigger] alt_at(bsm, t),
        decreases bn - i,
    {
        let cur = bs[i - 1];
        let nxt = bs[i];
        if cur.is_upper() && !nxt.is_lower() {
            proof {
                assert(!alt_at(bsm, i - 1 as int));
            }
            return Some(follow_msg(cur, nxt, true));
        }
        if cur.is_lower() && !nxt.is_upper() {
            proof {
                assert(!alt_at(bsm, i - 1 as int));
            }
            return Some(follow_msg(cur, nxt, true));
        }
        proof {
            assert(alt_at(bsm, i - 1 as int));
        }
        i = i + 1;
    }
    None
}

/// The first point answer of the containment scan, if any.
fn scan_points<V: VT>(v: &Vec<VersionConstraint<V>>, version: &V) -> (r: Option<bool>)
    ensures
        r == scan_eq::<V>(cs_model(v@), version@),
{
    let ghost csm = cs_model(v@);
    let n = v.len();
    let mut i: usize = 0;
    proof {
        assert(csm.skip(0) =~= csm);
    }
    while i < n
        invariant
            csm == cs_model(v@),
            n == csm.len(),
            i <= n,
            scan_eq::<V>(csm, version@) == scan_eq::<V>(csm.skip(i as int), version@),
        decreases n - i,
    {
        proof {
            lemma_cs_model_index::<V>(v@, i as int);
            assert(csm.skip(i as int)[0] == csm[i as int]);
        }
        let c = &v[i];
        if matches!(
            c.comparator,
            Comparator::Equal | Comparator::GreaterThanOrEqual | Comparator::LessThanOrEqual,
        ) {
            if version.le_v(&c.version) && c.version.le_v(version) {
                return Some(true);
            }
        } else if matches!(c.comparator, Comparator::NotEqual) {
            if version.le_v(&c.version) && c.version.le_v(version) {
                return Some(false);
            }
        }
        proof {
            assert(csm.skip(i as int).drop_first() =~= csm.skip(i + 1 as int));
        }
        i = i + 1;
    }
    None
}

/// Whether every constraint is a `!=` constraint.
fn all_ne_c<V: VT>(v: &Vec<VersionConstraint<V>>) -> (r: bool)
    ensures
        r == all_ne::<V>(cs_model(v@)),
{
    let ghost csm = cs_model(v@);
    let n = v.len();
    let mut i: usize = 0;
    while i < n
        invariant
            csm == cs_model(v@),
            n == csm.len(),
            i <= n,
            forall|k: int| 0 <= k < i ==> is_ne::<V>(#[trigger] csm[k]),
        decreases n - i,
    {
        proof {
            lemma_cs_model_index::<V>(v@, i as int);
        }
        if !matches!(v[i].comparator, Comparator::NotEqual) {
            return false;
        }
        i = i + 1;
    }
    true
}

/// Whether the version lands in one of the intervals the bound constraints
/// describe.
#[verifier::rlimit(60)]
fn interval_hit<V: VT>(v: &Vec<VersionConstraint<V>>, version: &V) -> (r: bool)
    ensures
        r == interval_check::<V>(bounds_of::<V>(cs_model(v@)), version@),
{
    let ghost csm = cs_model(v@);
    let ghost bm = bounds_of::<V>(csm);
    let n = v.len();
    let mut bidx: Vec<usize> = Vec::new();
    let mut i: usize = 0;
    proof {
        assert(csm.take(0) =~= Seq::empty());
        reveal(Seq::filter);
        assert(bounds_of::<V>(csm.take(0)) =~= Seq::empty());
    }
    while i < n
        invariant
            csm == cs_model(v@),
            n == csm.len(),
            i <= n,
            bidx@.len() == bounds_of::<V>(csm.take(i as int)).len(),
            forall|k: int|
                0 <= k < bidx@.len() ==> (#[trigger] bidx@[k]) < i && csm[bidx@[k] as int]
                    == bounds_of::<V>(csm.take(i as int))[k],
        decreases n - i,
    {
        proof {
            lemma_cs_model_index::<V>(v@, i as int);
            assert(csm.take(i + 1) =~= csm.take(i as int).push(csm[i as int]));
            lemma_bounds_push::<V>(csm.take(i as int), csm[i as int]);
        }
        if v[i].comparator.is_bound_c() {
            bidx.push(i);
        }
        i = i + 1;
    }
    proof {
        assert(csm.take(n as int) =~= csm);
    }
    let bn = bidx.len();
    if bn == 0 {
        return false;
    }
    let c0 = &v[bidx[0]];
    proof {
        lemma_cs_model_index::<V>(v@, bidx@[0] as int);
    }
    if c0.comparator.is_upper() && !c0.version.le_v(version) {
        return true;
    }
    let cl = &v[bidx[bn - 1]];
    proof {
        lemma_cs_model_index::<V>(v@, bidx@[bn - 1] as int);
    }
    if cl.comparator.is_lower() && !version.le_v(&cl.version) {
        return true;
    }
    let mut k: usize = 1;
    while k < bn
        invariant
            csm == cs_model(v@),
            bm == bounds_of::<V>(csm),
            bn == bidx@.len(),
            bn == bm.len(),
            bn > 0,
            1 <= k,
            forall|t: int|
                0 <= t < bidx@.len() ==> (#[trigger] bidx@[t]) < csm.len() && csm[bidx@[t] as int]
                    == bm[t],
            !(bm[0].comparator.is_upper_bound() && v_lt::<V>(version@, bm[0].version)),
            !(bm[bn - 1].comparator.is_lower_bound() && v_lt::<V>(bm[bn - 1].version, version@)),
            forall|t: int|
                0 <= t < k - 1 ==> !((#[trigger] bm[t]).comparator.is_lower_bound() && bm[t
                    + 1].comparator.is_upper_bound() && v_lt::<V>(bm[t].version, version@)
                    && v_lt::<V>(version@, bm[t + 1].version)),
        decreases bn - k,
    {
        let ca = &v[bidx[k - 1]];
        let cb = &v[bidx[k]];
        proof {
            lemma_cs_model_index::<V>(v@, bidx@[k - 1] as int);
            lemma_cs_model_index::<V>(v@, bidx@[k as int] as int);
        }
        if ca.comparator.is_lower() && cb.comparator.is_upper() && !version.le_v(&ca.version)
            && !cb.version.le_v(version) {
            proof {
                assert((bm[k - 1 as int]).comparator.is_lower_bound() && bm[
                    k as int].comparator.is_upper_bound() && v_lt::<V>(
                    bm[k - 1 as int].version,
                    version@,
                ) && v_lt::<V>(version@, bm[k as int].version));
            }
            return true;
        }
        k = k + 1;
    }
    proof {
        assert(!interval_check::<V>(bm, version@));
    }
    false
}

impl<V: VT> VersionRange<V> {
    /// A range from a scheme name and constraints; nothing is validated here.
    pub fn new(versioning_scheme: String, constraints: Vec<VersionConstraint<V>>) -> (r: Self)
        ensures
            r.versioning_scheme == versioning_scheme,
            r.constraints == constraints,
    {
        Self { versioning_scheme, constraints }
    }

    /// Normalizes and validates the constraints in place: computes exactly
    /// `normalize_spec` on them, leaving the scheme untouched. On failure the
    /// constraints are left in an unspecified intermediate state and the
    /// range must not be used further.
    pub fn normalize_and_validate(&mut self) -> (r: Result<(), VersError>)
        ensures
            final(self).versioning_scheme == old(self).versioning_scheme,
            match r {
                Ok(_) => normalize_spec::<V>(old(self)@.constraints) == Ok::<
                    Seq<ConstraintModel<V::V>>,
                    ErrModel,
                >(final(self)@.constraints),
                Err(e) => {
                    &&& normalize_spec::<V>(old(self)@.constraints) is Err
                    &&& err_is(e, normalize_spec::<V>(old(self)@.constraints)->Err_0)
                },
            },
    {
        let ghost orig = cs_model(old(self).constraints@);
        let n = self.constraints.len();
        if n == 0 {
            return Err(VersError::EmptyConstraints);
        }
        if has_any_c(&self.constraints) && n > 1 {
            return Err(
                VersError::InvalidRange(String::from_str("Star constraint must be used alone")),
            );
        }
        if n == 1 {
            return Ok(());
        }
        sort_vec(&mut self.constraints);
        let ghost sortedm = sort_cs::<V>(orig);
        proof {
            lemma_sort_cs_multiset::<V>(orig);
        }
        if let Some(msg) = find_dup(&self.constraints) {
            return Err(VersError::DuplicateVersion(msg));
        }
        let mut tmp: Vec<VersionConstraint<V>> = Vec::new();
        core::mem::swap(&mut self.constraints, &mut tmp);
        let (mut ne, other) = partition_ne(tmp);
        let ghost ne_m = ne_filter::<V>(sortedm);
        let ghost other_m = other_filter::<V>(sortedm);
        if other.len() == 0 {
            self.constraints = ne;
            return Ok(());
        }
        let ghost simp_target = simplify::<V>(Seq::empty(), other_m);
        let mut acc = simplify_work(other);
        let cv = comparators_of(&acc);
        if let Some(msg) = check_eq_adjacency(&cv) {
            return Err(VersError::InvalidRange(msg));
        }
        if let Some(msg) = check_alternation(&cv) {
            return Err(VersError::InvalidRange(msg));
        }
        let ghost accm = cs_model(acc@);
        let ghost nem2 = cs_model(ne@);
        acc.append(&mut ne);
        proof {
            assert(cs_model(acc@) =~= accm + nem2);
        }
        sort_vec(&mut acc);
        self.constraints = acc;
        proof {
            assert(normalize_spec::<V>(orig) == Ok::<Seq<ConstraintModel<V::V>>, ErrModel>(
                sort_cs::<V>(simp_target + ne_m),
            ));
        }
        Ok(())
    }

    /// The constraint list.
    pub fn constraints(&self) -> (r: &Vec<VersionConstraint<V>>)
        ensures
            cs_model(r@) == self@.constraints,
    {
        &self.constraints
    }

    /// The versioning scheme name.
    pub fn versioning_scheme(&self) -> (r: &str)
        ensures
            r@ == self@.scheme,
    {
        self.versioning_scheme.as_str()
    }

    /// Whether the version is contained in this range: computes exactly
    /// `contains_spec` on the constraints, and never fails. The answer is
    /// meaningful only on a range that was normalized and validated.
    pub fn contains(&self, version: &V) -> (r: Result<bool, VersError>)
        ensures
            r == Ok::<bool, VersError>(contains_spec::<V>(self@.constraints, version@)),
    {
        let n = self.constraints.len();
        if n == 1 && matches!(self.constraints[0].comparator, Comparator::Any) {
            proof {
                lemma_cs_model_index::<V>(self.constraints@, 0);
            }
            return Ok(true);
        }
        proof {
            if n == 1 {
                lemma_cs_model_index::<V>(self.constraints@, 0);
            }
        }
        match scan_points(&self.constraints, version) {
            Some(b) => Ok(b),
            None => {
                if all_ne_c(&self.constraints) {
                    Ok(true)
                } else {
                    Ok(interval_hit(&self.constraints, version))
                }
            },
        }
    }
}

} // verus!
