//! The mathematical model of the range engine.
//!
//! Everything the engine does — sorting, duplicate detection, redundancy
//! elimination, structural validation, containment — is defined here as
//! functions over sequences of constraint models. The executable methods of
//! `VersionRange` promise to compute exactly these functions.

use vstd::prelude::*;
use crate::comparator::Comparator;
use crate::constraint::ConstraintModel;
use crate::error::ErrModel;
use crate::version::{v_eq, v_lt, VT};

verus! {

/// The models of a vector of constraints, in order.
pub open spec fn cs_model<V: VT>(cs: Seq<crate::constraint::VersionConstraint<V>>) -> Seq<
    ConstraintModel<V::V>,
> {
    cs.map_values(|c: crate::constraint::VersionConstraint<V>| c@)
}

/// Constraints in ascending version order.
pub open spec fn sorted_cs<V: VT>(s: Seq<ConstraintModel<V::V>>) -> bool {
    forall|i: int, j: int|
        0 <= i < j < s.len() ==> V::le_spec(#[trigger] s[i].version, #[trigger] s[j].version)
}

/// `c` placed into the sorted sequence `s`, after every element that sorts no
/// later than `c`.
pub open spec fn insert_sorted<V: VT>(
    c: ConstraintModel<V::V>,
    s: Seq<ConstraintModel<V::V>>,
) -> Seq<ConstraintModel<V::V>>
    decreases s.len(),
{
    if s.len() == 0 {
        seq![c]
    } else if V::le_spec(s[0].version, c.version) {
        seq![s[0]] + insert_sorted::<V>(c, s.drop_first())
    } else {
        seq![c] + s
    }
}

/// Stable insertion sort by version.
pub open spec fn sort_cs<V: VT>(s: Seq<ConstraintModel<V::V>>) -> Seq<ConstraintModel<V::V>>
    decreases s.len(),
{
    if s.len() == 0 {
        Seq::empty()
    } else {
        insert_sorted::<V>(s.last(), sort_cs::<V>(s.drop_last()))
    }
}

/// The first version that equals its sorted predecessor, scanning from
/// position `i`.
pub open spec fn adj_dup_scan<V: VT>(s: Seq<ConstraintModel<V::V>>, i: int) -> Option<V::V>
    decreases s.len() - i,
{
    if i < 1 || i >= s.len() {
        None
    } else if v_eq::<V>(s[i].version, s[i - 1].version) {
        Some(s[i].version)
    } else {
        adj_dup_scan::<V>(s, i + 1)
    }
}

/// Whether the constraint is a `!=` constraint.
pub open spec fn is_ne<V: VT>(c: ConstraintModel<V::V>) -> bool {
    c.comparator == Comparator::NotEqual
}

/// The `!=` constraints of a sequence, in order.
pub open spec fn ne_filter<V: VT>(s: Seq<ConstraintModel<V::V>>) -> Seq<ConstraintModel<V::V>> {
    s.filter(|c: ConstraintModel<V::V>| is_ne::<V>(c))
}

/// The constraints that are not `!=`, in order.
pub open spec fn other_filter<V: VT>(s: Seq<ConstraintModel<V::V>>) -> Seq<ConstraintModel<V::V>> {
    s.filter(|c: ConstraintModel<V::V>| !is_ne::<V>(c))
}

/// How the two partitions grow when one constraint is appended.
pub proof fn lemma_partition_push<V: VT>(s: Seq<ConstraintModel<V::V>>, x: ConstraintModel<V::V>)
    ensures
        is_ne::<V>(x) ==> ne_filter::<V>(s.push(x)) == ne_filter::<V>(s).push(x),
        !is_ne::<V>(x) ==> ne_filter::<V>(s.push(x)) == ne_filter::<V>(s),
        !is_ne::<V>(x) ==> other_filter::<V>(s.push(x)) == other_filter::<V>(s).push(x),
        is_ne::<V>(x) ==> other_filter::<V>(s.push(x)) == other_filter::<V>(s),
{
    reveal(Seq::filter);
    assert(s.push(x).drop_last() =~= s);
    assert(s.push(x).last() == x);
}

/// One step of the redundancy-elimination pass, seen as a reduction over the
/// accepted prefix `acc` and the remaining work list `rest`:
/// - a lower bound followed by a lower bound or an `=` supersedes it: the
///   follower is dropped and the current constraint is retried;
/// - an `=` or upper bound followed by an upper bound is dropped, and the
///   last accepted constraint is pulled back for re-examination;
/// - the same two rules against the last accepted constraint;
/// - otherwise the current constraint is accepted.
pub open spec fn simplify<V: VT>(
    acc: Seq<ConstraintModel<V::V>>,
    rest: Seq<ConstraintModel<V::V>>,
) -> Seq<ConstraintModel<V::V>>
    decreases rest.len(), acc.len(),
{
    if rest.len() == 0 {
        acc
    } else {
        let cur = rest[0];
        let rest1 = rest.drop_first();
        if rest1.len() > 0 {
            let next = rest1[0];
            if cur.comparator.is_lower_bound() && (next.comparator.is_lower_bound()
                || next.comparator == Comparator::Equal) {
                simplify::<V>(acc, seq![cur] + rest1.drop_first())
            } else if (cur.comparator == Comparator::Equal || cur.comparator.is_upper_bound())
                && next.comparator.is_upper_bound() {
                if acc.len() > 0 {
                    simplify::<V>(acc.drop_last(), seq![acc.last()] + rest1)
                } else {
                    simplify::<V>(acc, rest1)
                }
            } else if acc.len() > 0 && acc.last().comparator.is_lower_bound()
                && (cur.comparator.is_lower_bound() || cur.comparator == Comparator::Equal) {
                simplify::<V>(acc, rest1)
            } else if acc.len() > 0 && (acc.last().comparator == Comparator::Equal
                || acc.last().comparator.is_upper_bound()) && cur.comparator.is_upper_bound() {
                simplify::<V>(acc.drop_last().push(cur), rest1)
            } else {
                simplify::<V>(acc.push(cur), rest1)
            }
        } else {
            acc.push(cur)
        }
    }
}

/// Every non-`Any` version in the list is well-formed.
pub open spec fn displayable_cs<V: VT>(cs: Seq<ConstraintModel<V::V>>) -> bool {
    forall|i: int|
        0 <= i < cs.len() ==> ((#[trigger] cs[i]).comparator != Comparator::Any ==> V::wf_v(
            cs[i].version,
        ))
}

/// The comparators of a constraint sequence, in order.
pub open spec fn comps_of<V: VT>(s: Seq<ConstraintModel<V::V>>) -> Seq<Comparator> {
    s.map_values(|c: ConstraintModel<V::V>| c.comparator)
}

/// Indexing into the comparator sequence.
pub proof fn lemma_comps_of_index<V: VT>(s: Seq<ConstraintModel<V::V>>, i: int)
    requires
        0 <= i < s.len(),
    ensures
        comps_of::<V>(s).len() == s.len(),
        comps_of::<V>(s)[i] == s[i].comparator,
{
}

/// Indexing into the model sequence of a constraint vector.
pub proof fn lemma_cs_model_index<V: VT>(cs: Seq<crate::constraint::VersionConstraint<V>>, i: int)
    requires
        0 <= i < cs.len(),
    ensures
        cs_model::<V>(cs).len() == cs.len(),
        cs_model::<V>(cs)[i] == cs[i]@,
{
}

/// At position `t`, an `=` is followed only by `=`, `>` or `>=`.
pub open spec fn eq_adj_at(comps: Seq<Comparator>, t: int) -> bool {
    comps[t] == Comparator::Equal ==> (comps[t + 1] == Comparator::Equal || comps[t
        + 1].is_lower_bound())
}

/// In version order, an `=` may only be immediately followed by `=`, `>` or
/// `>=`.
pub open spec fn eq_adjacency_ok(comps: Seq<Comparator>) -> bool {
    forall|t: int| 0 <= t < comps.len() - 1 ==> #[trigger] eq_adj_at(comps, t)
}

/// At position `t`, the bound families alternate.
pub open spec fn alt_at(bs: Seq<Comparator>, t: int) -> bool {
    &&& bs[t].is_upper_bound() ==> bs[t + 1].is_lower_bound()
    &&& bs[t].is_lower_bound() ==> bs[t + 1].is_upper_bound()
}

/// Ignoring `=`, the bound comparators must alternate between the upper and
/// the lower family.
pub open spec fn bounds_alternate_ok(comps: Seq<Comparator>) -> bool {
    let bs = non_eq_comps(comps);
    forall|t: int| 0 <= t < bs.len() - 1 ==> #[trigger] alt_at(bs, t)
}

/// The comparators that are not `=`, in order.
pub open spec fn non_eq_comps(comps: Seq<Comparator>) -> Seq<Comparator> {
    comps.filter(|c: Comparator| c != Comparator::Equal)
}

/// How the non-`=` comparators grow when one comparator is appended.
pub proof fn lemma_non_eq_comps_push(s: Seq<Comparator>, x: Comparator)
    ensures
        x != Comparator::Equal ==> non_eq_comps(s.push(x)) == non_eq_comps(s).push(x),
        x == Comparator::Equal ==> non_eq_comps(s.push(x)) == non_eq_comps(s),
{
    reveal(Seq::filter);
    assert(s.push(x).drop_last() =~= s);
    assert(s.push(x).last() == x);
}

/// How the bound constraints grow when one constraint is appended.
pub proof fn lemma_bounds_push<V: VT>(s: Seq<ConstraintModel<V::V>>, x: ConstraintModel<V::V>)
    ensures
        x.comparator.is_bound() ==> bounds_of::<V>(s.push(x)) == bounds_of::<V>(s).push(x),
        !x.comparator.is_bound() ==> bounds_of::<V>(s.push(x)) == bounds_of::<V>(s),
{
    reveal(Seq::filter);
    assert(s.push(x).drop_last() =~= s);
    assert(s.push(x).last() == x);
}

/// What normalize-and-validate yields on a constraint sequence: the canonical
/// sequence, or the error.
///
/// An empty sequence is rejected; an `Any` beside any other constraint is
/// rejected; a single constraint is trivially canonical. Otherwise the
/// constraints are sorted, duplicate versions are rejected, the `!=`
/// constraints are set aside, the rest passes redundancy elimination and
/// structural validation, and the survivors and the `!=` constraints are
/// merged back in version order.
pub open spec fn normalize_spec<V: VT>(cs: Seq<ConstraintModel<V::V>>) -> Result<
    Seq<ConstraintModel<V::V>>,
    ErrModel,
> {
    if cs.len() == 0 {
        Err(ErrModel::EmptyConstraints)
    } else if (exists|i: int| 0 <= i < cs.len() && (#[trigger] cs[i]).comparator == Comparator::Any)
        && cs.len() > 1 {
        Err(ErrModel::InvalidRange)
    } else if cs.len() == 1 {
        Ok(cs)
    } else {
        let sorted = sort_cs::<V>(cs);
        match adj_dup_scan::<V>(sorted, 1) {
            Some(v) => Err(ErrModel::DuplicateVersion(V::display_vspec(v))),
            None => {
                let ne = ne_filter::<V>(sorted);
                let other = other_filter::<V>(sorted);
                if other.len() == 0 {
                    Ok(ne)
                } else {
                    let simp = simplify::<V>(Seq::empty(), other);
                    if !eq_adjacency_ok(comps_of::<V>(simp)) {
                        Err(ErrModel::InvalidRange)
                    } else if !bounds_alternate_ok(comps_of::<V>(simp)) {
                        Err(ErrModel::InvalidRange)
                    } else {
                        Ok(sort_cs::<V>(simp + ne))
                    }
                }
            },
        }
    }
}

/// The first point answer of the containment scan: `=`, `>=` and `<=`
/// constraints answer true on their own version, `!=` answers false on its
/// own version.
pub open spec fn scan_eq<V: VT>(cs: Seq<ConstraintModel<V::V>>, v: V::V) -> Option<bool>
    decreases cs.len(),
{
    if cs.len() == 0 {
        None
    } else {
        let c = cs[0];
        if (c.comparator == Comparator::Equal || c.comparator == Comparator::GreaterThanOrEqual
            || c.comparator == Comparator::LessThanOrEqual) && v_eq::<V>(v, c.version) {
            Some(true)
        } else if c.comparator == Comparator::NotEqual && v_eq::<V>(v, c.version) {
            Some(false)
        } else {
            scan_eq::<V>(cs.drop_first(), v)
        }
    }
}

/// Whether every constraint is a `!=` constraint.
pub open spec fn all_ne<V: VT>(cs: Seq<ConstraintModel<V::V>>) -> bool {
    forall|i: int| 0 <= i < cs.len() ==> is_ne::<V>(#[trigger] cs[i])
}

/// The bound constraints, in order.
pub open spec fn bounds_of<V: VT>(cs: Seq<ConstraintModel<V::V>>) -> Seq<ConstraintModel<V::V>> {
    cs.filter(|c: ConstraintModel<V::V>| c.comparator.is_bound())
}

/// Whether the version falls in one of the intervals the bound constraints
/// describe: below a leading upper bound, above a trailing lower bound, or
/// strictly between an adjacent lower–upper pair.
pub open spec fn interval_check<V: VT>(bs: Seq<ConstraintModel<V::V>>, v: V::V) -> bool {
    ||| (bs.len() > 0 && bs[0].comparator.is_upper_bound() && v_lt::<V>(v, bs[0].version))
    ||| (bs.len() > 0 && bs.last().comparator.is_lower_bound() && v_lt::<V>(
        bs.last().version,
        v,
    ))
    ||| (exists|i: int|
        0 <= i < bs.len() - 1 && (#[trigger] bs[i]).comparator.is_lower_bound() && bs[i
            + 1].comparator.is_upper_bound() && v_lt::<V>(bs[i].version, v) && v_lt::<V>(
            v,
            bs[i + 1].version,
        ))
}

/// Whether a version is contained in a constraint sequence: a sole `Any`
/// admits everything; a point answer from the scan decides; a sequence of
/// `!=` constraints alone admits what the scan did not refuse; otherwise the
/// bound constraints decide.
pub open spec fn contains_spec<V: VT>(cs: Seq<ConstraintModel<V::V>>, v: V::V) -> bool {
    if cs.len() == 1 && cs[0].comparator == Comparator::Any {
        true
    } else {
        match scan_eq::<V>(cs, v) {
            Some(b) => b,
            None => if all_ne::<V>(cs) {
                true
            } else {
                interval_check::<V>(bounds_of::<V>(cs), v)
            },
        }
    }
}

} // verus!
