//! Reading and writing whole range specifiers.
//!
//! A specifier is text of the form `vers:<scheme>/<constraint>|<constraint>`.
//! Parsing strips all whitespace, checks the `vers` tag, lower-cases the
//! scheme name, splits the constraint list on `|`, parses each token, and
//! normalizes the result. Display writes the canonical text back out.

use vstd::prelude::*;
use vstd::string::StringExecFns;
use crate::comparator::Comparator;
use crate::constraint::{token_parse, ConstraintModel, VersionConstraint};
use crate::error::{err_is, ErrModel, VersError};
use crate::laws::{canonical_cs, lemma_normalize_canonical, lemma_subset_displayable};
use crate::model::{cs_model, displayable_cs, lemma_cs_model_index, normalize_spec};
use crate::range::{RangeModel, VersionRange};
use crate::text::{
    chars_to_string, first_idx, first_index, is_ws, lemma_first_idx_props, lemma_strip_ws_no_ws,
    lower, lower_char, lower_chars, str_to_chars, strip_ws, strip_ws_chars, vec_subrange,
};
use crate::version::VT;

verus! {

/// The display text of a constraint standing first in a range.
pub open spec fn constraint_display_head<V: VT>(c: ConstraintModel<V::V>) -> Seq<char> {
    if c.comparator == Comparator::Any {
        seq!['*']
    } else if c.comparator == Comparator::Equal {
        V::display_vspec(c.version)
    } else {
        c.comparator.symbol_spec() + V::display_vspec(c.version)
    }
}

/// The display text of a constraint standing after the first: the `=`
/// comparator is never printed.
pub open spec fn constraint_display_tail<V: VT>(c: ConstraintModel<V::V>) -> Seq<char> {
    if c.comparator == Comparator::Equal {
        V::display_vspec(c.version)
    } else {
        c.comparator.symbol_spec() + V::display_vspec(c.version)
    }
}

/// The display text of the constraints after the first, each preceded by `|`.
pub open spec fn tails_display<V: VT>(cs: Seq<ConstraintModel<V::V>>) -> Seq<char>
    decreases cs.len(),
{
    if cs.len() == 0 {
        Seq::empty()
    } else {
        tails_display::<V>(cs.drop_last()) + seq!['|'] + constraint_display_tail::<V>(cs.last())
    }
}

/// The canonical text of a range: `vers:`, the scheme, `/`, and the
/// constraints joined by `|`.
pub open spec fn range_display<V: VT>(m: RangeModel<V::V>) -> Seq<char>
    recommends
        m.constraints.len() > 0,
{
    seq!['v', 'e', 'r', 's', ':'] + m.scheme + seq!['/'] + constraint_display_head::<V>(
        m.constraints[0],
    ) + tails_display::<V>(m.constraints.drop_first())
}

/// A character fit for a scheme name: no whitespace, not the segment
/// separator, and not an upper-case letter, so that lower-casing fixes it.
pub open spec fn scheme_char(c: char) -> bool {
    &&& !is_ws(c)
    &&& c != '/'
    &&& !('A' <= c && c <= 'Z')
}

/// A scheme name that survives a round trip: non-empty, of scheme characters.
pub open spec fn valid_scheme(s: Seq<char>) -> bool {
    &&& s.len() > 0
    &&& forall|i: int| 0 <= i < s.len() ==> scheme_char(#[trigger] s[i])
}

/// The scheme name and the constraint text of already whitespace-free
/// specifier text: the text up to the first `:` must be `vers`, the text from
/// there to the first `/` is the scheme name, lower-cased and non-empty.
pub open spec fn split_stripped(t: Seq<char>) -> Result<(Seq<char>, Seq<char>), ErrModel> {
    let ci = first_idx(t, ':');
    if ci == t.len() {
        Err(ErrModel::InvalidScheme)
    } else if t.take(ci) != seq!['v', 'e', 'r', 's'] {
        Err(ErrModel::InvalidScheme)
    } else {
        let rest = t.skip(ci + 1);
        let si = first_idx(rest, '/');
        if si == rest.len() {
            Err(ErrModel::MissingVersioningScheme)
        } else {
            let scheme = lower(rest.take(si));
            if scheme.len() == 0 {
                Err(ErrModel::MissingVersioningScheme)
            } else {
                Ok((scheme, rest.skip(si + 1)))
            }
        }
    }
}

/// The scheme name and the constraint text of a specifier, or the error;
/// whitespace is stripped first.
pub open spec fn split_spec(s: Seq<char>) -> Result<(Seq<char>, Seq<char>), ErrModel> {
    split_stripped(strip_ws(s))
}

/// The scheme name a specifier carries, or the error.
pub open spec fn scheme_of_spec(s: Seq<char>) -> Result<Seq<char>, ErrModel> {
    match split_spec(s) {
        Ok(p) => Ok(p.0),
        Err(e) => Err(e),
    }
}

/// The constraint text split on `|`, dropping empty segments.
pub open spec fn split_tokens(s: Seq<char>) -> Seq<Seq<char>>
    decreases s.len(),
    via split_tokens_decreases
{
    let i = first_idx(s, '|');
    if i == s.len() {
        if s.len() == 0 {
            Seq::empty()
        } else {
            seq![s]
        }
    } else {
        let head = s.take(i);
        let rest = split_tokens(s.skip(i + 1));
        if head.len() == 0 {
            rest
        } else {
            seq![head] + rest
        }
    }
}

#[via_fn]
proof fn split_tokens_decreases(s: Seq<char>) {
    lemma_first_idx_props(s, '|');
}

/// The constraints of a token list, or the first token's error.
pub open spec fn parse_tokens<V: VT>(toks: Seq<Seq<char>>) -> Result<
    Seq<ConstraintModel<V::V>>,
    ErrModel,
>
    decreases toks.len(),
{
    if toks.len() == 0 {
        Ok(Seq::empty())
    } else {
        match token_parse::<V>(toks[0]) {
            Err(e) => Err(e),
            Ok(c) => match parse_tokens::<V>(toks.drop_first()) {
                Err(e) => Err(e),
                Ok(cs) => Ok(seq![c] + cs),
            },
        }
    }
}

/// What parsing a whole specifier yields: the normalized range, or the error.
pub open spec fn parse_range_spec<V: VT>(s: Seq<char>) -> Result<RangeModel<V::V>, ErrModel> {
    match split_spec(s) {
        Err(e) => Err(e),
        Ok(p) => {
            let scheme = p.0;
            let ctext = p.1;
            if ctext.len() == 0 {
                Err(ErrModel::EmptyConstraints)
            } else if ctext == seq!['*'] {
                Ok(
                    RangeModel {
                        scheme,
                        constraints: seq![
                            ConstraintModel {
                                comparator: Comparator::Any,
                                version: V::default_vspec(),
                            },
                        ],
                    },
                )
            } else {
                let toks = split_tokens(ctext);
                if toks.len() == 0 {
                    Err(ErrModel::EmptyConstraints)
                } else {
                    match parse_tokens::<V>(toks) {
                        Err(e) => Err(e),
                        Ok(cs) => match normalize_spec::<V>(cs) {
                            Err(e) => Err(e),
                            Ok(cs2) => Ok(RangeModel { scheme, constraints: cs2 }),
                        },
                    }
                }
            }
        },
    }
}

/// The scheme a successful split of whitespace-free text yields is a valid
/// scheme name.
pub proof fn lemma_split_stripped_scheme_valid(t: Seq<char>)
    requires
        forall|i: int| 0 <= i < t.len() ==> !is_ws(#[trigger] t[i]),
        split_stripped(t) is Ok,
    ensures
        valid_scheme(split_stripped(t)->Ok_0.0),
{
    let ci = first_idx(t, ':');
    lemma_first_idx_props(t, ':');
    let rest = t.skip(ci + 1);
    let si = first_idx(rest, '/');
    lemma_first_idx_props(rest, '/');
    let base = rest.take(si);
    let scheme = lower(base);
    assert forall|k: int| 0 <= k < scheme.len() implies scheme_char(#[trigger] scheme[k]) by {
        assert(scheme[k] == lower_char(base[k]));
        assert(base[k] == t[ci + 1 + k]);
        assert(!is_ws(base[k]));
        assert(base[k] != '/');
    }
}

/// The scheme a successful split of a specifier yields is a valid scheme
/// name.
pub proof fn lemma_split_spec_scheme_valid(s: Seq<char>)
    requires
        split_spec(s) is Ok,
    ensures
        valid_scheme(split_spec(s)->Ok_0.0),
{
    lemma_strip_ws_no_ws(s);
    lemma_split_stripped_scheme_valid(strip_ws(s));
}

/// The models of a vector of token vectors.
pub open spec fn toks_model(ts: Seq<Vec<char>>) -> Seq<Seq<char>> {
    ts.map_values(|t: Vec<char>| t@)
}

/// Splits a specifier into its scheme name and constraint text.
pub(crate) fn split_specifier(s: &str) -> (r: Result<(String, Vec<char>), VersError>)
    ensures
        match r {
            Ok(p) => split_spec(s@) == Ok::<(Seq<char>, Seq<char>), ErrModel>((p.0@, p.1@)),
            Err(e) => split_spec(s@) is Err && err_is(e, split_spec(s@)->Err_0),
        },
{
    let chars = str_to_chars(s);
    let t = strip_ws_chars(&chars);
    let ci = first_index(&t, ':');
    proof {
        lemma_first_idx_props(t@, ':');
    }
    if ci == t.len() {
        return Err(VersError::InvalidScheme);
    }
    if !(ci == 4 && t[0] == 'v' && t[1] == 'e' && t[2] == 'r' && t[3] == 's') {
        proof {
            assert(t@.take(ci as int) != seq!['v', 'e', 'r', 's']) by {
                if t@.take(ci as int) =~= seq!['v', 'e', 'r', 's'] {
                    assert(ci == 4);
                    assert(t@[0] == 'v' && t@[1] == 'e' && t@[2] == 'r' && t@[3] == 's');
                }
            }
        }
        return Err(VersError::InvalidScheme);
    }
    proof {
        assert(t@.take(ci as int) =~= seq!['v', 'e', 'r', 's']);
    }
    let rest = vec_subrange(&t, ci + 1, t.len());
    proof {
        assert(rest@ =~= t@.skip(ci + 1));
    }
    let si = first_index(&rest, '/');
    proof {
        lemma_first_idx_props(rest@, '/');
    }
    if si == rest.len() {
        return Err(VersError::MissingVersioningScheme);
    }
    let scheme_part = vec_subrange(&rest, 0, si);
    proof {
        assert(scheme_part@ =~= rest@.take(si as int));
    }
    let scheme_chars = lower_chars(&scheme_part);
    if scheme_chars.len() == 0 {
        return Err(VersError::MissingVersioningScheme);
    }
    let scheme = chars_to_string(&scheme_chars);
    let ctext = vec_subrange(&rest, si + 1, rest.len());
    proof {
        assert(ctext@ =~= rest@.skip(si + 1));
    }
    Ok((scheme, ctext))
}

/// How the token models grow when one token is appended.
proof fn lemma_toks_model_push(ts: Seq<Vec<char>>, t: Vec<char>)
    ensures
        toks_model(ts.push(t)) == toks_model(ts).push(t@),
{
    assert(toks_model(ts.push(t)) =~= toks_model(ts).push(t@));
}

/// Splits constraint text on `|`, dropping empty segments.
fn tokenize(ctext: &Vec<char>) -> (r: Vec<Vec<char>>)
    ensures
        toks_model(r@) == split_tokens(ctext@),
{
    let n = ctext.len();
    let mut toks: Vec<Vec<char>> = Vec::new();
    let mut p: usize = 0;
    proof {
        assert(toks_model(toks@) =~= Seq::<Seq<char>>::empty());
        assert(ctext@.skip(0) =~= ctext@);
    }
    while p < n
        invariant
            n == ctext@.len(),
            p <= n,
            split_tokens(ctext@) == toks_model(toks@) + split_tokens(ctext@.skip(p as int)),
        decreases n - p,
    {
        let rem = vec_subrange(ctext, p, n);
        proof {
            assert(rem@ =~= ctext@.skip(p as int));
        }
        let qrel = first_index(&rem, '|');
        proof {
            lemma_first_idx_props(rem@, '|');
        }
        let seg = vec_subrange(ctext, p, p + qrel);
        proof {
            assert(seg@ =~= rem@.take(qrel as int));
        }
        let ghost toks_pre = toks@;
        if qrel == rem.len() {
            proof {
                assert(seg@ =~= rem@);
                assert(split_tokens(rem@) == seq![rem@]);
            }
            toks.push(seg);
            proof {
                lemma_toks_model_push(toks_pre, seg);
            }
            p = n;
        } else {
            if seg.len() > 0 {
                toks.push(seg);
                proof {
                    lemma_toks_model_push(toks_pre, seg);
                }
            }
            proof {
                assert(split_tokens(rem@) == (if rem@.take(qrel as int).len() == 0 {
                    split_tokens(rem@.skip(qrel + 1))
                } else {
                    seq![rem@.take(qrel as int)] + split_tokens(rem@.skip(qrel + 1))
                }));
                assert(ctext@.skip(p + qrel + 1) =~= rem@.skip(qrel + 1));
            }
            p = p + qrel + 1;
        }
    }
    proof {
        assert(ctext@.skip(n as int).len() == 0);
        assert(split_tokens(ctext@.skip(n as int)) =~= Seq::<Seq<char>>::empty());
        assert(toks_model(toks@) =~= toks_model(toks@) + split_tokens(ctext@.skip(n as int)));
    }
    toks
}

impl<V: VT> VersionRange<V> {
    /// Parses a whole specifier: computes exactly `parse_range_spec`. A
    /// parsed range is canonical, every non-`Any` version in it is
    /// well-formed, and its scheme name is valid, so the round-trip law
    /// applies to it.
    pub fn from_specifier(s: &str) -> (r: Result<Self, VersError>)
        ensures
            match r {
                Ok(range) => {
                    &&& parse_range_spec::<V>(s@) == Ok::<RangeModel<V::V>, ErrModel>(range@)
                    &&& canonical_cs::<V>(range@.constraints)
                    &&& displayable_cs::<V>(range@.constraints)
                    &&& valid_scheme(range@.scheme)
                },
                Err(e) => parse_range_spec::<V>(s@) is Err && err_is(
                    e,
                    parse_range_spec::<V>(s@)->Err_0,
                ),
            },
    {
        let (scheme, ctext) = match split_specifier(s) {
            Ok(p) => p,
            Err(e) => {
                return Err(e);
            },
        };
        if ctext.len() == 0 {
            return Err(VersError::EmptyConstraints);
        }
        if ctext.len() == 1 && ctext[0] == '*' {
            proof {
                assert(ctext@ =~= seq!['*']);
            }
            let mut cs: Vec<VersionConstraint<V>> = Vec::new();
            cs.push(VersionConstraint { comparator: Comparator::Any, version: V::default_v() });
            let r = VersionRange { versioning_scheme: scheme, constraints: cs };
            proof {
                assert(cs_model(r.constraints@) =~= seq![
                    ConstraintModel { comparator: Comparator::Any, version: V::default_vspec() },
                ]);
                assert(r@ =~= parse_range_spec::<V>(s@)->Ok_0);
                lemma_split_spec_scheme_valid(s@);
                assert(r@.constraints.len() == 1);
                assert(displayable_cs::<V>(r@.constraints)) by {
                    assert(forall|i: int|
                        0 <= i < r@.constraints.len() ==> (#[trigger] r@.constraints[i]).comparator
                            == Comparator::Any);
                }
            }
            return Ok(r);
        }
        proof {
            assert(ctext@ != seq!['*']);
        }
        let toks = tokenize(&ctext);
        if toks.len() == 0 {
            return Err(VersError::EmptyConstraints);
        }
        let ghost toksm = toks_model(toks@);
        let tn = toks.len();
        let mut constraints: Vec<VersionConstraint<V>> = Vec::new();
        let mut i: usize = 0;
        proof {
            assert(toksm.skip(0) =~= toksm);
            assert(cs_model(constraints@) =~= Seq::<ConstraintModel<V::V>>::empty());
        }
        while i < tn
            invariant
                split_spec(s@) == Ok::<(Seq<char>, Seq<char>), ErrModel>((scheme@, ctext@)),
                ctext@.len() > 0,
                ctext@ != seq!['*'],
                toksm == split_tokens(ctext@),
                toksm == toks_model(toks@),
                tn == toks@.len(),
                tn == toksm.len(),
                tn > 0,
                i <= tn,
                match parse_tokens::<V>(toksm.skip(i as int)) {
                    Ok(cs) => parse_tokens::<V>(toksm) == Ok::<Seq<ConstraintModel<V::V>>, ErrModel>(
                        cs_model(constraints@) + cs,
                    ),
                    Err(e) => parse_tokens::<V>(toksm) == Err::<Seq<ConstraintModel<V::V>>, ErrModel>(
                        e,
                    ),
                },
                displayable_cs::<V>(cs_model(constraints@)),
            decreases tn - i,
        {
            proof {
                assert(toksm[i as int] == toks@[i as int]@);
                assert(toksm.skip(i as int)[0] == toksm[i as int]);
            }
            let c = match VersionConstraint::<V>::parse_chars(&toks[i]) {
                Ok(c) => c,
                Err(e) => {
                    proof {
                        assert(parse_tokens::<V>(toksm.skip(i as int)) is Err);
                    }
                    return Err(e);
                },
            };
            let ghost cpre = constraints@;
            constraints.push(c);
            proof {
                assert(cs_model(constraints@) =~= cs_model(cpre).push(c@));
                assert forall|k: int|
                    0 <= k < cs_model(constraints@).len() implies ((#[trigger] cs_model(
                    constraints@,
                )[k]).comparator != Comparator::Any ==> V::wf_v(
                    cs_model(constraints@)[k].version,
                )) by {
                    if k < cs_model(cpre).len() {
                        assert(cs_model(constraints@)[k] == cs_model(cpre)[k]);
                    } else {
                        assert(cs_model(constraints@)[k] == c@);
                    }
                }
                assert(toksm.skip(i as int).drop_first() =~= toksm.skip(i + 1 as int));
                match parse_tokens::<V>(toksm.skip(i + 1 as int)) {
                    Ok(cs) => {
                        assert(parse_tokens::<V>(toksm.skip(i as int)) == Ok::<
                            Seq<ConstraintModel<V::V>>,
                            ErrModel,
                        >(seq![c@] + cs));
                        assert(cs_model(cpre) + (seq![c@] + cs) =~= cs_model(constraints@) + cs);
                    },
                    Err(_) => {},
                }
            }
            i = i + 1;
        }
        proof {
            assert(toksm.skip(tn as int).len() == 0);
            assert(parse_tokens::<V>(toksm.skip(tn as int)) == Ok::<
                Seq<ConstraintModel<V::V>>,
                ErrModel,
            >(Seq::empty()));
            assert(cs_model(constraints@) + Seq::<ConstraintModel<V::V>>::empty() =~= cs_model(
                constraints@,
            ));
        }
        let ghost parsed = cs_model(constraints@);
        let mut range = VersionRange { versioning_scheme: scheme, constraints };
        match range.normalize_and_validate() {
            Ok(_) => {
                proof {
                    assert(range@ =~= parse_range_spec::<V>(s@)->Ok_0);
                    lemma_normalize_canonical::<V>(parsed, range@.constraints);
                    lemma_subset_displayable::<V>(parsed, range@.constraints);
                    lemma_split_spec_scheme_valid(s@);
                }
                Ok(range)
            },
            Err(e) => Err(e),
        }
    }

    /// The canonical specifier text of the range. A range without constraints
    /// has no display.
    pub fn display(&self) -> (r: String)
        requires
            self@.constraints.len() > 0,
        ensures
            r@ == range_display::<V>(self@),
    {
        let ghost m = self@;
        let mut out = String::from_str("vers:");
        proof {
            reveal_strlit("vers:");
            assert(out@ =~= seq!['v', 'e', 'r', 's', ':']);
        }
        out.append(self.versioning_scheme.as_str());
        out.append("/");
        proof {
            reveal_strlit("/");
            assert("/"@ =~= seq!['/']);
        }
        proof {
            lemma_cs_model_index::<V>(self.constraints@, 0);
        }
        let c0 = &self.constraints[0];
        if matches!(c0.comparator, Comparator::Any) {
            out.append("*");
            proof {
                reveal_strlit("*");
                assert("*"@ =~= seq!['*']);
            }
        } else if matches!(c0.comparator, Comparator::Equal) {
            let vs = c0.version.display_v();
            out.append(vs.as_str());
        } else {
            out.append(c0.comparator.symbol());
            let vs = c0.version.display_v();
            out.append(vs.as_str());
        }
        proof {
            assert(out@ =~= seq!['v', 'e', 'r', 's', ':'] + m.scheme + seq!['/']
                + constraint_display_head::<V>(m.constraints[0]));
            assert(m.constraints.subrange(1, 1) =~= Seq::<ConstraintModel<V::V>>::empty());
        }
        let n = self.constraints.len();
        let mut i: usize = 1;
        while i < n
            invariant
                m == self@,
                n == self.constraints@.len(),
                n == m.constraints.len(),
                1 <= i <= n,
                out@ == seq!['v', 'e', 'r', 's', ':'] + m.scheme + seq!['/']
                    + constraint_display_head::<V>(m.constraints[0]) + tails_display::<V>(
                    m.constraints.subrange(1, i as int),
                ),
            decreases n - i,
        {
            proof {
                lemma_cs_model_index::<V>(self.constraints@, i as int);
            }
            out.append("|");
            proof {
                reveal_strlit("|");
                assert("|"@ =~= seq!['|']);
            }
            let c = &self.constraints[i];
            if matches!(c.comparator, Comparator::Equal) {
                let vs = c.version.display_v();
                out.append(vs.as_str());
            } else {
                out.append(c.comparator.symbol());
                let vs = c.version.display_v();
                out.append(vs.as_str());
            }
            proof {
                assert(m.constraints.subrange(1, i + 1 as int).drop_last() =~= m.constraints.subrange(
                    1,
                    i as int,
                ));
                assert(m.constraints.subrange(1, i + 1 as int).last() == m.constraints[i as int]);
                assert(out@ =~= seq!['v', 'e', 'r', 's', ':'] + m.scheme + seq!['/']
                    + constraint_display_head::<V>(m.constraints[0]) + tails_display::<V>(
                    m.constraints.subrange(1, i + 1 as int),
                ));
            }
            i = i + 1;
        }
        proof {
            assert(m.constraints.subrange(1, n as int) =~= m.constraints.drop_first());
        }
        out
    }
}

impl<V: VT> core::str::FromStr for VersionRange<V> {
    type Err = VersError;

    fn from_str(s: &str) -> Result<Self, VersError> {
        VersionRange::from_specifier(s)
    }
}

} // verus!
