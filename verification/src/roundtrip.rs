//! The round-trip law: displaying a canonical range, parsing the text back,
//! and displaying again reproduces the text.

use vstd::prelude::*;
use crate::comparator::Comparator;
use crate::constraint::{op_split, token_parse, ConstraintModel};
use crate::error::ErrModel;
use crate::laws::{canonical_cs, lemma_normalize_idempotent};

use crate::range::RangeModel;
use crate::model::displayable_cs;
use crate::specifier::{
    constraint_display_head, constraint_display_tail, parse_range_spec, range_display, scheme_char,
    split_spec, split_stripped, split_tokens, tails_display, valid_scheme,
};
use crate::version::{plain_version_char, VT};
use crate::text::{
    first_idx, is_ws, lemma_first_idx_at, lemma_lower_fixed, lemma_strip_ws_fixed,
    lemma_trim_fixed, lower,
};

verus! {

/// A token that the tokenizer hands back unchanged: non-empty, without `|`,
/// without whitespace.
pub open spec fn token_ok(t: Seq<char>) -> bool {
    &&& t.len() > 0
    &&& forall|i: int| 0 <= i < t.len() ==> !is_ws(#[trigger] t[i]) && t[i] != '|'
}

/// For a constraint that does not stand first, head and tail display agree;
/// they differ only for `Any`, which never stands beside anything.
pub proof fn lemma_head_is_tail<V: VT>(c: ConstraintModel<V::V>)
    requires
        c.comparator != Comparator::Any,
    ensures
        constraint_display_head::<V>(c) == constraint_display_tail::<V>(c),
{
}

/// The display text of a non-`Any` well-formed constraint is a clean token.
pub proof fn lemma_token_chars<V: VT>(c: ConstraintModel<V::V>)
    requires
        c.comparator != Comparator::Any,
        V::wf_v(c.version),
    ensures
        token_ok(constraint_display_tail::<V>(c)),
        constraint_display_tail::<V>(c)[0] != '*',
{
    V::lemma_display_round_trip(c.version);
    let dv = V::display_vspec(c.version);
    let tok = constraint_display_tail::<V>(c);
    if c.comparator == Comparator::Equal {
        assert(plain_version_char(dv[0]));
    } else {
        let sym = c.comparator.symbol_spec();
        assert(tok =~= sym + dv);
        assert forall|i: int| 0 <= i < tok.len() implies !is_ws(#[trigger] tok[i]) && tok[i]
            != '|' by {
            if i >= sym.len() {
                assert(tok[i] == dv[i - sym.len()]);
                assert(plain_version_char(dv[i - sym.len()]));
            }
        }
    }
}

/// Parsing the display text of a non-`Any` well-formed constraint gives the
/// constraint back.
pub proof fn lemma_token_parse_back<V: VT>(c: ConstraintModel<V::V>)
    requires
        c.comparator != Comparator::Any,
        V::wf_v(c.version),
    ensures
        token_parse::<V>(constraint_display_tail::<V>(c)) == Ok::<
            ConstraintModel<V::V>,
            ErrModel,
        >(c),
{
    V::lemma_display_round_trip(c.version);
    let dv = V::display_vspec(c.version);
    let tok = constraint_display_tail::<V>(c);
    lemma_token_chars::<V>(c);
    assert(tok != seq!['*']) by {
        assert(tok[0] != '*');
    }
    let sym = c.comparator.symbol_spec();
    if c.comparator == Comparator::Equal {
        assert(op_split(tok) == (Comparator::Equal, tok));
    } else {
        assert(tok =~= sym + dv);
        assert(dv[0] != '=');
        if c.comparator == Comparator::GreaterThanOrEqual {
            assert(tok[0] == '>' && tok[1] == '=');
            assert(tok.skip(2) =~= dv);
        } else if c.comparator == Comparator::LessThanOrEqual {
            assert(tok[0] == '<' && tok[1] == '=');
            assert(tok.skip(2) =~= dv);
        } else if c.comparator == Comparator::NotEqual {
            assert(tok[0] == '!' && tok[1] == '=');
            assert(tok.skip(2) =~= dv);
        } else if c.comparator == Comparator::GreaterThan {
            assert(tok[0] == '>');
            assert(tok.len() >= 2 ==> tok[1] == dv[0]);
            assert(tok.skip(1) =~= dv);
        } else {
            assert(c.comparator == Comparator::LessThan);
            assert(tok[0] == '<');
            assert(tok.len() >= 2 ==> tok[1] == dv[0]);
            assert(tok.skip(1) =~= dv);
        }
        assert(op_split(tok) == (c.comparator, dv));
    }
    assert forall|i: int| 0 <= i < dv.len() implies !is_ws(#[trigger] dv[i]) by {
        assert(plain_version_char(dv[i]));
    }
    lemma_trim_fixed(dv);
    assert(!dv.contains('%')) by {
        if dv.contains('%') {
            let i = choose|i: int| 0 <= i < dv.len() && dv[i] == '%';
            assert(plain_version_char(dv[i]));
        }
    }
    assert(token_parse::<V>(tok) == Ok::<ConstraintModel<V::V>, ErrModel>(
        ConstraintModel { comparator: c.comparator, version: c.version },
    ));
    assert(ConstraintModel { comparator: c.comparator, version: c.version } =~= c);
}

/// Token texts joined by `|`.
pub open spec fn join_tokens(toks: Seq<Seq<char>>) -> Seq<char>
    decreases toks.len(),
{
    if toks.len() == 0 {
        Seq::empty()
    } else if toks.len() == 1 {
        toks[0]
    } else {
        toks[0] + seq!['|'] + join_tokens(toks.drop_first())
    }
}

/// Unfolding `join_tokens` at the right end.
pub proof fn lemma_join_push(toks: Seq<Seq<char>>, t: Seq<char>)
    requires
        toks.len() > 0,
    ensures
        join_tokens(toks.push(t)) == join_tokens(toks) + seq!['|'] + t,
    decreases toks.len(),
{
    if toks.len() == 1 {
        assert(toks.push(t).drop_first() =~= seq![t]);
        assert(toks.push(t)[0] == toks[0]);
        assert(join_tokens(seq![t]) == t);
        assert(join_tokens(toks.push(t)) =~= toks[0] + seq!['|'] + t);
    } else {
        assert(toks.push(t).drop_first() =~= toks.drop_first().push(t));
        assert(toks.push(t)[0] == toks[0]);
        lemma_join_push(toks.drop_first(), t);
        assert(join_tokens(toks.push(t)) =~= join_tokens(toks) + seq!['|'] + t);
    }
}

/// Every character of a join of clean tokens is a token character or `|`.
pub proof fn lemma_join_chars(toks: Seq<Seq<char>>)
    requires
        forall|k: int| 0 <= k < toks.len() ==> token_ok(#[trigger] toks[k]),
    ensures
        forall|i: int|
            0 <= i < join_tokens(toks).len() ==> !is_ws(#[trigger] join_tokens(toks)[i]),
    decreases toks.len(),
{
    if toks.len() == 0 {
    } else if toks.len() == 1 {
        assert(token_ok(toks[0]));
    } else {
        assert(forall|k: int|
            0 <= k < toks.drop_first().len() ==> token_ok(#[trigger] toks.drop_first()[k]));
        lemma_join_chars(toks.drop_first());
        let j = join_tokens(toks);
        let t0 = toks[0];
        let rest = join_tokens(toks.drop_first());
        assert(token_ok(toks[0]));
        assert forall|i: int| 0 <= i < j.len() implies !is_ws(#[trigger] j[i]) by {
            if i < t0.len() {
                assert(j[i] == t0[i]);
            } else if i == t0.len() {
                assert(j[i] == '|');
            } else {
                assert(j[i] == rest[i - t0.len() - 1]);
            }
        }
    }
}

/// Splitting a join of clean tokens on `|` recovers the tokens.
pub proof fn lemma_split_join(toks: Seq<Seq<char>>)
    requires
        toks.len() > 0,
        forall|k: int| 0 <= k < toks.len() ==> token_ok(#[trigger] toks[k]),
    ensures
        split_tokens(join_tokens(toks)) == toks,
    decreases toks.len(),
{
    let j = join_tokens(toks);
    let t0 = toks[0];
    assert(token_ok(toks[0]));
    if toks.len() == 1 {
        assert(j == t0);
        lemma_first_idx_at(j, '|', j.len() as int);
        assert(split_tokens(j) =~= toks);
    } else {
        let rest = join_tokens(toks.drop_first());
        assert(j =~= t0 + seq!['|'] + rest);
        assert forall|i: int| 0 <= i < t0.len() implies j[i] != '|' by {
            assert(j[i] == t0[i]);
        }
        assert(j[t0.len() as int] == '|');
        lemma_first_idx_at(j, '|', t0.len() as int);
        assert(j.take(t0.len() as int) =~= t0);
        assert(j.skip(t0.len() as int + 1) =~= rest);
        assert(forall|k: int|
            0 <= k < toks.drop_first().len() ==> token_ok(#[trigger] toks.drop_first()[k]));
        lemma_split_join(toks.drop_first());
        assert(split_tokens(j) =~= seq![t0] + toks.drop_first());
        assert(seq![t0] + toks.drop_first() =~= toks);
    }
}

/// The token texts of a constraint list.
pub open spec fn token_texts<V: VT>(cs: Seq<ConstraintModel<V::V>>) -> Seq<Seq<char>> {
    cs.map_values(|c: ConstraintModel<V::V>| constraint_display_tail::<V>(c))
}

/// The constraint section of the display text is the join of the token texts.
pub proof fn lemma_body_is_join<V: VT>(cs: Seq<ConstraintModel<V::V>>)
    requires
        cs.len() > 0,
        cs[0].comparator != Comparator::Any,
    ensures
        constraint_display_head::<V>(cs[0]) + tails_display::<V>(cs.drop_first()) == join_tokens(
            token_texts::<V>(cs),
        ),
    decreases cs.len(),
{
    lemma_head_is_tail::<V>(cs[0]);
    if cs.len() == 1 {
        assert(cs.drop_first().len() == 0);
        assert(token_texts::<V>(cs) =~= seq![constraint_display_tail::<V>(cs[0])]);
        assert(constraint_display_head::<V>(cs[0]) + tails_display::<V>(cs.drop_first())
            =~= constraint_display_tail::<V>(cs[0]));
    } else {
        let shorter = cs.drop_last();
        assert(shorter[0] == cs[0]);
        lemma_body_is_join::<V>(shorter);
        assert(cs.drop_first().drop_last() =~= shorter.drop_first());
        assert(cs.drop_first().last() == cs.last());
        assert(tails_display::<V>(cs.drop_first()) == tails_display::<V>(shorter.drop_first())
            + seq!['|'] + constraint_display_tail::<V>(cs.last()));
        assert(token_texts::<V>(cs) =~= token_texts::<V>(shorter).push(
            constraint_display_tail::<V>(cs.last()),
        ));
        assert(token_texts::<V>(shorter).len() == shorter.len());
        lemma_join_push(token_texts::<V>(shorter), constraint_display_tail::<V>(cs.last()));
        assert(constraint_display_head::<V>(cs[0]) + tails_display::<V>(cs.drop_first())
            =~= join_tokens(token_texts::<V>(cs)));
    }
}

/// Parsing the token texts of clean well-formed constraints gives the
/// constraints back.
pub proof fn lemma_parse_token_texts<V: VT>(cs: Seq<ConstraintModel<V::V>>)
    requires
        forall|i: int| 0 <= i < cs.len() ==> (#[trigger] cs[i]).comparator != Comparator::Any,
        displayable_cs::<V>(cs),
    ensures
        crate::specifier::parse_tokens::<V>(token_texts::<V>(cs)) == Ok::<
            Seq<ConstraintModel<V::V>>,
            ErrModel,
        >(cs),
    decreases cs.len(),
{
    let toks = token_texts::<V>(cs);
    if cs.len() == 0 {
        assert(toks.len() == 0);
        assert(cs =~= Seq::<ConstraintModel<V::V>>::empty());
    } else {
        assert(toks[0] == constraint_display_tail::<V>(cs[0]));
        lemma_token_parse_back::<V>(cs[0]);
        assert(toks.drop_first() =~= token_texts::<V>(cs.drop_first()));
        lemma_parse_token_texts::<V>(cs.drop_first());
        assert(seq![cs[0]] + cs.drop_first() =~= cs);
    }
}

/// The display text of a range carries no whitespace when its parts carry
/// none.
proof fn lemma_display_no_ws<V: VT>(m: RangeModel<V::V>, body: Seq<char>)
    requires
        valid_scheme(m.scheme),
        m.constraints.len() > 0,
        body == constraint_display_head::<V>(m.constraints[0]) + tails_display::<V>(
            m.constraints.drop_first(),
        ),
        forall|i: int| 0 <= i < body.len() ==> !is_ws(#[trigger] body[i]),
    ensures
        forall|i: int|
            0 <= i < range_display::<V>(m).len() ==> !is_ws(#[trigger] range_display::<V>(m)[i]),
{
    let t = range_display::<V>(m);
    assert(t =~= seq!['v', 'e', 'r', 's', ':'] + m.scheme + seq!['/'] + body);
    assert forall|i: int| 0 <= i < t.len() implies !is_ws(#[trigger] t[i]) by {
        if i < 5 {
        } else if i < 5 + m.scheme.len() {
            assert(t[i] == m.scheme[i - 5]);
            assert(scheme_char(m.scheme[i - 5]));
        } else if i == 5 + m.scheme.len() {
            assert(t[i] == '/');
        } else {
            assert(t[i] == body[i - 6 - m.scheme.len()]);
        }
    }
}

/// On whitespace-free text, splitting a specifier needs no stripping.
proof fn lemma_split_unstripped(t: Seq<char>)
    requires
        forall|i: int| 0 <= i < t.len() ==> !is_ws(#[trigger] t[i]),
    ensures
        split_spec(t) == split_stripped(t),
{
    lemma_strip_ws_fixed(t);
}

/// Splitting text of the shape `vers:<scheme>/<body>`, whitespace-free and
/// with a clean scheme name, recovers the scheme and the body.
proof fn lemma_split_stripped_of(t: Seq<char>, scheme: Seq<char>, body: Seq<char>)
    requires
        t == seq!['v', 'e', 'r', 's', ':'] + scheme + seq!['/'] + body,
        valid_scheme(scheme),
    ensures
        split_stripped(t) == Ok::<(Seq<char>, Seq<char>), ErrModel>((scheme, body)),
{
    assert forall|k: int| 0 <= k < 4 implies t[k] != ':' by {}
    assert(t[4] == ':');
    lemma_first_idx_at(t, ':', 4);
    assert(t.take(4) =~= seq!['v', 'e', 'r', 's']);
    let rest = t.skip(5);
    assert(rest =~= scheme + seq!['/'] + body);
    assert forall|k: int| 0 <= k < scheme.len() implies rest[k] != '/' by {
        assert(rest[k] == scheme[k]);
        assert(scheme_char(scheme[k]));
    }
    assert(rest[scheme.len() as int] == '/');
    lemma_first_idx_at(rest, '/', scheme.len() as int);
    assert(rest.take(scheme.len() as int) =~= scheme);
    assert forall|k: int| 0 <= k < scheme.len() implies !('A' <= #[trigger] scheme[k]
        && scheme[k] <= 'Z') by {
        assert(scheme_char(scheme[k]));
    }
    lemma_lower_fixed(scheme);
    assert(rest.skip(scheme.len() as int + 1) =~= body);
}

/// Splitting the display text of a range recovers its scheme and constraint
/// section.
pub proof fn lemma_split_display<V: VT>(m: RangeModel<V::V>, body: Seq<char>)
    requires
        valid_scheme(m.scheme),
        m.constraints.len() > 0,
        body == constraint_display_head::<V>(m.constraints[0]) + tails_display::<V>(
            m.constraints.drop_first(),
        ),
        forall|i: int| 0 <= i < body.len() ==> !is_ws(#[trigger] body[i]),
    ensures
        split_spec(range_display::<V>(m)) == Ok::<(Seq<char>, Seq<char>), ErrModel>(
            (m.scheme, body),
        ),
{
    let t = range_display::<V>(m);
    assert(t =~= seq!['v', 'e', 'r', 's', ':'] + m.scheme + seq!['/'] + body);
    lemma_split_stripped_of(t, m.scheme, body);
    lemma_display_no_ws::<V>(m, body);
    lemma_split_unstripped(t);
}

/// Round-trip canonical form: the display text of a canonical range parses
/// back, and displaying what it parses to reproduces the text.
pub proof fn lemma_round_trip_canonical<V: VT>(m: RangeModel<V::V>)
    requires
        canonical_cs::<V>(m.constraints),
        valid_scheme(m.scheme),
        displayable_cs::<V>(m.constraints),
    ensures
        parse_range_spec::<V>(range_display::<V>(m)) is Ok,
        range_display::<V>(parse_range_spec::<V>(range_display::<V>(m))->Ok_0) == range_display::<
            V,
        >(m),
{
    let t = range_display::<V>(m);
    let cs = m.constraints;
    let body = constraint_display_head::<V>(cs[0]) + tails_display::<V>(cs.drop_first());
    if cs[0].comparator == Comparator::Any {
        // A canonical range with `Any` holds nothing else; the text ends in
        // `*` and parses to the one-star range, which displays the same.
        assert(cs.len() == 1);
        assert(cs.drop_first().len() == 0);
        assert(body =~= seq!['*']);
        lemma_split_display::<V>(m, body);
        let m2 = parse_range_spec::<V>(t)->Ok_0;
        assert(m2.scheme == m.scheme);
        assert(m2.constraints[0].comparator == Comparator::Any);
        assert(m2.constraints.len() == 1);
        assert(m2.constraints.drop_first().len() == 0);
        assert(range_display::<V>(m2) =~= range_display::<V>(m));
    } else {
        assert forall|i: int|
            0 <= i < cs.len() implies (#[trigger] cs[i]).comparator != Comparator::Any by {
            if cs.len() == 1 {
                assert(i == 0);
            }
        }
        let toks = token_texts::<V>(cs);
        assert forall|k: int| 0 <= k < toks.len() implies token_ok(#[trigger] toks[k]) by {
            assert(toks[k] == constraint_display_tail::<V>(cs[k]));
            lemma_token_chars::<V>(cs[k]);
        }
        lemma_body_is_join::<V>(cs);
        lemma_join_chars(toks);
        lemma_split_display::<V>(m, body);
        assert(toks[0] == constraint_display_tail::<V>(cs[0]));
        lemma_token_chars::<V>(cs[0]);
        assert(body[0] == toks[0][0] && body.len() > 0) by {
            if cs.len() == 1 {
                assert(body == toks[0]);
            } else {
                assert(join_tokens(toks) =~= toks[0] + seq!['|'] + join_tokens(
                    toks.drop_first(),
                ));
            }
        }
        assert(body != seq!['*']) by {
            assert(body[0] != '*');
        }
        lemma_split_join(toks);
        assert(toks.len() == cs.len());
        lemma_parse_token_texts::<V>(cs);
        lemma_normalize_idempotent::<V>(cs);
        let m2 = parse_range_spec::<V>(t)->Ok_0;
        assert(m2 =~= m);
    }
}

} // verus!
