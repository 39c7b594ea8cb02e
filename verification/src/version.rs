//! The version capability.
//!
//! The range engine is generic over the version type: any type that offers a
//! total order, fallible parsing from text, a default value and a canonical
//! display can be used in constraints and ranges. The trait `VT` states that
//! capability, together with the laws the engine's proofs rest on.

use vstd::prelude::*;
use crate::error::VersError;
use crate::text::is_ws;

verus! {

/// A character that may stand anywhere in a version's canonical text without
/// disturbing the specifier grammar.
pub open spec fn plain_version_char(c: char) -> bool {
    !is_ws(c) && c != '|' && c != '%' && c != '*'
}

/// Version text that survives a round trip through the specifier grammar:
/// non-empty, made of plain characters, and not opening with an operator
/// character.
pub open spec fn plain_version_text(s: Seq<char>) -> bool {
    &&& s.len() > 0
    &&& (forall|i: int| 0 <= i < s.len() ==> plain_version_char(#[trigger] s[i]))
    &&& s[0] != '<'
    &&& s[0] != '>'
    &&& s[0] != '!'
    &&& s[0] != '='
}

/// A version type usable in constraints and ranges.
///
/// All specification-level notions are stated over the type's view, so that
/// two values carrying the same mathematical version are interchangeable in
/// contracts.
pub trait VT: Sized + View {
    /// Total preorder on version views: `a` sorts no later than `b`.
    spec fn le_spec(a: Self::V, b: Self::V) -> bool;

    /// What parsing a piece of text yields, if anything.
    spec fn parse_vspec(s: Seq<char>) -> Option<Self::V>;

    /// The canonical display text of a version.
    spec fn display_vspec(v: Self::V) -> Seq<char>;

    /// The default version, used as the sentinel behind a `*` constraint.
    spec fn default_vspec() -> Self::V;

    /// Versions whose canonical text parses back to the same version.
    spec fn wf_v(v: Self::V) -> bool;

    /// `le_spec` is a total order on views.
    proof fn lemma_le_total(a: Self::V, b: Self::V, c: Self::V)
        ensures
            Self::le_spec(a, b) || Self::le_spec(b, a),
            Self::le_spec(a, b) && Self::le_spec(b, c) ==> Self::le_spec(a, c),
            Self::le_spec(a, b) && Self::le_spec(b, a) ==> a == b,
    ;

    /// A well-formed version's display is plain text that parses back to it.
    proof fn lemma_display_round_trip(v: Self::V)
        requires
            Self::wf_v(v),
        ensures
            Self::parse_vspec(Self::display_vspec(v)) == Some(v),
            plain_version_text(Self::display_vspec(v)),
    ;

    /// Decides the order `le_spec`.
    fn le_v(&self, other: &Self) -> (r: bool)
        ensures
            r == Self::le_spec(self@, other@),
    ;

    /// Parses a version from its characters.
    fn parse_v(s: &Vec<char>) -> (r: Result<Self, VersError>)
        ensures
            match r {
                Ok(v) => Self::parse_vspec(s@) == Some(v@) && Self::wf_v(v@),
                Err(e) => Self::parse_vspec(s@) is None && e is InvalidVersionFormat,
            },
    ;

    /// The canonical display text.
    fn display_v(&self) -> (r: String)
        ensures
            r@ == Self::display_vspec(self@),
    ;

    /// The default version.
    fn default_v() -> (r: Self)
        ensures
            r@ == Self::default_vspec(),
    ;
}

/// Strict order derived from the capability's total preorder.
pub open spec fn v_lt<V: VT>(a: V::V, b: V::V) -> bool {
    !V::le_spec(b, a)
}

/// Equivalence derived from the capability's total preorder. By the order
/// laws this coincides with equality of views.
pub open spec fn v_eq<V: VT>(a: V::V, b: V::V) -> bool {
    V::le_spec(a, b) && V::le_spec(b, a)
}

/// Consequences of the order laws, in the derived vocabulary.
pub proof fn lemma_order<V: VT>(a: V::V, b: V::V, c: V::V)
    ensures
        v_lt::<V>(a, b) || v_lt::<V>(b, a) || a == b,
        v_lt::<V>(a, b) ==> !v_lt::<V>(b, a),
        v_lt::<V>(a, b) ==> a != b,
        v_lt::<V>(a, b) && v_lt::<V>(b, c) ==> v_lt::<V>(a, c),
        v_eq::<V>(a, b) <==> a == b,
        v_lt::<V>(a, b) <==> V::le_spec(a, b) && a != b,
{
    V::lemma_le_total(a, b, c);
    V::lemma_le_total(b, a, c);
    V::lemma_le_total(a, c, b);
    V::lemma_le_total(b, c, a);
    V::lemma_le_total(c, a, b);
    V::lemma_le_total(a, a, a);
    V::lemma_le_total(b, b, b);
}

} // verus!
