//! A single version constraint: a comparator paired with a version.
//!
//! One constraint is written as an optional comparator prefix followed by
//! version text (`>=1.0.0`, `!=1.2.3`, `1.2.3`, `*`). The token parser here
//! splits a trimmed token into the two parts, percent-decoding the version
//! text when it carries a percent sign, and hands the text to the version
//! capability's parser.

use vstd::prelude::*;
use vstd::string::StringExecFns;
use crate::comparator::Comparator;
use crate::error::{err_is, ErrModel, VersError};
use crate::text::{chars_to_string, contains_char, str_to_chars, trim, trim_chars, vec_subrange};
use crate::version::VT;

verus! {

/// A version constraint: a comparator and a version.
///
/// The version of an `Any` constraint is the capability's default; it is a
/// sentinel and never takes part in a comparison.
#[derive(Debug, PartialEq, Eq)]
pub struct VersionConstraint<V: VT> {
    /// The comparator of this constraint.
    pub comparator: Comparator,
    /// The version the comparator relates candidate versions to.
    pub version: V,
}

/// The mathematical content of a constraint.
#[verifier::ext_equal]
pub ghost struct ConstraintModel<T> {
    pub comparator: Comparator,
    pub version: T,
}

impl<V: VT> View for VersionConstraint<V> {
    type V = ConstraintModel<V::V>;

    open spec fn view(&self) -> ConstraintModel<V::V> {
        ConstraintModel { comparator: self.comparator, version: self.version@ }
    }
}

/// What percent-decoding yields on given text: every `%` followed by two hex
/// digits becomes the encoded byte, other input bytes pass through; `None`
/// where the decoded bytes are not valid UTF-8.
pub uninterp spec fn percent_decoded(s: Seq<char>) -> Option<Seq<char>>;

/// Relies on `percent_encoding::percent_decode_str` and
/// `PercentDecode::decode_utf8`: decoding is a pure function of the text
/// alone.
#[verifier::external_body]
fn percent_decode_chars(s: &Vec<char>) -> (r: Option<Vec<char>>)
    ensures
        match r {
            Some(t) => percent_decoded(s@) == Some(t@),
            None => percent_decoded(s@) is None,
        },
{
    let text: String = s.iter().collect();
    match percent_encoding::percent_decode_str(&text).decode_utf8() {
        Ok(d) => Some(d.chars().collect()),
        Err(_) => None,
    }
}

/// The comparator prefix of a token and the rest, the version text. The
/// two-character operators are matched before the one-character ones; a token
/// without an operator prefix is an implicit `=`.
pub open spec fn op_split(tok: Seq<char>) -> (Comparator, Seq<char>) {
    if tok.len() >= 2 && tok[0] == '>' && tok[1] == '=' {
        (Comparator::GreaterThanOrEqual, tok.skip(2))
    } else if tok.len() >= 2 && tok[0] == '<' && tok[1] == '=' {
        (Comparator::LessThanOrEqual, tok.skip(2))
    } else if tok.len() >= 2 && tok[0] == '!' && tok[1] == '=' {
        (Comparator::NotEqual, tok.skip(2))
    } else if tok.len() >= 1 && tok[0] == '>' {
        (Comparator::GreaterThan, tok.skip(1))
    } else if tok.len() >= 1 && tok[0] == '<' {
        (Comparator::LessThan, tok.skip(1))
    } else {
        (Comparator::Equal, tok)
    }
}

/// What parsing one constraint token yields: the constraint, or the error.
///
/// An empty token and a token whose version text is empty are rejected; the
/// token `*` is the `Any` constraint with the default version; version text
/// carrying a percent sign is percent-decoded before the version capability
/// parses it.
pub open spec fn token_parse<V: VT>(tok: Seq<char>) -> Result<ConstraintModel<V::V>, ErrModel> {
    if tok.len() == 0 {
        Err(ErrModel::InvalidConstraint)
    } else if tok == seq!['*'] {
        Ok(ConstraintModel { comparator: Comparator::Any, version: V::default_vspec() })
    } else {
        let (comparator, rest) = op_split(tok);
        let version_text = trim(rest);
        if version_text.len() == 0 {
            Err(ErrModel::InvalidConstraint)
        } else {
            let decoded = if version_text.contains('%') {
                percent_decoded(version_text)
            } else {
                Some(version_text)
            };
            match decoded {
                None => Err(ErrModel::InvalidConstraint),
                Some(d) => match V::parse_vspec(d) {
                    None => Err(ErrModel::InvalidConstraint),
                    Some(v) => Ok(ConstraintModel { comparator, version: v }),
                },
            }
        }
    }
}

impl<V: VT> VersionConstraint<V> {
    /// A constraint from its two parts.
    pub fn new(comparator: Comparator, version: V) -> (r: Self)
        ensures
            r.comparator == comparator,
            r.version == version,
    {
        Self { comparator, version }
    }

    /// Parses one constraint token, already trimmed of outer whitespace.
    ///
    /// Succeeds exactly where `token_parse` does, and yields the constraint
    /// that `token_parse` names. The version of a parsed constraint is
    /// well-formed; the version of a parsed `Any` is the default.
    pub fn parse(constraint_str: &str) -> (r: Result<Self, VersError>)
        ensures
            match r {
                Ok(c) => {
                    &&& token_parse::<V>(constraint_str@) == Ok::<_, ErrModel>(c@)
                    &&& c@.comparator != Comparator::Any ==> V::wf_v(c@.version)
                    &&& c@.comparator == Comparator::Any ==> c@.version == V::default_vspec()
                },
                Err(e) => {
                    &&& token_parse::<V>(constraint_str@) is Err
                    &&& err_is(e, token_parse::<V>(constraint_str@)->Err_0)
                    &&& constraint_str@.len() == 0 ==> (e matches VersError::InvalidConstraint(d)
                        && d@ == "Empty constraint"@)
                    &&& (constraint_str@.len() > 0 && constraint_str@ != seq!['*'] && trim(
                        op_split(constraint_str@).1,
                    ).len() == 0) ==> (e matches VersError::InvalidConstraint(d) && d@
                        == "Missing version"@)
                },
            },
    {
        let chars = str_to_chars(constraint_str);
        Self::parse_chars(&chars)
    }

    /// Parses one constraint token given as characters; see `parse`.
    pub fn parse_chars(chars: &Vec<char>) -> (r: Result<Self, VersError>)
        ensures
            match r {
                Ok(c) => {
                    &&& token_parse::<V>(chars@) == Ok::<_, ErrModel>(c@)
                    &&& c@.comparator != Comparator::Any ==> V::wf_v(c@.version)
                    &&& c@.comparator == Comparator::Any ==> c@.version == V::default_vspec()
                },
                Err(e) => {
                    &&& token_parse::<V>(chars@) is Err
                    &&& err_is(e, token_parse::<V>(chars@)->Err_0)
                    &&& chars@.len() == 0 ==> (e matches VersError::InvalidConstraint(d) && d@
                        == "Empty constraint"@)
                    &&& (chars@.len() > 0 && chars@ != seq!['*'] && trim(op_split(chars@).1).len()
                        == 0) ==> (e matches VersError::InvalidConstraint(d) && d@
                        == "Missing version"@)
                },
            },
    {
        let n = chars.len();
        if n == 0 {
            return Err(VersError::InvalidConstraint(String::from_str("Empty constraint")));
        }
        if n == 1 && chars[0] == '*' {
            proof {
                assert(chars@ =~= seq!['*']);
            }
            return Ok(Self { comparator: Comparator::Any, version: V::default_v() });
        }
        proof {
            assert(chars@ != seq!['*']);
        }
        let (comparator, rest) = if n >= 2 && chars[0] == '>' && chars[1] == '=' {
            (Comparator::GreaterThanOrEqual, vec_subrange(chars, 2, n))
        } else if n >= 2 && chars[0] == '<' && chars[1] == '=' {
            (Comparator::LessThanOrEqual, vec_subrange(chars, 2, n))
        } else if n >= 2 && chars[0] == '!' && chars[1] == '=' {
            (Comparator::NotEqual, vec_subrange(chars, 2, n))
        } else if chars[0] == '>' {
            (Comparator::GreaterThan, vec_subrange(chars, 1, n))
        } else if chars[0] == '<' {
            (Comparator::LessThan, vec_subrange(chars, 1, n))
        } else {
            (Comparator::Equal, vec_subrange(chars, 0, n))
        };
        proof {
            assert(chars@.skip(2) =~= chars@.subrange(2, n as int));
            assert(chars@.skip(1) =~= chars@.subrange(1, n as int));
            assert(chars@.skip(0) =~= chars@.subrange(0, n as int));
            assert(op_split(chars@) == (comparator, rest@));
        }
        let version_text = trim_chars(&rest);
        if version_text.len() == 0 {
            proof {
                reveal_strlit("Missing version");
            }
            return Err(VersError::InvalidConstraint(String::from_str("Missing version")));
        }
        let decoded: Vec<char> = if contains_char(&version_text, '%') {
            match percent_decode_chars(&version_text) {
                Some(d) => d,
                None => {
                    let mut msg = String::from_str("Invalid URL encoding: ");
                    msg.append(chars_to_string(&version_text).as_str());
                    return Err(VersError::InvalidConstraint(msg));
                },
            }
        } else {
            version_text
        };
        match V::parse_v(&decoded) {
            Ok(v) => Ok(Self { comparator, version: v }),
            Err(_) => {
                let mut msg = String::from_str("Failed to parse version: ");
                msg.append(chars_to_string(&decoded).as_str());
                Err(VersError::InvalidConstraint(msg))
            },
        }
    }
}

} // verus!
