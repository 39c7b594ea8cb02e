//! The comparator of a version constraint.
//!
//! A comparator is one of the seven relational tags that may prefix a version
//! inside a range specifier: `=`, `!=`, `<`, `<=`, `>`, `>=` and `*`.

use vstd::prelude::*;

verus! {

/// Comparator for version constraints.
///
/// Each comparator defines how a candidate version is compared to the
/// constraint's own version when deciding containment.
#[derive(Debug, Clone, Copy, PartialEq, Eq, Structural)]
pub enum Comparator {
    /// Equal (`=`): the version must be exactly the constraint version.
    Equal,
    /// Not equal (`!=`): the version must differ from the constraint version.
    NotEqual,
    /// Less than (`<`).
    LessThan,
    /// Less than or equal (`<=`).
    LessThanOrEqual,
    /// Greater than (`>`).
    GreaterThan,
    /// Greater than or equal (`>=`).
    GreaterThanOrEqual,
    /// Any version (`*`); only legal as the sole constraint of a range.
    Any,
}

impl Comparator {
    /// A lower bound: `>` or `>=`.
    pub open spec fn is_lower_bound(self) -> bool {
        self == Comparator::GreaterThan || self == Comparator::GreaterThanOrEqual
    }

    /// An upper bound: `<` or `<=`.
    pub open spec fn is_upper_bound(self) -> bool {
        self == Comparator::LessThan || self == Comparator::LessThanOrEqual
    }

    /// A bound of either family.
    pub open spec fn is_bound(self) -> bool {
        self.is_lower_bound() || self.is_upper_bound()
    }

    /// The canonical textual form of the comparator.
    pub open spec fn symbol_spec(self) -> Seq<char> {
        match self {
            Comparator::Equal => seq!['='],
            Comparator::NotEqual => seq!['!', '='],
            Comparator::LessThan => seq!['<'],
            Comparator::LessThanOrEqual => seq!['<', '='],
            Comparator::GreaterThan => seq!['>'],
            Comparator::GreaterThanOrEqual => seq!['>', '='],
            Comparator::Any => seq!['*'],
        }
    }

    /// Decides `is_lower_bound`.
    pub fn is_lower(&self) -> (r: bool)
        ensures
            r == self.is_lower_bound(),
    {
        matches!(self, Comparator::GreaterThan | Comparator::GreaterThanOrEqual)
    }

    /// Decides `is_upper_bound`.
    pub fn is_upper(&self) -> (r: bool)
        ensures
            r == self.is_upper_bound(),
    {
        matches!(self, Comparator::LessThan | Comparator::LessThanOrEqual)
    }

    /// Decides `is_bound`.
    pub fn is_bound_c(&self) -> (r: bool)
        ensures
            r == self.is_bound(),
    {
        self.is_lower() || self.is_upper()
    }

    /// The canonical textual form, as a string slice.
    pub fn symbol(&self) -> (r: &'static str)
        ensures
            r@ == self.symbol_spec(),
    {
        match self {
            Comparator::Equal => {
                proof {
                    reveal_strlit("=");
                    assert("="@ =~= self.symbol_spec());
                }
                "="
            },
            Comparator::NotEqual => {
                proof {
                    reveal_strlit("!=");
                    assert("!="@ =~= self.symbol_spec());
                }
                "!="
            },
            Comparator::LessThan => {
                proof {
                    reveal_strlit("<");
                    assert("<"@ =~= self.symbol_spec());
                }
                "<"
            },
            Comparator::LessThanOrEqual => {
                proof {
                    reveal_strlit("<=");
                    assert("<="@ =~= self.symbol_spec());
                }
                "<="
            },
            Comparator::GreaterThan => {
                proof {
                    reveal_strlit(">");
                    assert(">"@ =~= self.symbol_spec());
                }
                ">"
            },
            Comparator::GreaterThanOrEqual => {
                proof {
                    reveal_strlit(">=");
                    assert(">="@ =~= self.symbol_spec());
                }
                ">="
            },
            Comparator::Any => {
                proof {
                    reveal_strlit("*");
                    assert("*"@ =~= self.symbol_spec());
                }
                "*"
            },
        }
    }
}

} // verus!
