//! Semantic versions, the version capability behind the `npm` and `semver`
//! schemes.
//!
//! The grammar of semantic-version text belongs to the `semver` crate; this
//! module keeps, as plain values, what the range engine reads of a parsed
//! version: the numeric triple, the pre-release and build texts, and the
//! canonical text itself. Versions order by semantic-versioning precedence:
//! numeric on the triple, then the pre-release rules (a pre-release before
//! its release, identifiers element by element), then build metadata the same
//! way; textual tiebreaks close the order on values no parser would produce.

use vstd::prelude::*;
use vstd::string::StringExecFns;
use crate::error::VersError;
use crate::precedence::{
    build_cmp, build_cmp_x, lemma_build_cmp_facts, lemma_pre_cmp_facts, pre_cmp, pre_cmp_x,
};
use crate::text::{chars_to_string, is_ws, seq_le, str_seq_le};
use crate::text::{lemma_seq_le_antisymmetric, lemma_seq_le_total, lemma_seq_le_transitive};
use crate::version::{plain_version_text, VT};

verus! {

/// A semantic version: numeric triple, pre-release and build identifier
/// texts, and the canonical text the version was parsed from.
#[derive(Debug)]
pub struct SemVer {
    /// The major version number.
    pub major: u64,
    /// The minor version number.
    pub minor: u64,
    /// The patch version number.
    pub patch: u64,
    /// The pre-release identifiers, empty for a plain release.
    pub pre: String,
    /// The build metadata, empty when absent.
    pub build: String,
    /// The canonical text of the whole version.
    pub text: String,
}

/// The mathematical content of a `SemVer`.
#[verifier::ext_equal]
pub ghost struct SemVerView {
    pub major: u64,
    pub minor: u64,
    pub patch: u64,
    pub pre: Seq<char>,
    pub build: Seq<char>,
    pub text: Seq<char>,
}

impl View for SemVer {
    type V = SemVerView;

    open spec fn view(&self) -> SemVerView {
        SemVerView {
            major: self.major,
            minor: self.minor,
            patch: self.patch,
            pre: self.pre@,
            build: self.build@,
            text: self.text@,
        }
    }
}

/// A character that may appear in semantic-version text: ASCII alphanumerics,
/// `.`, `-` and `+`.
pub open spec fn semver_char(c: char) -> bool {
    ||| '0' <= c && c <= '9'
    ||| 'a' <= c && c <= 'z'
    ||| 'A' <= c && c <= 'Z'
    ||| c == '.'
    ||| c == '-'
    ||| c == '+'
}

/// Text shaped like a semantic version: non-empty, over the semantic-version
/// alphabet, opening with a digit.
pub open spec fn semver_text(s: Seq<char>) -> bool {
    &&& s.len() > 0
    &&& (forall|i: int| 0 <= i < s.len() ==> semver_char(#[trigger] s[i]))
    &&& '0' <= s[0] && s[0] <= '9'
}

/// Semantic-version text never disturbs the specifier grammar.
pub proof fn lemma_semver_text_plain(s: Seq<char>)
    requires
        semver_text(s),
    ensures
        plain_version_text(s),
{
    assert forall|i: int| 0 <= i < s.len() implies !is_ws(#[trigger] s[i]) && s[i] != '|' && s[i]
        != '%' && s[i] != '*' by {
        assert(semver_char(s[i]));
    }
}

/// What `semver::Version::parse` yields on given text: major, minor and patch
/// numbers and the pre-release and build identifier texts; `None` where the
/// text is not a valid semantic version.
pub uninterp spec fn semver_parsed(s: Seq<char>) -> Option<(u64, u64, u64, Seq<char>, Seq<char>)>;

/// Relies on `semver::Version::parse` (with the public `major`/`minor`/`patch`
/// fields and the `as_str` accessors of `Prerelease` and `BuildMetadata`):
/// parsing is a pure function of the text alone; text it accepts is non-empty,
/// opens with an ASCII digit, and holds only ASCII alphanumerics, `.`, `-`
/// and `+`.
#[verifier::external_body]
fn semver_parse_raw(s: &Vec<char>) -> (r: Result<SemVer, String>)
    ensures
        match r {
            Ok(v) => {
                &&& semver_parsed(s@) == Some((v.major, v.minor, v.patch, v.pre@, v.build@))
                &&& v.text@ == s@
                &&& semver_text(s@)
            },
            Err(_) => semver_parsed(s@) is None,
        },
{
    let text: String = s.iter().collect();
    match semver::Version::parse(&text) {
        Ok(v) => Ok(SemVer {
            major: v.major,
            minor: v.minor,
            patch: v.patch,
            pre: v.pre.as_str().to_string(),
            build: v.build.as_str().to_string(),
            text,
        }),
        Err(e) => Err(e.to_string()),
    }
}

/// Strict lexicographic order on character sequences.
pub open spec fn seq_lt(a: Seq<char>, b: Seq<char>) -> bool {
    seq_le(a, b) && a != b
}

impl VT for SemVer {
    open spec fn le_spec(a: SemVerView, b: SemVerView) -> bool {
        if a.major != b.major {
            a.major < b.major
        } else if a.minor != b.minor {
            a.minor < b.minor
        } else if a.patch != b.patch {
            a.patch < b.patch
        } else if pre_cmp(a.pre, b.pre) != 0 {
            pre_cmp(a.pre, b.pre) < 0
        } else if build_cmp(a.build, b.build) != 0 {
            build_cmp(a.build, b.build) < 0
        } else if a.pre != b.pre {
            seq_lt(a.pre, b.pre)
        } else if a.build != b.build {
            seq_lt(a.build, b.build)
        } else if a.text != b.text {
            seq_lt(a.text, b.text)
        } else {
            true
        }
    }

    open spec fn parse_vspec(s: Seq<char>) -> Option<SemVerView> {
        match semver_parsed(s) {
            Some(t) => Some(
                SemVerView {
                    major: t.0,
                    minor: t.1,
                    patch: t.2,
                    pre: t.3,
                    build: t.4,
                    text: s,
                },
            ),
            None => None,
        }
    }

    open spec fn display_vspec(v: SemVerView) -> Seq<char> {
        v.text
    }

    open spec fn default_vspec() -> SemVerView {
        SemVerView {
            major: 0,
            minor: 0,
            patch: 0,
            pre: Seq::empty(),
            build: Seq::empty(),
            text: "0.0.0"@,
        }
    }

    open spec fn wf_v(v: SemVerView) -> bool {
        &&& semver_parsed(v.text) == Some((v.major, v.minor, v.patch, v.pre, v.build))
        &&& semver_text(v.text)
    }

    proof fn lemma_le_total(a: SemVerView, b: SemVerView, c: SemVerView) {
        lemma_pre_cmp_facts(a.pre, b.pre, c.pre);
        lemma_pre_cmp_facts(b.pre, c.pre, a.pre);
        lemma_pre_cmp_facts(c.pre, a.pre, b.pre);
        lemma_build_cmp_facts(a.build, b.build, c.build);
        lemma_build_cmp_facts(b.build, c.build, a.build);
        lemma_build_cmp_facts(c.build, a.build, b.build);
        lemma_seq_le_total(a.pre, b.pre);
        lemma_seq_le_total(b.pre, c.pre);
        lemma_seq_le_total(a.pre, c.pre);
        lemma_seq_le_total(a.build, b.build);
        lemma_seq_le_total(b.build, c.build);
        lemma_seq_le_total(a.build, c.build);
        lemma_seq_le_total(a.text, b.text);
        lemma_seq_le_total(b.text, c.text);
        lemma_seq_le_total(a.text, c.text);
        if Self::le_spec(a, b) && Self::le_spec(b, a) {
            if a.pre == b.pre && a.build == b.build && a.text == b.text && a.major == b.major
                && a.minor == b.minor && a.patch == b.patch {
                assert(a =~= b);
            } else {
                if a.pre != b.pre {
                    lemma_seq_le_antisymmetric(a.pre, b.pre);
                } else if a.build != b.build {
                    lemma_seq_le_antisymmetric(a.build, b.build);
                } else if a.text != b.text {
                    lemma_seq_le_antisymmetric(a.text, b.text);
                }
                assert(a =~= b);
            }
        }
        if Self::le_spec(a, b) && Self::le_spec(b, c) {
            if a.pre == b.pre || seq_le(a.pre, b.pre) {
            }
            if seq_le(a.pre, b.pre) && seq_le(b.pre, c.pre) {
                lemma_seq_le_transitive(a.pre, b.pre, c.pre);
            }
            if seq_le(a.build, b.build) && seq_le(b.build, c.build) {
                lemma_seq_le_transitive(a.build, b.build, c.build);
            }
            if seq_le(a.text, b.text) && seq_le(b.text, c.text) {
                lemma_seq_le_transitive(a.text, b.text, c.text);
            }
            if seq_le(a.pre, b.pre) && b.pre == c.pre {
            }
            assert(Self::le_spec(a, c));
        }
    }

    proof fn lemma_display_round_trip(v: SemVerView) {
        lemma_semver_text_plain(v.text);
        assert(Self::parse_vspec(Self::display_vspec(v)) == Some(v)) by {
            let w = Self::parse_vspec(v.text).unwrap();
            assert(w =~= v);
        }
    }

    fn le_v(&self, other: &Self) -> (r: bool) {
        if self.major != other.major {
            return self.major < other.major;
        }
        if self.minor != other.minor {
            return self.minor < other.minor;
        }
        if self.patch != other.patch {
            return self.patch < other.patch;
        }
        let pc = pre_cmp_x(self.pre.as_str(), other.pre.as_str());
        if pc != 0 {
            return pc < 0;
        }
        let bc = build_cmp_x(self.build.as_str(), other.build.as_str());
        if bc != 0 {
            return bc < 0;
        }
        if !(self.pre == other.pre) {
            return str_seq_le(self.pre.as_str(), other.pre.as_str());
        }
        if !(self.build == other.build) {
            return str_seq_le(self.build.as_str(), other.build.as_str());
        }
        if !(self.text == other.text) {
            return str_seq_le(self.text.as_str(), other.text.as_str());
        }
        true
    }

    fn parse_v(s: &Vec<char>) -> (r: Result<Self, VersError>) {
        match semver_parse_raw(s) {
            Ok(v) => {
                proof {
                    assert(Self::parse_vspec(s@).unwrap() =~= v@);
                }
                Ok(v)
            },
            Err(msg) => Err(
                VersError::InvalidVersionFormat(
                    String::from_str("semver/npm"),
                    chars_to_string(s),
                    msg,
                ),
            ),
        }
    }

    fn display_v(&self) -> (r: String) {
        self.text.clone()
    }

    fn default_v() -> (r: Self) {
        let r = SemVer {
            major: 0,
            minor: 0,
            patch: 0,
            pre: String::new(),
            build: String::new(),
            text: String::from_str("0.0.0"),
        };
        proof {
            assert(r@ =~= Self::default_vspec());
        }
        r
    }
}

impl SemVer {
    /// The canonical text of the version.
    pub fn display(&self) -> (r: String)
        ensures
            r@ == self.text@,
    {
        self.text.clone()
    }
}

impl PartialEq for SemVer {
    fn eq(&self, other: &Self) -> (r: bool) {
        self.major == other.major && self.minor == other.minor && self.patch == other.patch
            && self.pre == other.pre && self.build == other.build && self.text == other.text
    }
}

impl Eq for SemVer {

}

impl vstd::std_specs::cmp::PartialEqSpecImpl for SemVer {
    open spec fn obeys_eq_spec() -> bool {
        true
    }

    open spec fn eq_spec(&self, other: &Self) -> bool {
        self@ == other@
    }
}

impl core::str::FromStr for SemVer {
    type Err = VersError;

    fn from_str(s: &str) -> Result<Self, VersError> {
        let chars = crate::text::str_to_chars(s);
        <SemVer as VT>::parse_v(&chars)
    }
}

} // verus!
