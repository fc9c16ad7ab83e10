//! Semantic versions: parsing tag names, ordering, and bump arithmetic.

use vstd::prelude::*;
use vstd::string::*;

use crate::text::dec_str;
use crate::text::u64_to_string;

verus! {

/// What `semver::Version::parse` makes of a text: `Some` of the numeric
/// `(major, minor, patch)` triple when the text is a well-formed semantic
/// version, `None` otherwise. The outcome depends on the text alone.
pub uninterp spec fn semver_triple(s: Seq<char>) -> Option<(u64, u64, u64)>;

/// Relies on `semver::Version::parse`: it parses
/// `major.minor.patch[-prerelease][+metadata]`, never panics, and its
/// outcome is a pure function of the text.
#[verifier::external_body]
fn parse_semver_triple(s: &str) -> (r: Option<(u64, u64, u64)>)
    ensures
        r == semver_triple(s@),
{
    match semver::Version::parse(s) {
        Ok(v) => Some((v.major, v.minor, v.patch)),
        Err(_) => None,
    }
}

/// A semantic version reduced to its numeric triple. Pre-release and build
/// metadata in a tag name are accepted by the parser but do not take part
/// in ordering or bumping.
#[derive(Clone, Copy, PartialEq, Eq, Structural, Debug)]
pub struct SemanticVersion {
    pub major: u64,
    pub minor: u64,
    pub patch: u64,
}

/// Which component of a version a release increments.
#[derive(Clone, Copy, PartialEq, Eq, Structural, Debug)]
pub enum VersionBump {
    Patch,
    Minor,
    Major,
}

/// Strict lexicographic order on (major, minor, patch).
pub open spec fn version_lt(a: SemanticVersion, b: SemanticVersion) -> bool {
    a.major < b.major
        || (a.major == b.major && a.minor < b.minor)
        || (a.major == b.major && a.minor == b.minor && a.patch < b.patch)
}

pub open spec fn version_le(a: SemanticVersion, b: SemanticVersion) -> bool {
    version_lt(a, b) || a == b
}

/// The version a bump produces: the chosen component incremented, every
/// lower-order component zeroed.
pub open spec fn bump_spec(v: SemanticVersion, kind: VersionBump) -> SemanticVersion {
    match kind {
        VersionBump::Major => SemanticVersion { major: (v.major + 1) as u64, minor: 0, patch: 0 },
        VersionBump::Minor => SemanticVersion {
            major: v.major,
            minor: (v.minor + 1) as u64,
            patch: 0,
        },
        VersionBump::Patch => SemanticVersion {
            major: v.major,
            minor: v.minor,
            patch: (v.patch + 1) as u64,
        },
    }
}

/// A tag name with one leading `v` stripped, if it has one.
pub open spec fn strip_v_spec(s: Seq<char>) -> Seq<char> {
    if s.len() > 0 && s[0] == 'v' {
        s.subrange(1, s.len() as int)
    } else {
        s
    }
}

/// The version a tag name stands for: the name, less one optional leading
/// `v`, read as a semantic version; `None` when it is not one.
pub open spec fn parse_spec(name: Seq<char>) -> Option<SemanticVersion> {
    match semver_triple(strip_v_spec(name)) {
        Some(t) => Some(SemanticVersion { major: t.0, minor: t.1, patch: t.2 }),
        None => None,
    }
}

impl SemanticVersion {
    /// Reads a tag name as a semantic version, tolerating one leading `v`.
    /// Malformed names yield `None`, never an error.
    pub fn parse(tag_name: &str) -> (r: Option<SemanticVersion>)
        ensures
            r == parse_spec(tag_name@),
    {
        let len = tag_name.unicode_len();
        let rest = if len > 0 && tag_name.get_char(0) == 'v' {
            tag_name.substring_char(1, len)
        } else {
            tag_name
        };
        assert(rest@ == strip_v_spec(tag_name@));
        match parse_semver_triple(rest) {
            Some(t) => Some(SemanticVersion { major: t.0, minor: t.1, patch: t.2 }),
            None => None,
        }
    }

    /// Executable strict comparison, matching `version_lt`.
    pub fn lt(&self, other: &SemanticVersion) -> (r: bool)
        ensures
            r == version_lt(*self, *other),
    {
        self.major < other.major
            || (self.major == other.major && self.minor < other.minor)
            || (self.major == other.major && self.minor == other.minor
                && self.patch < other.patch)
    }

    /// The next version for the requested bump kind: the chosen component
    /// is incremented and every lower-order component is zeroed.
    pub fn bump(&self, kind: VersionBump) -> (r: SemanticVersion)
        requires
            kind is Major ==> self.major < u64::MAX,
            kind is Minor ==> self.minor < u64::MAX,
            kind is Patch ==> self.patch < u64::MAX,
        ensures
            r == bump_spec(*self, kind),
            kind is Major ==> r.major == self.major + 1 && r.minor == 0 && r.patch == 0,
            kind is Minor ==> r.major == self.major && r.minor == self.minor + 1 && r.patch == 0,
            kind is Patch ==> r.major == self.major && r.minor == self.minor && r.patch == self.patch
                + 1,
            version_lt(*self, r),
    {
        match kind {
            VersionBump::Major => SemanticVersion { major: self.major + 1, minor: 0, patch: 0 },
            VersionBump::Minor => SemanticVersion {
                major: self.major,
                minor: self.minor + 1,
                patch: 0,
            },
            VersionBump::Patch => SemanticVersion {
                major: self.major,
                minor: self.minor,
                patch: self.patch + 1,
            },
        }
    }
}

/// Renders a value as a `v`-prefixed string, the shape release tags use.
pub trait ToVString {
    /// The characters `to_v_string` produces.
    spec fn v_string_spec(&self) -> Seq<char>;

    fn to_v_string(&self) -> (r: String)
        ensures
            r@ == self.v_string_spec(),
    ;
}

impl ToVString for SemanticVersion {
    open spec fn v_string_spec(&self) -> Seq<char> {
        seq!['v'] + dec_str(self.major as nat) + seq!['.'] + dec_str(self.minor as nat) + seq!['.']
            + dec_str(self.patch as nat)
    }

    fn to_v_string(&self) -> (r: String) {
        proof {
            reveal_strlit("v");
            reveal_strlit(".");
        }
        let mut s = String::from_str("v");
        s.append(u64_to_string(self.major).as_str());
        s.append(".");
        s.append(u64_to_string(self.minor).as_str());
        s.append(".");
        s.append(u64_to_string(self.patch).as_str());
        proof {
            assert(s@ =~= self.v_string_spec());
        }
        s
    }
}

/// The order on versions is total: any two versions compare, and strict
/// comparison is irreflexive and transitive.
pub proof fn lemma_version_order_total(a: SemanticVersion, b: SemanticVersion, c: SemanticVersion)
    ensures
        version_lt(a, b) || version_lt(b, a) || a == b,
        !(version_lt(a, b) && version_lt(b, a)),
        version_lt(a, b) && version_lt(b, c) ==> version_lt(a, c),
{
}

} // verus!
