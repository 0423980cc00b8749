//! Semantic versions and version requirements, backed by the `semver` crate.
//!
//! A [`SemVer`] keeps the text it was parsed from together with the numeric
//! part of the version; a [`Requirement`] keeps its source text. Contracts speak
//! of those texts, and of what the `semver` crate computes from them.

use vstd::prelude::*;
use core::cmp::Ordering;

verus! {

#[verifier::external_type_specification]
#[verifier::external_body]
pub struct ExSemverVersion(semver::Version);

#[verifier::external_type_specification]
#[verifier::external_body]
pub struct ExSemverVersionReq(semver::VersionReq);

#[verifier::external_type_specification]
#[verifier::external_body]
pub struct ExSemverError(semver::Error);

/// What `semver::Version::parse` makes of a text: `None` when it is rejected,
/// otherwise the major, minor and patch numbers and the pre-release text
/// (empty for a release).
pub uninterp spec fn semver_parse(s: Seq<char>) -> Option<(u64, u64, u64, Seq<char>)>;

/// Whether `semver::VersionReq::parse` accepts a text.
pub uninterp spec fn semver_req_valid(s: Seq<char>) -> bool;

/// What `semver::VersionReq::matches` answers for the requirement parsed from
/// `req` and the version parsed from `version`.
pub uninterp spec fn semver_req_matches(req: Seq<char>, version: Seq<char>) -> bool;

/// What `Ord for semver::Version` answers for the versions parsed from two texts.
pub uninterp spec fn semver_order(a: Seq<char>, b: Seq<char>) -> Ordering;

/// The precedence key of a version text: major, minor, patch, release flag.
pub open spec fn version_key(s: Seq<char>) -> (u64, u64, u64, bool) {
    match semver_parse(s) {
        Some(k) => (k.0, k.1, k.2, k.3.len() == 0),
        None => (0, 0, 0, false),
    }
}

/// Strict lexicographic order on precedence keys; a pre-release ranks below
/// the release with the same numbers.
pub open spec fn key_lt(a: (u64, u64, u64, bool), b: (u64, u64, u64, bool)) -> bool {
    a.0 < b.0 || (a.0 == b.0 && (a.1 < b.1 || (a.1 == b.1 && (a.2 < b.2 || (a.2 == b.2
        && !a.3 && b.3)))))
}

/// The reverse of an ordering.
pub open spec fn flip(o: Ordering) -> Ordering {
    match o {
        Ordering::Less => Ordering::Greater,
        Ordering::Equal => Ordering::Equal,
        Ordering::Greater => Ordering::Less,
    }
}

/// Whether a text parses as a semantic version.
pub open spec fn is_version(s: Seq<char>) -> bool {
    semver_parse(s) is Some
}

/// A parsed semantic version, with the text it came from. Only
/// `semver_version_parse` builds one, so `inner` is always what `semver`
/// parsed from `text`.
pub struct SemVer {
    text: String,
    major: u64,
    minor: u64,
    patch: u64,
    pre: String,
    inner: semver::Version,
}

impl View for SemVer {
    type V = Seq<char>;

    closed spec fn view(&self) -> Seq<char> {
        self.text@
    }
}

impl SemVer {
    #[verifier::type_invariant]
    closed spec fn wf(&self) -> bool {
        semver_parse(self.text@) == Some((self.major, self.minor, self.patch, self.pre@))
    }

    /// The text this version was parsed from.
    pub fn as_text(&self) -> (r: &str)
        ensures
            r@ == self@,
    {
        self.text.as_str()
    }

    /// The major, minor and patch numbers and the release flag.
    pub fn key(&self) -> (r: (u64, u64, u64, bool))
        ensures
            r == version_key(self@),
            is_version(self@),
    {
        proof {
            use_type_invariant(self);
        }
        (self.major, self.minor, self.patch, self.pre.unicode_len() == 0)
    }
}

/// Relies on `semver::Version::parse`, which accepts or rejects a text and
/// reads its numbers and pre-release part from it alone.
#[verifier::external_body]
fn semver_version_parse(s: &str) -> (r: Result<SemVer, semver::Error>)
    ensures
        r is Ok <==> semver_parse(s@) is Some,
        r matches Ok(v) ==> v@ == s@,
        r matches Ok(v) ==> semver_parse(s@) == Some((v.major, v.minor, v.patch, v.pre@)),
{
    match semver::Version::parse(s) {
        Ok(v) => Ok(SemVer {
            text: s.to_string(),
            major: v.major,
            minor: v.minor,
            patch: v.patch,
            pre: v.pre.as_str().to_string(),
            inner: v,
        }),
        Err(e) => Err(e),
    }
}

/// Parses a version text; `None` when it is not a semantic version.
pub fn parse_version(s: &str) -> (r: Option<SemVer>)
    ensures
        r is Some <==> is_version(s@),
        r matches Some(v) ==> v@ == s@,
{
    match semver_version_parse(s) {
        Ok(v) => Some(v),
        Err(_) => None,
    }
}

/// Relies on `Ord for semver::Version`, which compares major, minor and patch
/// numerically first, and ranks a release above any of its pre-releases. It
/// is a total order: swapping the arguments reverses the answer, it is
/// transitive, and since `Version::parse` accepts only the canonical text of a
/// version, two versions compare `Equal` exactly when their texts are equal.
#[verifier::external_body]
fn semver_cmp(a: &SemVer, b: &SemVer) -> (r: Ordering)
    ensures
        r == semver_order(a@, b@),
        key_lt(version_key(a@), version_key(b@)) ==> r == Ordering::Less,
        key_lt(version_key(b@), version_key(a@)) ==> r == Ordering::Greater,
        semver_order(b@, a@) == flip(r),
        (r == Ordering::Equal) == (a@ == b@),
        r == Ordering::Less ==> forall|c: Seq<char>|
            is_version(c) && #[trigger] semver_order(c, a@) == Ordering::Less ==> semver_order(c, b@)
                == Ordering::Less,
        r == Ordering::Less ==> forall|c: Seq<char>|
            is_version(c) && #[trigger] semver_order(a@, c) == Ordering::Greater ==> semver_order(
                b@,
                c,
            ) == Ordering::Greater,
{
    a.inner.cmp(&b.inner)
}

/// Compares two versions by semantic-version precedence.
pub fn compare_versions(a: &SemVer, b: &SemVer) -> (r: Ordering)
    ensures
        r == semver_order(a@, b@),
        key_lt(version_key(a@), version_key(b@)) ==> r == Ordering::Less,
        key_lt(version_key(b@), version_key(a@)) ==> r == Ordering::Greater,
        semver_order(b@, a@) == flip(r),
        (r == Ordering::Equal) == (a@ == b@),
        r == Ordering::Less ==> forall|c: Seq<char>|
            is_version(c) && #[trigger] semver_order(c, a@) == Ordering::Less ==> semver_order(c, b@)
                == Ordering::Less,
        r == Ordering::Less ==> forall|c: Seq<char>|
            is_version(c) && #[trigger] semver_order(a@, c) == Ordering::Greater ==> semver_order(
                b@,
                c,
            ) == Ordering::Greater,
{
    semver_cmp(a, b)
}

/// A parsed version requirement (a range such as `^4.0.0` or `>=1.2, <2`),
/// with the text it came from. Only `semver_req_parse` builds one, so `inner`
/// is always what `semver` parsed from `text`.
pub struct Requirement {
    text: String,
    inner: semver::VersionReq,
}

impl View for Requirement {
    type V = Seq<char>;

    closed spec fn view(&self) -> Seq<char> {
        self.text@
    }
}

/// Relies on `semver::VersionReq::parse`, which accepts or rejects a text
/// depending on the text alone.
#[verifier::external_body]
fn semver_req_parse(s: &str) -> (r: Result<Requirement, semver::Error>)
    ensures
        r is Ok <==> semver_req_valid(s@),
        r matches Ok(q) ==> q@ == s@,
{
    match semver::VersionReq::parse(s) {
        Ok(inner) => Ok(Requirement { text: s.to_string(), inner }),
        Err(e) => Err(e),
    }
}

/// Parses a requirement text; `None` when it is not a valid range.
pub fn parse_requirement(s: &str) -> (r: Option<Requirement>)
    ensures
        r is Some <==> semver_req_valid(s@),
        r matches Some(q) ==> q@ == s@,
{
    match semver_req_parse(s) {
        Ok(q) => Some(q),
        Err(_) => None,
    }
}

/// Relies on `semver::VersionReq::matches`, applied to the requirement and
/// version that were parsed from the two texts.
#[verifier::external_body]
fn semver_req_match(q: &Requirement, v: &SemVer) -> (r: bool)
    ensures
        r == semver_req_matches(q@, v@),
{
    q.inner.matches(&v.inner)
}

impl Requirement {
    /// Whether a version satisfies this requirement.
    pub fn matches(&self, v: &SemVer) -> (r: bool)
        ensures
            r == semver_req_matches(self@, v@),
    {
        semver_req_match(self, v)
    }
}

} // verus!
