//! Turning a requirement into one concrete version of a package.

use vstd::prelude::*;
use core::cmp::Ordering;
use crate::error::PmError;
use crate::registry::{get_latest_version, latest_answer, latest_tag, listed_versions, NpmResponse, NpmVersion};
use crate::deps::{inserted, Dependencies, Entries};
use crate::text::same_text;
use crate::version::{
    compare_versions, is_version, key_lt, parse_requirement, parse_version, semver_order,
    semver_req_matches, semver_req_valid, version_key, Requirement, SemVer,
};

verus! {

/// What a requirement text asks for.
pub enum VersionRequest {
    /// The version the registry tags `latest`.
    Latest,
    /// The greatest listed version within a range.
    Range(Requirement),
}

/// The listed versions that parse and satisfy the requirement `req`, in
/// listing order.
pub open spec fn satisfying(req: Seq<char>, listed: Seq<Seq<char>>) -> Seq<Seq<char>> {
    listed.filter(|v: Seq<char>| is_version(v) && semver_req_matches(req, v))
}

/// What resolving the range `req` against the listed versions `listed` must
/// give: the greatest satisfying version, or `NoMatchingVersion` exactly when
/// none satisfies it.
pub open spec fn range_answer(req: Seq<char>, listed: Seq<Seq<char>>, r: Result<String, PmError>) -> bool {
    let sat = satisfying(req, listed);
    &&& (r is Err <==> sat.len() == 0)
    &&& (r matches Err(e) ==> e == PmError::NoMatchingVersion)
    &&& (r matches Ok(v) ==> greatest_of(sat, v@))
}

/// `v` is one of `sat`, and above every other member of `sat` under
/// `semver`'s order; in particular no member has a greater precedence key.
pub open spec fn greatest_of(sat: Seq<Seq<char>>, v: Seq<char>) -> bool {
    &&& sat.contains(v)
    &&& forall|j: int| 0 <= j < sat.len() && sat[j] != v ==> {
        &&& semver_order(v, #[trigger] sat[j]) == Ordering::Greater
        &&& semver_order(sat[j], v) == Ordering::Less
    }
    &&& forall|j: int| 0 <= j < sat.len() ==> !key_lt(version_key(v), version_key(#[trigger] sat[j]))
}

/// The answer to a range depends only on which listed versions satisfy it,
/// not on the order of the listing nor on the versions that do not.
pub proof fn lemma_resolution_independent_of_listing(
    req: Seq<char>,
    l1: Seq<Seq<char>>,
    l2: Seq<Seq<char>>,
    r1: Result<String, PmError>,
    r2: Result<String, PmError>,
)
    requires
        forall|x: Seq<char>| satisfying(req, l1).contains(x) <==> satisfying(req, l2).contains(x),
        range_answer(req, l1, r1),
        range_answer(req, l2, r2),
    ensures
        r1 is Ok <==> r2 is Ok,
        r1 matches Ok(v1) ==> (r2 matches Ok(v2) && v1@ == v2@),
        r1 matches Err(e1) ==> (r2 matches Err(e2) && e1 == e2),
{
    let s1 = satisfying(req, l1);
    let s2 = satisfying(req, l2);
    if s1.len() == 0 && s2.len() > 0 {
        assert(s2.contains(s2[0]));
    }
    if s2.len() == 0 && s1.len() > 0 {
        assert(s1.contains(s1[0]));
    }
    if r1 is Ok && r2 is Ok {
        let v1 = r1->Ok_0@;
        let v2 = r2->Ok_0@;
        if v1 != v2 {
            let i = choose|i: int| 0 <= i < s1.len() && s1[i] == v2;
            let k = choose|k: int| 0 <= k < s2.len() && s2[k] == v1;
            assert(semver_order(v2, s1[i]) == Ordering::Less || semver_order(s1[i], v1) == Ordering::Less);
            assert(semver_order(v1, s2[k]) == Ordering::Less || semver_order(s2[k], v2) == Ordering::Less);
        }
    }
}

proof fn lemma_satisfying_valid(req: Seq<char>, listed: Seq<Seq<char>>)
    ensures
        forall|j: int| 0 <= j < satisfying(req, listed).len() ==> is_version(
            #[trigger] satisfying(req, listed)[j],
        ),
{
    let pred = |v: Seq<char>| is_version(v) && semver_req_matches(req, v);
    assert forall|j: int| 0 <= j < satisfying(req, listed).len() implies is_version(
        #[trigger] satisfying(req, listed)[j],
    ) by {
        listed.lemma_filter_pred(pred, j);
    }
}

/// Reads a requirement text: `latest`, or a version range.
pub fn parse_request(req: &str) -> (r: Result<VersionRequest, PmError>)
    ensures
        req@ == latest_tag() ==> r matches Ok(VersionRequest::Latest),
        req@ != latest_tag() ==> {
            &&& (r is Ok <==> semver_req_valid(req@))
            &&& (r matches Ok(VersionRequest::Range(q)) ==> q@ == req@)
            &&& !(r matches Ok(VersionRequest::Latest))
            &&& (r matches Err(e) ==> e == PmError::InvalidRequirement)
        },
{
    proof {
        reveal_strlit("latest");
        assert("latest"@ =~= latest_tag());
    }
    if same_text(req, "latest") {
        return Ok(VersionRequest::Latest);
    }
    match parse_requirement(req) {
        Some(q) => Ok(VersionRequest::Range(q)),
        None => Err(PmError::InvalidRequirement),
    }
}

/// The greatest listed version that satisfies `q`; `NoMatchingVersion` when
/// none does. Texts that are not semantic versions are passed over.
pub fn max_satisfying(q: &Requirement, versions: &Vec<(String, NpmVersion)>) -> (r: Result<
    String,
    PmError,
>)
    ensures
        range_answer(q@, versions@.map_values(|e: (String, NpmVersion)| e.0@), r),
{
    let ghost listed = versions@.map_values(|e: (String, NpmVersion)| e.0@);
    let mut best: Option<SemVer> = None;
    let mut i: usize = 0;
    while i < versions.len()
        invariant
            i <= versions@.len(),
            listed == versions@.map_values(|e: (String, NpmVersion)| e.0@),
            ({
                let sat = satisfying(q@, listed.take(i as int));
                &&& (best is None <==> sat.len() == 0)
                &&& (best matches Some(b) ==> greatest_of(sat, b@))
            }),
        decreases versions@.len() - i,
    {
        let ghost old_sat = satisfying(q@, listed.take(i as int));
        proof {
            assert(listed.take(i as int + 1).drop_last() =~= listed.take(i as int));
            assert(listed.take(i as int + 1).last() == listed[i as int]);
            reveal(Seq::filter);
        }
        let text = versions[i].0.as_str();
        match parse_version(text) {
            Some(v) => {
                if q.matches(&v) {
                    let ghost new_sat = satisfying(q@, listed.take(i as int + 1));
                    assert(new_sat =~= old_sat.push(v@));
                    match best {
                        None => {
                            assert(new_sat.len() == 1);
                            assert(new_sat[0] == v@);
                            best = Some(v);
                        },
                        Some(b) => {
                            assert(new_sat.drop_last() =~= old_sat);
                            proof {
                                lemma_satisfying_valid(q@, listed.take(i as int));
                            }
                            let c = compare_versions(&b, &v);
                            if matches!(c, Ordering::Less) {
                                assert forall|j: int| 0 <= j < new_sat.len() implies !key_lt(
                                    version_key(v@),
                                    version_key(#[trigger] new_sat[j]),
                                ) by {
                                    if j < old_sat.len() {
                                        assert(new_sat[j] == old_sat[j]);
                                    }
                                }
                                assert forall|j: int| 0 <= j < new_sat.len() && new_sat[j] != v@ implies {
                                    &&& semver_order(v@, #[trigger] new_sat[j]) == Ordering::Greater
                                    &&& semver_order(new_sat[j], v@) == Ordering::Less
                                } by {
                                    assert(new_sat[j] == old_sat[j]);
                                    let x = old_sat[j];
                                    assert(is_version(x));
                                    if x != b@ {
                                        assert(semver_order(b@, x) == Ordering::Greater);
                                        assert(semver_order(x, b@) == Ordering::Less);
                                    }
                                }
                                assert(new_sat.contains(v@)) by {
                                    assert(new_sat[new_sat.len() - 1] == v@);
                                }
                                best = Some(v);
                            } else {
                                assert forall|j: int| 0 <= j < new_sat.len() implies !key_lt(
                                    version_key(b@),
                                    version_key(#[trigger] new_sat[j]),
                                ) by {
                                    if j < old_sat.len() {
                                        assert(new_sat[j] == old_sat[j]);
                                    }
                                }
                                assert forall|j: int| 0 <= j < new_sat.len() && new_sat[j] != b@ implies {
                                    &&& semver_order(b@, #[trigger] new_sat[j]) == Ordering::Greater
                                    &&& semver_order(new_sat[j], b@) == Ordering::Less
                                } by {
                                    if j < old_sat.len() {
                                        assert(new_sat[j] == old_sat[j]);
                                    }
                                }
                                assert(new_sat.contains(b@)) by {
                                    let k = choose|k: int| 0 <= k < old_sat.len() && old_sat[k] == b@;
                                    assert(new_sat[k] == b@);
                                }
                                best = Some(b);
                            }
                        },
                    }
                } else {
                    assert(satisfying(q@, listed.take(i as int + 1)) =~= old_sat);
                }
            },
            None => {
                assert(satisfying(q@, listed.take(i as int + 1)) =~= old_sat);
            },
        }
        i = i + 1;
    }
    proof {
        assert(listed.take(versions@.len() as int) =~= listed);
    }
    match best {
        Some(b) => Ok(crate::text::owned(b.as_text())),
        None => Err(PmError::NoMatchingVersion),
    }
}

/// Resolves a parsed request against a package's metadata document.
pub fn select_version(request: &VersionRequest, resp: &NpmResponse) -> (r: Result<String, PmError>)
    ensures
        request is Latest ==> latest_answer(*resp, r),
        request matches VersionRequest::Range(q) ==> range_answer(q@, listed_versions(*resp), r),
{
    match request {
        VersionRequest::Latest => get_latest_version(resp),
        VersionRequest::Range(q) => max_satisfying(q, &resp.versions),
    }
}

/// Resolves a requirement text (`latest` or a version range) against a
/// package's metadata document: the tagged version, or the greatest listed
/// version in the range.
pub fn resolve_version(req: &str, resp: &NpmResponse) -> (r: Result<String, PmError>)
    ensures
        req@ == latest_tag() ==> latest_answer(*resp, r),
        req@ != latest_tag() && !semver_req_valid(req@) ==> r == Err::<String, PmError>(
            PmError::InvalidRequirement,
        ),
        req@ != latest_tag() && semver_req_valid(req@) ==> range_answer(req@, listed_versions(*resp), r),
{
    match parse_request(req) {
        Ok(request) => select_version(&request, resp),
        Err(e) => Err(e),
    }
}

/// The table that the outcomes of resolving several packages, in order, give
/// when none failed: each name set to its version, a later one winning.
pub open spec fn resolved_table(results: Seq<(String, Result<String, PmError>)>) -> Entries
    decreases results.len(),
{
    if results.len() == 0 {
        Seq::empty()
    } else {
        let t = resolved_table(results.drop_last());
        match results.last().1 {
            Ok(v) => inserted(t, results.last().0@, v@),
            Err(_) => t,
        }
    }
}

/// The first failure among the outcomes, if any.
pub open spec fn first_failure(results: Seq<(String, Result<String, PmError>)>) -> Option<PmError>
    decreases results.len(),
{
    if results.len() == 0 {
        None
    } else {
        match first_failure(results.drop_last()) {
            Some(e) => Some(e),
            None => match results.last().1 {
                Err(e) => Some(e),
                Ok(_) => None,
            },
        }
    }
}

/// Gathers the outcomes of resolving several packages into a table of
/// resolved versions, or the first failure among them.
pub fn resolve_dependencies(results: &Vec<(String, Result<String, PmError>)>) -> (r: Result<
    Dependencies,
    PmError,
>)
    ensures
        first_failure(results@) matches Some(e) ==> r == Err::<Dependencies, PmError>(e),
        first_failure(results@) is None ==> (r matches Ok(t) && t.wf() && t@ == resolved_table(
            results@,
        )),
{
    let mut table = Dependencies::new();
    let mut i: usize = 0;
    while i < results.len()
        invariant
            i <= results@.len(),
            table.wf(),
            first_failure(results@.take(i as int)) is None,
            table@ == resolved_table(results@.take(i as int)),
        decreases results@.len() - i,
    {
        proof {
            assert(results@.take(i as int + 1).drop_last() =~= results@.take(i as int));
        }
        match &results[i].1 {
            Ok(v) => table.insert(results[i].0.as_str(), v.as_str()),
            Err(e) => {
                proof {
                    lemma_first_failure_prefix(results@, i as int + 1);
                }
                return Err(*e);
            },
        }
        i = i + 1;
    }
    proof {
        assert(results@.take(results@.len() as int) =~= results@);
    }
    Ok(table)
}

proof fn lemma_first_failure_prefix(results: Seq<(String, Result<String, PmError>)>, n: int)
    requires
        0 <= n <= results.len(),
        first_failure(results.take(n)) is Some,
    ensures
        first_failure(results) == first_failure(results.take(n)),
    decreases results.len(),
{
    if results.len() > n {
        assert(results.drop_last().take(n) =~= results.take(n));
        lemma_first_failure_prefix(results.drop_last(), n);
    } else {
        assert(results.take(n) =~= results);
    }
}

} // verus!
