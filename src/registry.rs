//! The registry's metadata documents, and what the pipeline reads from them.

use vstd::prelude::*;
use crate::error::PmError;
use crate::text::{owned, same_text};

verus! {

/// Download information of one published version.
pub struct NpmDist {
    pub tarball: String,
    pub shasum: String,
    pub integrity: Option<String>,
}

/// One published version of a package.
pub struct NpmVersion {
    pub dist: NpmDist,
    pub description: Option<String>,
    pub license: Option<String>,
    /// The author field as JSON text, when present.
    pub author: Option<String>,
}

/// The metadata document of a package: its tags and every published version,
/// each in the order the registry listed them.
pub struct NpmResponse {
    pub dist_tags: Vec<(String, String)>,
    pub versions: Vec<(String, NpmVersion)>,
    pub name: Option<String>,
    pub description: Option<String>,
}

/// A package named in a search answer.
pub struct NpmSearchResult {
    pub name: String,
}

/// One hit of a search answer.
pub struct NpmSearchObj {
    pub package: NpmSearchResult,
}

/// A search answer.
pub struct NpmSearchResponse {
    pub objects: Vec<NpmSearchObj>,
}

/// The text `latest`.
pub open spec fn latest_tag() -> Seq<char> {
    seq!['l', 'a', 't', 'e', 's', 't']
}

/// The version texts of a metadata document, in listing order.
pub open spec fn listed_versions(resp: NpmResponse) -> Seq<Seq<char>> {
    resp.versions@.map_values(|e: (String, NpmVersion)| e.0@)
}

/// `i` is the first entry whose key is `k`.
pub open spec fn first_key_at<V>(s: Seq<(String, V)>, k: Seq<char>, i: int) -> bool {
    &&& 0 <= i < s.len()
    &&& s[i].0@ == k
    &&& forall|j: int| 0 <= j < i ==> s[j].0@ != k
}

/// Some entry has the key `k`.
pub open spec fn has_key<V>(s: Seq<(String, V)>, k: Seq<char>) -> bool {
    exists|i: int| 0 <= i < s.len() && s[i].0@ == k
}

/// Index of the first entry whose key is `k`, if any.
fn find_key<V>(entries: &Vec<(String, V)>, k: &str) -> (r: Option<usize>)
    ensures
        r is None <==> !has_key(entries@, k@),
        r matches Some(i) ==> first_key_at(entries@, k@, i as int),
{
    let mut i: usize = 0;
    while i < entries.len()
        invariant
            i <= entries@.len(),
            forall|j: int| 0 <= j < i ==> entries@[j].0@ != k@,
        decreases entries@.len() - i,
    {
        if same_text(entries[i].0.as_str(), k) {
            return Some(i);
        }
        i = i + 1;
    }
    None
}

/// What reading the `latest` tag of `resp` must give: the version of the
/// first tag so named, or `TagNotFound` exactly when there is none.
pub open spec fn latest_answer(resp: NpmResponse, r: Result<String, PmError>) -> bool {
    &&& (r is Err <==> !has_key(resp.dist_tags@, latest_tag()))
    &&& (r matches Err(e) ==> e == PmError::TagNotFound)
    &&& (r matches Ok(v) ==> exists|i: int|
        first_key_at(resp.dist_tags@, latest_tag(), i) && v@ == resp.dist_tags@[i].1@)
}

/// The version that the `latest` tag names; `TagNotFound` when there is none.
pub fn get_latest_version(resp: &NpmResponse) -> (r: Result<String, PmError>)
    ensures
        latest_answer(*resp, r),
{
    let tag = "latest";
    proof {
        reveal_strlit("latest");
        assert(tag@ =~= latest_tag());
    }
    match find_key(&resp.dist_tags, tag) {
        Some(i) => Ok(resp.dist_tags[i].1.clone()),
        None => Err(PmError::TagNotFound),
    }
}

/// The tarball address of a published version; `VersionNotFound` when the
/// version is not listed.
pub fn tarball_url(resp: &NpmResponse, version: &str) -> (r: Result<String, PmError>)
    ensures
        r is Err <==> !has_key(resp.versions@, version@),
        r matches Err(e) ==> e == PmError::VersionNotFound,
        r matches Ok(u) ==> exists|i: int|
            first_key_at(resp.versions@, version@, i) && u@ == resp.versions@[i].1.dist.tarball@,
{
    match find_key(&resp.versions, version) {
        Some(i) => Ok(resp.versions[i].1.dist.tarball.clone()),
        None => Err(PmError::VersionNotFound),
    }
}

/// Address of a package's metadata document.
pub fn package_url(pkg: &str) -> (r: String)
    ensures
        r@ == "https://registry.npmjs.org/"@ + pkg@,
{
    let mut u = owned("https://registry.npmjs.org/");
    u.append(pkg);
    u
}

/// Address of a search for `query`.
pub fn search_url(query: &str) -> (r: String)
    ensures
        r@ == "https://registry.npmjs.org/"@ + "-/v1/search?text="@ + query@,
{
    let mut u = owned("https://registry.npmjs.org/");
    u.append("-/v1/search?text=");
    u.append(query);
    u
}

/// The package names of a search answer, in answer order.
pub fn search_package(resp: &NpmSearchResponse) -> (r: Vec<String>)
    ensures
        r@.len() == resp.objects@.len(),
        forall|i: int| 0 <= i < r@.len() ==> r@[i]@ == resp.objects@[i].package.name@,
{
    let mut out: Vec<String> = Vec::new();
    let mut i: usize = 0;
    while i < resp.objects.len()
        invariant
            i <= resp.objects@.len(),
            out@.len() == i,
            forall|j: int| 0 <= j < i ==> out@[j]@ == resp.objects@[j].package.name@,
        decreases resp.objects@.len() - i,
    {
        out.push(resp.objects[i].package.name.clone());
        i = i + 1;
    }
    out
}

} // verus!
