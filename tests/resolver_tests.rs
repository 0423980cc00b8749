use apm::error::PmError;
use apm::registry::{
    get_latest_version, package_url, search_package, search_url, tarball_url, NpmDist,
    NpmResponse, NpmSearchObj, NpmSearchResponse, NpmSearchResult, NpmVersion,
};
use apm::resolver::{parse_request, resolve_dependencies, resolve_version, VersionRequest};
use apm::version::{compare_versions, parse_requirement, parse_version};
use std::cmp::Ordering;

fn listing(versions: &[&str], latest: Option<&str>) -> NpmResponse {
    let mut tags = Vec::new();
    if let Some(l) = latest {
        tags.push(("latest".to_string(), l.to_string()));
    }
    NpmResponse {
        dist_tags: tags,
        versions: versions
            .iter()
            .map(|v| {
                (
                    v.to_string(),
                    NpmVersion {
                        dist: NpmDist {
                            tarball: format!("https://example.test/pkg-{}.tgz", v),
                            shasum: String::new(),
                            integrity: None,
                        },
                        description: None,
                        license: None,
                        author: None,
                    },
                )
            })
            .collect(),
        name: Some("pkg".to_string()),
        description: None,
    }
}

#[test]
fn caret_range_picks_greatest_in_major() {
    let resp = listing(&["4.0.0", "4.17.21", "5.0.0"], Some("5.0.0"));
    assert_eq!(resolve_version("^4.0.0", &resp), Ok("4.17.21".to_string()));
}

#[test]
fn greatest_match_regardless_of_listing_order() {
    let resp = listing(&["4.17.21", "5.0.0", "4.2.0", "4.0.0"], None);
    assert_eq!(resolve_version("^4.0.0", &resp), Ok("4.17.21".to_string()));
    assert_eq!(resolve_version(">=1.0.0", &resp), Ok("5.0.0".to_string()));
}

#[test]
fn release_ranks_above_its_prerelease() {
    let resp = listing(&["1.0.0-alpha", "1.0.0", "0.9.0"], None);
    assert_eq!(resolve_version(">=1.0.0-alpha", &resp), Ok("1.0.0".to_string()));
}

#[test]
fn unparseable_listed_versions_are_skipped() {
    let resp = listing(&["not-a-version", "1.2.3", "1.2"], None);
    assert_eq!(resolve_version("^1.0.0", &resp), Ok("1.2.3".to_string()));
}

#[test]
fn no_satisfying_version_is_an_error() {
    let resp = listing(&["4.0.0", "4.17.21", "5.0.0"], None);
    assert_eq!(resolve_version("^6.0.0", &resp), Err(PmError::NoMatchingVersion));
    let empty = listing(&[], None);
    assert_eq!(resolve_version("*", &empty), Err(PmError::NoMatchingVersion));
}

#[test]
fn invalid_requirement_is_rejected() {
    let resp = listing(&["1.0.0"], None);
    assert_eq!(resolve_version("not a range!!", &resp), Err(PmError::InvalidRequirement));
    assert!(matches!(parse_request("^^1"), Err(PmError::InvalidRequirement)));
}

#[test]
fn latest_uses_the_tag() {
    let resp = listing(&["1.0.0", "2.0.0"], Some("1.0.0"));
    assert_eq!(resolve_version("latest", &resp), Ok("1.0.0".to_string()));
    assert!(matches!(parse_request("latest"), Ok(VersionRequest::Latest)));
    assert_eq!(get_latest_version(&resp), Ok("1.0.0".to_string()));
}

#[test]
fn latest_without_tag_fails() {
    let resp = listing(&["1.0.0"], None);
    assert_eq!(resolve_version("latest", &resp), Err(PmError::TagNotFound));
}

#[test]
fn version_comparison_follows_semver() {
    let a = parse_version("1.0.0-beta").unwrap();
    let b = parse_version("1.0.0").unwrap();
    let c = parse_version("1.10.0").unwrap();
    let d = parse_version("1.9.0").unwrap();
    assert_eq!(compare_versions(&a, &b), Ordering::Less);
    assert_eq!(compare_versions(&c, &d), Ordering::Greater);
    assert_eq!(a.key(), (1, 0, 0, false));
    assert_eq!(c.key(), (1, 10, 0, true));
    assert_eq!(c.as_text(), "1.10.0");
    assert!(parse_version("1.0").is_none());
}

#[test]
fn requirement_matching() {
    let q = parse_requirement("~1.2.0").unwrap();
    assert!(q.matches(&parse_version("1.2.9").unwrap()));
    assert!(!q.matches(&parse_version("1.3.0").unwrap()));
    assert!(parse_requirement("><").is_none());
}

#[test]
fn tarball_lookup() {
    let resp = listing(&["1.0.0"], None);
    assert_eq!(
        tarball_url(&resp, "1.0.0"),
        Ok("https://example.test/pkg-1.0.0.tgz".to_string())
    );
    assert_eq!(tarball_url(&resp, "2.0.0"), Err(PmError::VersionNotFound));
}

#[test]
fn registry_addresses() {
    assert_eq!(package_url("left-pad"), "https://registry.npmjs.org/left-pad");
    assert_eq!(
        search_url("react"),
        "https://registry.npmjs.org/-/v1/search?text=react"
    );
}

#[test]
fn search_names_in_order() {
    let resp = NpmSearchResponse {
        objects: vec![
            NpmSearchObj { package: NpmSearchResult { name: "a".to_string() } },
            NpmSearchObj { package: NpmSearchResult { name: "b".to_string() } },
        ],
    };
    assert_eq!(search_package(&resp), vec!["a".to_string(), "b".to_string()]);
}

#[test]
fn prerelease_winner_does_not_depend_on_listing_order() {
    let orders: [&[&str]; 3] = [
        &["1.0.0-alpha", "1.0.0-beta.2", "1.0.0-beta.11", "0.9.0"],
        &["1.0.0-beta.11", "0.9.0", "1.0.0-alpha", "1.0.0-beta.2"],
        &["0.9.0", "1.0.0-beta.2", "1.0.0-beta.11", "1.0.0-alpha"],
    ];
    for versions in orders {
        let resp = listing(versions, None);
        assert_eq!(
            resolve_version(">=1.0.0-alpha", &resp),
            Ok("1.0.0-beta.11".to_string())
        );
    }
}

#[test]
fn resolved_dependencies_table_or_first_failure() {
    let ok = vec![
        ("a".to_string(), Ok("1.0.0".to_string())),
        ("b".to_string(), Ok("2.1.0".to_string())),
    ];
    let table = resolve_dependencies(&ok).ok().unwrap();
    assert_eq!(
        table.pairs(),
        vec![
            ("a".to_string(), "1.0.0".to_string()),
            ("b".to_string(), "2.1.0".to_string())
        ]
    );
    let bad = vec![
        ("a".to_string(), Ok("1.0.0".to_string())),
        ("b".to_string(), Err(PmError::NoMatchingVersion)),
        ("c".to_string(), Err(PmError::TagNotFound)),
    ];
    assert!(matches!(resolve_dependencies(&bad), Err(PmError::NoMatchingVersion)));
}
