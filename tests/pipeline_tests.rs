use apm::archive::{decompress_archive, plan_entries, plan_entry, split_components, EntryPlan};
use apm::cache::{cache_key, plan_eviction, threshold_secs, CacheFile};
use apm::deps::Dependencies;
use apm::error::PmError;
use apm::fetch::{fetch_start, fetch_step, FetchAction, FetchEvent, FetchPhase};
use apm::install::{
    batch_result, concurrency_for, default_concurrency, InstallResult, InstallScheduler,
};
use apm::registry::{NpmDist, NpmResponse, NpmVersion};
use std::io::Write;

const DAY: u64 = 86400;

fn written(plan: EntryPlan) -> Vec<String> {
    match plan {
        EntryPlan::Write(c) => c,
        _ => panic!("entry not written"),
    }
}

#[test]
fn wrapper_folder_is_stripped() {
    assert_eq!(written(plan_entry("package/lib/index.js")), vec!["lib", "index.js"]);
    assert_eq!(written(plan_entry("package/README.md")), vec!["README.md"]);
}

#[test]
fn wrapper_folder_itself_is_skipped() {
    assert!(matches!(plan_entry("package/"), EntryPlan::Skip));
    assert!(matches!(plan_entry("package"), EntryPlan::Skip));
    assert!(matches!(plan_entry("/"), EntryPlan::Skip));
}

#[test]
fn rooted_and_unwrapped_paths() {
    assert_eq!(written(plan_entry("/lib/a.js")), vec!["lib", "a.js"]);
    assert_eq!(written(plan_entry("lib//./a.js")), vec!["lib", "a.js"]);
    assert_eq!(written(plan_entry("packages/a.js")), vec!["packages", "a.js"]);
}

#[test]
fn leading_current_dir_keeps_the_wrapper_component() {
    assert_eq!(written(plan_entry("./package")), vec!["package"]);
    assert_eq!(written(plan_entry("./package/lib/x.js")), vec!["package", "lib", "x.js"]);
    assert_eq!(written(plan_entry("package//./x.js")), vec!["x.js"]);
    assert!(matches!(plan_entry("./"), EntryPlan::Skip));
}

#[test]
fn traversal_is_rejected() {
    assert!(matches!(plan_entry("package/../../etc/passwd"), EntryPlan::Reject));
    assert!(matches!(plan_entry("../outside.txt"), EntryPlan::Reject));
    assert!(matches!(plan_entry("package/lib/../../x"), EntryPlan::Reject));
    assert_eq!(written(plan_entry("package/..a/b")), vec!["..a", "b"]);
}

#[test]
fn entry_plans_in_order() {
    let plans = plan_entries(&vec![
        Some("package/".to_string()),
        None,
        Some("package/index.js".to_string()),
        Some("package/../evil".to_string()),
    ]);
    assert_eq!(plans.len(), 4);
    assert!(matches!(plans[0], EntryPlan::Skip));
    assert!(matches!(plans[1], EntryPlan::Unreadable));
    assert!(matches!(&plans[2], EntryPlan::Write(c) if c == &vec!["index.js".to_string()]));
    assert!(matches!(plans[3], EntryPlan::Reject));
}

#[test]
fn components_of_paths() {
    assert_eq!(split_components("a/b/c"), vec!["a", "b", "c"]);
    assert!(split_components("").is_empty());
    assert!(split_components("//./").is_empty());
}

#[test]
fn gzip_round_trip_and_corruption() {
    let mut enc = flate2::write::GzEncoder::new(Vec::new(), flate2::Compression::default());
    enc.write_all(b"hello archive").unwrap();
    let gz = enc.finish().unwrap();
    assert_eq!(decompress_archive(&gz), Ok(b"hello archive".to_vec()));
    assert_eq!(decompress_archive(&vec![1, 2, 3, 4]), Err(PmError::CorruptArchive));
}

#[test]
fn cache_keys_escape_names() {
    assert_eq!(cache_key("left-pad", "1.3.0"), "left-pad@1.3.0.tgz");
    assert_eq!(cache_key("@types/node", "20.1.0"), "%40types%2Fnode@20.1.0.tgz");
    assert_ne!(cache_key("a/b", "1.0.0"), cache_key("a-b", "1.0.0"));
    assert_ne!(cache_key("a@1", "2"), cache_key("a", "1@2"));
    assert_eq!(cache_key("100%", "1"), "100%25@1.tgz");
}

fn file(path: &str, size: u64, days: u64) -> CacheFile {
    CacheFile { path: path.to_string(), size, age_secs: days * DAY }
}

#[test]
fn eviction_removes_only_stale_entries() {
    let files = vec![file("old.tgz", 1234, 40), file("new.tgz", 99, 5)];
    let plan = plan_eviction(&files, threshold_secs(30));
    assert_eq!(plan.victims, vec![0]);
    assert_eq!(plan.removed, 1);
    assert_eq!(plan.bytes_freed, 1234);
}

#[test]
fn eviction_twice_removes_nothing_new() {
    let files = vec![
        file("a", 10, 31),
        file("b", 20, 30),
        file("c", 30, 100),
        file("d", 40, 0),
    ];
    let t = threshold_secs(30);
    let plan = plan_eviction(&files, t);
    assert_eq!(plan.victims, vec![0, 2]);
    assert_eq!(plan.bytes_freed, 40);
    let kept: Vec<CacheFile> = files
        .into_iter()
        .enumerate()
        .filter(|(i, _)| !plan.victims.contains(i))
        .map(|(_, f)| f)
        .collect();
    let again = plan_eviction(&kept, t);
    assert!(again.victims.is_empty());
    assert_eq!(again.bytes_freed, 0);
}

#[test]
fn eviction_boundary_and_saturation() {
    let exact = vec![CacheFile { path: "x".to_string(), size: 5, age_secs: 30 * DAY }];
    assert_eq!(plan_eviction(&exact, threshold_secs(30)).removed, 0);
    let huge = vec![
        CacheFile { path: "x".to_string(), size: u64::MAX, age_secs: 10 },
        CacheFile { path: "y".to_string(), size: 7, age_secs: 10 },
    ];
    assert_eq!(plan_eviction(&huge, 0).bytes_freed, u64::MAX);
    assert_eq!(threshold_secs(30), 2_592_000);
    assert_eq!(threshold_secs(u64::MAX), u64::MAX);
}

#[test]
fn batch_with_one_failure() {
    let reqs = vec![
        ("a".to_string(), "1.0.0".to_string()),
        ("b".to_string(), "2.0.0".to_string()),
    ];
    let mut s = InstallScheduler::new(reqs, 1);
    let first = s.next_task().unwrap();
    assert_eq!(first, (0, "a".to_string(), "1.0.0".to_string()));
    assert!(s.next_task().is_none());
    assert!(s.complete(0, InstallResult::Success));
    let second = s.next_task().unwrap();
    assert_eq!(second.0, 1);
    assert!(!s.is_finished());
    assert!(s.complete(1, InstallResult::Failure("download failed".to_string())));
    assert!(s.is_finished());
    let summary = s.summary();
    assert_eq!(summary.succeeded, 1);
    assert_eq!(summary.failed, 1);
    assert_eq!(summary.outcomes.len(), 2);
    assert_eq!(summary.outcomes[0].name, "a");
    assert!(matches!(summary.outcomes[0].result, InstallResult::Success));
    assert_eq!(summary.outcomes[1].name, "b");
    assert_eq!(batch_result(&summary), Err(PmError::AggregateInstallFailure(1)));
}

#[test]
fn batch_counts_match_requests_under_any_cap() {
    for cap in 1..5usize {
        let reqs: Vec<(String, String)> =
            (0..6).map(|i| (format!("p{}", i), "1.0.0".to_string())).collect();
        let mut s = InstallScheduler::new(reqs, cap);
        let mut running: Vec<usize> = Vec::new();
        let mut done = 0;
        while !s.is_finished() {
            while let Some((i, _, _)) = s.next_task() {
                running.push(i);
                assert!(s.in_flight() <= cap);
            }
            // complete the most recently started task first
            let i = running.pop().unwrap();
            let res = if i % 2 == 0 {
                InstallResult::Success
            } else {
                InstallResult::Failure("x".to_string())
            };
            assert!(s.complete(i, res));
            assert!(!s.complete(i, InstallResult::Success));
            done += 1;
        }
        let summary = s.summary();
        assert_eq!(done, 6);
        assert_eq!(summary.succeeded + summary.failed, 6);
        assert_eq!(summary.succeeded, 3);
        for (i, o) in summary.outcomes.iter().enumerate() {
            assert_eq!(o.name, format!("p{}", i));
        }
    }
}

#[test]
fn empty_batch_succeeds() {
    let s = InstallScheduler::new(Vec::new(), 4);
    assert!(s.is_finished());
    let summary = s.summary();
    assert_eq!((summary.succeeded, summary.failed), (0, 0));
    assert_eq!(batch_result(&summary), Ok(()));
}

#[test]
fn concurrency_caps() {
    assert_eq!(concurrency_for(1), 2);
    assert_eq!(concurrency_for(3), 6);
    assert_eq!(concurrency_for(4), 8);
    assert_eq!(concurrency_for(64), 8);
    let d = default_concurrency();
    assert!(d >= 2 && d <= 8 && d % 2 == 0);
}

fn metadata(version: &str) -> NpmResponse {
    NpmResponse {
        dist_tags: Vec::new(),
        versions: vec![(
            version.to_string(),
            NpmVersion {
                dist: NpmDist {
                    tarball: "https://example.test/a.tgz".to_string(),
                    shasum: String::new(),
                    integrity: None,
                },
                description: None,
                license: None,
                author: None,
            },
        )],
        name: None,
        description: None,
    }
}

#[test]
fn cached_archive_needs_no_network() {
    let (phase, action) = fetch_start("a", "1.0.0");
    assert!(matches!(&action, FetchAction::ReadCache(k) if k == "a@1.0.0.tgz"));
    let (phase, action) = fetch_step(phase, "a", "1.0.0", FetchEvent::CacheHit(vec![9, 9]));
    assert!(matches!(phase, FetchPhase::Finished));
    assert!(matches!(&action, FetchAction::Extract(b) if b == &vec![9, 9]));
}

#[test]
fn cache_miss_downloads_then_stores() {
    let (phase, _) = fetch_start("a", "1.0.0");
    let (phase, action) = fetch_step(phase, "a", "1.0.0", FetchEvent::CacheMiss);
    assert!(matches!(&action, FetchAction::RequestMetadata(u) if u == "https://registry.npmjs.org/a"));
    let (phase, action) = fetch_step(phase, "a", "1.0.0", FetchEvent::Metadata(metadata("1.0.0")));
    assert!(matches!(&action, FetchAction::RequestTarball(u) if u == "https://example.test/a.tgz"));
    let (phase, action) = fetch_step(phase, "a", "1.0.0", FetchEvent::Tarball(vec![1, 2]));
    assert!(matches!(phase, FetchPhase::Finished));
    assert!(matches!(&action, FetchAction::StoreAndExtract(k, b) if k == "a@1.0.0.tgz" && b == &vec![1, 2]));
}

#[test]
fn fetch_failures() {
    let (phase, action) =
        fetch_step(FetchPhase::AwaitingMetadata, "a", "3.0.0", FetchEvent::Metadata(metadata("1.0.0")));
    assert!(matches!(phase, FetchPhase::Finished));
    assert!(matches!(action, FetchAction::Fail(PmError::VersionNotFound)));
    let (_, action) = fetch_step(FetchPhase::AwaitingTarball, "a", "1.0.0", FetchEvent::NetworkFailed);
    assert!(matches!(action, FetchAction::Fail(PmError::RegistryUnavailable)));
    let (_, action) = fetch_step(FetchPhase::Finished, "a", "1.0.0", FetchEvent::CacheMiss);
    assert!(matches!(action, FetchAction::Ignore));
}

#[test]
fn dependency_table_operations() {
    let mut d = Dependencies::new();
    assert!(d.is_empty());
    d.insert("a", "1");
    d.insert("b", "2");
    d.insert("a", "3");
    assert_eq!(d.len(), 2);
    assert_eq!(d.get("a"), Some("3".to_string()));
    assert_eq!(
        d.pairs(),
        vec![("a".to_string(), "3".to_string()), ("b".to_string(), "2".to_string())]
    );
    d.remove("a");
    d.remove("zzz");
    assert_eq!(d.get("a"), None);
    assert_eq!(d.copy().pairs(), vec![("b".to_string(), "2".to_string())]);
}

#[test]
fn manifest_dependency_edits() {
    let mut m = apm::manifest::init("proj");
    assert_eq!(m.description.as_deref(), Some("Package created with a package manager"));
    apm::manifest::add_dependency(&mut m, "left-pad", "^1.3.0", false);
    apm::manifest::add_dependency(&mut m, "jest", "^29.0.0", true);
    assert_eq!(m.dependencies.get("left-pad"), Some("^1.3.0".to_string()));
    assert!(!m.dependencies.contains_key("jest"));
    assert_eq!(m.dev_dependencies.get("jest"), Some("^29.0.0".to_string()));
    apm::manifest::remove_dependency(&mut m, "jest", true);
    assert!(m.dev_dependencies.is_empty());
    assert_eq!(m.dependencies.len(), 1);
    let e = apm::manifest::Manifest::empty();
    assert!(e.name.is_empty() && e.scripts.is_empty());
}
