use ekapkgs_update::check::{after_attempt, after_upstream, CheckStep};
use ekapkgs_update::package::{is_drv_identifier, position_file, PositionError};
use ekapkgs_update::verification::{apply_hash_edit, HashEdit};
use ekapkgs_update::groups::GroupsData;
use ekapkgs_update::orchestrator::{concurrency_limit, Admission, Orchestrator, TaskOutcome};
use ekapkgs_update::package::{decide_check, upstream_for, CheckDecision, PackageMetadata, SkipReason};
use ekapkgs_update::pipeline::{
    is_variants_file, update_recipe_text, update_variants_text, SENTINEL_HASH,
};
use ekapkgs_update::rewrite::{
    find_and_update_attr, is_patches_array_empty, remove_patch_from_array, remove_patches_attribute,
    RewriteError,
};
use ekapkgs_update::scheduler::{
    record_after_no_update, record_after_success, Database, SECONDS_PER_DAY,
};
use ekapkgs_update::sources::{
    listing_releases, GithubRelease, PypiArtifact, PypiInfo, PypiResponse, ReleaseListing,
    UpstreamSource,
};
use ekapkgs_update::verification::{
    Action, BuildEvent, BuildTarget, HashAttr, Phase, Verification,
};
use ekapkgs_update::version::{
    find_best_release, is_version_acceptable, normalize_version, Release, SemverStrategy,
    VersionError,
};

const DAY: i64 = SECONDS_PER_DAY;

fn release(tag: &str, pre: bool) -> Release {
    Release { tag_name: tag.to_string(), is_prerelease: pre }
}

#[test]
fn patch_strategy_keeps_major_and_minor() {
    assert!(is_version_acceptable("1.2.3", "1.2.9", SemverStrategy::Patch).unwrap());
    assert!(!is_version_acceptable("1.2.3", "1.3.0", SemverStrategy::Patch).unwrap());
    assert!(is_version_acceptable("1.2.3", "1.9.0", SemverStrategy::Minor).unwrap());
    assert!(!is_version_acceptable("1.2.3", "2.0.0", SemverStrategy::Minor).unwrap());
    assert!(is_version_acceptable("1.2.3", "2.0.0", SemverStrategy::Major).unwrap());
    assert!(!is_version_acceptable("1.2.3", "1.2.3", SemverStrategy::Latest).unwrap());
}

#[test]
fn prerelease_orders_below_release() {
    assert!(is_version_acceptable("1.0.0-rc1", "1.0.0", SemverStrategy::Latest).unwrap());
    assert!(!is_version_acceptable("1.0.0", "1.0.0-rc1", SemverStrategy::Latest).unwrap());
}

#[test]
fn version_prefix_is_stripped() {
    assert!(is_version_acceptable("v1.0", "vv1.1", SemverStrategy::Minor).unwrap());
    assert!(is_version_acceptable("version-1.0.0", "version-1.1.0", SemverStrategy::Minor).unwrap());
    assert!(is_version_acceptable("version-1.0", "v1.1", SemverStrategy::Patch).is_ok());
    assert!(!is_version_acceptable("version-1.0", "v1.1", SemverStrategy::Patch).unwrap());
}

#[test]
fn normalize_examples_and_idempotence() {
    assert_eq!(normalize_version("1.25"), "1.25.0");
    assert_eq!(normalize_version("2"), "2.0.0");
    assert_eq!(normalize_version("1.0-beta"), "1.0.0-beta");
    assert_eq!(normalize_version("1.2.3"), "1.2.3");
    for v in ["1.25", "2", "1.0-beta", "3.4.5-rc.1", "", "-x"] {
        let once = normalize_version(v);
        assert_eq!(normalize_version(&once), once);
    }
    assert_eq!(normalize_version(""), ".0.0");
}

#[test]
fn resolver_picks_minor_release_over_prerelease() {
    let releases = vec![release("1.0.0", false), release("1.1.0", false), release("2.0.0-rc1", true)];
    let best = find_best_release(&releases, "1.0.0", SemverStrategy::Minor).unwrap();
    assert_eq!(best.tag_name, "1.1.0");
    assert!(!best.is_prerelease);
}

#[test]
fn resolver_through_github_listing() {
    let listing = ReleaseListing::GithubReleases(vec![
        GithubRelease { tag_name: "v1.0.0".to_string(), _name: None, prerelease: false },
        GithubRelease { tag_name: "v1.1.0".to_string(), _name: None, prerelease: false },
        GithubRelease { tag_name: "v2.0.0-rc1".to_string(), _name: None, prerelease: true },
    ]);
    let src = UpstreamSource::from_url("https://github.com/owner/repo").unwrap();
    let best = src.get_compatible_release(&listing, "1.0.0", SemverStrategy::Minor).unwrap();
    assert_eq!(best.tag_name, "v1.1.0");
    assert_eq!(UpstreamSource::get_version(&best), "1.1.0");
}

#[test]
fn resolver_picks_numerically_greatest() {
    let releases = vec![release("v1.9.0", false), release("v1.25.0", false), release("v1.10.0", false)];
    let best = find_best_release(&releases, "1.0", SemverStrategy::Latest).unwrap();
    assert_eq!(best.tag_name, "v1.25.0");
    // Two-component tags are padded before they are ranked.
    let releases = vec![release("1.9", false), release("1.25", false)];
    let best = find_best_release(&releases, "1.8", SemverStrategy::Latest).unwrap();
    assert_eq!(best.tag_name, "1.25");
}

#[test]
fn resolver_falls_back_to_string_order() {
    let releases = vec![release("2024.01.01", false), release("2024.12.01", false)];
    let best = find_best_release(&releases, "2023.05.05", SemverStrategy::Latest).unwrap();
    assert_eq!(best.tag_name, "2024.12.01");
    assert!(find_best_release(&releases, "2023.05.05", SemverStrategy::Patch).is_err());
}

#[test]
fn resolver_reports_no_compatible_release() {
    let releases = vec![release("0.9.0", false), release("2.0.0", true)];
    assert!(matches!(
        find_best_release(&releases, "1.0.0", SemverStrategy::Latest),
        Err(VersionError::NoCompatibleRelease)
    ));
    assert!(find_best_release(&[], "1.0.0", SemverStrategy::Latest).is_err());
}

#[test]
fn yanked_pypi_versions_are_prereleases() {
    let listing = ReleaseListing::Pypi(PypiResponse {
        info: PypiInfo { version: "2.0.0".to_string() },
        releases: vec![
            ("1.5.0".to_string(), vec![PypiArtifact { yanked: false }]),
            ("2.0.0".to_string(), vec![PypiArtifact { yanked: false }, PypiArtifact { yanked: true }]),
        ],
    });
    let rs = listing_releases(&listing);
    assert_eq!(rs.len(), 2);
    assert!(!rs[0].is_prerelease);
    assert!(rs[1].is_prerelease);
    let src = UpstreamSource::PyPI { pname: "x".to_string() };
    let best = src.get_compatible_release(&listing, "1.0.0", SemverStrategy::Latest).unwrap();
    assert_eq!(best.tag_name, "1.5.0");
}

#[test]
fn tags_are_never_prereleases() {
    let listing = ReleaseListing::Tags(vec!["v3.0.0-beta".to_string()]);
    let rs = listing_releases(&listing);
    assert!(!rs[0].is_prerelease);
}

#[test]
fn description_of_pypi_source() {
    let s = UpstreamSource::PyPI { pname: "requests".to_string() };
    assert_eq!(s.description(), "PyPI package: requests");
}

#[test]
fn github_ssh_url_with_trailing_dot_git() {
    match UpstreamSource::from_url("git@github.com:NixOS/nix.git").unwrap() {
        UpstreamSource::GitHub { owner, repo } => {
            assert_eq!(owner, "NixOS");
            assert_eq!(repo, "nix");
        },
        _ => panic!("expected a GitHub source"),
    }
}

#[test]
fn rewrite_wrong_old_value_leaves_text() {
    let content = "{\n  version = \"1.0.0\";\n}";
    let before = content.to_string();
    let err = find_and_update_attr(content, "version", "2.0.0", Some("1.1.1")).unwrap_err();
    assert!(matches!(err, RewriteError::AttributeNotFound { .. }));
    assert_eq!(err.to_string(), "Attribute 'version' not found in Nix file");
    assert_eq!(content, before);
}

#[test]
fn rewrite_result_is_exact() {
    let content = "{\n  version   =  \"1.0.0\" ;\n  x = 1;\n}";
    let out = find_and_update_attr(content, "version", "2.0.0", Some("1.0.0")).unwrap();
    assert_eq!(out, "{\n  version   =  \"2.0.0\" ;\n  x = 1;\n}");
    let out = find_and_update_attr(content, "version", "3.1", None).unwrap();
    assert_eq!(out, "{\n  version   =  \"3.1\" ;\n  x = 1;\n}");
}

#[test]
fn rewrite_refuses_broken_syntax() {
    let err = find_and_update_attr("{ version = \"1\"", "version", "2", None).unwrap_err();
    assert!(matches!(err, RewriteError::InvalidSyntax));
    assert_eq!(err.to_string(), "Failed to parse Nix file");
}

#[test]
fn rewrite_refuses_result_that_does_not_parse() {
    let err = find_and_update_attr("{ version = \"1\"; }", "version", "a\"b", Some("1")).unwrap_err();
    assert!(matches!(err, RewriteError::BrokenResult));
}

#[test]
fn remove_middle_patch_scenario() {
    let content = "{\n  patches = [\n    ./a.patch\n    ./b.patch\n    ./c.patch\n  ];\n}";
    let out = remove_patch_from_array(content, "b.patch").unwrap();
    assert!(out.contains("a.patch"));
    assert!(out.contains("c.patch"));
    assert!(!out.contains("b.patch"));
    assert_eq!(out, "{\n  patches = [\n    ./a.patch\n    ./c.patch\n  ];\n}");
    assert!(matches!(
        find_and_update_attr(&out, "x", "y", None),
        Err(RewriteError::AttributeNotFound { .. })
    ));
}

#[test]
fn remove_fetchpatch_entry() {
    let content = "{\n  patches = [\n    ./keep.patch\n    (fetchpatch {\n      name = \"fix.patch\";\n      url = \"https://x/fix.patch\";\n    })\n  ];\n}";
    let out = remove_patch_from_array(content, "fix.patch").unwrap();
    assert_eq!(out, "{\n  patches = [\n    ./keep.patch\n  ];\n}");
}

#[test]
fn remove_patch_errors() {
    let err = remove_patch_from_array("{ patches = [ ./a.patch ]; }", "zzz.patch").unwrap_err();
    assert_eq!(err.to_string(), "Patch 'zzz.patch' not found in patches array");
    let err = remove_patches_attribute("{ x = 1; }").unwrap_err();
    assert!(matches!(err, RewriteError::PatchesNotFound));
}

#[test]
fn empty_patches_removed_exactly() {
    let content = "{\n  pname = \"p\";\n  patches = [ ];\n  buildInputs = [ ];\n}";
    assert!(is_patches_array_empty(content));
    let out = remove_patches_attribute(content).unwrap();
    assert_eq!(out, "{\n  pname = \"p\";\n  buildInputs = [ ];\n}");
}

#[test]
fn recipe_update_moves_version_and_hash() {
    let content = "{\n  version = \"1.0.0\";\n  src = fetchurl {\n    sha256 = \"sha256-old\";\n  };\n}";
    let out = update_recipe_text(content, "1.0.0", "1.1.0", Some("sha256-old"), Some(SENTINEL_HASH)).unwrap();
    assert_eq!(
        out,
        format!("{{\n  version = \"1.1.0\";\n  src = fetchurl {{\n    sha256 = \"{}\";\n  }};\n}}", SENTINEL_HASH)
    );
    let err = update_recipe_text(content, "0.9", "1.1.0", None, None).unwrap_err();
    assert!(matches!(err, RewriteError::AttributeNotFound { .. }));
}

#[test]
fn variants_file_detection_and_update() {
    let data = "{ \"1.2.3\" = \"sha256-h\"; }";
    assert!(is_variants_file(data, "1.2.3", Some("sha256-h")));
    assert!(!is_variants_file("1.2.3 1.2.3", "1.2.3", None));
    assert!(!is_variants_file(data, "9.9", None));
    let out = update_variants_text(data, "1.2.3", "1.3.0", Some("sha256-h"), Some("sha256-n"));
    assert_eq!(out, "{ \"1.3.0\" = \"sha256-n\"; }");
}

fn built(success: bool, output: &str) -> BuildEvent {
    BuildEvent::Built { success, output: output.to_string() }
}

#[test]
fn verification_happy_path_with_cargo_hash() {
    let (mut v, a) = Verification::new(Some("sha256-cargo".to_string()), None);
    assert!(matches!(a, Action::Build { target: BuildTarget::Source }));
    let a = v.step(built(false, "hash mismatch\n  got:    sha256-Good+/=\n"));
    match a {
        Action::EditAndBuild { edits, target } => {
            assert_eq!(target, BuildTarget::Source);
            assert_eq!(edits.len(), 1);
            assert_eq!(edits[0].attr, HashAttr::Source);
            assert_eq!(edits[0].old, SENTINEL_HASH);
            assert_eq!(edits[0].new, "sha256-Good+/=");
        },
        _ => panic!("expected an edit"),
    }
    let a = v.step(built(true, ""));
    match a {
        Action::EditAndBuild { edits, target } => {
            assert_eq!(target, BuildTarget::Package);
            assert_eq!(edits[0].attr, HashAttr::Cargo);
            assert_eq!(edits[0].old, "sha256-cargo");
            assert_eq!(edits[0].new, SENTINEL_HASH);
        },
        _ => panic!("expected an edit"),
    }
    assert_eq!(v.phase, Phase::CargoProbe);
    let a = v.step(built(false, "got: sha256-Cargo1"));
    assert!(matches!(a, Action::EditAndBuild { .. }));
    assert_eq!(v.phase, Phase::PackageBuild);
    let log = "applying patch /nix/store/abc-old-fix.patch\nReversed (or previously applied) patch detected!";
    match v.step(built(false, log)) {
        Action::RemovePatchAndBuild { patch } => assert_eq!(patch, "old-fix.patch"),
        _ => panic!("expected a patch removal"),
    }
    assert!(matches!(v.step(built(true, "")), Action::TidyPatchesAndFinish));
    assert_eq!(v.phase, Phase::Done);
}

#[test]
fn verification_failures() {
    let (mut v, _) = Verification::new(None, None);
    match v.step(built(true, "")) {
        Action::Abort { message } => assert_eq!(message, "Expected hash mismatch error but build succeeded"),
        _ => panic!("expected abort"),
    }
    let (mut v, _) = Verification::new(None, None);
    match v.step(built(false, "boom")) {
        Action::Abort { message } => {
            assert_eq!(message, "Could not extract correct hash from build error:\nboom")
        },
        _ => panic!("expected abort"),
    }
    let (mut v, _) = Verification::new(None, Some("sha256-v".to_string()));
    v.step(built(false, "got: sha256-S"));
    match v.step(built(true, "")) {
        Action::EditAndBuild { edits, .. } => assert_eq!(edits[0].attr, HashAttr::Vendor),
        _ => panic!("expected an edit"),
    }
    let (mut v, _) = Verification::new(None, None);
    v.step(built(false, "got: sha256-S"));
    match v.step(built(false, "still bad")) {
        Action::Abort { message } => assert_eq!(message, "Source build failed after hash update:\nstill bad"),
        _ => panic!("expected abort"),
    }
    let (mut v, _) = Verification::new(None, None);
    v.step(built(false, "got: sha256-S"));
    v.step(built(true, ""));
    v.step(built(false, "applying patch /nix/store/h-p.patch\nReversed (or previously applied) patch detected!"));
    match v.step(BuildEvent::PatchRemovalFailed { reason: "gone".to_string() }) {
        Action::Abort { message } => assert!(message.contains("couldn't remove it: gone\n")),
        _ => panic!("expected abort"),
    }
    assert_eq!(v.phase, Phase::Failed);
}

#[test]
fn backoff_two_four_six_then_reset() {
    let mut db = Database::new();
    let t0: i64 = 1_700_000_000;
    assert!(db.should_check_update("pkgs.a", t0));
    db.record_no_update("pkgs.a", "1.0", "1.0", t0);
    let r = db.get_update_record("pkgs.a").unwrap();
    assert_eq!(r.next_attempt, Some(t0 + 2 * DAY));
    assert!(!db.should_check_update("pkgs.a", t0 + DAY));
    let t1 = t0 + 2 * DAY;
    assert!(db.should_check_update("pkgs.a", t1));
    db.record_no_update("pkgs.a", "1.0", "1.0", t1);
    assert_eq!(db.get_update_record("pkgs.a").unwrap().next_attempt, Some(t1 + 4 * DAY));
    let t2 = t1 + 4 * DAY;
    db.record_no_update("pkgs.a", "1.0", "1.0", t2);
    assert_eq!(db.get_update_record("pkgs.a").unwrap().next_attempt, Some(t2 + 6 * DAY));
    let t3 = t2 + 6 * DAY;
    db.record_no_update("pkgs.a", "1.0", "1.0", t3);
    assert_eq!(db.get_update_record("pkgs.a").unwrap().next_attempt, Some(t3 + 6 * DAY));
    let t4 = t3 + 6 * DAY;
    db.record_successful_update("pkgs.a", "1.0", "1.1", t4);
    let r = db.get_update_record("pkgs.a").unwrap();
    assert_eq!(r.next_attempt, Some(t4 + 2 * DAY));
    assert_eq!(r.proposed_version, None);
    assert_eq!(r.current_version.as_deref(), Some("1.1"));
    assert!(db.get_update_record("pkgs.b").is_none());
}

#[test]
fn no_update_keeps_proposed_version() {
    let mut rec = record_after_success("a", "2.0", 100);
    rec.proposed_version = Some("2.1".to_string());
    let next = record_after_no_update(Some(&rec), "a", "2.0", "2.1", 100 + 10 * DAY);
    assert_eq!(next.proposed_version.as_deref(), Some("2.1"));
    assert_eq!(next.next_attempt, Some(100 + 16 * DAY));
}

#[test]
fn concurrency_scenario_never_exceeds_limit() {
    let mut o = Orchestrator::new(3);
    let mut running: Vec<usize> = Vec::new();
    let mut eligible = 0;
    for i in 0..10usize {
        let due = i % 4 != 1;
        if due {
            eligible += 1;
        }
        match o.on_discovered(&format!("pkgs.p{}", i), due, None) {
            Admission::Run => {
                while !o.has_free_slot() {
                    running.remove(0);
                    o.finish_task(TaskOutcome::Updated);
                }
                o.start_task();
                running.push(i);
                assert!(o.active() <= 3);
                assert_eq!(o.active(), running.len());
            },
            Admission::Skip => assert!(!due),
            Admission::Group => panic!("no groups here"),
        }
    }
    while !running.is_empty() {
        running.pop();
        o.finish_task(TaskOutcome::Failed);
    }
    assert_eq!(o.checked(), eligible);
    assert_eq!(o.skipped(), 10 - eligible);
    assert_eq!(o.updated() + o.failed(), eligible);
    assert_eq!(o.active(), 0);
}

#[test]
fn grouped_packages_are_batched() {
    let mut o = Orchestrator::new(1);
    assert_eq!(o.on_discovered("a", true, Some("g")), Admission::Group);
    assert_eq!(o.on_discovered("b", false, Some("g")), Admission::Skip);
    assert_eq!(o.on_discovered("c", true, Some("g")), Admission::Group);
    let batches = o.take_batches();
    assert_eq!(batches.len(), 1);
    assert_eq!(batches[0].name, "g");
    assert_eq!(batches[0].members, vec!["a".to_string(), "c".to_string()]);
    o.on_eval_error();
    assert_eq!(o.eval_errors(), 1);
    o.start_task();
    o.finish_task(TaskOutcome::Panicked);
    assert_eq!(o.updated() + o.failed(), 0);
}

#[test]
fn concurrency_defaults() {
    assert_eq!(concurrency_limit(None, 16), 4);
    assert_eq!(concurrency_limit(None, 2), 1);
    assert_eq!(concurrency_limit(Some(7), 2), 7);
    assert_eq!(concurrency_limit(Some(0), 64), 1);
}

#[test]
fn groups_lookup() {
    let data = GroupsData::new(vec![
        ("qt".to_string(), vec!["qt.base".to_string(), "qt.svg".to_string()]),
        ("py".to_string(), vec!["py.a".to_string()]),
    ]);
    let idx = data.build_index();
    assert_eq!(idx.group_name(&"qt.svg".to_string()).unwrap(), "qt");
    assert!(idx.attr_in_group(&"py.a".to_string()));
    assert!(!idx.attr_in_group(&"zz".to_string()));
    assert_eq!(idx.group_members(&"qt.base".to_string()).unwrap().len(), 2);
    assert!(idx.group_members(&"zz".to_string()).is_none());
}

#[test]
fn check_decisions() {
    assert_eq!(decide_check("1.0", "1.0", None, false), CheckDecision::NoUpdateNeeded);
    assert_eq!(decide_check("1.0", "1.1", Some("1.1"), false), CheckDecision::AlreadyProposed);
    assert_eq!(decide_check("1.0", "1.2", Some("1.1"), false), CheckDecision::Update);
    assert_eq!(decide_check("1.0", "1.2", None, true), CheckDecision::DryRun);
}

#[test]
fn upstream_choice() {
    let mut m = PackageMetadata {
        version: "1.0".to_string(),
        src_url: Some("https://example.com/x.tar.gz".to_string()),
        output_hash: None,
        cargo_hash: None,
        vendor_hash: None,
        pname: Some("x".to_string()),
    };
    assert!(matches!(upstream_for(&m), Err(SkipReason::UnsupportedSource)));
    m.src_url = None;
    assert!(matches!(upstream_for(&m), Ok(UpstreamSource::PyPI { .. })));
    m.pname = None;
    assert!(matches!(upstream_for(&m), Err(SkipReason::NoSourceInfo)));
}

#[test]
fn upstream_answers_are_recorded() {
    let mut db = Database::new();
    let t: i64 = 1_000_000;
    match after_upstream(&mut db, "a", "1.0", None, false, t) {
        CheckStep::Finished(TaskOutcome::Skipped) => {},
        other => panic!("unexpected {:?}", other),
    }
    let r = db.get_update_record("a").unwrap();
    assert_eq!(r.latest_upstream_version.as_deref(), Some("unknown"));
    assert_eq!(r.next_attempt, Some(t + 2 * DAY));
    match after_upstream(&mut db, "a", "1.0", Some("1.0"), false, t + 2 * DAY) {
        CheckStep::Finished(TaskOutcome::NoUpdateNeeded) => {},
        other => panic!("unexpected {:?}", other),
    }
    match after_upstream(&mut db, "b", "1.0", Some("1.1"), true, t) {
        CheckStep::Finished(TaskOutcome::DryRun) => {},
        other => panic!("unexpected {:?}", other),
    }
    assert!(db.get_update_record("b").is_none());
    match after_upstream(&mut db, "b", "1.0", Some("1.1"), false, t) {
        CheckStep::AttemptUpdate { latest } => assert_eq!(latest, "1.1"),
        other => panic!("unexpected {:?}", other),
    }
    let out = after_attempt(&mut db, "/nix/store/x-b.drv", "b", "1.0", "1.1", Err("boom"), t);
    assert_eq!(out, TaskOutcome::Skipped);
    let log = db.get_log_by_drv("x-b.drv").unwrap();
    assert_eq!(log.error_log, "boom");
    assert_eq!(log.status, "failed");
    let out = after_attempt(&mut db, "/nix/store/x-b.drv", "b", "1.0", "1.1", Err("again"), t + 5);
    assert_eq!(out, TaskOutcome::Skipped);
    assert_eq!(db.get_all_failed_logs_by_attr("b").len(), 1);
    assert_eq!(db.get_log_by_drv("/nix/store/x-b.drv").unwrap().error_log, "again");
    assert!(db.get_log_by_drv("/nix/store/y.drv").is_none());
    let out = after_attempt(&mut db, "/nix/store/x-b.drv", "b", "1.0", "1.1", Ok("1.1"), t);
    assert_eq!(out, TaskOutcome::Updated);
    assert_eq!(db.get_update_record("b").unwrap().current_version.as_deref(), Some("1.1"));
}

#[test]
fn failure_logs_most_recent_first() {
    let mut db = Database::new();
    db.record_failed_update("/nix/store/a-p.drv", "p", "first", None, None, 10);
    db.record_failed_update("/nix/store/b-p.drv", "p", "third", None, None, 30);
    db.record_failed_update("/nix/store/c-p.drv", "p", "second", None, None, 20);
    db.record_failed_update("/nix/store/d-q.drv", "q", "other", None, None, 40);
    let logs = db.get_all_failed_logs_by_attr("p");
    let texts: Vec<&str> = logs.iter().map(|l| l.error_log.as_str()).collect();
    assert_eq!(texts, vec!["third", "second", "first"]);
}

#[test]
fn hash_edits_by_kind() {
    let recipe = "{\n  version = \"2.0\";\n  hash = \"sha256-A\";\n  cargoHash = \"sha256-C\";\n}";
    let edit = HashEdit { attr: HashAttr::Source, old: "sha256-A".to_string(), new: "sha256-B".to_string() };
    let out = apply_hash_edit(recipe, false, "2.0", &edit).unwrap();
    assert!(out.contains("hash = \"sha256-B\";"));
    let edit = HashEdit { attr: HashAttr::Cargo, old: "sha256-C".to_string(), new: "sha256-D".to_string() };
    let out = apply_hash_edit(recipe, false, "2.0", &edit).unwrap();
    assert!(out.contains("cargoHash = \"sha256-D\";"));
    let edit = HashEdit { attr: HashAttr::Vendor, old: "sha256-C".to_string(), new: "sha256-D".to_string() };
    assert!(apply_hash_edit(recipe, false, "2.0", &edit).is_err());
    let data = "{ \"2.0\" = \"sha256-A\"; }";
    let edit = HashEdit { attr: HashAttr::Source, old: "sha256-A".to_string(), new: "sha256-B".to_string() };
    assert_eq!(apply_hash_edit(data, true, "2.0", &edit).unwrap(), "{ \"2.0\" = \"sha256-B\"; }");
}

#[test]
fn position_and_identifiers() {
    assert_eq!(position_file("/a/b/default.nix:12").unwrap(), "/a/b/default.nix");
    assert_eq!(position_file("c:/x.nix:3").unwrap(), "c:/x.nix");
    assert_eq!(position_file(""), Err(PositionError::Empty));
    assert_eq!(position_file("nofile"), Err(PositionError::NoLineNumber));
    assert!(is_drv_identifier("/nix/store/abc"));
    assert!(is_drv_identifier("abc-hello.drv"));
    assert!(!is_drv_identifier("python.pkgs.setuptools"));
}

#[test]
fn rewrite_to_same_value_is_identity() {
    let content = "{\n  version = \"1.0.0\";\n  src.version = \"1.0.0\";\n}";
    let out = find_and_update_attr(content, "version", "1.0.0", Some("1.0.0")).unwrap();
    assert_eq!(out, content);
}

#[test]
fn patch_removal_keeps_blank_lines() {
    let content = "{\n  patches = [\n    ./a.patch\n\n    ./b.patch\n\n    ./c.patch\n  ];\n}";
    let out = remove_patch_from_array(content, "b.patch").unwrap();
    assert_eq!(out, "{\n  patches = [\n    ./a.patch\n\n\n    ./c.patch\n  ];\n}");
    let err = remove_patch_from_array("{\n  patches = [ ./a.patch ./b.patch ];\n}", "b.patch").unwrap_err();
    assert!(matches!(err, RewriteError::PatchNotFound { .. }));
}

#[test]
fn failure_status_is_failed_on_rerecord() {
    let mut db = Database::new();
    db.record_failed_update("/nix/store/a-p.drv", "p", "one", Some("1"), Some("2"), 10);
    db.record_failed_update("/nix/store/a-p.drv", "q", "two", None, Some("3"), 20);
    let log = db.get_log_by_drv("/nix/store/a-p.drv").unwrap();
    assert_eq!(log.status, "failed");
    assert_eq!(log.attr_path, "p");
    assert_eq!(log.error_log, "two");
    assert_eq!(log.old_version, None);
    assert_eq!(log.timestamp, 20);
}

#[test]
fn successful_update_sets_latest_version() {
    let mut db = Database::new();
    db.record_no_update("a", "1.0", "1.0", 100);
    db.record_successful_update("a", "1.0", "1.1", 200);
    let r = db.get_update_record("a").unwrap();
    assert_eq!(r.latest_upstream_version.as_deref(), Some("1.1"));
}
