use git_lab::resolve::{
    decide, probe_target, resolve, validate_target, FixedProbes, Outcome, ProbeAnswers,
    RejectReason, ResolutionContext,
};

fn ctx(
    explicit_source: Option<&str>,
    local_branch: Option<&str>,
    remote_branch: Option<&str>,
    issue_id: Option<u64>,
    default_branch: &str,
    title: &str,
) -> ResolutionContext {
    ResolutionContext {
        project_id: 7,
        explicit_source: explicit_source.map(|s| s.to_string()),
        local_branch: local_branch.map(|s| s.to_string()),
        remote_branch: remote_branch.map(|s| s.to_string()),
        issue_id,
        default_branch: default_branch.to_string(),
        title: title.to_string(),
    }
}

fn probes(existing: &[&str], open: &[&str]) -> FixedProbes {
    FixedProbes::new(
        existing.iter().map(|s| s.to_string()).collect(),
        open.iter().map(|s| s.to_string()).collect(),
    )
}

#[test]
fn explicit_source_no_issue_reuses_free_branch() {
    let c = ctx(Some("fix-bug"), None, None, None, "master", "t");
    let mut p = probes(&["fix-bug"], &[]);
    assert_eq!(resolve(&c, &mut p), Outcome::UseExisting("fix-bug".to_string()));
    assert_eq!(p.created.len(), 0);
}

#[test]
fn explicit_source_with_issue_must_be_prefixed() {
    let c = ctx(Some("fix-bug"), None, None, Some(42), "master", "t");
    let mut p = probes(&["fix-bug"], &[]);
    assert_eq!(
        resolve(&c, &mut p),
        Outcome::Reject(RejectReason::NamingConventionViolation("fix-bug".to_string(), 42))
    );
    assert_eq!(p.created.len(), 0);
}

#[test]
fn on_default_branch_without_issue_creates_from_title_slug() {
    let c = ctx(None, Some("master"), None, None, "master", "My Title Slug");
    let mut p = probes(&[], &[]);
    assert_eq!(
        resolve(&c, &mut p),
        Outcome::Create("master".to_string(), "my-title-slug".to_string())
    );
    assert_eq!(p.created, vec!["my-title-slug".to_string()]);
}

#[test]
fn prefixed_tracking_branch_with_issue_is_reused() {
    let c = ctx(None, Some("42-fix-bug"), Some("42-fix-bug"), Some(42), "master", "t");
    let mut p = probes(&["42-fix-bug"], &[]);
    assert_eq!(resolve(&c, &mut p), Outcome::UseExisting("42-fix-bug".to_string()));
    assert_eq!(p.created.len(), 0);
}

#[test]
fn tracking_branch_with_open_request_is_rejected() {
    let c = ctx(None, Some("feature-x"), Some("feature-x"), None, "master", "t");
    let mut p = probes(&["feature-x"], &["feature-x"]);
    assert_eq!(
        resolve(&c, &mut p),
        Outcome::Reject(RejectReason::BranchAlreadyInUse("feature-x".to_string()))
    );
    assert_eq!(p.created.len(), 0);
}

#[test]
fn no_branch_information_is_rejected() {
    let c = ctx(None, None, None, None, "master", "t");
    let mut p = probes(&[], &[]);
    assert_eq!(resolve(&c, &mut p), Outcome::Reject(RejectReason::NoBranchInformation));
    assert_eq!(p.created.len(), 0);
}

#[test]
fn explicit_source_with_open_request_is_rejected() {
    let c = ctx(Some("busy"), None, None, None, "master", "t");
    let mut p = probes(&["busy"], &["busy"]);
    assert_eq!(
        resolve(&c, &mut p),
        Outcome::Reject(RejectReason::BranchAlreadyInUse("busy".to_string()))
    );
}

#[test]
fn missing_explicit_source_is_created_from_default() {
    let c = ctx(Some("new-branch"), None, None, None, "master", "t");
    let mut p = probes(&[], &[]);
    assert_eq!(
        resolve(&c, &mut p),
        Outcome::Create("master".to_string(), "new-branch".to_string())
    );
    assert_eq!(p.created, vec!["new-branch".to_string()]);
    assert!(p.existing.contains(&"new-branch".to_string()));
}

#[test]
fn prefixed_explicit_source_with_issue_is_reused() {
    let c = ctx(Some("42-fix"), None, None, Some(42), "master", "t");
    let mut p = probes(&["42-fix"], &[]);
    assert_eq!(resolve(&c, &mut p), Outcome::UseExisting("42-fix".to_string()));
}

#[test]
fn off_convention_existing_tracking_branch_is_tolerated() {
    let c = ctx(None, Some("old-style"), Some("old-style"), Some(42), "master", "t");
    let mut p = probes(&["old-style"], &[]);
    assert_eq!(resolve(&c, &mut p), Outcome::UseExisting("old-style".to_string()));
}

#[test]
fn deleted_tracking_branch_is_recreated() {
    let c = ctx(None, Some("42-fix"), Some("42-fix"), Some(42), "master", "t");
    let mut p = probes(&[], &[]);
    assert_eq!(
        resolve(&c, &mut p),
        Outcome::Create("master".to_string(), "42-fix".to_string())
    );
}

#[test]
fn tracking_the_default_branch_creates_from_title() {
    let c = ctx(None, Some("master"), Some("master"), None, "master", "Add Feature");
    let mut p = probes(&["master"], &[]);
    assert_eq!(
        resolve(&c, &mut p),
        Outcome::Create("master".to_string(), "add-feature".to_string())
    );
}

#[test]
fn local_branch_with_issue_prefix_is_pushed_as_is() {
    let c = ctx(None, Some("42-fix"), None, Some(42), "master", "t");
    let mut p = probes(&[], &[]);
    assert_eq!(
        resolve(&c, &mut p),
        Outcome::Create("master".to_string(), "42-fix".to_string())
    );
}

#[test]
fn default_local_branch_with_issue_creates_prefixed_slug() {
    let c = ctx(None, Some("master"), None, Some(42), "master", "My Title");
    let mut p = probes(&[], &[]);
    assert_eq!(
        resolve(&c, &mut p),
        Outcome::Create("master".to_string(), "42-my-title".to_string())
    );
}

#[test]
fn off_convention_local_branch_with_issue_is_rejected() {
    let c = ctx(None, Some("fix"), None, Some(42), "master", "t");
    let mut p = probes(&[], &[]);
    assert_eq!(
        resolve(&c, &mut p),
        Outcome::Reject(RejectReason::NamingConventionViolation("fix".to_string(), 42))
    );
}

#[test]
fn local_branch_without_issue_is_pushed_as_is() {
    let c = ctx(None, Some("fix"), None, None, "master", "t");
    let mut p = probes(&[], &[]);
    assert_eq!(resolve(&c, &mut p), Outcome::Create("master".to_string(), "fix".to_string()));
}

#[test]
fn existing_title_slug_on_default_branch_is_rejected() {
    let c = ctx(None, Some("master"), None, None, "master", "My Title");
    let mut p = probes(&["my-title"], &[]);
    assert_eq!(
        resolve(&c, &mut p),
        Outcome::Reject(RejectReason::BranchAlreadyInUse("my-title".to_string()))
    );
    assert_eq!(p.created.len(), 0);
}

#[test]
fn tracking_without_local_branch_is_an_internal_inconsistency() {
    let c = ctx(None, None, Some("ghost"), None, "master", "t");
    let mut p = probes(&["ghost"], &[]);
    assert_eq!(resolve(&c, &mut p), Outcome::Reject(RejectReason::UnhandledCombination));
}

#[test]
fn off_convention_tracking_of_default_with_issue_is_an_internal_inconsistency() {
    let c = ctx(None, Some("master"), Some("master"), Some(42), "master", "t");
    let mut p = probes(&["master"], &[]);
    assert_eq!(resolve(&c, &mut p), Outcome::Reject(RejectReason::UnhandledCombination));
}

#[test]
fn at_most_one_creation_per_resolution() {
    let c = ctx(None, Some("master"), None, Some(9), "master", "Big Change");
    let mut p = probes(&[], &[]);
    let out = resolve(&c, &mut p);
    assert_eq!(out, Outcome::Create("master".to_string(), "9-big-change".to_string()));
    assert_eq!(p.created.len(), 1);
}

#[test]
fn reuse_is_idempotent() {
    let c = ctx(Some("fix-bug"), None, None, None, "master", "t");
    let mut p = probes(&["fix-bug"], &[]);
    let first = resolve(&c, &mut p);
    let second = resolve(&c, &mut p);
    assert_eq!(first, Outcome::UseExisting("fix-bug".to_string()));
    assert_eq!(second, first);
    assert_eq!(p.created.len(), 0);
}

#[test]
fn tracking_branch_reuse_is_idempotent() {
    let c = ctx(None, Some("42-fix"), Some("42-fix"), Some(42), "master", "t");
    let mut p = probes(&["42-fix"], &[]);
    let first = resolve(&c, &mut p);
    let second = resolve(&c, &mut p);
    assert_eq!(first, Outcome::UseExisting("42-fix".to_string()));
    assert_eq!(second, first);
    assert_eq!(p.created.len(), 0);
    assert_eq!(p, probes(&["42-fix"], &[]));
}

#[test]
fn rejections_leave_the_remote_state_untouched() {
    let c = ctx(Some("fix"), None, None, Some(42), "master", "t");
    let mut p = probes(&["fix"], &["fix"]);
    let before = p.clone();
    assert!(matches!(resolve(&c, &mut p), Outcome::Reject(_)));
    assert_eq!(p, before);
}

#[test]
fn decide_matches_resolve_on_pure_answers() {
    let c = ctx(Some("fix-bug"), None, None, None, "master", "t");
    let out = decide(&c, ProbeAnswers { exists: true, has_open: false });
    assert_eq!(out, Outcome::UseExisting("fix-bug".to_string()));
    let out = decide(&c, ProbeAnswers { exists: true, has_open: true });
    assert_eq!(out, Outcome::Reject(RejectReason::BranchAlreadyInUse("fix-bug".to_string())));
    let out = decide(&c, ProbeAnswers { exists: false, has_open: false });
    assert_eq!(out, Outcome::Create("master".to_string(), "fix-bug".to_string()));
}

#[test]
fn probe_target_picks_the_one_queried_branch() {
    let c = ctx(Some("s"), Some("l"), Some("r"), None, "master", "t");
    assert_eq!(probe_target(&c), Some("s".to_string()));
    let c = ctx(None, Some("l"), Some("r"), None, "master", "t");
    assert_eq!(probe_target(&c), Some("r".to_string()));
    let c = ctx(None, Some("master"), None, None, "master", "My Title");
    assert_eq!(probe_target(&c), Some("my-title".to_string()));
    let c = ctx(None, Some("l"), None, Some(4), "master", "t");
    assert_eq!(probe_target(&c), None);
}

#[test]
fn resolution_is_total_over_all_fact_combinations() {
    for explicit in [None, Some("9-src"), Some("plain")] {
        for local in [None, Some("master"), Some("9-loc"), Some("loc")] {
            for remote in [None, Some("master"), Some("9-rem"), Some("rem")] {
                for issue in [None, Some(9)] {
                    for exists in [false, true] {
                        for has_open in [false, true] {
                            let c = ctx(explicit, local, remote, issue, "master", "A Title");
                            let out = decide(&c, ProbeAnswers { exists, has_open });
                            match out {
                                Outcome::UseExisting(name) => assert!(!name.is_empty()),
                                Outcome::Create(base, _) => assert_eq!(base, "master"),
                                Outcome::Reject(_) => {}
                            }
                        }
                    }
                }
            }
        }
    }
}

#[test]
fn validate_target_accepts_default_and_checks_overrides() {
    let def = "master".to_string();
    assert_eq!(validate_target(&None, &def, false), Ok("master".to_string()));
    assert_eq!(validate_target(&Some("dev".to_string()), &def, true), Ok("dev".to_string()));
    assert_eq!(
        validate_target(&Some("gone".to_string()), &def, false),
        Err(RejectReason::TargetBranchMissing("gone".to_string()))
    );
}
