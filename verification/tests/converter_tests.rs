use git_lab::gitlab::{
    auto_devops_deploy_strategy_from_str, enable_state_from_str, feature_access_level_from_str,
    feature_access_level_public_from_str, issue_order_by_from_str, issue_scope_from_str,
    issue_state_from_str, merge_method_from_str, mr_order_by_from_str, mr_scope_from_str,
    mr_state_from_str, pipeline_git_strategy_from_str, visibility_level_from_str,
    AutoDevOpsDeployStrategy, BuildGitStrategy, EnableState, FeatureAccessLevel,
    FeatureAccessLevelPublic, IssueOrderBy, IssueScope, IssueState, MergeMethod,
    MergeRequestOrderBy, MergeRequestScope, MergeRequestState, VisibilityLevel,
};
use git_lab::config::Config;
use git_lab::gitlab::any_open_or_locked;
use git_lab::gitlab::new;

#[test]
fn test_gitlab_converter_from_str_ok() {
    assert_eq!(mr_order_by_from_str("created_on").unwrap(), MergeRequestOrderBy::CreatedAt);
    assert_eq!(mr_order_by_from_str("updated_on").unwrap(), MergeRequestOrderBy::UpdatedAt);

    assert_eq!(mr_scope_from_str("created_by_me").unwrap(), MergeRequestScope::CreatedByMe);
    assert_eq!(mr_scope_from_str("assigned_to_me").unwrap(), MergeRequestScope::AssignedToMe);
    assert_eq!(mr_scope_from_str("all").unwrap(), MergeRequestScope::All);

    assert_eq!(mr_state_from_str("opened").unwrap(), MergeRequestState::Opened);
    assert_eq!(mr_state_from_str("closed").unwrap(), MergeRequestState::Closed);
    assert_eq!(mr_state_from_str("locked").unwrap(), MergeRequestState::Locked);
    assert_eq!(mr_state_from_str("merged").unwrap(), MergeRequestState::Merged);

    assert_eq!(issue_order_by_from_str("created_on").unwrap(), IssueOrderBy::CreatedAt);
    assert_eq!(issue_order_by_from_str("updated_on").unwrap(), IssueOrderBy::UpdatedAt);
    assert_eq!(issue_order_by_from_str("priority").unwrap(), IssueOrderBy::Priority);
    assert_eq!(issue_order_by_from_str("due_date").unwrap(), IssueOrderBy::DueDate);
    assert_eq!(
        issue_order_by_from_str("relative_position").unwrap(),
        IssueOrderBy::RelativePosition
    );
    assert_eq!(issue_order_by_from_str("label_priority").unwrap(), IssueOrderBy::LabelPriority);
    assert_eq!(issue_order_by_from_str("milestone_date").unwrap(), IssueOrderBy::MilestoneDue);
    assert_eq!(issue_order_by_from_str("popularity").unwrap(), IssueOrderBy::Popularity);
    assert_eq!(issue_order_by_from_str("weight").unwrap(), IssueOrderBy::WeightFields);

    assert_eq!(issue_scope_from_str("created_by_me").unwrap(), IssueScope::CreatedByMe);
    assert_eq!(issue_scope_from_str("assigned_to_me").unwrap(), IssueScope::AssignedToMe);
    assert_eq!(issue_scope_from_str("all").unwrap(), IssueScope::All);

    assert_eq!(issue_state_from_str("opened").unwrap(), IssueState::Opened);
    assert_eq!(issue_state_from_str("closed").unwrap(), IssueState::Closed);

    assert_eq!(
        auto_devops_deploy_strategy_from_str("continuous").unwrap(),
        AutoDevOpsDeployStrategy::Continuous
    );
    assert_eq!(
        auto_devops_deploy_strategy_from_str("manual").unwrap(),
        AutoDevOpsDeployStrategy::Manual
    );
    assert_eq!(
        auto_devops_deploy_strategy_from_str("timed_incremental").unwrap(),
        AutoDevOpsDeployStrategy::TimedIncremental
    );

    assert_eq!(enable_state_from_str("enabled").unwrap(), EnableState::Enabled);
    assert_eq!(enable_state_from_str("disabled").unwrap(), EnableState::Disabled);

    assert_eq!(pipeline_git_strategy_from_str("fetch").unwrap(), BuildGitStrategy::Fetch);
    assert_eq!(pipeline_git_strategy_from_str("clone").unwrap(), BuildGitStrategy::Clone);

    assert_eq!(merge_method_from_str("merge").unwrap(), MergeMethod::Merge);
    assert_eq!(merge_method_from_str("rebase-merge").unwrap(), MergeMethod::RebaseMerge);
    assert_eq!(merge_method_from_str("fast-forward").unwrap(), MergeMethod::FastForward);

    assert_eq!(visibility_level_from_str("public").unwrap(), VisibilityLevel::Public);
    assert_eq!(visibility_level_from_str("internal").unwrap(), VisibilityLevel::Internal);
    assert_eq!(visibility_level_from_str("private").unwrap(), VisibilityLevel::Private);

    assert_eq!(
        feature_access_level_public_from_str("disabled").unwrap(),
        FeatureAccessLevelPublic::Disabled
    );
    assert_eq!(
        feature_access_level_public_from_str("private").unwrap(),
        FeatureAccessLevelPublic::Private
    );
    assert_eq!(
        feature_access_level_public_from_str("enabled").unwrap(),
        FeatureAccessLevelPublic::Enabled
    );
    assert_eq!(
        feature_access_level_public_from_str("public").unwrap(),
        FeatureAccessLevelPublic::Public
    );

    assert_eq!(feature_access_level_from_str("disabled").unwrap(), FeatureAccessLevel::Disabled);
    assert_eq!(feature_access_level_from_str("private").unwrap(), FeatureAccessLevel::Private);
    assert_eq!(feature_access_level_from_str("enabled").unwrap(), FeatureAccessLevel::Enabled);
}

#[test]
fn test_gitlab_converter_from_str_err() {
    assert!(mr_order_by_from_str("blah").is_err());
    assert!(mr_scope_from_str("blah").is_err());
    assert!(mr_state_from_str("blah").is_err());
    assert!(issue_order_by_from_str("blah").is_err());
    assert!(issue_scope_from_str("blah").is_err());
    assert!(issue_state_from_str("blah").is_err());
    assert!(auto_devops_deploy_strategy_from_str("blah").is_err());
    assert!(enable_state_from_str("blah").is_err());
    assert!(pipeline_git_strategy_from_str("blah").is_err());
    assert!(merge_method_from_str("blah").is_err());
    assert!(visibility_level_from_str("blah").is_err());
    assert!(feature_access_level_public_from_str("blah").is_err());
    assert!(feature_access_level_from_str("blah").is_err());
}

#[test]
fn open_or_locked_states_mark_a_branch_as_in_use() {
    assert!(!any_open_or_locked(&Vec::new()));
    assert!(!any_open_or_locked(&vec![MergeRequestState::Closed, MergeRequestState::Merged]));
    assert!(any_open_or_locked(&vec![MergeRequestState::Closed, MergeRequestState::Opened]));
    assert!(any_open_or_locked(&vec![MergeRequestState::Locked]));
}

#[test]
fn connection_plan_needs_host_and_token() {
    let mut config = Config::new();
    assert!(new(&config).is_err());
    config.host = Some("gitlab.example.org".to_string());
    assert!(new(&config).is_err());
    config.token = Some("testtoken".to_string());
    let plan = new(&config).unwrap();
    assert_eq!(plan.host, "gitlab.example.org");
    assert!(plan.secure);
    config.tls = Some(false);
    assert!(!new(&config).unwrap().secure);
    config.tls = Some(true);
    assert!(new(&config).unwrap().secure);
}
