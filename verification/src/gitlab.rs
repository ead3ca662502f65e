//! The crate's own model of the GitLab API vocabulary, and the converters
//! that turn command-line words into it.
//!
//! Each converter accepts exactly the words the command line offers and
//! rejects everything else with the message the user sees.

use vstd::prelude::*;
use crate::config::Config;
use crate::strutil::str_eq;

verus! {

/// Orderings of a merge-request listing.
#[derive(Debug, Clone, Copy, PartialEq, Eq, Structural)]
pub enum MergeRequestOrderBy {
    CreatedAt,
    UpdatedAt,
}

/// Whose merge requests a listing covers.
#[derive(Debug, Clone, Copy, PartialEq, Eq, Structural)]
pub enum MergeRequestScope {
    CreatedByMe,
    AssignedToMe,
    All,
}

/// The lifecycle state of a merge request.
#[derive(Debug, Clone, Copy, PartialEq, Eq, Structural)]
pub enum MergeRequestState {
    Opened,
    Closed,
    Locked,
    Merged,
}

/// Orderings of an issue listing.
#[derive(Debug, Clone, Copy, PartialEq, Eq, Structural)]
pub enum IssueOrderBy {
    CreatedAt,
    UpdatedAt,
    Priority,
    DueDate,
    RelativePosition,
    LabelPriority,
    MilestoneDue,
    Popularity,
    WeightFields,
}

/// Whose issues a listing covers.
#[derive(Debug, Clone, Copy, PartialEq, Eq, Structural)]
pub enum IssueScope {
    CreatedByMe,
    AssignedToMe,
    All,
}

/// The lifecycle state of an issue.
#[derive(Debug, Clone, Copy, PartialEq, Eq, Structural)]
pub enum IssueState {
    Opened,
    Closed,
}

/// Deployment strategies of Auto DevOps.
#[derive(Debug, Clone, Copy, PartialEq, Eq, Structural)]
pub enum AutoDevOpsDeployStrategy {
    Continuous,
    Manual,
    TimedIncremental,
}

/// A feature switch on the server.
#[derive(Debug, Clone, Copy, PartialEq, Eq, Structural)]
pub enum EnableState {
    Enabled,
    Disabled,
}

/// How CI pipelines obtain the repository.
#[derive(Debug, Clone, Copy, PartialEq, Eq, Structural)]
pub enum BuildGitStrategy {
    Fetch,
    Clone,
}

/// How merge requests are merged.
#[derive(Debug, Clone, Copy, PartialEq, Eq, Structural)]
pub enum MergeMethod {
    Merge,
    RebaseMerge,
    FastForward,
}

/// Who can see a project.
#[derive(Debug, Clone, Copy, PartialEq, Eq, Structural)]
pub enum VisibilityLevel {
    Public,
    Internal,
    Private,
}

/// Access levels of features that may also be public.
#[derive(Debug, Clone, Copy, PartialEq, Eq, Structural)]
pub enum FeatureAccessLevelPublic {
    Disabled,
    Private,
    Enabled,
    Public,
}

/// Access levels of project features.
#[derive(Debug, Clone, Copy, PartialEq, Eq, Structural)]
pub enum FeatureAccessLevel {
    Disabled,
    Private,
    Enabled,
}

/// The MergeRequestOrderBy value a word names, if any; tried in the order the
/// command line offers the words.
pub open spec fn mr_order_by_of(s: Seq<char>) -> Option<MergeRequestOrderBy> {
    if s == "created_on"@ {
        Some(MergeRequestOrderBy::CreatedAt)
    } else if s == "updated_on"@ {
        Some(MergeRequestOrderBy::UpdatedAt)
    } else {
        None
    }
}

/// Converts a listing-order word for merge requests: exactly the words of
/// [`mr_order_by_of`] are accepted.
pub fn mr_order_by_from_str(s: &str) -> (r: Result<MergeRequestOrderBy, String>)
    ensures
        r matches Ok(v) ==> mr_order_by_of(s@) == Some(v),
        r is Err ==> mr_order_by_of(s@) is None,
{
    if str_eq(s, "created_on") {
        Ok(MergeRequestOrderBy::CreatedAt)
    } else if str_eq(s, "updated_on") {
        Ok(MergeRequestOrderBy::UpdatedAt)
    } else {
        Err(msg_of("Incorrect merge request list ordering"))
    }
}

/// The MergeRequestScope value a word names, if any; tried in the order the
/// command line offers the words.
pub open spec fn mr_scope_of(s: Seq<char>) -> Option<MergeRequestScope> {
    if s == "created_by_me"@ {
        Some(MergeRequestScope::CreatedByMe)
    } else if s == "assigned_to_me"@ {
        Some(MergeRequestScope::AssignedToMe)
    } else if s == "all"@ {
        Some(MergeRequestScope::All)
    } else {
        None
    }
}

/// Converts a scope word for merge requests: exactly the words of
/// [`mr_scope_of`] are accepted.
pub fn mr_scope_from_str(s: &str) -> (r: Result<MergeRequestScope, String>)
    ensures
        r matches Ok(v) ==> mr_scope_of(s@) == Some(v),
        r is Err ==> mr_scope_of(s@) is None,
{
    if str_eq(s, "created_by_me") {
        Ok(MergeRequestScope::CreatedByMe)
    } else if str_eq(s, "assigned_to_me") {
        Ok(MergeRequestScope::AssignedToMe)
    } else if str_eq(s, "all") {
        Ok(MergeRequestScope::All)
    } else {
        Err(msg_of("Incorrect merge request scope"))
    }
}

/// The MergeRequestState value a word names, if any; tried in the order the
/// command line offers the words.
pub open spec fn mr_state_of(s: Seq<char>) -> Option<MergeRequestState> {
    if s == "opened"@ {
        Some(MergeRequestState::Opened)
    } else if s == "closed"@ {
        Some(MergeRequestState::Closed)
    } else if s == "locked"@ {
        Some(MergeRequestState::Locked)
    } else if s == "merged"@ {
        Some(MergeRequestState::Merged)
    } else {
        None
    }
}

/// Converts a state word for merge requests: exactly the words of
/// [`mr_state_of`] are accepted.
pub fn mr_state_from_str(s: &str) -> (r: Result<MergeRequestState, String>)
    ensures
        r matches Ok(v) ==> mr_state_of(s@) == Some(v),
        r is Err ==> mr_state_of(s@) is None,
{
    if str_eq(s, "opened") {
        Ok(MergeRequestState::Opened)
    } else if str_eq(s, "closed") {
        Ok(MergeRequestState::Closed)
    } else if str_eq(s, "locked") {
        Ok(MergeRequestState::Locked)
    } else if str_eq(s, "merged") {
        Ok(MergeRequestState::Merged)
    } else {
        Err(msg_of("Incorrect issue state"))
    }
}

/// The IssueOrderBy value a word names, if any; tried in the order the
/// command line offers the words.
pub open spec fn issue_order_by_of(s: Seq<char>) -> Option<IssueOrderBy> {
    if s == "created_on"@ {
        Some(IssueOrderBy::CreatedAt)
    } else if s == "updated_on"@ {
        Some(IssueOrderBy::UpdatedAt)
    } else if s == "priority"@ {
        Some(IssueOrderBy::Priority)
    } else if s == "due_date"@ {
        Some(IssueOrderBy::DueDate)
    } else if s == "relative_position"@ {
        Some(IssueOrderBy::RelativePosition)
    } else if s == "label_priority"@ {
        Some(IssueOrderBy::LabelPriority)
    } else if s == "milestone_date"@ {
        Some(IssueOrderBy::MilestoneDue)
    } else if s == "popularity"@ {
        Some(IssueOrderBy::Popularity)
    } else if s == "weight"@ {
        Some(IssueOrderBy::WeightFields)
    } else {
        None
    }
}

/// Converts a listing-order word for issues: exactly the words of
/// [`issue_order_by_of`] are accepted.
pub fn issue_order_by_from_str(s: &str) -> (r: Result<IssueOrderBy, String>)
    ensures
        r matches Ok(v) ==> issue_order_by_of(s@) == Some(v),
        r is Err ==> issue_order_by_of(s@) is None,
{
    if str_eq(s, "created_on") {
        Ok(IssueOrderBy::CreatedAt)
    } else if str_eq(s, "updated_on") {
        Ok(IssueOrderBy::UpdatedAt)
    } else if str_eq(s, "priority") {
        Ok(IssueOrderBy::Priority)
    } else if str_eq(s, "due_date") {
        Ok(IssueOrderBy::DueDate)
    } else if str_eq(s, "relative_position") {
        Ok(IssueOrderBy::RelativePosition)
    } else if str_eq(s, "label_priority") {
        Ok(IssueOrderBy::LabelPriority)
    } else if str_eq(s, "milestone_date") {
        Ok(IssueOrderBy::MilestoneDue)
    } else if str_eq(s, "popularity") {
        Ok(IssueOrderBy::Popularity)
    } else if str_eq(s, "weight") {
        Ok(IssueOrderBy::WeightFields)
    } else {
        Err(msg_of("Incorrect issue list ordering"))
    }
}

/// The IssueScope value a word names, if any; tried in the order the
/// command line offers the words.
pub open spec fn issue_scope_of(s: Seq<char>) -> Option<IssueScope> {
    if s == "created_by_me"@ {
        Some(IssueScope::CreatedByMe)
    } else if s == "assigned_to_me"@ {
        Some(IssueScope::AssignedToMe)
    } else if s == "all"@ {
        Some(IssueScope::All)
    } else {
        None
    }
}

/// Converts a scope word for issues: exactly the words of
/// [`issue_scope_of`] are accepted.
pub fn issue_scope_from_str(s: &str) -> (r: Result<IssueScope, String>)
    ensures
        r matches Ok(v) ==> issue_scope_of(s@) == Some(v),
        r is Err ==> issue_scope_of(s@) is None,
{
    if str_eq(s, "created_by_me") {
        Ok(IssueScope::CreatedByMe)
    } else if str_eq(s, "assigned_to_me") {
        Ok(IssueScope::AssignedToMe)
    } else if str_eq(s, "all") {
        Ok(IssueScope::All)
    } else {
        Err(msg_of("Incorrect issue scope"))
    }
}

/// The IssueState value a word names, if any; tried in the order the
/// command line offers the words.
pub open spec fn issue_state_of(s: Seq<char>) -> Option<IssueState> {
    if s == "opened"@ {
        Some(IssueState::Opened)
    } else if s == "closed"@ {
        Some(IssueState::Closed)
    } else {
        None
    }
}

/// Converts a state word for issues: exactly the words of
/// [`issue_state_of`] are accepted.
pub fn issue_state_from_str(s: &str) -> (r: Result<IssueState, String>)
    ensures
        r matches Ok(v) ==> issue_state_of(s@) == Some(v),
        r is Err ==> issue_state_of(s@) is None,
{
    if str_eq(s, "opened") {
        Ok(IssueState::Opened)
    } else if str_eq(s, "closed") {
        Ok(IssueState::Closed)
    } else {
        Err(msg_of("Incorrect issue state"))
    }
}

/// The AutoDevOpsDeployStrategy value a word names, if any; tried in the order the
/// command line offers the words.
pub open spec fn auto_devops_deploy_strategy_of(s: Seq<char>) -> Option<AutoDevOpsDeployStrategy> {
    if s == "continuous"@ {
        Some(AutoDevOpsDeployStrategy::Continuous)
    } else if s == "manual"@ {
        Some(AutoDevOpsDeployStrategy::Manual)
    } else if s == "timed_incremental"@ {
        Some(AutoDevOpsDeployStrategy::TimedIncremental)
    } else {
        None
    }
}

/// Converts an Auto DevOps deployment-strategy word: exactly the words of
/// [`auto_devops_deploy_strategy_of`] are accepted.
pub fn auto_devops_deploy_strategy_from_str(s: &str) -> (r: Result<AutoDevOpsDeployStrategy, String>)
    ensures
        r matches Ok(v) ==> auto_devops_deploy_strategy_of(s@) == Some(v),
        r is Err ==> auto_devops_deploy_strategy_of(s@) is None,
{
    if str_eq(s, "continuous") {
        Ok(AutoDevOpsDeployStrategy::Continuous)
    } else if str_eq(s, "manual") {
        Ok(AutoDevOpsDeployStrategy::Manual)
    } else if str_eq(s, "timed_incremental") {
        Ok(AutoDevOpsDeployStrategy::TimedIncremental)
    } else {
        Err(msg_of("Incorrect deployment strategy"))
    }
}

/// The EnableState value a word names, if any; tried in the order the
/// command line offers the words.
pub open spec fn enable_state_of(s: Seq<char>) -> Option<EnableState> {
    if s == "enabled"@ {
        Some(EnableState::Enabled)
    } else if s == "disabled"@ {
        Some(EnableState::Disabled)
    } else {
        None
    }
}

/// Converts an enable-state word: exactly the words of
/// [`enable_state_of`] are accepted.
pub fn enable_state_from_str(s: &str) -> (r: Result<EnableState, String>)
    ensures
        r matches Ok(v) ==> enable_state_of(s@) == Some(v),
        r is Err ==> enable_state_of(s@) is None,
{
    if str_eq(s, "enabled") {
        Ok(EnableState::Enabled)
    } else if str_eq(s, "disabled") {
        Ok(EnableState::Disabled)
    } else {
        Err(msg_of("Incorrect state"))
    }
}

/// The BuildGitStrategy value a word names, if any; tried in the order the
/// command line offers the words.
pub open spec fn pipeline_git_strategy_of(s: Seq<char>) -> Option<BuildGitStrategy> {
    if s == "fetch"@ {
        Some(BuildGitStrategy::Fetch)
    } else if s == "clone"@ {
        Some(BuildGitStrategy::Clone)
    } else {
        None
    }
}

/// Converts a pipeline git-strategy word: exactly the words of
/// [`pipeline_git_strategy_of`] are accepted.
pub fn pipeline_git_strategy_from_str(s: &str) -> (r: Result<BuildGitStrategy, String>)
    ensures
        r matches Ok(v) ==> pipeline_git_strategy_of(s@) == Some(v),
        r is Err ==> pipeline_git_strategy_of(s@) is None,
{
    if str_eq(s, "fetch") {
        Ok(BuildGitStrategy::Fetch)
    } else if str_eq(s, "clone") {
        Ok(BuildGitStrategy::Clone)
    } else {
        Err(msg_of("Incorrect git strategy"))
    }
}

/// The MergeMethod value a word names, if any; tried in the order the
/// command line offers the words.
pub open spec fn merge_method_of(s: Seq<char>) -> Option<MergeMethod> {
    if s == "merge"@ {
        Some(MergeMethod::Merge)
    } else if s == "rebase-merge"@ {
        Some(MergeMethod::RebaseMerge)
    } else if s == "fast-forward"@ {
        Some(MergeMethod::FastForward)
    } else {
        None
    }
}

/// Converts a merge-method word: exactly the words of
/// [`merge_method_of`] are accepted.
pub fn merge_method_from_str(s: &str) -> (r: Result<MergeMethod, String>)
    ensures
        r matches Ok(v) ==> merge_method_of(s@) == Some(v),
        r is Err ==> merge_method_of(s@) is None,
{
    if str_eq(s, "merge") {
        Ok(MergeMethod::Merge)
    } else if str_eq(s, "rebase-merge") {
        Ok(MergeMethod::RebaseMerge)
    } else if str_eq(s, "fast-forward") {
        Ok(MergeMethod::FastForward)
    } else {
        Err(msg_of("Incorrect merge method"))
    }
}

/// The VisibilityLevel value a word names, if any; tried in the order the
/// command line offers the words.
pub open spec fn visibility_level_of(s: Seq<char>) -> Option<VisibilityLevel> {
    if s == "public"@ {
        Some(VisibilityLevel::Public)
    } else if s == "internal"@ {
        Some(VisibilityLevel::Internal)
    } else if s == "private"@ {
        Some(VisibilityLevel::Private)
    } else {
        None
    }
}

/// Converts a visibility-level word: exactly the words of
/// [`visibility_level_of`] are accepted.
pub fn visibility_level_from_str(s: &str) -> (r: Result<VisibilityLevel, String>)
    ensures
        r matches Ok(v) ==> visibility_level_of(s@) == Some(v),
        r is Err ==> visibility_level_of(s@) is None,
{
    if str_eq(s, "public") {
        Ok(VisibilityLevel::Public)
    } else if str_eq(s, "internal") {
        Ok(VisibilityLevel::Internal)
    } else if str_eq(s, "private") {
        Ok(VisibilityLevel::Private)
    } else {
        Err(msg_of("Incorrect visibility level"))
    }
}

/// The FeatureAccessLevelPublic value a word names, if any; tried in the order the
/// command line offers the words.
pub open spec fn feature_access_level_public_of(s: Seq<char>) -> Option<FeatureAccessLevelPublic> {
    if s == "disabled"@ {
        Some(FeatureAccessLevelPublic::Disabled)
    } else if s == "private"@ {
        Some(FeatureAccessLevelPublic::Private)
    } else if s == "enabled"@ {
        Some(FeatureAccessLevelPublic::Enabled)
    } else if s == "public"@ {
        Some(FeatureAccessLevelPublic::Public)
    } else {
        None
    }
}

/// Converts a public-feature access-level word: exactly the words of
/// [`feature_access_level_public_of`] are accepted.
pub fn feature_access_level_public_from_str(s: &str) -> (r: Result<FeatureAccessLevelPublic, String>)
    ensures
        r matches Ok(v) ==> feature_access_level_public_of(s@) == Some(v),
        r is Err ==> feature_access_level_public_of(s@) is None,
{
    if str_eq(s, "disabled") {
        Ok(FeatureAccessLevelPublic::Disabled)
    } else if str_eq(s, "private") {
        Ok(FeatureAccessLevelPublic::Private)
    } else if str_eq(s, "enabled") {
        Ok(FeatureAccessLevelPublic::Enabled)
    } else if str_eq(s, "public") {
        Ok(FeatureAccessLevelPublic::Public)
    } else {
        Err(msg_of("Incorrect public feature access level"))
    }
}

/// The FeatureAccessLevel value a word names, if any; tried in the order the
/// command line offers the words.
pub open spec fn feature_access_level_of(s: Seq<char>) -> Option<FeatureAccessLevel> {
    if s == "disabled"@ {
        Some(FeatureAccessLevel::Disabled)
    } else if s == "private"@ {
        Some(FeatureAccessLevel::Private)
    } else if s == "enabled"@ {
        Some(FeatureAccessLevel::Enabled)
    } else {
        None
    }
}

/// Converts a feature access-level word: exactly the words of
/// [`feature_access_level_of`] are accepted.
pub fn feature_access_level_from_str(s: &str) -> (r: Result<FeatureAccessLevel, String>)
    ensures
        r matches Ok(v) ==> feature_access_level_of(s@) == Some(v),
        r is Err ==> feature_access_level_of(s@) is None,
{
    if str_eq(s, "disabled") {
        Ok(FeatureAccessLevel::Disabled)
    } else if str_eq(s, "private") {
        Ok(FeatureAccessLevel::Private)
    } else if str_eq(s, "enabled") {
        Ok(FeatureAccessLevel::Enabled)
    } else {
        Err(msg_of("Incorrect feature access level"))
    }
}

/// True iff any of the listed merge requests counts as currently using
/// its source branch: its state is open or locked.  This is the scan a
/// server-backed probe applies to the states of the requests a branch
/// search returned, to answer whether the branch already has an open
/// request.
pub fn any_open_or_locked(states: &Vec<MergeRequestState>) -> (r: bool)
    ensures
        r == exists|i: int| 0 <= i < states@.len()
            && ((#[trigger] states@[i]) == MergeRequestState::Opened
                || states@[i] == MergeRequestState::Locked),
{
    let mut i: usize = 0;
    while i < states.len()
        invariant
            i <= states@.len(),
            forall|k: int| 0 <= k < i ==> (#[trigger] states@[k]) != MergeRequestState::Opened
                && states@[k] != MergeRequestState::Locked,
        decreases states@.len() - i,
    {
        match states[i] {
            MergeRequestState::Opened | MergeRequestState::Locked => {
                return true;
            }
            _ => {}
        }
        i = i + 1;
    }
    false
}

/// The settings a server connection is opened with: where, as whom, and
/// whether over TLS.  The transport itself lives outside this crate.
#[derive(Debug, Clone, PartialEq, Eq)]
pub struct ConnectionPlan {
    /// The server to talk to.
    pub host: String,
    /// The personal access token to authenticate with.
    pub token: String,
    /// Whether the connection uses TLS; only an explicit `tls = false`
    /// in the configuration turns it off.
    pub secure: bool,
}

/// Plans a client connection from the configuration: host and token must
/// both be set, and TLS is on unless the configuration switches it off.
pub fn new(config: &Config) -> (r: Result<ConnectionPlan, String>)
    ensures
        config.host is Some && config.token is Some ==> (r matches Ok(p)
            && p.host@ == config.host.deep_view().unwrap()
            && p.token@ == config.token.deep_view().unwrap()
            && p.secure == (config.tls != Some(false))),
        config.host is None || config.token is None ==> r is Err,
{
    let host = match &config.host {
        Some(h) => h.clone(),
        None => {
            return Err(msg_of("GitLab host not set. Run `git lab init`."));
        }
    };
    let token = match &config.token {
        Some(t) => t.clone(),
        None => {
            return Err(msg_of("GitLab token not set. Run `git lab init`."));
        }
    };
    let secure = match config.tls {
        Some(tls) => tls,
        None => true,
    };
    Ok(ConnectionPlan { host, token, secure })
}

/// An owned copy of a fixed message.
fn msg_of(m: &str) -> (r: String)
    ensures
        r@ == m@,
{
    m.to_owned()
}

} // verus!
