//! The branch-resolution engine.
//!
//! Given the facts observed about one invocation — an explicit `--source`
//! flag, the checked-out local branch, its tracking remote branch, an
//! optional linked issue, the project's default branch and a fallback
//! title — the engine picks exactly one outcome: reuse an existing remote
//! branch, create a new one from the default branch, or reject with a
//! precise reason.
//!
//! The decision table is an ordered list of guarded rules; the first rule
//! that matches wins.  [`resolve_spec`] is the table written as a
//! specification, [`decide`] the verified executable transcription, and
//! [`resolve`] the orchestrator that queries the remote probes lazily and
//! performs at most one branch creation.

use vstd::prelude::*;
use crate::naming::slug;
use crate::naming::slug_of;
use crate::naming::issue_prefix;
use crate::naming::spec_issue_prefixed;
use crate::naming::branch_prefixed_with_issue_id;
use crate::naming::slug_and_prefix;
use crate::naming::lemma_prefix_of_prefixed;
use crate::strutil::str_eq;

verus! {

/// The complete, immutable input to one resolution.
#[derive(Debug, Clone, PartialEq, Eq)]
pub struct ResolutionContext {
    /// Identifier of the hosted project; validated before resolution runs.
    pub project_id: u64,
    /// Branch name passed verbatim by the user, if any.
    pub explicit_source: Option<String>,
    /// The currently checked-out local branch, if HEAD is on one.
    pub local_branch: Option<String>,
    /// The tracking branch configured for the local branch, remote prefix
    /// already stripped.
    pub remote_branch: Option<String>,
    /// The issue this request should close, if any.
    pub issue_id: Option<u64>,
    /// The project's default branch; always known here.
    pub default_branch: String,
    /// Fallback text used only to synthesize a new branch name.
    pub title: String,
}

/// The spec-level image of a [`ResolutionContext`].
#[verifier::ext_equal]
pub struct CtxView {
    pub project_id: u64,
    pub explicit_source: Option<Seq<char>>,
    pub local_branch: Option<Seq<char>>,
    pub remote_branch: Option<Seq<char>>,
    pub issue_id: Option<u64>,
    pub default_branch: Seq<char>,
    pub title: Seq<char>,
}

impl View for ResolutionContext {
    type V = CtxView;

    open spec fn view(&self) -> CtxView {
        CtxView {
            project_id: self.project_id,
            explicit_source: self.explicit_source.deep_view(),
            local_branch: self.local_branch.deep_view(),
            remote_branch: self.remote_branch.deep_view(),
            issue_id: self.issue_id,
            default_branch: self.default_branch@,
            title: self.title@,
        }
    }
}

/// Why a resolution was refused.  Every reason is terminal for the current
/// invocation; nothing is retried inside the engine.
#[derive(Debug, Clone, PartialEq, Eq)]
pub enum RejectReason {
    /// A candidate branch does not carry the required `"<issue>-"` prefix.
    NamingConventionViolation(String, u64),
    /// The candidate branch is already the source of an open or locked
    /// merge request.
    BranchAlreadyInUse(String),
    /// An explicitly requested merge target does not exist remotely.
    TargetBranchMissing(String),
    /// Neither an explicit source, a local branch nor a tracking branch
    /// could be determined.
    NoBranchInformation,
    /// A probe failed; the cause is propagated unchanged.
    ProbeFailure(String),
    /// A fact combination no rule of the table claims, signalled instead
    /// of a silent fall-through; see [`outside_declared_domain`] for the
    /// exact combinations.
    UnhandledCombination,
}

/// The spec-level image of a [`RejectReason`].
#[verifier::ext_equal]
pub enum ReasonView {
    NamingConventionViolation(Seq<char>, u64),
    BranchAlreadyInUse(Seq<char>),
    TargetBranchMissing(Seq<char>),
    NoBranchInformation,
    ProbeFailure(Seq<char>),
    UnhandledCombination,
}

impl View for RejectReason {
    type V = ReasonView;

    open spec fn view(&self) -> ReasonView {
        match self {
            RejectReason::NamingConventionViolation(b, i) =>
                ReasonView::NamingConventionViolation(b@, *i),
            RejectReason::BranchAlreadyInUse(b) => ReasonView::BranchAlreadyInUse(b@),
            RejectReason::TargetBranchMissing(b) => ReasonView::TargetBranchMissing(b@),
            RejectReason::NoBranchInformation => ReasonView::NoBranchInformation,
            RejectReason::ProbeFailure(c) => ReasonView::ProbeFailure(c@),
            RejectReason::UnhandledCombination => ReasonView::UnhandledCombination,
        }
    }
}

/// Exactly one of: reuse a remote branch, create one from a base branch,
/// or fail with a classified reason.
#[derive(Debug, Clone, PartialEq, Eq)]
pub enum Outcome {
    /// Use this existing remote branch as the request's source.
    UseExisting(String),
    /// Create the named branch from the base branch, then use it.
    Create(String, String),
    /// Refuse the resolution.
    Reject(RejectReason),
}

/// The spec-level image of an [`Outcome`].
#[verifier::ext_equal]
pub enum OutcomeView {
    UseExisting(Seq<char>),
    Create(Seq<char>, Seq<char>),
    Reject(ReasonView),
}

impl View for Outcome {
    type V = OutcomeView;

    open spec fn view(&self) -> OutcomeView {
        match self {
            Outcome::UseExisting(n) => OutcomeView::UseExisting(n@),
            Outcome::Create(b, n) => OutcomeView::Create(b@, n@),
            Outcome::Reject(r) => OutcomeView::Reject(r@),
        }
    }
}

/// The answers of the remote probes for the single branch name the
/// resolution may ask about (see [`probe_target_spec`]).
#[derive(Debug, Clone, Copy, PartialEq, Eq, Structural)]
pub struct ProbeAnswers {
    /// Whether the candidate branch exists on the server.
    pub exists: bool,
    /// Whether an open or locked merge request uses it as its source.
    pub has_open: bool,
}

/// The explicit-source rules, shared by the no-issue and the
/// prefix-checked issue path.
pub open spec fn explicit_rule_spec(
    s: Seq<char>,
    default_branch: Seq<char>,
    exists: bool,
    has_open: bool,
) -> OutcomeView {
    if exists && !has_open {
        OutcomeView::UseExisting(s)
    } else if exists && has_open {
        OutcomeView::Reject(ReasonView::BranchAlreadyInUse(s))
    } else {
        OutcomeView::Create(default_branch, s)
    }
}

/// The ordered decision table.  `exists` and `has_open` are the probe
/// answers for the branch named by [`probe_target_spec`]; rules that ask
/// about no branch ignore them.
pub open spec fn resolve_spec(ctx: CtxView, exists: bool, has_open: bool) -> OutcomeView {
    match ctx.explicit_source {
        Some(s) => match ctx.issue_id {
            None => explicit_rule_spec(s, ctx.default_branch, exists, has_open),
            Some(i) => if !spec_issue_prefixed(s, i) {
                OutcomeView::Reject(ReasonView::NamingConventionViolation(s, i))
            } else {
                explicit_rule_spec(s, ctx.default_branch, exists, has_open)
            },
        },
        None => match ctx.local_branch {
            Some(l) => match ctx.remote_branch {
                Some(r) => match ctx.issue_id {
                    Some(i) => if exists && spec_issue_prefixed(r, i) {
                        OutcomeView::UseExisting(r)
                    } else if exists && !spec_issue_prefixed(r, i) && r != ctx.default_branch {
                        OutcomeView::UseExisting(r)
                    } else if !exists {
                        OutcomeView::Create(ctx.default_branch, r)
                    } else {
                        OutcomeView::Reject(ReasonView::UnhandledCombination)
                    },
                    None => if exists && has_open && r != ctx.default_branch {
                        OutcomeView::Reject(ReasonView::BranchAlreadyInUse(r))
                    } else if exists && r != ctx.default_branch {
                        OutcomeView::UseExisting(r)
                    } else if exists {
                        OutcomeView::Create(ctx.default_branch, slug_of(ctx.title))
                    } else {
                        OutcomeView::Create(ctx.default_branch, r)
                    },
                },
                None => match ctx.issue_id {
                    Some(i) => if spec_issue_prefixed(l, i) {
                        OutcomeView::Create(ctx.default_branch, l)
                    } else if l == ctx.default_branch {
                        OutcomeView::Create(ctx.default_branch, issue_prefix(i) + slug_of(ctx.title))
                    } else {
                        OutcomeView::Reject(ReasonView::NamingConventionViolation(l, i))
                    },
                    None => if l != ctx.default_branch {
                        OutcomeView::Create(ctx.default_branch, l)
                    } else if !exists {
                        OutcomeView::Create(ctx.default_branch, slug_of(ctx.title))
                    } else {
                        OutcomeView::Reject(ReasonView::BranchAlreadyInUse(slug_of(ctx.title)))
                    },
                },
            },
            None => match ctx.remote_branch {
                None => OutcomeView::Reject(ReasonView::NoBranchInformation),
                Some(_) => OutcomeView::Reject(ReasonView::UnhandledCombination),
            },
        },
    }
}

/// The single branch name whose remote state a resolution may ask about:
/// the explicit source, else the tracking remote branch, else — on the
/// default branch with no issue — the slug of the title.
pub open spec fn probe_target_spec(ctx: CtxView) -> Option<Seq<char>> {
    match ctx.explicit_source {
        Some(s) => Some(s),
        None => match ctx.local_branch {
            Some(l) => match ctx.remote_branch {
                Some(r) => Some(r),
                None => if ctx.issue_id is None && l == ctx.default_branch {
                    Some(slug_of(ctx.title))
                } else {
                    None
                },
            },
            None => None,
        },
    }
}

/// Computes [`probe_target_spec`]: which branch name the probes should be
/// asked about before deciding.
pub fn probe_target(ctx: &ResolutionContext) -> (r: Option<String>)
    ensures
        r matches Some(t) ==> probe_target_spec(ctx@) == Some(t@),
        r is None ==> probe_target_spec(ctx@) is None,
{
    match &ctx.explicit_source {
        Some(s) => Some(s.clone()),
        None => match &ctx.local_branch {
            Some(l) => match &ctx.remote_branch {
                Some(r) => Some(r.clone()),
                None => {
                    if ctx.issue_id.is_none() && str_eq(l.as_str(), ctx.default_branch.as_str()) {
                        Some(slug(ctx.title.as_str()))
                    } else {
                        None
                    }
                }
            },
            None => None,
        },
    }
}

/// The pure decision engine: evaluates the ordered rule table on the
/// context and the probe answers for the candidate branch.  Always returns
/// exactly one outcome and performs no side effect.
pub fn decide(ctx: &ResolutionContext, answers: ProbeAnswers) -> (r: Outcome)
    ensures
        r@ == resolve_spec(ctx@, answers.exists, answers.has_open),
{
    match &ctx.explicit_source {
        Some(s) => {
            match ctx.issue_id {
                None => decide_explicit(s, &ctx.default_branch, answers),
                Some(i) => {
                    if !branch_prefixed_with_issue_id(s.as_str(), i) {
                        Outcome::Reject(RejectReason::NamingConventionViolation(s.clone(), i))
                    } else {
                        decide_explicit(s, &ctx.default_branch, answers)
                    }
                }
            }
        }
        None => match &ctx.local_branch {
            Some(l) => match &ctx.remote_branch {
                Some(r) => {
                    let on_default = str_eq(r.as_str(), ctx.default_branch.as_str());
                    match ctx.issue_id {
                        Some(i) => {
                            let prefixed = branch_prefixed_with_issue_id(r.as_str(), i);
                            if answers.exists && prefixed {
                                Outcome::UseExisting(r.clone())
                            } else if answers.exists && !prefixed && !on_default {
                                Outcome::UseExisting(r.clone())
                            } else if !answers.exists {
                                Outcome::Create(ctx.default_branch.clone(), r.clone())
                            } else {
                                Outcome::Reject(RejectReason::UnhandledCombination)
                            }
                        }
                        None => {
                            if answers.exists && answers.has_open && !on_default {
                                Outcome::Reject(RejectReason::BranchAlreadyInUse(r.clone()))
                            } else if answers.exists && !on_default {
                                Outcome::UseExisting(r.clone())
                            } else if answers.exists {
                                Outcome::Create(
                                    ctx.default_branch.clone(),
                                    slug(ctx.title.as_str()),
                                )
                            } else {
                                Outcome::Create(ctx.default_branch.clone(), r.clone())
                            }
                        }
                    }
                }
                None => {
                    let on_default = str_eq(l.as_str(), ctx.default_branch.as_str());
                    match ctx.issue_id {
                        Some(i) => {
                            if branch_prefixed_with_issue_id(l.as_str(), i) {
                                Outcome::Create(ctx.default_branch.clone(), l.clone())
                            } else if on_default {
                                Outcome::Create(
                                    ctx.default_branch.clone(),
                                    slug_and_prefix(i, ctx.title.as_str()),
                                )
                            } else {
                                Outcome::Reject(
                                    RejectReason::NamingConventionViolation(l.clone(), i),
                                )
                            }
                        }
                        None => {
                            if !on_default {
                                Outcome::Create(ctx.default_branch.clone(), l.clone())
                            } else if !answers.exists {
                                Outcome::Create(
                                    ctx.default_branch.clone(),
                                    slug(ctx.title.as_str()),
                                )
                            } else {
                                Outcome::Reject(RejectReason::BranchAlreadyInUse(
                                    slug(ctx.title.as_str()),
                                ))
                            }
                        }
                    }
                }
            },
            None => match &ctx.remote_branch {
                None => Outcome::Reject(RejectReason::NoBranchInformation),
                Some(_) => Outcome::Reject(RejectReason::UnhandledCombination),
            },
        },
    }
}

/// The explicit-source branch of the table, after any prefix check.
fn decide_explicit(s: &String, default_branch: &String, answers: ProbeAnswers) -> (r: Outcome)
    ensures
        r@ == explicit_rule_spec(s@, default_branch@, answers.exists, answers.has_open),
{
    if answers.exists && !answers.has_open {
        Outcome::UseExisting(s.clone())
    } else if answers.exists && answers.has_open {
        Outcome::Reject(RejectReason::BranchAlreadyInUse(s.clone()))
    } else {
        Outcome::Create(default_branch.clone(), s.clone())
    }
}

/// The narrow interface to the hosted project that the resolver consumes:
/// point queries about remote branches and open requests, and the single
/// side-effecting operation, branch creation.
///
/// Each implementation carries its remote state as the two abstract sets
/// and counts every invocation of `create_branch`.  Query results are
/// functions of that state; any call may instead fail with a transport
/// error, which the resolver propagates unchanged.
pub trait RemoteProbes: Sized {
    /// The branches that exist on the server.
    spec fn existing_branches(&self) -> Set<Seq<char>>;

    /// The branches that are the source of an open or locked merge
    /// request.
    spec fn open_request_branches(&self) -> Set<Seq<char>>;

    /// How many times `create_branch` has been invoked.
    spec fn creations(&self) -> nat;

    /// Whether `name` exists on the server.
    fn exists_remotely(&self, name: &str) -> (r: Result<bool, String>)
        ensures
            r matches Ok(b) ==> b == self.existing_branches().contains(name@),
    ;

    /// Whether an open or locked merge request has `name` as its source.
    /// A server-backed implementation answers this by fetching the
    /// requests sourced from `name` and handing their states to
    /// [`crate::gitlab::any_open_or_locked`].
    fn has_open_request(&self, name: &str) -> (r: Result<bool, String>)
        ensures
            r matches Ok(b) ==> b == self.open_request_branches().contains(name@),
    ;

    /// Creates `name` on the server from `base` and returns the
    /// server-confirmed name, which equals `name` on success.
    fn create_branch(&mut self, base: &str, name: &str) -> (r: Result<String, String>)
        ensures
            final(self).creations() == old(self).creations() + 1,
            final(self).open_request_branches() == old(self).open_request_branches(),
            r matches Ok(n) ==> n@ == name@
                && final(self).existing_branches()
                    == old(self).existing_branches().insert(name@),
            r matches Err(_) ==> final(self).existing_branches()
                == old(self).existing_branches(),
    ;
}

/// The probes' answer about existence for the branch the context asks
/// about; `false` when no branch is asked about at all.
pub open spec fn target_exists<P: RemoteProbes>(ctx: CtxView, p: P) -> bool {
    match probe_target_spec(ctx) {
        Some(t) => p.existing_branches().contains(t),
        None => false,
    }
}

/// The probes' answer about an open request for the branch the context
/// asks about; `false` when no branch is asked about at all.
pub open spec fn target_has_open<P: RemoteProbes>(ctx: CtxView, p: P) -> bool {
    match probe_target_spec(ctx) {
        Some(t) => p.open_request_branches().contains(t),
        None => false,
    }
}

/// One full resolution: checks the naming convention before any remote
/// query, asks the probes about at most one candidate branch, decides, and
/// — only when the decision is to create — invokes `create_branch`,
/// exactly once.
///
/// Unless a probe fails, the outcome is exactly what the decision table
/// yields on the context and the probes' state, so two resolutions against
/// the same state agree: the engine keeps no hidden state.  Two promises
/// hold unconditionally, since no probe is involved in them: an explicit
/// source that breaks the naming convention of its issue is rejected as
/// such, and on a context that asks about no branch and does not create,
/// the table's verdict is returned as it stands.  Only a creating outcome
/// touches the remote state at all.
pub fn resolve<P: RemoteProbes>(ctx: &ResolutionContext, probes: &mut P) -> (r: Outcome)
    ensures
        final(probes).creations() <= old(probes).creations() + 1,
        r@ matches OutcomeView::Create(_, _)
            ==> final(probes).creations() == old(probes).creations() + 1,
        !(r@ matches OutcomeView::Create(_, _))
            && !(r@ matches OutcomeView::Reject(ReasonView::ProbeFailure(_)))
            ==> *final(probes) == *old(probes),
        !(r@ matches OutcomeView::Reject(ReasonView::ProbeFailure(_)))
            ==> r@ == resolve_spec(
                ctx@,
                target_exists(ctx@, *old(probes)),
                target_has_open(ctx@, *old(probes)),
            ),
        ctx@.explicit_source is Some && ctx@.issue_id is Some
            && !spec_issue_prefixed(ctx@.explicit_source.unwrap(), ctx@.issue_id.unwrap())
            ==> r@ == OutcomeView::Reject(ReasonView::NamingConventionViolation(
                ctx@.explicit_source.unwrap(),
                ctx@.issue_id.unwrap(),
            )),
        probe_target_spec(ctx@) is None
            && !(resolve_spec(ctx@, false, false) matches OutcomeView::Create(_, _))
            ==> r@ == resolve_spec(ctx@, false, false),
{
    if let Some(s) = &ctx.explicit_source {
        if let Some(i) = ctx.issue_id {
            if !branch_prefixed_with_issue_id(s.as_str(), i) {
                return Outcome::Reject(RejectReason::NamingConventionViolation(s.clone(), i));
            }
        }
    }
    let target = probe_target(ctx);
    let answers: ProbeAnswers;
    match &target {
        None => {
            answers = ProbeAnswers { exists: false, has_open: false };
        }
        Some(t) => {
            let ex = match probes.exists_remotely(t.as_str()) {
                Ok(b) => b,
                Err(e) => {
                    return Outcome::Reject(RejectReason::ProbeFailure(e));
                }
            };
            let needs_open = ex && (ctx.explicit_source.is_some()
                || (ctx.remote_branch.is_some() && ctx.issue_id.is_none()));
            let ho = if needs_open {
                match probes.has_open_request(t.as_str()) {
                    Ok(b) => b,
                    Err(e) => {
                        return Outcome::Reject(RejectReason::ProbeFailure(e));
                    }
                }
            } else {
                false
            };
            answers = ProbeAnswers { exists: ex, has_open: ho };
        }
    }
    let out = decide(ctx, answers);
    proof {
        assert(out@ == resolve_spec(
            ctx@,
            target_exists(ctx@, *old(probes)),
            target_has_open(ctx@, *old(probes)),
        ));
    }
    match out {
        Outcome::Create(base, name) => {
            match probes.create_branch(base.as_str(), name.as_str()) {
                Ok(created) => Outcome::Create(base, created),
                Err(e) => Outcome::Reject(RejectReason::ProbeFailure(e)),
            }
        }
        other => other,
    }
}

/// Validates a user-overridden merge target: an explicit target must
/// already exist remotely; without an override the default branch is the
/// target.  `exists` is the probes' answer for the requested branch.
pub fn validate_target(
    requested: &Option<String>,
    default_branch: &String,
    exists: bool,
) -> (r: Result<String, RejectReason>)
    ensures
        match requested.deep_view() {
            Some(t) => if exists {
                r matches Ok(b) && b@ == t
            } else {
                r matches Err(e) && e@ == ReasonView::TargetBranchMissing(t)
            },
            None => r matches Ok(b) && b@ == default_branch@,
        },
{
    match requested {
        Some(t) => {
            if exists {
                Ok(t.clone())
            } else {
                Err(RejectReason::TargetBranchMissing(t.clone()))
            }
        }
        None => Ok(default_branch.clone()),
    }
}

/// An in-memory implementation of the probes: a fixed table of remote
/// branches and open-request sources.  Queries never fail; creations are
/// recorded in order.
#[derive(Debug, Clone, PartialEq, Eq)]
pub struct FixedProbes {
    /// Branches that exist on the server.
    pub existing: Vec<String>,
    /// Branches that are the source of an open or locked request.
    pub open_requests: Vec<String>,
    /// The names handed to `create_branch`, oldest first.
    pub created: Vec<String>,
}

impl FixedProbes {
    /// A probe table with the given existing branches and open-request
    /// sources, and no creations yet.
    pub fn new(existing: Vec<String>, open_requests: Vec<String>) -> (r: FixedProbes)
        ensures
            r.existing_branches() == existing.deep_view().to_set(),
            r.open_request_branches() == open_requests.deep_view().to_set(),
            r.creations() == 0,
    {
        FixedProbes { existing, open_requests, created: Vec::new() }
    }
}

/// Linear search for a name among the views of `names`.
fn contains_name(names: &Vec<String>, name: &str) -> (r: bool)
    ensures
        r == names.deep_view().to_set().contains(name@),
{
    let mut i: usize = 0;
    while i < names.len()
        invariant
            i <= names@.len(),
            forall|k: int| 0 <= k < i ==> names.deep_view()[k] != name@,
        decreases names@.len() - i,
    {
        if str_eq(names[i].as_str(), name) {
            proof {
                assert(names.deep_view()[i as int] == name@);
                assert(names.deep_view().contains(name@));
            }
            return true;
        }
        i = i + 1;
    }
    proof {
        assert(!names.deep_view().contains(name@));
    }
    false
}

impl RemoteProbes for FixedProbes {
    open spec fn existing_branches(&self) -> Set<Seq<char>> {
        self.existing.deep_view().to_set()
    }

    open spec fn open_request_branches(&self) -> Set<Seq<char>> {
        self.open_requests.deep_view().to_set()
    }

    open spec fn creations(&self) -> nat {
        self.created.deep_view().len()
    }

    fn exists_remotely(&self, name: &str) -> (r: Result<bool, String>) {
        Ok(contains_name(&self.existing, name))
    }

    fn has_open_request(&self, name: &str) -> (r: Result<bool, String>) {
        Ok(contains_name(&self.open_requests, name))
    }

    fn create_branch(&mut self, base: &str, name: &str) -> (r: Result<String, String>) {
        let owned = name_to_string(name);
        self.created.push(name_to_string(name));
        let ghost before = old(self).existing.deep_view();
        self.existing.push(name_to_string(name));
        proof {
            assert(self.existing.deep_view() =~= before.push(name@));
            before.lemma_push_to_set_commute(name@);
        }
        Ok(owned)
    }
}

/// An owned copy of a borrowed name.
fn name_to_string(name: &str) -> (r: String)
    ensures
        r@ == name@,
{
    name.to_owned()
}

/// Totality of the decision table: for every context and every pair of
/// probe answers it yields exactly one outcome — one of the three
/// constructors, never a fall-through.  The executable engine is verified
/// against this table, so it can neither panic nor leave a combination
/// unmatched.
pub proof fn lemma_resolve_total(ctx: CtxView, exists: bool, has_open: bool)
    ensures
        resolve_spec(ctx, exists, has_open) matches OutcomeView::UseExisting(_)
            || resolve_spec(ctx, exists, has_open) matches OutcomeView::Create(_, _)
            || resolve_spec(ctx, exists, has_open) matches OutcomeView::Reject(_),
{
}

/// The fact combinations on which the table signals an internal
/// inconsistency instead of picking a branch.
///
/// There are exactly two: a tracking remote branch reported without a
/// local branch (the probes never deliver that pair), and — with an issue
/// given — a tracking branch that exists remotely, equals the default
/// branch, and is not issue-prefixed, which no rule of the table claims.
pub open spec fn outside_declared_domain(ctx: CtxView, exists: bool) -> bool {
    ||| ctx.explicit_source is None && ctx.local_branch is None && ctx.remote_branch is Some
    ||| {
        &&& ctx.explicit_source is None
        &&& ctx.local_branch is Some
        &&& ctx.remote_branch matches Some(r) && ctx.issue_id matches Some(i)
            && exists && !spec_issue_prefixed(r, i) && r == ctx.default_branch
    }
}

/// `UnhandledCombination` is produced exactly on the combinations outside
/// the declared input domain, and on no input the domain covers.
pub proof fn lemma_unhandled_only_outside_domain(ctx: CtxView, exists: bool, has_open: bool)
    ensures
        resolve_spec(ctx, exists, has_open)
            == OutcomeView::Reject(ReasonView::UnhandledCombination)
            <==> outside_declared_domain(ctx, exists),
{
}

/// The naming invariant: whenever an issue is linked, every branch the
/// engine accepts or creates — other than the default branch itself —
/// carries the `"<issue>-"` prefix.
///
/// The one knowingly tolerated exception is an already-configured tracking
/// branch that is off-convention and not the default: the table reuses or
/// recreates it as it stands, and the precondition here leaves exactly
/// that family of inputs out.
pub proof fn lemma_naming_invariant(ctx: CtxView, exists: bool, has_open: bool, i: u64)
    requires
        ctx.issue_id == Some(i),
        !{
            &&& ctx.explicit_source is None
            &&& ctx.local_branch is Some
            &&& ctx.remote_branch matches Some(r) && !spec_issue_prefixed(r, i)
                && r != ctx.default_branch
        },
    ensures
        resolve_spec(ctx, exists, has_open) matches OutcomeView::UseExisting(n)
            ==> (n != ctx.default_branch ==> spec_issue_prefixed(n, i)),
        resolve_spec(ctx, exists, has_open) matches OutcomeView::Create(_, n)
            ==> (n != ctx.default_branch ==> spec_issue_prefixed(n, i)),
{
    if ctx.explicit_source is None && ctx.local_branch is Some && ctx.remote_branch is None {
        if let Some(l) = ctx.local_branch {
            if !spec_issue_prefixed(l, i) && l == ctx.default_branch {
                lemma_prefix_of_prefixed(i, slug_of(ctx.title));
            }
        }
    }
}

/// Idempotence of reuse: when the explicit source exists remotely, has no
/// open request, and does not fall foul of the naming convention, the
/// table yields `UseExisting` of that very branch.  The table is a pure
/// function of its inputs — [`resolve`]'s contract ties the outcome to the
/// context and the probes' state alone — so a second resolution against
/// the same facts yields this same outcome again.
pub proof fn lemma_reuse_idempotent(ctx: CtxView, s: Seq<char>)
    requires
        ctx.explicit_source == Some(s),
        ctx.issue_id matches Some(i) ==> spec_issue_prefixed(s, i),
    ensures
        resolve_spec(ctx, true, false) == OutcomeView::UseExisting(s),
{
}

/// The inferred counterpart of [`lemma_reuse_idempotent`]: a tracking
/// remote branch other than the default branch that exists and has no
/// open request is likewise reused, with or without a linked issue.
/// Together the two lemmas cover every candidate the engine reuses; the
/// remaining exists-and-free contexts name the default branch or its
/// title slug, which the table never accepts as a source.
pub proof fn lemma_tracking_reuse_idempotent(ctx: CtxView, s: Seq<char>)
    requires
        ctx.explicit_source is None,
        ctx.local_branch is Some,
        ctx.remote_branch == Some(s),
        s != ctx.default_branch,
    ensures
        resolve_spec(ctx, true, false) == OutcomeView::UseExisting(s),
{
}

} // verus!
