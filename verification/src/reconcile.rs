//! The reconciliation driver: for every declared repository of a tree, decide
//! how to obtain a handle (open, initialize or clone), reconcile its remotes,
//! and classify every failure as fatal to the run or isolated to its scope.

use vstd::prelude::*;
use crate::config::Repo;
use crate::config::RepoV;
use crate::config::RemoteV;
use crate::remotediff::ObservedRemote;
use crate::remotediff::ObservedRemoteV;
use crate::remotediff::RemoteAction;
use crate::remotediff::RemoteActionV;
use crate::remotediff::diff_remotes;
use crate::remotediff::full_diff;
use crate::remotediff::unreadable_names;
use crate::remotediff::observed_lookup;
use crate::remotediff::declared_has;
use crate::remotediff::lemma_diff_idempotent;

verus! {

/// How a missing or present repository is brought to a usable handle.
#[derive(Debug, PartialEq, Eq)]
pub enum BootstrapAction {
    /// The path exists: open it as a repository.
    OpenExisting,
    /// The path is missing and no remotes are declared: initialize empty.
    InitNew,
    /// The path is missing and remotes are declared: clone from the first
    /// declared remote's URL.
    CloneFirst { url: String },
}

/// Mathematical image of a [`BootstrapAction`].
pub enum BootstrapActionV {
    OpenExisting,
    InitNew,
    CloneFirst { url: Seq<char> },
}

impl DeepView for BootstrapAction {
    type V = BootstrapActionV;

    open spec fn deep_view(&self) -> BootstrapActionV {
        match self {
            BootstrapAction::OpenExisting => BootstrapActionV::OpenExisting,
            BootstrapAction::InitNew => BootstrapActionV::InitNew,
            BootstrapAction::CloneFirst { url } => BootstrapActionV::CloneFirst { url: url@ },
        }
    }
}

/// A condition that aborts the whole run.
#[derive(Debug, PartialEq, Eq)]
pub enum FatalError {
    /// An existing path could not be opened as a repository; ambiguous
    /// on-disk state must not be silently overwritten.
    OpenFailed { name: String },
    /// A declared remote list was empty where a clone source was required:
    /// an internal invariant violation, not a user-facing condition.
    EmptyRemotes { name: String },
}

/// Mathematical image of a [`FatalError`].
pub enum FatalErrorV {
    OpenFailed { name: Seq<char> },
    EmptyRemotes { name: Seq<char> },
}

impl DeepView for FatalError {
    type V = FatalErrorV;

    open spec fn deep_view(&self) -> FatalErrorV {
        match self {
            FatalError::OpenFailed { name } => FatalErrorV::OpenFailed { name: name@ },
            FatalError::EmptyRemotes { name } => FatalErrorV::EmptyRemotes { name: name@ },
        }
    }
}

/// Everything the run can fail on, by kind.
#[derive(Clone, Copy, PartialEq, Eq, Debug, Structural)]
pub enum FailureKind {
    ConfigUnreadable,
    HomeUnresolved,
    OpenNotARepo,
    InternalInvariant,
    CloneFailed,
    InitFailed,
    RemoteOpFailed,
    RemoteNotText,
    DirUnreadable,
    WorktreeUnsafe,
    StashPopFailed,
}

/// The narrowest scope at which a failure of a given kind is caught.
#[derive(Clone, Copy, PartialEq, Eq, Debug, Structural)]
pub enum FailureScope {
    /// Abort the whole run immediately.
    AbortRun,
    /// Skip the repository; its siblings are still processed.
    SkipRepo,
    /// Skip the remote; sibling remotes of the same repository proceed.
    SkipRemote,
    /// Skip the unreadable subtree; the scan continues with siblings.
    SkipSubtree,
    /// Skip the worktree; other worktrees of the batch proceed.
    SkipWorktree,
    /// Fail the enclosing operation, preserving what it held.
    FailOperation,
}

/// Maps every failure kind to the scope that catches it: fatal conditions
/// abort the run, everything else is isolated at the narrowest scope that
/// can safely continue.
pub fn failure_scope(kind: FailureKind) -> (s: FailureScope)
    ensures
        s == (match kind {
            FailureKind::ConfigUnreadable => FailureScope::AbortRun,
            FailureKind::HomeUnresolved => FailureScope::AbortRun,
            FailureKind::OpenNotARepo => FailureScope::AbortRun,
            FailureKind::InternalInvariant => FailureScope::AbortRun,
            FailureKind::CloneFailed => FailureScope::SkipRepo,
            FailureKind::InitFailed => FailureScope::SkipRepo,
            FailureKind::RemoteOpFailed => FailureScope::SkipRemote,
            FailureKind::RemoteNotText => FailureScope::SkipRemote,
            FailureKind::DirUnreadable => FailureScope::SkipSubtree,
            FailureKind::WorktreeUnsafe => FailureScope::SkipWorktree,
            FailureKind::StashPopFailed => FailureScope::FailOperation,
        }),
{
    match kind {
        FailureKind::ConfigUnreadable => FailureScope::AbortRun,
        FailureKind::HomeUnresolved => FailureScope::AbortRun,
        FailureKind::OpenNotARepo => FailureScope::AbortRun,
        FailureKind::InternalInvariant => FailureScope::AbortRun,
        FailureKind::CloneFailed => FailureScope::SkipRepo,
        FailureKind::InitFailed => FailureScope::SkipRepo,
        FailureKind::RemoteOpFailed => FailureScope::SkipRemote,
        FailureKind::RemoteNotText => FailureScope::SkipRemote,
        FailureKind::DirUnreadable => FailureScope::SkipSubtree,
        FailureKind::WorktreeUnsafe => FailureScope::SkipWorktree,
        FailureKind::StashPopFailed => FailureScope::FailOperation,
    }
}

/// What planning a repository's bootstrap yields, as a spec-level value.
pub open spec fn spec_bootstrap(exists: bool, remotes: Option<Seq<RemoteV>>) -> Result<
    BootstrapActionV,
    (),
> {
    if exists {
        Ok(BootstrapActionV::OpenExisting)
    } else {
        match remotes {
            None => Ok(BootstrapActionV::InitNew),
            Some(rs) => if rs.len() > 0 {
                Ok(BootstrapActionV::CloneFirst { url: rs[0].url })
            } else {
                Err(())
            },
        }
    }
}

/// Decides how to obtain a handle on the repository: open it when its path
/// exists, initialize it when missing without declared remotes, and clone it
/// from the first declared remote otherwise. A declared-but-empty remote
/// list where a clone source is required is an internal invariant violation.
pub fn plan_repo_bootstrap(repo: &Repo, exists: bool) -> (r: Result<BootstrapAction, FatalError>)
    ensures
        match r {
            Ok(a) => spec_bootstrap(exists, repo.deep_view().remotes) == Ok::<
                BootstrapActionV,
                (),
            >(a.deep_view()),
            Err(e) => spec_bootstrap(exists, repo.deep_view().remotes) == Err::<
                BootstrapActionV,
                (),
            >(()) && e.deep_view() == (FatalErrorV::EmptyRemotes { name: repo.name@ }),
        },
{
    if exists {
        Ok(BootstrapAction::OpenExisting)
    } else {
        match &repo.remotes {
            None => Ok(BootstrapAction::InitNew),
            Some(rs) => {
                if rs.len() > 0 {
                    Ok(BootstrapAction::CloneFirst { url: rs[0].url.clone() })
                } else {
                    Err(FatalError::EmptyRemotes { name: repo.name.clone() })
                }
            },
        }
    }
}

/// What the backend reported about one declared repository, gathered before
/// its reconciliation step: whether its path exists, whether the needed
/// open/initialize/clone calls succeeded, and which remotes it now has
/// (`None` when the remote list could not be read).
#[derive(Debug)]
pub struct RepoObservation {
    pub exists: bool,
    pub open_ok: bool,
    pub bootstrap_ok: bool,
    pub remotes: Option<Vec<ObservedRemote>>,
}

/// Mathematical image of a [`RepoObservation`].
pub struct RepoObservationV {
    pub exists: bool,
    pub open_ok: bool,
    pub bootstrap_ok: bool,
    pub remotes: Option<Seq<ObservedRemoteV>>,
}

impl DeepView for RepoObservation {
    type V = RepoObservationV;

    open spec fn deep_view(&self) -> RepoObservationV {
        RepoObservationV {
            exists: self.exists,
            open_ok: self.open_ok,
            bootstrap_ok: self.bootstrap_ok,
            remotes: self.remotes.deep_view(),
        }
    }
}

/// How one repository's reconciliation ended.
#[derive(Debug, PartialEq, Eq)]
pub enum RepoOutcome {
    /// The handle was obtained and, where remotes are declared, the
    /// mutations bringing them to the declared state were computed; names
    /// whose observed URL was unreadable are reported alongside.
    Converged { actions: Vec<RemoteAction>, unreadable: Vec<String> },
    /// Initialize or clone failed: isolated, the remote step is skipped.
    BootstrapFailed,
    /// The remote list could not be read: isolated, nothing is mutated.
    RemotesUnavailable,
}

/// Mathematical image of a [`RepoOutcome`].
pub enum RepoOutcomeV {
    Converged { actions: Seq<RemoteActionV>, unreadable: Seq<Seq<char>> },
    BootstrapFailed,
    RemotesUnavailable,
}

impl DeepView for RepoOutcome {
    type V = RepoOutcomeV;

    open spec fn deep_view(&self) -> RepoOutcomeV {
        match self {
            RepoOutcome::Converged { actions, unreadable } => RepoOutcomeV::Converged {
                actions: actions.deep_view(),
                unreadable: unreadable.deep_view(),
            },
            RepoOutcome::BootstrapFailed => RepoOutcomeV::BootstrapFailed,
            RepoOutcome::RemotesUnavailable => RepoOutcomeV::RemotesUnavailable,
        }
    }
}

/// The outcome one repository's reconciliation must reach, given what was
/// declared for it and what the backend reported. Fatal conditions — an
/// existing path that is no repository, a declared-but-empty remote list
/// where a clone source was needed — surface as `Err`; every other failure
/// is isolated in the outcome itself.
pub open spec fn spec_reconcile_repo(repo: RepoV, obs: RepoObservationV) -> Result<
    RepoOutcomeV,
    FatalErrorV,
> {
    if obs.exists && !obs.open_ok {
        Err(FatalErrorV::OpenFailed { name: repo.name })
    } else if !obs.exists && obs.remotes_declared_empty(repo) {
        Err(FatalErrorV::EmptyRemotes { name: repo.name })
    } else if !obs.exists && !obs.bootstrap_ok {
        Ok(RepoOutcomeV::BootstrapFailed)
    } else {
        match repo.remotes {
            None => Ok(RepoOutcomeV::Converged {
                actions: Seq::empty(),
                unreadable: Seq::empty(),
            }),
            Some(ds) => match obs.remotes {
                None => Ok(RepoOutcomeV::RemotesUnavailable),
                Some(os) => Ok(RepoOutcomeV::Converged {
                    actions: full_diff(ds, os),
                    unreadable: unreadable_names(ds, os),
                }),
            },
        }
    }
}

impl RepoObservationV {
    /// Whether the repository would have to be cloned but its declared
    /// remote list is empty.
    pub open spec fn remotes_declared_empty(self, repo: RepoV) -> bool {
        match repo.remotes {
            Some(ds) => ds.len() == 0,
            None => false,
        }
    }
}

/// Reconciles one declared repository against what the backend observed,
/// exactly as [`spec_reconcile_repo`] prescribes.
pub fn reconcile_repo(repo: &Repo, obs: &RepoObservation) -> (r: Result<RepoOutcome, FatalError>)
    ensures
        match r {
            Ok(o) => spec_reconcile_repo(repo.deep_view(), obs.deep_view()) == Ok::<
                RepoOutcomeV,
                FatalErrorV,
            >(o.deep_view()),
            Err(e) => spec_reconcile_repo(repo.deep_view(), obs.deep_view()) == Err::<
                RepoOutcomeV,
                FatalErrorV,
            >(e.deep_view()),
        },
{
    if obs.exists && !obs.open_ok {
        return Err(FatalError::OpenFailed { name: repo.name.clone() });
    }
    if !obs.exists {
        let declared_empty = match &repo.remotes {
            Some(ds) => ds.len() == 0,
            None => false,
        };
        if declared_empty {
            return Err(FatalError::EmptyRemotes { name: repo.name.clone() });
        }
        if !obs.bootstrap_ok {
            return Ok(RepoOutcome::BootstrapFailed);
        }
    }
    match &repo.remotes {
        None => {
            let r = RepoOutcome::Converged { actions: Vec::new(), unreadable: Vec::new() };
            proof {
                assert(r.deep_view()->Converged_actions =~= Seq::<RemoteActionV>::empty());
                assert(r.deep_view()->Converged_unreadable =~= Seq::<Seq<char>>::empty());
            }
            Ok(r)
        },
        Some(ds) => match &obs.remotes {
            None => Ok(RepoOutcome::RemotesUnavailable),
            Some(os) => {
                let (actions, unreadable) = diff_remotes(ds, os);
                Ok(RepoOutcome::Converged { actions, unreadable })
            },
        },
    }
}

/// What reconciling a whole tree yields: one outcome per declared
/// repository, in declaration order.
pub open spec fn spec_reconcile_tree(repos: Seq<RepoV>, obs: Seq<RepoObservationV>) -> Result<
    Seq<RepoOutcomeV>,
    FatalErrorV,
>
    decreases repos.len(),
{
    if repos.len() == 0 {
        Ok(Seq::empty())
    } else {
        match spec_reconcile_tree(repos.drop_last(), obs.drop_last()) {
            Err(e) => Err(e),
            Ok(outcomes) => match spec_reconcile_repo(repos.last(), obs.last()) {
                Err(e) => Err(e),
                Ok(o) => Ok(outcomes.push(o)),
            },
        }
    }
}

/// Reconciles every declared repository of a tree, in declaration order.
/// A fatal condition aborts at the repository that raised it; every other
/// failure lands in that repository's own outcome and leaves its siblings
/// untouched.
pub fn reconcile_tree(repos: &Vec<Repo>, obs: &Vec<RepoObservation>) -> (r: Result<
    Vec<RepoOutcome>,
    FatalError,
>)
    requires
        repos@.len() == obs@.len(),
    ensures
        match r {
            Ok(outcomes) => spec_reconcile_tree(repos.deep_view(), obs.deep_view()) == Ok::<
                Seq<RepoOutcomeV>,
                FatalErrorV,
            >(outcomes.deep_view()),
            Err(e) => spec_reconcile_tree(repos.deep_view(), obs.deep_view()) == Err::<
                Seq<RepoOutcomeV>,
                FatalErrorV,
            >(e.deep_view()),
        },
{
    let ghost rs = repos.deep_view();
    let ghost ov = obs.deep_view();
    let mut outcomes: Vec<RepoOutcome> = Vec::new();
    proof {
        assert(rs.take(0) =~= Seq::<RepoV>::empty());
        assert(ov.take(0) =~= Seq::<RepoObservationV>::empty());
        assert(outcomes.deep_view() =~= Seq::<RepoOutcomeV>::empty());
    }
    let mut i: usize = 0;
    while i < repos.len()
        invariant
            i <= repos.len(),
            repos@.len() == obs@.len(),
            rs == repos.deep_view(),
            ov == obs.deep_view(),
            spec_reconcile_tree(rs.take(i as int), ov.take(i as int)) == Ok::<
                Seq<RepoOutcomeV>,
                FatalErrorV,
            >(outcomes.deep_view()),
        decreases repos.len() - i,
    {
        proof {
            assert(rs.take(i + 1).drop_last() =~= rs.take(i as int));
            assert(ov.take(i + 1).drop_last() =~= ov.take(i as int));
            assert(rs.take(i + 1).last() == rs[i as int]);
            assert(ov.take(i + 1).last() == ov[i as int]);
        }
        match reconcile_repo(&repos[i], &obs[i]) {
            Ok(o) => {
                outcomes.push(o);
                proof {
                    assert(outcomes.deep_view() =~= spec_reconcile_tree(
                        rs.take(i + 1),
                        ov.take(i + 1),
                    )->Ok_0);
                }
            },
            Err(e) => {
                proof {
                    assert(rs.take(repos@.len() as int) =~= rs);
                    assert(ov.take(obs@.len() as int) =~= ov);
                    lemma_tree_fatal_persists(rs, ov, i as int, e.deep_view());
                }
                return Err(e);
            },
        }
        i += 1;
    }
    proof {
        assert(rs.take(repos@.len() as int) =~= rs);
        assert(ov.take(obs@.len() as int) =~= ov);
    }
    Ok(outcomes)
}

proof fn lemma_tree_fatal_persists(rs: Seq<RepoV>, ov: Seq<RepoObservationV>, i: int, e: FatalErrorV)
    requires
        rs.len() == ov.len(),
        0 <= i < rs.len(),
        spec_reconcile_tree(rs.take(i), ov.take(i)) is Ok,
        spec_reconcile_repo(rs[i], ov[i]) == Err::<RepoOutcomeV, FatalErrorV>(e),
    ensures
        spec_reconcile_tree(rs, ov) == Err::<Seq<RepoOutcomeV>, FatalErrorV>(e),
    decreases rs.len(),
{
    if rs.len() == i + 1 {
        assert(rs.drop_last() =~= rs.take(i));
        assert(ov.drop_last() =~= ov.take(i));
        assert(rs.last() == rs[i]);
    } else {
        assert(rs.drop_last().take(i) =~= rs.take(i));
        assert(ov.drop_last().take(i) =~= ov.take(i));
        lemma_tree_fatal_persists(rs.drop_last(), ov.drop_last(), i, e);
    }
}

/// Whether the backend's observation of a repository already matches its
/// declaration: the handle is obtainable without bootstrapping, every
/// declared remote is observed with its declared URL, and nothing
/// undeclared is observed.
pub open spec fn observation_matches(repo: RepoV, obs: RepoObservationV) -> bool {
    &&& obs.exists
    &&& obs.open_ok
    &&& match repo.remotes {
        None => true,
        Some(ds) => match obs.remotes {
            None => false,
            Some(os) => {
                &&& forall|i: int|
                    0 <= i < ds.len() ==> observed_lookup(os, #[trigger] ds[i].name) == Some(
                        Some(ds[i].url),
                    )
                &&& forall|i: int| 0 <= i < os.len() ==> declared_has(ds, #[trigger] os[i].name)
            },
        },
    }
}

/// Law: reconciliation is idempotent. A repository whose observed state
/// already matches its declaration yields a converged outcome with zero
/// mutations and nothing to report.
pub proof fn lemma_reconcile_idempotent(repo: RepoV, obs: RepoObservationV)
    requires
        observation_matches(repo, obs),
    ensures
        spec_reconcile_repo(repo, obs) == Ok::<RepoOutcomeV, FatalErrorV>(
            RepoOutcomeV::Converged { actions: Seq::empty(), unreadable: Seq::empty() },
        ),
{
    match repo.remotes {
        None => {
        },
        Some(ds) => {
            let os = obs.remotes->Some_0;
            lemma_diff_idempotent(ds, os);
        },
    }
}

/// Law: isolation under partial failure. Each repository's outcome is a
/// function of its own declaration and observation alone, so when no
/// repository fails fatally, a failure of one sibling never changes what
/// another converges to.
pub proof fn lemma_isolation(rs: Seq<RepoV>, ov: Seq<RepoObservationV>)
    requires
        rs.len() == ov.len(),
        spec_reconcile_tree(rs, ov) is Ok,
    ensures
        spec_reconcile_tree(rs, ov)->Ok_0.len() == rs.len(),
        forall|i: int|
            0 <= i < rs.len() ==> Ok::<RepoOutcomeV, FatalErrorV>(
                #[trigger] spec_reconcile_tree(rs, ov)->Ok_0[i],
            ) == spec_reconcile_repo(rs[i], ov[i]),
    decreases rs.len(),
{
    if rs.len() > 0 {
        lemma_isolation(rs.drop_last(), ov.drop_last());
    }
}

} // verus!
