//! The worktree lifecycle: conversion of a plain checkout, adding and
//! deleting named worktrees behind a no-data-loss safety gate, batch
//! cleaning, and the plans for fetch, pull and rebase with the stash-wrap
//! protocol around destructive steps.

use vstd::prelude::*;

verus! {

/// One worktree as observed at the start of an operation; never cached
/// across operations.
#[derive(Debug, Clone)]
pub struct WorktreeInfo {
    pub name: String,
    pub path: String,
    pub tracked_branch: Option<String>,
    pub dirty: bool,
    pub unpushed: bool,
}

/// Mathematical image of a [`WorktreeInfo`].
pub struct WorktreeInfoV {
    pub name: Seq<char>,
    pub path: Seq<char>,
    pub tracked_branch: Option<Seq<char>>,
    pub dirty: bool,
    pub unpushed: bool,
}

impl DeepView for WorktreeInfo {
    type V = WorktreeInfoV;

    open spec fn deep_view(&self) -> WorktreeInfoV {
        WorktreeInfoV {
            name: self.name@,
            path: self.path@,
            tracked_branch: self.tracked_branch.deep_view(),
            dirty: self.dirty,
            unpushed: self.unpushed,
        }
    }
}

/// A worktree is safe to remove iff it has no uncommitted modifications and
/// no commit absent from every configured remote tracking branch: nothing
/// would be lost.
pub open spec fn spec_safe(w: WorktreeInfoV) -> bool {
    !w.dirty && !w.unpushed
}

/// The no-data-loss safety check, as [`spec_safe`] states it.
pub fn is_safe(w: &WorktreeInfo) -> (r: bool)
    ensures
        r == spec_safe(w.deep_view()),
{
    !w.dirty && !w.unpushed
}

/// What a delete request decides.
#[derive(Clone, Copy, PartialEq, Eq, Debug, Structural)]
pub enum DeleteDecision {
    /// Remove the worktree.
    Remove,
    /// Refuse: removing it could lose work, and force was not given.
    Refuse,
}

/// Law and decision in one: a worktree is removed iff it is safe or the
/// caller forces it; a refusal performs no mutation at all. `force`
/// bypasses both halves of the safety check.
pub fn decide_delete(w: &WorktreeInfo, force: bool) -> (d: DeleteDecision)
    ensures
        d == DeleteDecision::Remove <==> (force || spec_safe(w.deep_view())),
        !force && (w.dirty || w.unpushed) ==> d == DeleteDecision::Refuse,
{
    if force || is_safe(w) {
        DeleteDecision::Remove
    } else {
        DeleteDecision::Refuse
    }
}

/// The names of the worktrees a clean pass deletes: exactly the safe ones,
/// in discovery order.
pub open spec fn spec_clean_deletes(ws: Seq<WorktreeInfoV>) -> Seq<Seq<char>>
    decreases ws.len(),
{
    if ws.len() == 0 {
        Seq::empty()
    } else {
        spec_clean_deletes(ws.drop_last()) + (if spec_safe(ws.last()) {
            seq![ws.last().name]
        } else {
            Seq::empty()
        })
    }
}

/// The names a clean pass skips and reports: exactly the unsafe ones.
pub open spec fn spec_clean_skipped(ws: Seq<WorktreeInfoV>) -> Seq<Seq<char>>
    decreases ws.len(),
{
    if ws.len() == 0 {
        Seq::empty()
    } else {
        spec_clean_skipped(ws.drop_last()) + (if spec_safe(ws.last()) {
            Seq::empty()
        } else {
            seq![ws.last().name]
        })
    }
}

/// Splits the existing worktrees of a clean pass into those whose safety
/// check passes — to be deleted — and those it skips and reports; an unsafe
/// worktree is never force-deleted by a clean.
pub fn plan_clean(ws: &Vec<WorktreeInfo>) -> (r: (Vec<String>, Vec<String>))
    ensures
        r.0.deep_view() == spec_clean_deletes(ws.deep_view()),
        r.1.deep_view() == spec_clean_skipped(ws.deep_view()),
{
    let ghost wv = ws.deep_view();
    let mut del: Vec<String> = Vec::new();
    let mut skipped: Vec<String> = Vec::new();
    proof {
        assert(del.deep_view() =~= spec_clean_deletes(wv.take(0)));
        assert(skipped.deep_view() =~= spec_clean_skipped(wv.take(0)));
    }
    let mut i: usize = 0;
    while i < ws.len()
        invariant
            i <= ws.len(),
            wv == ws.deep_view(),
            del.deep_view() == spec_clean_deletes(wv.take(i as int)),
            skipped.deep_view() == spec_clean_skipped(wv.take(i as int)),
        decreases ws.len() - i,
    {
        proof {
            assert(wv.take(i + 1).drop_last() =~= wv.take(i as int));
            assert(wv.take(i + 1).last() == wv[i as int]);
        }
        if is_safe(&ws[i]) {
            del.push(ws[i].name.clone());
        } else {
            skipped.push(ws[i].name.clone());
        }
        proof {
            assert(del.deep_view() =~= spec_clean_deletes(wv.take(i + 1)));
            assert(skipped.deep_view() =~= spec_clean_skipped(wv.take(i + 1)));
        }
        i += 1;
    }
    proof {
        assert(wv.take(ws.len() as int) =~= wv);
    }
    (del, skipped)
}

/// Whether some existing worktree carries `name`.
pub open spec fn worktree_list_has(ws: Seq<WorktreeInfoV>, name: Seq<char>) -> bool
    decreases ws.len(),
{
    if ws.len() == 0 {
        false
    } else if ws.last().name == name {
        true
    } else {
        worktree_list_has(ws.drop_last(), name)
    }
}

/// Why adding a worktree was refused.
#[derive(Clone, Copy, PartialEq, Eq, Debug, Structural)]
pub enum AddError {
    /// A worktree of that name already exists.
    AlreadyExists,
}

/// The creation order for a new worktree: its name and the branch it is to
/// track, if any.
#[derive(Debug, PartialEq, Eq)]
pub struct AddPlan {
    pub name: String,
    pub track: Option<String>,
}

/// Mathematical image of an [`AddPlan`].
pub struct AddPlanV {
    pub name: Seq<char>,
    pub track: Option<Seq<char>>,
}

impl DeepView for AddPlan {
    type V = AddPlanV;

    open spec fn deep_view(&self) -> AddPlanV {
        AddPlanV { name: self.name@, track: self.track.deep_view() }
    }
}

/// The tracking branch a new worktree gets: none when tracking is disabled,
/// the explicitly requested branch when one is given, and otherwise the
/// same-named remote branch as the worktree itself.
pub open spec fn spec_track_choice(
    name: Seq<char>,
    track: Option<Seq<char>>,
    no_track: bool,
) -> Option<Seq<char>> {
    if no_track {
        None
    } else {
        match track {
            Some(t) => Some(t),
            None => Some(name),
        }
    }
}

/// Plans the creation of a named worktree: refused iff the name is already
/// taken; otherwise the tracking branch follows [`spec_track_choice`].
pub fn plan_add(
    existing: &Vec<WorktreeInfo>,
    name: &String,
    track: &Option<String>,
    no_track: bool,
) -> (r: Result<AddPlan, AddError>)
    ensures
        r is Err <==> worktree_list_has(existing.deep_view(), name@),
        match r {
            Ok(p) => p.deep_view().name == name@ && p.deep_view().track == spec_track_choice(
                name@,
                track.deep_view(),
                no_track,
            ),
            Err(e) => e == AddError::AlreadyExists,
        },
{
    let mut found: bool = false;
    let mut i: usize = 0;
    while i < existing.len()
        invariant
            i <= existing.len(),
            found == worktree_list_has(existing.deep_view().take(i as int), name@),
        decreases existing.len() - i,
    {
        proof {
            assert(existing.deep_view().take(i + 1).drop_last() =~= existing.deep_view().take(
                i as int,
            ));
            assert(existing.deep_view().take(i + 1).last() == existing.deep_view()[i as int]);
        }
        if existing[i].name == *name {
            found = true;
        }
        i += 1;
    }
    proof {
        assert(existing.deep_view().take(existing.len() as int) =~= existing.deep_view());
    }
    if found {
        return Err(AddError::AlreadyExists);
    }
    let chosen: Option<String> = if no_track {
        None
    } else {
        match track {
            Some(t) => Some(t.clone()),
            None => Some(name.clone()),
        }
    };
    Ok(AddPlan { name: name.clone(), track: chosen })
}

/// The layout of the enclosing repository.
#[derive(Clone, Copy, PartialEq, Eq, Debug, Structural)]
pub enum RepoLayout {
    /// An ordinary checkout without the worktree layout.
    Plain,
    /// Already restructured for named worktrees.
    WorktreeEnabled,
}

/// What a conversion request does.
#[derive(Clone, Copy, PartialEq, Eq, Debug, Structural)]
pub enum ConvertAction {
    /// Restructure the plain repository into the worktree layout.
    Restructure,
    /// Nothing: conversion is idempotent, an already-converted repository
    /// is a no-op success.
    AlreadyConverted,
}

/// Decides a conversion: restructure a plain repository, succeed without
/// effect on one already converted.
pub fn plan_convert(layout: RepoLayout) -> (a: ConvertAction)
    ensures
        a == ConvertAction::Restructure <==> layout == RepoLayout::Plain,
{
    match layout {
        RepoLayout::Plain => ConvertAction::Restructure,
        RepoLayout::WorktreeEnabled => ConvertAction::AlreadyConverted,
    }
}

/// One step of a pull or rebase plan, to be performed in order.
#[derive(Clone, Copy, PartialEq, Eq, Debug, Structural)]
pub enum WtStep {
    /// Update remote-tracking refs for all configured remotes, touching no
    /// working tree and no local branch.
    Fetch,
    /// Shelve the uncommitted changes of the working tree.
    StashSave,
    /// Integrate the upstream tracking branch into the current branch, by
    /// fast-forward or merge when `rebase` is false, by rebase otherwise.
    Integrate { rebase: bool },
    /// Rebase the current branch onto the tree's default branch.
    RebaseOntoDefault,
    /// Restore the shelved changes.
    StashPop,
}

/// Wraps an operation in the stash-wrap protocol when asked to and the
/// working tree is dirty; a clean tree needs no shelving and skips straight
/// to the operation.
pub open spec fn spec_wrapped(use_stash: bool, inner: Seq<WtStep>) -> Seq<WtStep> {
    if use_stash {
        seq![WtStep::StashSave] + inner + seq![WtStep::StashPop]
    } else {
        inner
    }
}

/// The steps of a pull: a fetch, then the integration, stash-wrapped when
/// `stash` is set and the working tree is dirty.
pub open spec fn spec_pull_steps(rebase: bool, stash: bool, dirty: bool) -> Seq<WtStep> {
    seq![WtStep::Fetch] + spec_wrapped(stash && dirty, seq![WtStep::Integrate { rebase }])
}

/// The steps of a rebase command: an optional leading pull, then the rebase
/// onto the default branch, itself stash-wrapped when `stash` is set and
/// the working tree is dirty.
pub open spec fn spec_rebase_steps(
    pull: bool,
    rebase_on_pull: bool,
    stash: bool,
    dirty: bool,
) -> Seq<WtStep> {
    (if pull {
        spec_pull_steps(rebase_on_pull, stash, dirty)
    } else {
        Seq::empty()
    }) + spec_wrapped(stash && dirty, seq![WtStep::RebaseOntoDefault])
}

/// Plans a pull, as [`spec_pull_steps`] states it.
pub fn plan_pull(rebase: bool, stash: bool, dirty: bool) -> (steps: Vec<WtStep>)
    ensures
        steps@ == spec_pull_steps(rebase, stash, dirty),
{
    let mut steps: Vec<WtStep> = Vec::new();
    steps.push(WtStep::Fetch);
    if stash && dirty {
        steps.push(WtStep::StashSave);
    }
    steps.push(WtStep::Integrate { rebase });
    if stash && dirty {
        steps.push(WtStep::StashPop);
    }
    proof {
        assert(steps@ =~= spec_pull_steps(rebase, stash, dirty));
    }
    steps
}

/// Plans a rebase command, as [`spec_rebase_steps`] states it.
pub fn plan_rebase(pull: bool, rebase_on_pull: bool, stash: bool, dirty: bool) -> (steps: Vec<
    WtStep,
>)
    ensures
        steps@ == spec_rebase_steps(pull, rebase_on_pull, stash, dirty),
{
    let mut steps: Vec<WtStep> = Vec::new();
    if pull {
        steps.push(WtStep::Fetch);
        if stash && dirty {
            steps.push(WtStep::StashSave);
        }
        steps.push(WtStep::Integrate { rebase: rebase_on_pull });
        if stash && dirty {
            steps.push(WtStep::StashPop);
        }
    }
    if stash && dirty {
        steps.push(WtStep::StashSave);
    }
    steps.push(WtStep::RebaseOntoDefault);
    if stash && dirty {
        steps.push(WtStep::StashPop);
    }
    proof {
        assert(steps@ =~= spec_rebase_steps(pull, rebase_on_pull, stash, dirty));
    }
    steps
}

/// How the single stash handle of a wrapped operation ended.
#[derive(Debug, PartialEq, Eq)]
pub enum StashResolution {
    /// No changes were present, so nothing was shelved.
    NoneHeld,
    /// The shelved changes were restored, byte for byte what was saved.
    Restored { content: String },
    /// Restoring failed; the stash is deliberately kept for manual
    /// recovery, never discarded.
    Preserved { content: String },
}

/// Mathematical image of a [`StashResolution`].
pub enum StashResolutionV {
    NoneHeld,
    Restored { content: Seq<char> },
    Preserved { content: Seq<char> },
}

impl DeepView for StashResolution {
    type V = StashResolutionV;

    open spec fn deep_view(&self) -> StashResolutionV {
        match self {
            StashResolution::NoneHeld => StashResolutionV::NoneHeld,
            StashResolution::Restored { content } => StashResolutionV::Restored {
                content: content@,
            },
            StashResolution::Preserved { content } => StashResolutionV::Preserved {
                content: content@,
            },
        }
    }
}

/// What resolving the stash handle after the wrapped operation must yield,
/// given what was saved and whether the operation and the restore worked.
pub open spec fn spec_stash_resolution(
    saved: Option<Seq<char>>,
    pop_ok: bool,
) -> StashResolutionV {
    match saved {
        None => StashResolutionV::NoneHeld,
        Some(c) => if pop_ok {
            StashResolutionV::Restored { content: c }
        } else {
            StashResolutionV::Preserved { content: c }
        },
    }
}

/// Resolves the stash handle held across a wrapped operation. The restore
/// is attempted on success and failure of the operation alike; the whole
/// operation only reports success when the operation itself succeeded and
/// any held stash was restored. A failed restore preserves the stash.
pub fn resolve_stash(saved: Option<String>, op_ok: bool, pop_ok: bool) -> (r: (
    bool,
    StashResolution,
))
    ensures
        r.1.deep_view() == spec_stash_resolution(saved.deep_view(), pop_ok),
        r.0 == (op_ok && (saved is None || pop_ok)),
{
    match saved {
        None => (op_ok, StashResolution::NoneHeld),
        Some(c) => {
            if pop_ok {
                (op_ok, StashResolution::Restored { content: c })
            } else {
                (false, StashResolution::Preserved { content: c })
            }
        },
    }
}

/// Law: stash-wrap preserves user changes. Whatever was shelved comes back
/// exactly when the restore succeeds — independently of whether the wrapped
/// operation succeeded — and when the restore fails the very same content
/// is preserved for manual recovery, never discarded; a handle, once
/// created, is resolved exactly one way.
pub proof fn lemma_stash_wrap_preservation(content: Seq<char>, pop_ok: bool)
    ensures
        pop_ok ==> spec_stash_resolution(Some(content), pop_ok) == (StashResolutionV::Restored {
            content,
        }),
        !pop_ok ==> spec_stash_resolution(Some(content), pop_ok) == (StashResolutionV::Preserved {
            content,
        }),
        spec_stash_resolution(Some(content), pop_ok) != StashResolutionV::NoneHeld,
{
}

/// Whether some safe worktree of the batch carries `n` as its name.
pub open spec fn names_a_safe_worktree(ws: Seq<WorktreeInfoV>, n: Seq<char>) -> bool {
    exists|i: int| 0 <= i < ws.len() && (#[trigger] ws[i]).name == n && spec_safe(ws[i])
}

/// Law: the delete safety gate loses nothing. Without force, a dirty or
/// unpushed worktree is refused — and a clean pass, which never forces,
/// deletes only names of safe worktrees.
pub proof fn lemma_clean_only_safe(ws: Seq<WorktreeInfoV>)
    ensures
        forall|k: int|
            0 <= k < spec_clean_deletes(ws).len() ==> names_a_safe_worktree(
                ws,
                #[trigger] spec_clean_deletes(ws)[k],
            ),
    decreases ws.len(),
{
    if ws.len() > 0 {
        lemma_clean_only_safe(ws.drop_last());
        let prev = spec_clean_deletes(ws.drop_last());
        assert forall|k: int|
            0 <= k < spec_clean_deletes(ws).len() implies names_a_safe_worktree(
            ws,
            #[trigger] spec_clean_deletes(ws)[k],
        ) by {
            if k < prev.len() {
                assert(spec_clean_deletes(ws.drop_last())[k] == prev[k]);
                assert(names_a_safe_worktree(ws.drop_last(), prev[k]));
                let i = choose|i: int|
                    0 <= i < ws.drop_last().len() && (#[trigger] ws.drop_last()[i]).name == prev[k]
                        && spec_safe(ws.drop_last()[i]);
                assert(ws[i] == ws.drop_last()[i]);
                assert(spec_clean_deletes(ws)[k] == prev[k]);
            } else {
                let i = ws.len() - 1;
                assert(spec_safe(ws.last()));
                assert(spec_clean_deletes(ws)[k] == ws.last().name);
                assert(ws[i] == ws.last());
            }
        }
    }
}

} // verus!
